use vstd::prelude::*;
use crate::node_api_types::HTTPOptions;
use crate::text::{push_all, push_str, signed_decimal, signed_decimal_chars, string_of};
use crate::types::NETConnection;

verus! {

/// The address an http request goes to: `https://<hostname>:<port><path>`.
pub fn http_request_url(options: &HTTPOptions) -> (r: String)
    ensures
        r@ == "https://"@ + options.hostname@ + ":"@ + signed_decimal(options.port as int) + options.path@,
{
    let mut v: Vec<char> = Vec::new();
    push_str(&mut v, "https://");
    push_str(&mut v, options.hostname.as_str());
    push_str(&mut v, ":");
    let d = signed_decimal_chars(options.port as i64);
    push_all(&mut v, &d);
    push_str(&mut v, options.path.as_str());
    string_of(&v)
}

/// Cuts `data` for a read buffer with `remaining` free bytes: what fits is written now,
/// the rest (if any) is kept for the next read. Nothing is lost or reordered.
pub fn split_for_buffer(data: &Vec<u8>, remaining: usize) -> (r: (Vec<u8>, Option<Vec<u8>>))
    ensures
        data@.len() <= remaining ==> r.0@ == data@ && r.1 is None,
        data@.len() > remaining ==> r.0@ == data@.take(remaining as int) && r.1 is Some
            && r.1.unwrap()@ == data@.skip(remaining as int),
        r.0@.len() <= remaining,
        r.0@ + match r.1 {
            Some(k) => k@,
            None => Seq::<u8>::empty(),
        } == data@,
{
    let n = if data.len() <= remaining { data.len() } else { remaining };
    let mut now: Vec<u8> = Vec::new();
    let mut i: usize = 0;
    while i < n
        invariant
            n <= data.len(),
            i <= n,
            now@ == data@.take(i as int),
        decreases n - i,
    {
        now.push(data[i]);
        i = i + 1;
        assert(data@.take(i as int) =~= data@.take(i - 1).push(data@[i - 1]));
    }
    if data.len() <= remaining {
        assert(data@.take(n as int) =~= data@);
        assert(now@ + Seq::<u8>::empty() =~= data@);
        (now, None)
    } else {
        let mut rest: Vec<u8> = Vec::new();
        let mut j: usize = n;
        while j < data.len()
            invariant
                n <= j <= data.len(),
                rest@ == data@.subrange(n as int, j as int),
            decreases data.len() - j,
        {
            rest.push(data[j]);
            j = j + 1;
            assert(data@.subrange(n as int, j as int) =~= data@.subrange(n as int, j - 1).push(data@[j - 1]));
        }
        assert(data@.subrange(n as int, data.len() as int) =~= data@.skip(n as int));
        assert(now@ + rest@ =~= data@);
        (now, Some(rest))
    }
}

/// `data` cut for a buffer with `remaining` free bytes: `now` is what fits, at most
/// `remaining` bytes from the front, and `kept` the rest, if any.
pub open spec fn fits_buffer(data: Seq<u8>, remaining: usize, now: Seq<u8>, kept: Option<Vec<u8>>) -> bool {
    if data.len() <= remaining {
        now == data && kept is None
    } else {
        now == data.take(remaining as int) && kept is Some && kept.unwrap()@ == data.skip(remaining as int)
    }
}

/// The state of a response body that is streamed from the backend: whether the last
/// chunk has come, and what is left of a chunk that did not fit the reader's buffer.
pub struct BodyStreamState {
    pub ended: bool,
    pub buffer: Option<Vec<u8>>,
}

/// The outcome of a read of the body.
pub enum BodyRead {
    /// Bytes delivered (none at the end of the body).
    Ready(Vec<u8>),
    /// Nothing yet: wait for the backend.
    Pending,
}

/// A read served from what is already there: the kept rest of a chunk first, an empty
/// read once the body has ended; `None` when a new message is needed.
pub fn body_stream_poll(state: &mut BodyStreamState, remaining: usize) -> (r: Option<BodyRead>)
    ensures
        match old(state).buffer {
            Some(b) => match r {
                Some(BodyRead::Ready(w)) => final(state).ended == old(state).ended
                    && fits_buffer(b@, remaining, w@, final(state).buffer),
                _ => false,
            },
            None => if old(state).ended {
                r matches Some(BodyRead::Ready(w)) && w@.len() == 0 && *final(state) == *old(state)
            } else {
                r is None && *final(state) == *old(state)
            },
        },
{
    match &state.buffer {
        Some(b) => {
            let (now, rest) = split_for_buffer(b, remaining);
            state.buffer = rest;
            Some(BodyRead::Ready(now))
        },
        None => if state.ended {
            Some(BodyRead::Ready(Vec::new()))
        } else {
            None
        },
    }
}

/// A read served from a message of the backend: a write delivers what fits, keeps the
/// rest, and ends the body when it is the last; any other message delivers nothing.
pub fn body_stream_receive(state: &mut BodyStreamState, remaining: usize, msg: NETConnection) -> (r: BodyRead)
    ensures
        match msg {
            NETConnection::Write { data, end } => match r {
                BodyRead::Ready(w) => final(state).ended == end && fits_buffer(data@, remaining, w@, final(state).buffer),
                BodyRead::Pending => false,
            },
            _ => r is Pending && *final(state) == *old(state),
        },
{
    match msg {
        NETConnection::Write { data, end } => {
            let (now, rest) = split_for_buffer(&data, remaining);
            state.buffer = rest;
            state.ended = end;
            BodyRead::Ready(now)
        },
        _ => BodyRead::Pending,
    }
}

} // verus!
