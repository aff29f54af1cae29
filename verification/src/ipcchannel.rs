use vstd::prelude::*;
use std::sync::mpsc::Sender;
use std::time::{Duration, SystemTime};

verus! {

/// `std::sync::mpsc::Sender`, carried through as it is.
#[verifier::external_type_specification]
#[verifier::external_body]
#[verifier::reject_recursive_types(T)]
pub struct ExSender<T>(Sender<T>);

/// `std::time::SystemTime`, carried through as it is.
#[verifier::external_type_specification]
#[verifier::external_body]
pub struct ExSystemTime(SystemTime);

/// A message on an ipc channel.
pub enum IPCMsg {
    Called,
    Response { params: String },
}

/// A pending ipc request: its key, where its answer goes, and when it started.
struct ChannelEntry {
    key: String,
    sender: Sender<IPCMsg>,
    started: SystemTime,
}

/// The pending ipc requests, each under its own key.
pub struct IPCChannel {
    entries: Vec<ChannelEntry>,
}

/// `SystemTime::now`. Trusted for nothing: the value depends on the clock.
#[verifier::external_body]
fn now() -> SystemTime {
    SystemTime::now()
}

/// `SystemTime::elapsed`, `None` on its error (the clock went backwards). Nothing is
/// stated of the value: it depends on the clock.
#[verifier::external_body]
fn elapsed(t: &SystemTime) -> Option<Duration> {
    match t.elapsed() {
        Ok(d) => Some(d),
        Err(_) => None,
    }
}

/// `Duration::as_secs`, the whole seconds of a duration. Nothing is stated of the value:
/// a duration is opaque here.
#[verifier::external_body]
fn whole_secs(d: &Duration) -> u64 {
    d.as_secs()
}

/// The age of a request in whole seconds, `None` when the clock could not say.
fn elapsed_secs(t: &SystemTime) -> Option<u64> {
    match elapsed(t) {
        Some(d) => Some(whole_secs(&d)),
        None => None,
    }
}

/// The number of seconds after which a pending request is dropped.
pub const IPC_TIMEOUT_SECS: u64 = 600;

/// A reading of a request's age expires it: the reading came back and is over the
/// timeout. A failed reading keeps the request.
pub open spec fn expired(age: Option<u64>) -> bool {
    match age {
        Some(s) => s > IPC_TIMEOUT_SECS,
        None => false,
    }
}

/// Whether a request whose age reading is `elapsed` has expired.
pub fn timed_out(elapsed: Option<u64>) -> (r: bool)
    ensures
        r == expired(elapsed),
{
    match elapsed {
        Some(s) => s > IPC_TIMEOUT_SECS,
        None => false,
    }
}

/// The keys that a list of age readings keeps: those whose reading, at the same position,
/// does not expire them.
pub open spec fn kept_keys(keys: Seq<Seq<char>>, ages: Seq<Option<u64>>) -> Set<Seq<char>> {
    Set::new(|k: Seq<char>| exists|i: int| 0 <= i < keys.len() && keys[i] == k && !expired(ages[i]))
}

/// The entries among the first `i` whose reading does not expire them, in order.
spec fn kept_prefix(orig: Seq<ChannelEntry>, ages: Seq<Option<u64>>, i: int) -> Seq<ChannelEntry>
    decreases i,
{
    if i <= 0 {
        Seq::empty()
    } else if expired(ages[i - 1]) {
        kept_prefix(orig, ages, i - 1)
    } else {
        kept_prefix(orig, ages, i - 1).push(orig[i - 1])
    }
}

proof fn lemma_kept_prefix_from(orig: Seq<ChannelEntry>, ages: Seq<Option<u64>>, i: int)
    requires
        0 <= i <= orig.len(),
    ensures
        forall|a: int| 0 <= a < kept_prefix(orig, ages, i).len() ==> exists|j: int|
            0 <= j < i && !expired(ages[j]) && #[trigger] kept_prefix(orig, ages, i)[a] == orig[j],
    decreases i,
{
    if i > 0 {
        lemma_kept_prefix_from(orig, ages, i - 1);
        let prev = kept_prefix(orig, ages, i - 1);
        let cur = kept_prefix(orig, ages, i);
        assert forall|a: int| 0 <= a < cur.len() implies exists|j: int|
            0 <= j < i && !expired(ages[j]) && #[trigger] cur[a] == orig[j] by {
            if a < prev.len() {
                assert(cur[a] == prev[a]);
                let j = choose|j: int| 0 <= j < i - 1 && !expired(ages[j]) && prev[a] == orig[j];
                assert(cur[a] == orig[j]);
            } else {
                assert(cur[a] == orig[i - 1]);
            }
        }
    }
}

proof fn lemma_kept_prefix_keeps(orig: Seq<ChannelEntry>, ages: Seq<Option<u64>>, i: int)
    requires
        0 <= i <= orig.len(),
    ensures
        forall|j: int| 0 <= j < i && !expired(ages[j]) ==> exists|a: int|
            0 <= a < kept_prefix(orig, ages, i).len() && kept_prefix(orig, ages, i)[a] == #[trigger] orig[j],
    decreases i,
{
    if i > 0 {
        lemma_kept_prefix_keeps(orig, ages, i - 1);
        let prev = kept_prefix(orig, ages, i - 1);
        let cur = kept_prefix(orig, ages, i);
        assert forall|j: int| 0 <= j < i && !expired(ages[j]) implies exists|a: int|
            0 <= a < cur.len() && cur[a] == #[trigger] orig[j] by {
            if j < i - 1 {
                let a = choose|a: int| 0 <= a < prev.len() && prev[a] == orig[j];
                assert(cur[a] == prev[a]);
            } else {
                assert(cur[prev.len() as int] == orig[j]);
            }
        }
    }
}

proof fn lemma_kept_prefix_unique(orig: Seq<ChannelEntry>, ages: Seq<Option<u64>>, i: int)
    requires
        0 <= i <= orig.len(),
        forall|a: int, b: int| 0 <= a < b < orig.len() ==> #[trigger] orig[a].key@ != #[trigger] orig[b].key@,
    ensures
        forall|a: int, b: int| 0 <= a < b < kept_prefix(orig, ages, i).len() ==>
            #[trigger] kept_prefix(orig, ages, i)[a].key@ != #[trigger] kept_prefix(orig, ages, i)[b].key@,
    decreases i,
{
    if i > 0 {
        lemma_kept_prefix_unique(orig, ages, i - 1);
        lemma_kept_prefix_from(orig, ages, i - 1);
        let prev = kept_prefix(orig, ages, i - 1);
        let cur = kept_prefix(orig, ages, i);
        if !expired(ages[i - 1]) {
            assert forall|a: int, b: int| 0 <= a < b < cur.len() implies
                #[trigger] cur[a].key@ != #[trigger] cur[b].key@ by {
                assert(cur[a] == prev[a]);
                if b < prev.len() {
                    assert(cur[b] == prev[b]);
                } else {
                    let ja = choose|j: int| 0 <= j < i - 1 && !expired(ages[j]) && prev[a] == orig[j];
                    assert(cur[b] == orig[i - 1]);
                    assert(orig[ja].key@ != orig[i - 1].key@);
                }
            }
        }
    }
}

impl IPCChannel {
    /// Keys are unique.
    pub closed spec fn wf(&self) -> bool {
        forall|i: int, j: int|
            0 <= i < j < self.entries@.len() ==> #[trigger] self.entries@[i].key@ != #[trigger] self.entries@[j].key@
    }

    /// The keys of the pending requests, oldest registration first.
    pub closed spec fn keys(&self) -> Seq<Seq<char>> {
        self.entries@.map_values(|e: ChannelEntry| e.key@)
    }

    /// The pending requests: key to the sender of its answer.
    pub closed spec fn view(&self) -> Map<Seq<char>, Sender<IPCMsg>> {
        Map::new(
            |k: Seq<char>| exists|i: int| 0 <= i < self.entries@.len() && self.entries@[i].key@ == k,
            |k: Seq<char>| self.entries@[choose|i: int| 0 <= i < self.entries@.len() && self.entries@[i].key@ == k].sender,
        )
    }

    /// The pending requests: key to the time it was registered.
    pub closed spec fn started(&self) -> Map<Seq<char>, SystemTime> {
        Map::new(
            |k: Seq<char>| exists|i: int| 0 <= i < self.entries@.len() && self.entries@[i].key@ == k,
            |k: Seq<char>| self.entries@[choose|i: int| 0 <= i < self.entries@.len() && self.entries@[i].key@ == k].started,
        )
    }

    proof fn lemma_view_at(&self, i: int)
        requires
            self.wf(),
            0 <= i < self.entries@.len(),
        ensures
            self.view().contains_key(self.entries@[i].key@),
            self.view()[self.entries@[i].key@] == self.entries@[i].sender,
            self.started().contains_key(self.entries@[i].key@),
            self.started()[self.entries@[i].key@] == self.entries@[i].started,
    {
        let k = self.entries@[i].key@;
        assert(exists|j: int| 0 <= j < self.entries@.len() && self.entries@[j].key@ == k);
        let j = choose|j: int| 0 <= j < self.entries@.len() && self.entries@[j].key@ == k;
        if j != i {
            if j < i {
                assert(self.entries@[j].key@ != self.entries@[i].key@);
            } else {
                assert(self.entries@[i].key@ != self.entries@[j].key@);
            }
        }
    }

    /// Every pending request has a registration time, and every registration time belongs
    /// to a pending request.
    pub proof fn law_every_request_has_start_time(&self)
        ensures
            self.started().dom() == self.view().dom(),
    {
        assert(self.started().dom() =~= self.view().dom());
    }

    /// No pending requests.
    pub fn new() -> (r: IPCChannel)
        ensures
            r.wf(),
            r.view() == Map::<Seq<char>, Sender<IPCMsg>>::empty(),
            r.started() == Map::<Seq<char>, SystemTime>::empty(),
            r.keys() == Seq::<Seq<char>>::empty(),
    {
        let r = IPCChannel { entries: Vec::new() };
        assert(r.view() =~= Map::<Seq<char>, Sender<IPCMsg>>::empty());
        assert(r.started() =~= Map::<Seq<char>, SystemTime>::empty());
        assert(r.keys() =~= Seq::<Seq<char>>::empty());
        r
    }

    fn index_of(&self, k: &String) -> (r: Option<usize>)
        requires
            self.wf(),
        ensures
            match r {
                Some(i) => i < self.entries@.len() && self.entries@[i as int].key@ == k@,
                None => !self.view().contains_key(k@),
            },
    {
        let kc = crate::text::chars_of(k.as_str());
        let mut i: usize = 0;
        while i < self.entries.len()
            invariant
                i <= self.entries@.len(),
                kc@ == k@,
                forall|j: int| 0 <= j < i ==> self.entries@[j].key@ != k@,
            decreases self.entries.len() - i,
        {
            let ec = crate::text::chars_of(self.entries[i].key.as_str());
            if crate::text::chars_eq(&ec, &kc) {
                return Some(i);
            }
            i = i + 1;
        }
        None
    }

    fn remove_at(&mut self, i: usize)
        requires
            old(self).wf(),
            i < old(self).entries@.len(),
        ensures
            final(self).wf(),
            final(self).view() == old(self).view().remove(old(self).entries@[i as int].key@),
            final(self).started() == old(self).started().remove(old(self).entries@[i as int].key@),
            final(self).entries@.len() == old(self).entries@.len() - 1,
    {
        let ghost before = self.entries@;
        let ghost k = before[i as int].key@;
        self.entries.remove(i);
        let ghost after = self.entries@;
        assert(forall|j: int| 0 <= j < i ==> after[j] == before[j]);
        assert(forall|j: int| i <= j < after.len() ==> after[j] == before[j + 1]);
        assert forall|a: int, b: int| 0 <= a < b < after.len() implies #[trigger] after[a].key@ != #[trigger] after[b].key@ by {
            let a2 = if a < i { a } else { a + 1 };
            let b2 = if b < i { b } else { b + 1 };
            assert(after[a] == before[a2]);
            assert(after[b] == before[b2]);
            assert(before[a2].key@ != before[b2].key@);
        }
        assert forall|key: Seq<char>| #[trigger] self.view().contains_key(key) == old(self).view().remove(k).contains_key(key) by {
            if self.view().contains_key(key) {
                let j = choose|j: int| 0 <= j < after.len() && after[j].key@ == key;
                let j2 = if j < i { j } else { j + 1 };
                assert(before[j2].key@ == key);
                assert(j2 != i as int);
                assert(before[j2].key@ != before[i as int].key@) by {
                    if j2 < i { } else { }
                }
            }
            if old(self).view().remove(k).contains_key(key) {
                let j2 = choose|j: int| 0 <= j < before.len() && before[j].key@ == key;
                assert(j2 != i as int);
                let j = if j2 < i { j2 } else { j2 - 1 };
                assert(after[j].key@ == key);
            }
        }
        assert forall|key: Seq<char>| #[trigger] self.view().contains_key(key) implies self.view()[key] == old(self).view().remove(k)[key]
            && self.started()[key] == old(self).started().remove(k)[key] by {
            let j = choose|j: int| 0 <= j < after.len() && after[j].key@ == key;
            self.lemma_view_at(j);
            let j2 = if j < i { j } else { j + 1 };
            old(self).lemma_view_at(j2);
        }
        assert(self.view() =~= old(self).view().remove(k));
        assert(self.started() =~= old(self).started().remove(k));
    }

    /// The age reading of each pending request, in the order of `keys`. The readings depend
    /// on the clock: nothing is stated of their values.
    fn readings(&self) -> (r: Vec<Option<u64>>)
        ensures
            r@.len() == self.keys().len(),
    {
        let mut r: Vec<Option<u64>> = Vec::new();
        let mut i: usize = 0;
        while i < self.entries.len()
            invariant
                i <= self.entries@.len(),
                r@.len() == i,
            decreases self.entries.len() - i,
        {
            r.push(elapsed_secs(&self.entries[i].started));
            i = i + 1;
        }
        r
    }

    /// Drops the requests whose age reading expires them: `ages[i]` is the reading of the
    /// request at position `i` of `keys`. Every other request stays as it was, with its
    /// sender and its registration time.
    pub fn drop_expired(&mut self, ages: &Vec<Option<u64>>)
        requires
            old(self).wf(),
            ages@.len() == old(self).keys().len(),
        ensures
            final(self).wf(),
            final(self).view() == old(self).view().restrict(kept_keys(old(self).keys(), ages@)),
            final(self).started() == old(self).started().restrict(kept_keys(old(self).keys(), ages@)),
    {
        let ghost orig = self.entries@;
        let mut rest: Vec<ChannelEntry> = Vec::new();
        std::mem::swap(&mut rest, &mut self.entries);
        let n = rest.len();
        let mut i: usize = 0;
        assert(rest@.skip(0) =~= orig);
        assert(self.entries@ =~= kept_prefix(orig, ages@, 0));
        while i < n
            invariant
                n == orig.len(),
                i <= n,
                ages@.len() == n,
                rest@ == orig.skip(i as int),
                self.entries@ == kept_prefix(orig, ages@, i as int),
            decreases n - i,
        {
            let e = rest.remove(0);
            assert(e == orig[i as int]);
            assert(rest@ =~= orig.skip(i + 1));
            let gone = timed_out(ages[i]);
            if !gone {
                self.entries.push(e);
            }
            assert(self.entries@ =~= kept_prefix(orig, ages@, i + 1));
            i = i + 1;
        }
        proof {
            Self::lemma_dropped(*old(self), *self, ages@);
        }
    }

    proof fn lemma_dropped_has(old_c: IPCChannel, new_c: IPCChannel, ages: Seq<Option<u64>>, key: Seq<char>)
        requires
            old_c.wf(),
            ages.len() == old_c.entries@.len(),
            new_c.entries@ == kept_prefix(old_c.entries@, ages, old_c.entries@.len() as int),
        ensures
            new_c.view().contains_key(key) == (old_c.view().contains_key(key) && kept_keys(old_c.keys(), ages).contains(key)),
    {
        let orig = old_c.entries@;
        let n = orig.len() as int;
        let out = new_c.entries@;
        if new_c.view().contains_key(key) {
            lemma_kept_prefix_from(orig, ages, n);
            let a = choose|a: int| 0 <= a < out.len() && out[a].key@ == key;
            assert(out[a] == kept_prefix(orig, ages, n)[a]);
            let j = choose|j: int| 0 <= j < n && !expired(ages[j]) && kept_prefix(orig, ages, n)[a] == orig[j];
            assert(old_c.keys()[j] == orig[j].key@);
            assert(old_c.view().contains_key(key));
            assert(kept_keys(old_c.keys(), ages).contains(key));
        }
        if old_c.view().contains_key(key) && kept_keys(old_c.keys(), ages).contains(key) {
            lemma_kept_prefix_keeps(orig, ages, n);
            let j = choose|j: int| 0 <= j < old_c.keys().len() && old_c.keys()[j] == key && !expired(ages[j]);
            assert(old_c.keys()[j] == orig[j].key@);
            let a = choose|a: int| 0 <= a < out.len() && kept_prefix(orig, ages, n)[a] == orig[j];
            assert(out[a].key@ == key);
        }
    }

    proof fn lemma_dropped_at(old_c: IPCChannel, new_c: IPCChannel, ages: Seq<Option<u64>>, key: Seq<char>)
        requires
            old_c.wf(),
            new_c.wf(),
            ages.len() == old_c.entries@.len(),
            new_c.entries@ == kept_prefix(old_c.entries@, ages, old_c.entries@.len() as int),
            new_c.view().contains_key(key),
        ensures
            new_c.view()[key] == old_c.view()[key],
            new_c.started()[key] == old_c.started()[key],
    {
        let orig = old_c.entries@;
        let n = orig.len() as int;
        let out = new_c.entries@;
        lemma_kept_prefix_from(orig, ages, n);
        let a = choose|a: int| 0 <= a < out.len() && out[a].key@ == key;
        assert(out[a] == kept_prefix(orig, ages, n)[a]);
        let j = choose|j: int| 0 <= j < n && !expired(ages[j]) && kept_prefix(orig, ages, n)[a] == orig[j];
        new_c.lemma_view_at(a);
        old_c.lemma_view_at(j);
    }

    proof fn lemma_dropped(old_c: IPCChannel, new_c: IPCChannel, ages: Seq<Option<u64>>)
        requires
            old_c.wf(),
            ages.len() == old_c.entries@.len(),
            new_c.entries@ == kept_prefix(old_c.entries@, ages, old_c.entries@.len() as int),
        ensures
            new_c.wf(),
            new_c.view() == old_c.view().restrict(kept_keys(old_c.keys(), ages)),
            new_c.started() == old_c.started().restrict(kept_keys(old_c.keys(), ages)),
    {
        let keep = kept_keys(old_c.keys(), ages);
        lemma_kept_prefix_unique(old_c.entries@, ages, old_c.entries@.len() as int);
        assert(new_c.wf());
        assert forall|key: Seq<char>| #[trigger] new_c.view().contains_key(key)
            == old_c.view().restrict(keep).contains_key(key) by {
            Self::lemma_dropped_has(old_c, new_c, ages, key);
        }
        assert forall|key: Seq<char>| #[trigger] new_c.started().contains_key(key)
            == old_c.started().restrict(keep).contains_key(key) by {
            Self::lemma_dropped_has(old_c, new_c, ages, key);
        }
        assert forall|key: Seq<char>| #[trigger] new_c.view().contains_key(key) implies new_c.view()[key]
            == old_c.view().restrict(keep)[key] && new_c.started()[key] == old_c.started().restrict(keep)[key] by {
            Self::lemma_dropped_has(old_c, new_c, ages, key);
            Self::lemma_dropped_at(old_c, new_c, ages, key);
        }
        assert(new_c.view() =~= old_c.view().restrict(keep));
        assert(new_c.started() =~= old_c.started().restrict(keep));
    }

    /// A request whose age reading is at most the timeout (or could not be taken) survives
    /// `drop_expired` with those readings, keeping its sender and its registration time; so a
    /// request stays pending for at least the timeout after it was started, unless it ends.
    pub proof fn law_young_request_survives(&self, ages: Seq<Option<u64>>, i: int)
        requires
            self.wf(),
            ages.len() == self.keys().len(),
            0 <= i < self.keys().len(),
            !expired(ages[i]),
        ensures
            self.view().restrict(kept_keys(self.keys(), ages)).contains_key(self.keys()[i]),
            self.view().restrict(kept_keys(self.keys(), ages))[self.keys()[i]] == self.view()[self.keys()[i]],
            self.started().restrict(kept_keys(self.keys(), ages)).contains_key(self.keys()[i]),
            self.started().restrict(kept_keys(self.keys(), ages))[self.keys()[i]] == self.started()[self.keys()[i]],
    {
        self.lemma_view_at(i);
        assert(self.keys()[i] == self.entries@[i].key@);
        assert(kept_keys(self.keys(), ages).contains(self.keys()[i]));
    }

    /// Drops the requests that have waited longer than the timeout: each request's own
    /// registration time is read against the clock, and the readings decide as
    /// `drop_expired` says. The readings depend on the clock; what is stated is that some
    /// readings, one per pending request, decide it, and that the rest stays as it was.
    pub fn clean_timeout(&mut self)
        requires
            old(self).wf(),
        ensures
            final(self).wf(),
            exists|ages: Seq<Option<u64>>|
                ages.len() == old(self).keys().len()
                && final(self).view() == old(self).view().restrict(#[trigger] kept_keys(old(self).keys(), ages))
                && final(self).started() == old(self).started().restrict(kept_keys(old(self).keys(), ages)),
    {
        let ages = self.readings();
        self.drop_expired(&ages);
        assert(kept_keys(old(self).keys(), ages@) == kept_keys(old(self).keys(), ages@));
    }

    /// Registers a pending request under `k`, after dropping the expired ones as
    /// `clean_timeout` does. A request already under `k` is replaced; `k` gets a new
    /// registration time (the clock's, not stated here).
    pub fn start(&mut self, k: String, v: Sender<IPCMsg>)
        requires
            old(self).wf(),
        ensures
            final(self).wf(),
            final(self).view().contains_key(k@),
            final(self).view()[k@] == v,
            final(self).started().contains_key(k@),
            exists|ages: Seq<Option<u64>>|
                ages.len() == old(self).keys().len()
                && final(self).view() == old(self).view().restrict(#[trigger] kept_keys(old(self).keys(), ages)).insert(k@, v)
                && final(self).started().remove(k@) == old(self).started().restrict(kept_keys(old(self).keys(), ages)).remove(k@),
    {
        let ghost key = k@;
        let ages = self.readings();
        self.drop_expired(&ages);
        let ghost keep = kept_keys(old(self).keys(), ages@);
        let ghost cleaned_v = self.view();
        let ghost cleaned_s = self.started();
        match self.index_of(&k) {
            Some(i) => {
                self.remove_at(i);
            },
            None => {
                assert(self.view().remove(key) =~= self.view());
                assert(self.started().remove(key) =~= self.started()) by {
                    assert(self.started().dom() =~= self.view().dom());
                }
            },
        }
        let ghost mid = *self;
        assert(mid.view() == cleaned_v.remove(key));
        assert(mid.started() == cleaned_s.remove(key));
        assert(!mid.view().contains_key(key));
        let ghost before = self.entries@;
        let started = now();
        self.entries.push(ChannelEntry { key: k, sender: v, started });
        let ghost after = self.entries@;
        assert forall|a: int, b: int| 0 <= a < b < after.len() implies #[trigger] after[a].key@ != #[trigger] after[b].key@ by {
            assert(after[a] == before[a]);
            if b == before.len() {
                assert(mid.view().contains_key(before[a].key@)) by {
                    assert(exists|j: int| 0 <= j < before.len() && before[j].key@ == before[a].key@);
                }
            } else {
                assert(after[b] == before[b]);
            }
        }
        proof {
            self.lemma_view_at(before.len() as int);
        }
        assert forall|kk: Seq<char>| #[trigger] self.view().contains_key(kk) == mid.view().insert(key, v).contains_key(kk) by {
            if self.view().contains_key(kk) && kk != key {
                let j = choose|j: int| 0 <= j < after.len() && after[j].key@ == kk;
                assert(j != before.len());
                assert(after[j] == before[j]);
                assert(exists|m: int| 0 <= m < before.len() && before[m].key@ == kk);
            }
            if mid.view().contains_key(kk) {
                let j = choose|j: int| 0 <= j < before.len() && before[j].key@ == kk;
                assert(after[j] == before[j]);
                assert(exists|m: int| 0 <= m < after.len() && after[m].key@ == kk);
            }
        }
        assert forall|kk: Seq<char>| #[trigger] self.view().contains_key(kk) && kk != key implies self.view()[kk]
            == mid.view()[kk] && self.started()[kk] == mid.started()[kk] by {
            let j = choose|j: int| 0 <= j < after.len() && after[j].key@ == kk;
            assert(j != before.len());
            assert(after[j] == before[j]);
            self.lemma_view_at(j);
            mid.lemma_view_at(j);
        }
        assert(self.view() =~= mid.view().insert(key, v));
        assert(self.started().remove(key) =~= mid.started().remove(key));
        assert(self.view() == cleaned_v.remove(key).insert(key, v));
        assert(cleaned_v.remove(key).insert(key, v) =~= cleaned_v.insert(key, v));
        assert(mid.started().remove(key) =~= cleaned_s.remove(key));
        assert(kept_keys(old(self).keys(), ages@) == keep);
    }

    /// The sender of the request under `k`, if one is pending.
    pub fn get(&mut self, k: &String) -> (r: Option<&Sender<IPCMsg>>)
        requires
            old(self).wf(),
        ensures
            *final(self) == *old(self),
            match r {
                Some(s) => old(self).view().contains_key(k@) && *s == old(self).view()[k@],
                None => !old(self).view().contains_key(k@),
            },
    {
        match self.index_of(k) {
            Some(i) => {
                proof {
                    self.lemma_view_at(i as int);
                }
                Some(&self.entries[i].sender)
            },
            None => None,
        }
    }

    /// Forgets the request under `k`.
    pub fn end(&mut self, k: &String)
        requires
            old(self).wf(),
        ensures
            final(self).wf(),
            final(self).view() == old(self).view().remove(k@),
    {
        match self.index_of(k) {
            Some(i) => {
                self.remove_at(i);
            },
            None => {
                assert(self.view().remove(k@) =~= self.view());
            },
        }
    }
}

} // verus!
