use electrico::common::{
    append_js_scripts, build_file_map, escape, escapemsg, file_request_reply, get_message_data_http,
    is_module_request, message_data_from_query, parse_http_url_path, reply_404, reply_bad_request, reply_wrong_http_id, reply_client_error,
    reply_not_found, reply_ok, reply_status, reply_text, text_bytes, DirTree, ScriptFile, CONTENT_TYPE_BIN,
    CONTENT_TYPE_HTML, CONTENT_TYPE_TEXT,
};

fn unescape_js(s: &str) -> String {
    let mut out = String::new();
    let mut it = s.chars();
    while let Some(c) = it.next() {
        if c == '\\' {
            match it.next() {
                Some('n') => out.push('\n'),
                Some('r') => out.push('\r'),
                Some(k) => out.push(k),
                None => out.push('\\'),
            }
        } else {
            out.push(c);
        }
    }
    out
}

#[test]
fn escape_quotes_backslashes_and_line_breaks() {
    let s = "a'b\\c\nd\re".to_string();
    assert_eq!(escape(&s), "a\\'b\\\\c\\nd\\re");
}

#[test]
fn escape_leaves_plain_text_alone() {
    let s = "plain text \"double\" quotes".to_string();
    assert_eq!(escape(&s), s);
    assert_eq!(escape(&String::new()), "");
}

#[test]
fn escape_round_trip_on_sample() {
    let s = "it's a \\ path\nwith 'quotes'\r".to_string();
    assert_eq!(unescape_js(&escape(&s)), s);
}

#[test]
fn escape_output_has_no_raw_line_break() {
    let e = escape(&"x\ny\rz".to_string());
    assert!(!e.contains('\n'));
    assert!(!e.contains('\r'));
}

#[test]
fn escape_is_injective_on_samples() {
    let a = escape(&"a\\'".to_string());
    let b = escape(&"a'\\".to_string());
    assert_ne!(a, b);
}

#[test]
fn escapemsg_quotes_and_backslashes() {
    let s = "say \"hi\" \\ it's".to_string();
    assert_eq!(escapemsg(&s), "say \\\"hi\\\" \\\\ it's");
}

#[test]
fn escapemsg_keeps_line_breaks() {
    let s = "a\nb".to_string();
    assert_eq!(escapemsg(&s), "a\nb");
}

#[test]
fn escapemsg_round_trip_on_sample() {
    let s = "{\"k\":\"v\\w\"}".to_string();
    let e = escapemsg(&s);
    let mut back = String::new();
    let mut it = e.chars();
    while let Some(c) = it.next() {
        if c == '\\' {
            back.push(it.next().unwrap());
        } else {
            back.push(c);
        }
    }
    assert_eq!(back, s);
}

#[test]
fn parse_http_url_path_full() {
    let r = parse_http_url_path("/abc@electrico-file/file/dir/index.html");
    assert_eq!(
        r,
        Some(("abc".to_string(), "electrico-file".to_string(), "file".to_string(), "/dir/index.html".to_string()))
    );
}

#[test]
fn parse_http_url_path_without_rest() {
    let r = parse_http_url_path("/abc@proto/root");
    assert_eq!(r, Some(("abc".to_string(), "proto".to_string(), "root".to_string(), "/".to_string())));
}

#[test]
fn parse_http_url_path_missing_parts() {
    assert_eq!(parse_http_url_path("/abc@proto"), None);
    assert_eq!(parse_http_url_path("/abc/root/x"), None);
    assert_eq!(parse_http_url_path("noslash"), None);
    assert_eq!(parse_http_url_path(""), None);
}

#[test]
fn parse_http_url_path_extra_at_signs() {
    let r = parse_http_url_path("/a@b@c/r/x");
    assert_eq!(r, Some(("a".to_string(), "b".to_string(), "r".to_string(), "/x".to_string())));
}

#[test]
fn parse_http_url_path_round_trip_sample() {
    let (id, proto, root, rest) = ("w1", "asyncin", "ipcin", "a/b/c");
    let path = format!("/{}@{}/{}/{}", id, proto, root, rest);
    let r = parse_http_url_path(&path).unwrap();
    assert_eq!(r.0, id);
    assert_eq!(r.1, proto);
    assert_eq!(r.2, root);
    assert_eq!(r.3, format!("/{}", rest));
}

#[test]
fn module_request_detection() {
    assert!(is_module_request(Some("electrico-mod")));
    assert!(!is_module_request(Some("electrico-file")));
    assert!(!is_module_request(None));
}

#[test]
fn replies_have_their_texts() {
    let ok = reply_ok();
    assert_eq!(ok.status, 200);
    assert_eq!(ok.content_type, CONTENT_TYPE_HTML);
    assert_eq!(ok.body, b"OK".to_vec());
    let nf = reply_404();
    assert_eq!(nf.status, 404);
    assert_eq!(nf.body, b"404".to_vec());
    let ce = reply_client_error(&"bad".to_string());
    assert_eq!(ce.status, 400);
    assert_eq!(ce.content_type, CONTENT_TYPE_TEXT);
    assert_eq!(ce.body, b"bad".to_vec());
    let st = reply_status(201, "x/y".to_string(), vec![1, 2]);
    assert_eq!(st.status, 201);
    assert_eq!(st.content_type, "x/y");
    assert_eq!(st.body, vec![1, 2]);
    let t = reply_text(418, CONTENT_TYPE_TEXT, "tea");
    assert_eq!(t.status, 418);
    assert_eq!(t.body, b"tea".to_vec());
}

#[test]
fn not_found_reply_for_module_redirects() {
    let m = reply_not_found(true);
    assert_eq!(m.status, 301);
    assert_eq!(m.body, b"package".to_vec());
    let f = reply_not_found(false);
    assert_eq!(f.status, 404);
    assert_eq!(f.body, b"not found".to_vec());
    assert_eq!(f.content_type, CONTENT_TYPE_HTML);
}

#[test]
fn text_bytes_are_utf8() {
    assert_eq!(text_bytes("é!"), vec![0xc3, 0xa9, b'!']);
}

#[test]
fn message_from_query_is_url_decoded() {
    let r = get_message_data_http(Some("%7B%22a%22%3A1%7D%20x"), vec![9, 8]);
    assert_eq!(r, Some(("{\"a\":1} x".to_string(), Some(vec![9, 8]))));
}

#[test]
fn message_from_query_that_is_not_utf8_fails() {
    assert_eq!(get_message_data_http(Some("%FF"), vec![]), None);
}

#[test]
fn message_from_body_without_query() {
    let r = get_message_data_http(None, b"hello".to_vec());
    assert_eq!(r, Some(("hello".to_string(), None)));
}

#[test]
fn message_from_body_that_is_not_utf8_fails() {
    assert_eq!(get_message_data_http(None, vec![0xff, 0xfe]), None);
}

#[test]
fn message_data_from_decoded_query() {
    assert_eq!(message_data_from_query(Some("m".to_string()), vec![1]), Some(("m".to_string(), Some(vec![1]))));
    assert_eq!(message_data_from_query(None, vec![1]), None);
}

fn sample_tree() -> DirTree {
    DirTree {
        files: vec![("index.html".to_string(), b"<html>".to_vec()), ("app.js".to_string(), b"old".to_vec())],
        dirs: vec![
            DirTree { files: vec![("lib/a.css".to_string(), b"css".to_vec())], dirs: vec![] },
            DirTree { files: vec![("app.js".to_string(), b"new".to_vec())], dirs: vec![] },
        ],
    }
}

#[test]
fn file_map_serves_bundled_files_with_their_type() {
    let m = build_file_map(&sample_tree());
    let r = file_request_reply(false, &"index.html".to_string(), &m, None, &"/x/index.html".to_string());
    assert_eq!(r.status, 200);
    assert_eq!(r.content_type, "text/html");
    assert_eq!(r.body, b"<html>".to_vec());
    let c = file_request_reply(false, &"lib/a.css".to_string(), &m, None, &"/x".to_string());
    assert_eq!(c.content_type, "text/css");
    assert_eq!(c.body, b"css".to_vec());
}

#[test]
fn file_map_later_subdirectory_wins() {
    let m = build_file_map(&sample_tree());
    let r = file_request_reply(false, &"app.js".to_string(), &m, Some(b"disk".to_vec()), &"/x/app.js".to_string());
    assert_eq!(r.status, 200);
    assert_eq!(r.content_type, "text/javascript");
    assert_eq!(r.body, b"new".to_vec());
}

#[test]
fn file_request_falls_back_to_disk() {
    let m = build_file_map(&sample_tree());
    let r = file_request_reply(false, &"pic.png".to_string(), &m, Some(vec![1, 2, 3]), &"/srv/pic.png".to_string());
    assert_eq!(r.status, 200);
    assert_eq!(r.content_type, "image/png");
    assert_eq!(r.body, vec![1, 2, 3]);
    let u = file_request_reply(false, &"data".to_string(), &m, Some(vec![7]), &"/srv/data".to_string());
    assert_eq!(u.content_type, CONTENT_TYPE_BIN);
}

#[test]
fn file_request_not_found() {
    let m = build_file_map(&sample_tree());
    let r = file_request_reply(false, &"none.txt".to_string(), &m, None, &"/srv/none.txt".to_string());
    assert_eq!(r.status, 404);
    assert_eq!(r.body, b"not found".to_vec());
    let md = file_request_reply(true, &"none.txt".to_string(), &m, None, &"/srv/none.txt".to_string());
    assert_eq!(md.status, 301);
    assert_eq!(md.body, b"package".to_vec());
}

#[test]
fn scripts_are_appended_by_suffix() {
    let files = vec![
        ScriptFile { name: "a.js".to_string(), contents: Some("A;".to_string()) },
        ScriptFile { name: "b.css".to_string(), contents: Some("B;".to_string()) },
        ScriptFile { name: "c.js".to_string(), contents: None },
        ScriptFile { name: "d.js".to_string(), contents: Some("D;".to_string()) },
    ];
    assert_eq!(append_js_scripts("S;".to_string(), &files, Some(".js")), "S;A;D;");
    assert_eq!(append_js_scripts("S;".to_string(), &files, None), "S;");
    assert_eq!(append_js_scripts(String::new(), &files, Some(".css")), "B;");
}

fn backslashes_before(e: &[char], i: usize) -> usize {
    let mut n = 0;
    while n < i && e[i - 1 - n] == '\\' {
        n += 1;
    }
    n
}

#[test]
fn escape_length_and_quote_runs() {
    let s = "a\\'b\n\r\\\\'c\"".to_string();
    let e: Vec<char> = escape(&s).chars().collect();
    let specials = s.chars().filter(|c| matches!(c, '\\' | '\'' | '\n' | '\r')).count();
    assert_eq!(e.len(), s.chars().count() + specials);
    for i in 0..e.len() {
        if e[i] == '\'' {
            assert_eq!(backslashes_before(&e, i) % 2, 1);
        }
    }
}

#[test]
fn escapemsg_length_and_quote_runs() {
    let s = "x\\\"y\\\\\"z'\n".to_string();
    let e: Vec<char> = escapemsg(&s).chars().collect();
    let specials = s.chars().filter(|c| matches!(c, '\\' | '"')).count();
    assert_eq!(e.len(), s.chars().count() + specials);
    for i in 0..e.len() {
        if e[i] == '"' {
            assert_eq!(backslashes_before(&e, i) % 2, 1);
        }
    }
    assert!(e.contains(&'\''));
    assert!(e.contains(&'\n'));
}

#[test]
fn parsed_path_formats_back() {
    for path in ["/h1@electrico-file/file/index.html", "/id@asyncin/ipcin/w1/x", "/a@b/c/"] {
        let (h, p, r, u) = parse_http_url_path(path).unwrap();
        assert_eq!(format!("/{}@{}/{}{}", h, p, r, u), path);
    }
}

#[test]
fn bare_status_replies() {
    let b = reply_bad_request();
    assert_eq!(b.status, 400);
    assert_eq!(b.content_type, "");
    assert_eq!(b.body, b"400 Bad Request".to_vec());
    let f = reply_wrong_http_id();
    assert_eq!(f.status, 403);
    assert_eq!(f.body, b"403 Forbidden".to_vec());
}

#[test]
fn bundled_files_are_known() {
    let m = build_file_map(&sample_tree());
    assert!(electrico::common::bundled(&m, &"index.html".to_string()));
    assert!(electrico::common::bundled(&m, &"lib/a.css".to_string()));
    assert!(!electrico::common::bundled(&m, &"none".to_string()));
}
