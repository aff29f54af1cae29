use electrico::electron_types::ElectronCommand;
use electrico::frontend::{
    close_removes_window, frontend_ipc_command, frontend_ws_frame, http_port, is_electrico_ipc, is_host_page_query,
    load_url_target,
    module_file_path, rewrite_host_page, route_frontend_request, window_init_script_for, window_preload_script,
    FrontendRoute, PendingPost, WindowRegistry,
};
use electrico::types::{Command, FrontendCommand};

#[test]
fn http_port_of_started_server() {
    assert_eq!(http_port(&Some(8123)), 8123);
}

#[test]
fn ipc_paths_are_recognised() {
    assert!(is_electrico_ipc(&"/electrico-ipc".to_string()));
    assert!(is_electrico_ipc(&"/electrico-ipc?x=1".to_string()));
    assert!(!is_electrico_ipc(&"/index.html".to_string()));
    assert!(!is_electrico_ipc(&"electrico-ipc".to_string()));
}

#[test]
fn module_file_path_strips_slash_and_parent_steps() {
    assert_eq!(module_file_path("/node_modules/../x/a.js".to_string()), "node_modules//x/a.js");
    assert_eq!(module_file_path("a/b.js".to_string()), "a/b.js");
    assert_eq!(module_file_path("/../../etc/passwd".to_string()), "//etc/passwd");
    assert_eq!(module_file_path("/...".to_string()), ".");
    assert_eq!(module_file_path("/".to_string()), "");
}

#[test]
fn module_file_path_non_ascii() {
    assert_eq!(module_file_path("/é/ü.js".to_string()), "é/ü.js");
}

#[test]
fn module_file_path_never_holds_parent_step() {
    for p in ["/a/../../b", "/....//..", "x/.../y", "/./../."] {
        assert!(!module_file_path(p.to_string()).contains(".."), "{}", p);
    }
}

#[test]
fn load_url_of_web_address_is_direct() {
    let (u, direct) = load_url_target(&"https://example.org/a".to_string(), &"h1".to_string(), 9000);
    assert_eq!(u, "https://example.org/a");
    assert!(direct);
    let (u2, d2) = load_url_target(&"http://x/".to_string(), &"h1".to_string(), 9000);
    assert_eq!(u2, "http://x/");
    assert!(d2);
}

#[test]
fn load_url_of_file_goes_through_server() {
    let (u, direct) = load_url_target(&"index.html".to_string(), &"h1".to_string(), 9000);
    assert_eq!(u, "http://electrico.localhost:9000/h1@electrico-file/file/index.html?electrico_hostpage=true");
    assert!(!direct);
}

#[test]
fn load_url_of_custom_protocol_keeps_query() {
    let (u, direct) = load_url_target(&"app://a/b?q=1".to_string(), &"h1".to_string(), 80);
    assert_eq!(u, "http://electrico.localhost:80/h1@app/a/b?q=1&electrico_hostpage=true");
    assert!(!direct);
}

#[test]
fn load_url_cuts_at_byte_offset_as_character_index() {
    let (u, _) = load_url_target(&"ü://x".to_string(), &"h1".to_string(), 1);
    assert_eq!(u, "http://electrico.localhost:1/h1@ü:/?electrico_hostpage=true");
}

#[test]
fn loaded_file_routes_back_to_its_path() {
    let (u, _) = load_url_target(&"dir/page.html".to_string(), &"wid".to_string(), 4321);
    let prefix = "http://electrico.localhost:4321";
    assert!(u.starts_with(prefix));
    let rest = &u[prefix.len()..];
    let path = &rest[..rest.find('?').unwrap()];
    let parts = electrico::common::parse_http_url_path(path).unwrap();
    assert_eq!(parts.0, "wid");
    assert_eq!(parts.1, "electrico-file");
    assert_eq!(parts.2, "file");
    assert_eq!(parts.3, "/dir/page.html");
}

#[test]
fn host_page_protocols_are_made_local() {
    let html = "<a href='app://x'>app:</a><img src='res:y'>".to_string();
    let r = rewrite_host_page(&html, &vec!["app".to_string(), "res".to_string()], 9000);
    assert_eq!(r, "<a href='*.localhost:9000//x'>*.localhost:9000</a><img src='*.localhost:9000y'>");
    assert_eq!(rewrite_host_page(&html, &vec![], 9000), html);
}

#[test]
fn route_websocket_with_window() {
    let r = route_frontend_request(
        "h1".to_string(),
        "asyncin".to_string(),
        "ipcin".to_string(),
        "/w1/x".to_string(),
        None,
        "r".to_string(),
    );
    match r {
        FrontendRoute::WebSocket { inbound, channel, window_id } => {
            assert!(inbound);
            assert_eq!(channel, "ipcin");
            assert_eq!(window_id, Some("w1".to_string()));
        },
        _ => panic!("not a websocket"),
    }
}

#[test]
fn route_websocket_without_slash() {
    let r = route_frontend_request(
        "h1".to_string(),
        "asyncout".to_string(),
        "ipcout".to_string(),
        "w1".to_string(),
        None,
        "r".to_string(),
    );
    match r {
        FrontendRoute::WebSocket { inbound, channel, window_id } => {
            assert!(!inbound);
            assert_eq!(channel, "ipcout");
            assert_eq!(window_id, None);
        },
        _ => panic!("not a websocket"),
    }
}

#[test]
fn route_ipc_call() {
    let r = route_frontend_request(
        "h1".to_string(),
        "electrico-file".to_string(),
        "file".to_string(),
        "/electrico-ipc".to_string(),
        Some("x".to_string()),
        "r".to_string(),
    );
    assert!(matches!(r, FrontendRoute::Ipc));
}

#[test]
fn route_module_file() {
    let r = route_frontend_request(
        "h1".to_string(),
        "http".to_string(),
        "electrico-mod".to_string(),
        "/node_modules/../a.js".to_string(),
        None,
        "r".to_string(),
    );
    match r {
        FrontendRoute::Execute { command: Command::BrowserWindowReadFile { http_id, file_path, module } } => {
            assert_eq!(http_id, "h1");
            assert_eq!(file_path, "node_modules//a.js");
            assert!(module);
        },
        _ => panic!("not a file read"),
    }
}

#[test]
fn route_file_protocol() {
    let r = route_frontend_request(
        "h1".to_string(),
        "electrico-file".to_string(),
        "file".to_string(),
        "/index.html".to_string(),
        None,
        "r".to_string(),
    );
    match r {
        FrontendRoute::Execute { command: Command::BrowserWindowReadFile { file_path, module, .. } } => {
            assert_eq!(file_path, "index.html");
            assert!(!module);
        },
        _ => panic!("not a file read"),
    }
}

#[test]
fn route_custom_protocol_is_posted() {
    let r = route_frontend_request(
        "h1".to_string(),
        "my'app".to_string(),
        "root".to_string(),
        "/x".to_string(),
        Some("q=1".to_string()),
        "r9".to_string(),
    );
    match r {
        FrontendRoute::Execute {
            command: Command::PostIPC { http_id, from_backend, nonce, request_id, channel, params },
        } => {
            assert_eq!(http_id, "h1");
            assert!(!from_backend);
            assert_eq!(nonce, None);
            assert_eq!(request_id, "r9");
            assert_eq!(channel, "__electrico_protocol");
            assert_eq!(params, "[\"my\\'app\", \"/x?q=1\"]");
        },
        _ => panic!("not a post"),
    }
}

#[test]
fn ipc_command_keeps_nonce() {
    let c = frontend_ipc_command(
        "h1".to_string(),
        FrontendCommand::PostIPC {
            request_id: "r1".to_string(),
            nonce: "n1".to_string(),
            data_blob: false,
            channel: "ch".to_string(),
            params: "[]".to_string(),
        },
    );
    match c {
        Command::PostIPC { http_id, from_backend, nonce, request_id, channel, params } => {
            assert_eq!(http_id, "h1");
            assert!(!from_backend);
            assert_eq!(nonce, Some("n1".to_string()));
            assert_eq!(request_id, "r1");
            assert_eq!(channel, "ch");
            assert_eq!(params, "[]");
        },
        _ => panic!("not a post"),
    }
}

#[test]
fn ipc_command_alert_becomes_message_box() {
    let c = frontend_ipc_command("h1".to_string(), FrontendCommand::Alert { message: "it's\n".to_string() });
    match c {
        Command::Electron { invoke: ElectronCommand::Api { data } } => {
            assert_eq!(
                data,
                "{\"api\":\"Dialog\", \"command\":{\"action\":\"ShowMessageBoxSync\", \"options\":{\"message\":\"it\\'s\\n\"}}}"
            );
        },
        _ => panic!("not an api call"),
    }
}

#[test]
fn ipc_command_other_kinds() {
    match frontend_ipc_command("h1".to_string(), FrontendCommand::GetProcessInfo { nonce: "n".to_string() }) {
        Command::FrontendGetProcessInfo { http_id, nonce } => {
            assert_eq!(http_id, "h1");
            assert_eq!(nonce, "n");
        },
        _ => panic!("wrong command"),
    }
    match frontend_ipc_command("h1".to_string(), FrontendCommand::DOMContentLoaded { title: "T".to_string() }) {
        Command::DOMContentLoaded { http_id, title } => {
            assert_eq!(http_id, "h1");
            assert_eq!(title, "T");
        },
        _ => panic!("wrong command"),
    }
    assert!(matches!(frontend_ipc_command("h1".to_string(), FrontendCommand::GetProtocols), Command::FrontendGetProtocols));
}

fn post(data_blob: bool) -> FrontendCommand {
    FrontendCommand::PostIPC {
        request_id: "r".to_string(),
        nonce: "n".to_string(),
        data_blob,
        channel: "c".to_string(),
        params: "p".to_string(),
    }
}

#[test]
fn ws_frame_call_without_data_runs_at_once() {
    let mut pending: Option<PendingPost> = None;
    let r = frontend_ws_frame(&"h1".to_string(), &mut pending, b"ignored".to_vec(), Some(post(false)));
    assert!(pending.is_none());
    match r {
        Some((Command::PostIPC { nonce, request_id, .. }, data)) => {
            assert_eq!(nonce, Some("n".to_string()));
            assert_eq!(request_id, "r");
            assert_eq!(data, None);
        },
        _ => panic!("no call"),
    }
}

#[test]
fn ws_frame_call_with_data_waits_for_next_frame() {
    let mut pending: Option<PendingPost> = None;
    let r = frontend_ws_frame(&"h1".to_string(), &mut pending, vec![], Some(post(true)));
    assert!(r.is_none());
    assert!(pending.is_some());
    let r2 = frontend_ws_frame(&"h1".to_string(), &mut pending, vec![1, 2, 3], None);
    assert!(pending.is_none());
    match r2 {
        Some((Command::PostIPC { http_id, channel, params, .. }, data)) => {
            assert_eq!(http_id, "h1");
            assert_eq!(channel, "c");
            assert_eq!(params, "p");
            assert_eq!(data, Some(vec![1, 2, 3]));
        },
        _ => panic!("no call"),
    }
}

#[test]
fn ws_frame_other_commands_are_dropped() {
    let mut pending: Option<PendingPost> = None;
    assert!(frontend_ws_frame(&"h1".to_string(), &mut pending, vec![], None).is_none());
    assert!(frontend_ws_frame(&"h1".to_string(), &mut pending, vec![], Some(FrontendCommand::GetProtocols)).is_none());
    assert!(pending.is_none());
}

#[test]
fn preload_script_adds_arguments_then_file() {
    let args = Some(vec!["--a'b".to_string(), "c".to_string()]);
    let r = window_preload_script(&args, Some("P;".to_string()));
    assert_eq!(r, "window.__electrico.addArgument('--a\\'b');window.__electrico.addArgument('c');P;");
    assert_eq!(window_preload_script(&None, None), "");
    assert_eq!(window_preload_script(&None, Some("X".to_string())), "X");
}

#[test]
fn init_script_exact_text() {
    let r = window_init_script_for(9000, &"u1".to_string(), &"w1".to_string(), &"PRE".to_string(), &"FJS".to_string());
    let expected = "window.__http_protocol = {'http_port':9000, 'http_uid':'u1'};
                var __electrico_nonce='w1'; 
                window.__electrico_preload=function(document, ph){\nph.before(__electrico_nonce); 
                var window=document.window; var process=window.process; 
                var require=document.window.require;\nPRE\nph.after();\n};\n
                FJS\n
                __electrico_nonce='';\n";
    assert_eq!(r, expected);
}

#[test]
fn registry_finds_registered_windows() {
    let mut reg = WindowRegistry::new();
    assert_eq!(reg.count(), 0);
    assert_eq!(reg.get_browser_window_id(&"h1".to_string()), None);
    reg.register_window("h1".to_string(), "w1".to_string());
    reg.register_window("h2".to_string(), "w2".to_string());
    assert_eq!(reg.count(), 2);
    assert_eq!(reg.get_browser_window_id(&"h1".to_string()), Some(&"w1".to_string()));
    assert_eq!(reg.get_browser_window_id(&"h2".to_string()), Some(&"w2".to_string()));
    reg.register_window("h1".to_string(), "w3".to_string());
    assert_eq!(reg.get_browser_window_id(&"h1".to_string()), Some(&"w3".to_string()));
}

#[test]
fn registry_close_count_never_below_zero() {
    let mut reg = WindowRegistry::new();
    reg.register_window("h1".to_string(), "w1".to_string());
    reg.window_closed();
    assert_eq!(reg.count(), 0);
    reg.window_closed();
    assert_eq!(reg.count(), 0);
    assert_eq!(reg.get_browser_window_id(&"h1".to_string()), Some(&"w1".to_string()));
}

#[test]
fn registry_file_protocols_in_order() {
    let mut reg = WindowRegistry::new();
    assert!(reg.get_file_protocols().is_empty());
    reg.register_file_protocol("app".to_string());
    reg.register_file_protocol("res".to_string());
    assert_eq!(reg.get_file_protocols(), &vec!["app".to_string(), "res".to_string()]);
}

#[test]
fn closing_last_window_on_macos_keeps_it() {
    assert!(!close_removes_window(1, true));
    assert!(close_removes_window(2, true));
    assert!(close_removes_window(1, false));
    assert!(close_removes_window(0, false));
}

#[test]
fn loaded_document_title() {
    assert_eq!(electrico::frontend::loaded_title("Page".to_string()), Some("Page".to_string()));
    assert_eq!(electrico::frontend::loaded_title(String::new()), None);
}

#[test]
fn host_page_queries() {
    assert!(is_host_page_query(&Some("electrico_hostpage=true".to_string())));
    assert!(is_host_page_query(&Some("q=1&electrico_hostpage=true".to_string())));
    assert!(!is_host_page_query(&Some("electrico_hostpage=true&q=1".to_string())));
    assert!(!is_host_page_query(&None));
}

#[test]
fn loaded_page_query_marks_host_page() {
    for f in ["index.html", "a/b.html?x=1", "app://p?q", "ü://x"] {
        let (u, direct) = load_url_target(&f.to_string(), &"h".to_string(), 7);
        assert!(!direct);
        let q = u.split_once('?').map(|(_, q)| q.to_string());
        assert!(is_host_page_query(&q), "{}", u);
    }
}
