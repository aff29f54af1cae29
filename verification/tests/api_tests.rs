use electrico::addon_types::SPDLogLevel;
use electrico::addons::{spdlog_filter, spdlog_message_level, sqlite_row_record, sqlite_run_statement, LogFilter, LogLevel};
use electrico::child_process::{
    monitor_after_wait, monitor_exit_report, monitor_on_message, spawn_args, spawn_command, MonitorAction, MonitorState,
    WaitOutcome,
};
use electrico::dialog::{
    message_box_plan, open_dialog_plan, property_set, save_dialog_plan, save_dialog_sync_plan, MessageLevel, PickKind,
};
use electrico::dispatch::{
    menu_event_action, post_ipc_check, post_ipc_refusal, process_info_allowed, read_file_refusal, reply_expired,
    reply_forbidden, set_ipc_response_reply, shell_script_for, MenuEventAction, PostIpcCheck,
};
use electrico::electron::{
    all_windows_closed, app_path_kind, app_path_reply, bool_text, flag_reply, reply_kind, title_reply, version_reply,
    AppPathKind, ReplyKind,
};
use electrico::electron_api_types::{FileDialogOptions, FileFilter, ShowMessageBoxOptions};
use electrico::electron_types::{BrowserWindowMaximizedAction, Display, ElectronCommand, Rectangle};
use electrico::fs_api::{
    fs_access_reply, fs_mkdir_plan, fs_mkdir_reply, fs_open_plan, fs_open_reply, fs_readdir_entries, fs_recursive, fs_write_data,
    DirListing,
    ListedEntry, MkdirPlan,
};
use electrico::http_api::{body_stream_poll, body_stream_receive, http_request_url, split_for_buffer, BodyRead, BodyStreamState};
use electrico::node::{console_log_line, execute_sync_status, process_env_entries, process_info, process_versions, AppEnv};
use electrico::node_api_types::{FSDirent, FSOptions, FSStat, HTTPOptions};
use electrico::node_types::{ConsoleLogLevel, ConsoleLogParam, Process, ProcessVersions};
use electrico::types::{ChildProcess, NETConnection};
use std::collections::HashMap;

fn dialog_options(properties: Option<Vec<&str>>) -> FileDialogOptions {
    FileDialogOptions {
        title: Some("T".to_string()),
        default_path: Some("/home".to_string()),
        button_label: None,
        filters: Some(vec![FileFilter { name: "Images".to_string(), extensions: vec!["png".to_string()] }]),
        properties: properties.map(|p| p.into_iter().map(|s| s.to_string()).collect()),
        message: None,
    }
}

#[test]
fn property_lists_are_searched() {
    let props = vec!["openFile".to_string(), "multiSelections".to_string()];
    assert!(property_set(&props, "openFile"));
    assert!(!property_set(&props, "openDirectory"));
    assert!(!property_set(&vec![], "openFile"));
}

#[test]
fn open_dialog_picks_files() {
    let p = open_dialog_plan(dialog_options(Some(vec!["openFile", "openDirectory"]))).unwrap();
    assert_eq!(p.pick, PickKind::File);
    assert_eq!(p.title, Some("T".to_string()));
    assert_eq!(p.directory, Some("/home".to_string()));
    assert!(!p.can_create_directories);
    assert_eq!(p.filters.len(), 1);
    assert_eq!(p.filters[0].name, "Images");
    let m = open_dialog_plan(dialog_options(Some(vec!["multiSelections", "openFile", "createDirectory"]))).unwrap();
    assert_eq!(m.pick, PickKind::Files);
    assert!(m.can_create_directories);
}

#[test]
fn open_dialog_picks_folders() {
    let p = open_dialog_plan(dialog_options(Some(vec!["openDirectory"]))).unwrap();
    assert_eq!(p.pick, PickKind::Folder);
    let m = open_dialog_plan(dialog_options(Some(vec!["openDirectory", "multiSelections"]))).unwrap();
    assert_eq!(m.pick, PickKind::Folders);
}

#[test]
fn open_dialog_without_choice_shows_nothing() {
    assert!(open_dialog_plan(dialog_options(None)).is_none());
    assert!(open_dialog_plan(dialog_options(Some(vec!["createDirectory"]))).is_none());
}

#[test]
fn save_dialogs() {
    assert!(save_dialog_sync_plan(dialog_options(None)).is_none());
    let s = save_dialog_sync_plan(dialog_options(Some(vec!["createDirectory"]))).unwrap();
    assert_eq!(s.pick, PickKind::Save);
    assert!(s.can_create_directories);
    let a = save_dialog_plan(dialog_options(None));
    assert_eq!(a.pick, PickKind::Save);
    assert!(!a.can_create_directories);
    let mut o = dialog_options(Some(vec![]));
    o.filters = None;
    let b = save_dialog_plan(o);
    assert!(b.filters.is_empty());
}

#[test]
fn message_box_with_detail_and_level() {
    let mut o = ShowMessageBoxOptions::new("Hello".to_string());
    assert_eq!(o.message, "Hello");
    assert!(o.msg_type.is_none() && o.title.is_none() && o.detail.is_none());
    let plain = message_box_plan(ShowMessageBoxOptions::new("Hello".to_string()));
    assert_eq!(plain.description, "Hello");
    assert_eq!(plain.level, MessageLevel::Default);
    o.detail = Some("more".to_string());
    o.msg_type = Some("error".to_string());
    o.title = Some("Oops".to_string());
    let p = message_box_plan(o);
    assert_eq!(p.description, "Hello - more");
    assert_eq!(p.level, MessageLevel::Error);
    assert_eq!(p.title, Some("Oops".to_string()));
    let mut i = ShowMessageBoxOptions::new("x".to_string());
    i.msg_type = Some("info".to_string());
    assert_eq!(message_box_plan(i).level, MessageLevel::Info);
    let mut w = ShowMessageBoxOptions::new("x".to_string());
    w.msg_type = Some("warning".to_string());
    assert_eq!(message_box_plan(w).level, MessageLevel::Default);
}

#[test]
fn ipc_checks() {
    let w = "w1".to_string();
    assert!(matches!(post_ipc_check(true, None, &None), PostIpcCheck::Backend));
    assert!(matches!(post_ipc_check(false, None, &Some("w1".to_string())), PostIpcCheck::UnknownWindow));
    match post_ipc_check(false, Some(&w), &Some("w1".to_string())) {
        PostIpcCheck::Forward { browser_window_id } => assert_eq!(browser_window_id, "w1"),
        _ => panic!("not forwarded"),
    }
    match post_ipc_check(false, Some(&w), &None) {
        PostIpcCheck::Forward { browser_window_id } => assert_eq!(browser_window_id, "w1"),
        _ => panic!("not forwarded"),
    }
    assert!(matches!(post_ipc_check(false, Some(&w), &Some("w2".to_string())), PostIpcCheck::BadNonce));
}

#[test]
fn ipc_refusals() {
    let n = post_ipc_refusal(&PostIpcCheck::BadNonce).unwrap();
    assert_eq!(n.status, 403);
    assert_eq!(n.body, b"nonce".to_vec());
    let h = post_ipc_refusal(&PostIpcCheck::UnknownWindow).unwrap();
    assert_eq!(h.status, 403);
    assert_eq!(h.body, b"http_id".to_vec());
    assert!(post_ipc_refusal(&PostIpcCheck::Backend).is_none());
    let f = reply_forbidden("text/plain", "no");
    assert_eq!(f.status, 403);
    assert_eq!(f.content_type, "text/plain");
    let e = reply_expired();
    assert_eq!(e.status, 410);
    assert_eq!(e.body, b"expired".to_vec());
}

#[test]
fn process_info_needs_matching_nonce() {
    let w = "w1".to_string();
    assert!(process_info_allowed(Some(&w), &"w1".to_string()));
    assert!(!process_info_allowed(Some(&w), &"w2".to_string()));
    assert!(!process_info_allowed(None, &"w1".to_string()));
}

#[test]
fn ipc_response_replies() {
    let f = set_ipc_response_reply(&Some("a.json".to_string()), Some(b"{}".to_vec()), None);
    assert_eq!(f.status, 200);
    assert_eq!(f.content_type, "application/json");
    assert_eq!(f.body, b"{}".to_vec());
    let nf = set_ipc_response_reply(&Some("a.json".to_string()), None, Some(vec![1]));
    assert_eq!(nf.status, 404);
    assert_eq!(nf.body, b"not found".to_vec());
    let d = set_ipc_response_reply(&None, None, Some(vec![1]));
    assert_eq!(d.status, 200);
    assert_eq!(d.content_type, "application/json;charset=utf-8");
    assert_eq!(d.body, vec![1]);
    let n = set_ipc_response_reply(&None, None, None);
    assert_eq!(n.status, 404);
}

#[test]
fn read_file_refusals() {
    assert_eq!(read_file_refusal(false, true, true).unwrap().body, b"http_id".to_vec());
    assert_eq!(read_file_refusal(true, false, true).unwrap().body, b"forbidden".to_vec());
    assert_eq!(read_file_refusal(true, true, false).unwrap().status, 403);
    assert!(read_file_refusal(true, true, true).is_none());
}

#[test]
fn menu_events() {
    assert_eq!(menu_event_action("quit"), MenuEventAction::Quit);
    assert_eq!(menu_event_action("toggleDevTools"), MenuEventAction::ToggleDevTools);
    assert_eq!(menu_event_action("m1"), MenuEventAction::Selected);
}

#[test]
fn shell_script_exact_text() {
    let r = shell_script_for(&"ls 'x'".to_string());
    assert_eq!(
        r,
        "\n        (async function() {\n          let r = null;\n          try {r = await eval('ls \\'x\\'');} catch (e) {r='\\n'}; \n          let req = window.createCMDRequest(true, 'ShellCallback');\n          req.send(JSON.stringify({action:'ShellCallback', 'stdout':r+''}));\n        })()"
    );
}

#[test]
fn app_paths() {
    assert_eq!(app_path_kind(&None), AppPathKind::Resources);
    assert_eq!(app_path_kind(&Some("appData".to_string())), AppPathKind::Config);
    assert_eq!(app_path_kind(&Some("userData".to_string())), AppPathKind::Config);
    assert_eq!(app_path_kind(&Some("logs".to_string())), AppPathKind::Cache);
    assert_eq!(app_path_kind(&Some("temp".to_string())), AppPathKind::Cache);
    assert_eq!(app_path_kind(&Some("userHome".to_string())), AppPathKind::Home);
    assert_eq!(app_path_kind(&Some("desktop".to_string())), AppPathKind::Unknown);
}

#[test]
fn small_electron_answers() {
    assert_eq!(bool_text(true), "true");
    assert_eq!(bool_text(false), "false");
    assert!(all_windows_closed(0));
    assert!(!all_windows_closed(1));
}

#[test]
fn geometry_constructors() {
    let r = Rectangle::new(-1, 2, 300, 400);
    assert_eq!(r, Rectangle { x: -1, y: 2, width: 300, height: 400 });
    let d = Display::new(r);
    assert_eq!(d.bounds, r);
}

#[test]
fn fs_access_answers() {
    let nok = fs_access_reply(1, false, Some(false));
    assert_eq!(nok.status, 200);
    assert_eq!(nok.body, b"NOK".to_vec());
    let ro = fs_access_reply(4, true, Some(true));
    assert_eq!(ro.body, b"NOK".to_vec());
    let ok = fs_access_reply(5, true, Some(false));
    assert_eq!(ok.body, b"OK".to_vec());
    let ok0 = fs_access_reply(0, false, Some(true));
    assert_eq!(ok0.body, b"OK".to_vec());
    let nf = fs_access_reply(4, true, None);
    assert_eq!(nf.status, 404);
}

#[test]
fn fs_mkdir_and_open() {
    let rec = Some(FSOptions { encoding: None, recursive: Some(true), with_file_types: None });
    let norec = Some(FSOptions { encoding: None, recursive: Some(false), with_file_types: None });
    assert!(fs_recursive(&rec));
    assert!(!fs_recursive(&norec));
    assert!(!fs_recursive(&None));
    assert_eq!(fs_mkdir_plan(true, &rec), MkdirPlan::AlreadyThere);
    assert_eq!(fs_mkdir_plan(false, &rec), MkdirPlan::CreateAll);
    assert_eq!(fs_mkdir_plan(false, &None), MkdirPlan::Create);
    let made = fs_mkdir_reply(&"/tmp/x".to_string(), true);
    assert_eq!(made.status, 200);
    assert_eq!(made.body, b"/tmp/x".to_vec());
    assert_eq!(fs_mkdir_reply(&"/tmp/x".to_string(), false).status, 404);
    let r = fs_open_plan(&"r".to_string());
    assert!(r.read && !r.write && !r.create && !r.truncate && !r.append);
    let w = fs_open_plan(&"w+".to_string());
    assert!(w.read && w.write && w.create && w.truncate && !w.append);
    let a = fs_open_plan(&"a".to_string());
    assert!(a.write && a.create && !a.truncate && a.append);
    let o = fs_open_reply(-12);
    assert_eq!(o.status, 200);
    assert_eq!(o.body, b"-12".to_vec());
}

#[test]
fn fs_record_constructors() {
    let s = FSStat::new(true, None, None);
    assert!(s.is_directory && s.birthtime.is_none() && s.mtime.is_none());
    let d = FSDirent::new("/a".to_string(), "b".to_string(), false);
    assert_eq!(d.path, "/a");
    assert_eq!(d.name, "b");
    assert!(!d.is_directory);
}

#[test]
fn http_request_address() {
    let o = HTTPOptions { hostname: "example.org".to_string(), port: 8443, path: "/a?b".to_string(), method: "GET".to_string() };
    assert_eq!(http_request_url(&o), "https://example.org:8443/a?b");
    let n = HTTPOptions { hostname: "h".to_string(), port: -1, path: "".to_string(), method: "GET".to_string() };
    assert_eq!(http_request_url(&n), "https://h:-1");
}

#[test]
fn buffer_split_loses_nothing() {
    let data = vec![1, 2, 3, 4, 5];
    assert_eq!(split_for_buffer(&data, 10), (data.clone(), None));
    assert_eq!(split_for_buffer(&data, 5), (data.clone(), None));
    assert_eq!(split_for_buffer(&data, 2), (vec![1, 2], Some(vec![3, 4, 5])));
    assert_eq!(split_for_buffer(&data, 0), (vec![], Some(data.clone())));
}

#[test]
fn body_stream_delivers_in_order() {
    let mut st = BodyStreamState { ended: false, buffer: None };
    assert!(body_stream_poll(&mut st, 4).is_none());
    match body_stream_receive(&mut st, 2, NETConnection::Write { data: vec![1, 2, 3], end: true }) {
        BodyRead::Ready(w) => assert_eq!(w, vec![1, 2]),
        BodyRead::Pending => panic!("pending"),
    }
    assert!(st.ended);
    match body_stream_poll(&mut st, 2) {
        Some(BodyRead::Ready(w)) => assert_eq!(w, vec![3]),
        _ => panic!("nothing"),
    }
    match body_stream_poll(&mut st, 2) {
        Some(BodyRead::Ready(w)) => assert!(w.is_empty()),
        _ => panic!("not ended"),
    }
    assert!(matches!(body_stream_receive(&mut st, 2, NETConnection::Disconnect), BodyRead::Pending));
}

#[test]
fn spawn_defaults() {
    assert_eq!(spawn_command(Some("ls".to_string()), true), "ls");
    assert_eq!(spawn_command(None, true), "sh");
    assert_eq!(spawn_command(None, false), "powershell");
    assert_eq!(spawn_args(Some(vec!["-l".to_string()])), vec!["-l".to_string()]);
    assert!(spawn_args(None).is_empty());
}

#[test]
fn monitor_ends_after_exit_and_both_streams() {
    let mut st = MonitorState::new();
    assert!(!monitor_after_wait(&mut st, WaitOutcome::Running));
    let (a, stop) = monitor_on_message(&mut st, ChildProcess::StdoutEnd);
    assert!(matches!(a, MonitorAction::Nothing) && !stop);
    assert!(!monitor_after_wait(&mut st, WaitOutcome::Exited(Some(0))));
    let (_, stop2) = monitor_on_message(&mut st, ChildProcess::StderrEnd);
    assert!(!stop2);
    assert!(monitor_after_wait(&mut st, WaitOutcome::Running));
    assert_eq!(monitor_exit_report(&st), Some(Some(0)));
}

#[test]
fn monitor_disconnect_and_kill() {
    let mut st = MonitorState::new();
    let (a, stop) = monitor_on_message(&mut st, ChildProcess::Disconnect);
    assert!(matches!(a, MonitorAction::Disconnect) && stop);
    assert_eq!(monitor_exit_report(&st), None);
    let mut k = MonitorState::new();
    let (b, stop_k) = monitor_on_message(&mut k, ChildProcess::Kill);
    assert!(matches!(b, MonitorAction::Kill) && !stop_k);
    assert!(monitor_after_wait(&mut k, WaitOutcome::Running));
    let mut f = MonitorState::new();
    assert!(monitor_after_wait(&mut f, WaitOutcome::Failed));
    assert_eq!(monitor_exit_report(&f), Some(None));
}

#[test]
fn monitor_stdin_writes() {
    let mut st = MonitorState::new();
    match monitor_on_message(&mut st, ChildProcess::StdinWrite { data: Some(vec![7]), end: false }) {
        (MonitorAction::WriteStdin(d), false) => assert_eq!(d, vec![7]),
        _ => panic!("no write"),
    }
    assert!(matches!(
        monitor_on_message(&mut st, ChildProcess::StdinWrite { data: None, end: true }),
        (MonitorAction::Nothing, false)
    ));
    assert_eq!(st, MonitorState::new());
}

#[test]
fn app_env_arguments() {
    let mut extra = vec!["--x".to_string()];
    let mut env = AppEnv::new("/res".to_string(), vec!["app".to_string()], &mut extra);
    assert!(extra.is_empty());
    assert_eq!(env.start_args, vec!["app".to_string(), "--x".to_string()]);
    assert_eq!(env.resources_path, "/res");
    assert!(env.app_name.is_none());
    env.add_arg("--y".to_string());
    assert_eq!(env.start_args, vec!["app".to_string(), "--x".to_string(), "--y".to_string()]);
}

#[test]
fn console_lines() {
    let p = ConsoleLogParam { level: ConsoleLogLevel::Info, logmsg: "hello".to_string(), logdata: Some("[1]".to_string()) };
    assert_eq!(console_log_line(&p), "hello [1]");
    let q = ConsoleLogParam { level: ConsoleLogLevel::Warn, logmsg: "m".to_string(), logdata: None };
    assert_eq!(console_log_line(&q), "m ");
}

#[test]
fn process_description() {
    let v = process_versions("0.3", &"124.0".to_string());
    assert_eq!(v.node, "Electrico-0.3/124.0");
    assert_eq!(v.chrome, "WebView-124.0");
    assert_eq!(v.electron, "Electrico-0.3");
    let e = process_env_entries(false, "/h".to_string(), "/bin".to_string(), "/bin/sh".to_string());
    assert_eq!(e[0], ("NODE_ENV".to_string(), "production".to_string()));
    assert_eq!(e[1], ("ELECTRON_IS_DEV".to_string(), "0".to_string()));
    assert_eq!(e[2], ("HOME".to_string(), "/h".to_string()));
    assert_eq!(e[3], ("PATH".to_string(), "/bin".to_string()));
    assert_eq!(e[4], ("SHELL".to_string(), "/bin/sh".to_string()));
    let d = process_env_entries(true, String::new(), String::new(), String::new());
    assert_eq!(d[0].1, "development");
    assert_eq!(d[1].1, "1");
    let mut extra = vec![];
    let app = AppEnv::new("/res".to_string(), vec!["a".to_string(), "b".to_string()], &mut extra);
    let mut env = HashMap::new();
    env.insert("K".to_string(), "V".to_string());
    let p: Process = process_info("linux", "0.3", &"124".to_string(), env, &app, "/bin/app".to_string(), 77);
    assert_eq!(p.platform, "linux");
    assert_eq!(p.versions.node, "Electrico-0.3/124");
    assert_eq!(p.env.get("K"), Some(&"V".to_string()));
    assert_eq!(p.resources_path, "/res");
    assert_eq!(p.exec_path, "/bin/app");
    assert_eq!(p.argv, vec!["a".to_string(), "b".to_string()]);
    assert_eq!(p.pid, 77);
    let pv = ProcessVersions::new("n".to_string(), "c".to_string(), "e".to_string());
    assert_eq!(pv.node, "n");
    let dv = ProcessVersions::default();
    assert_eq!(dv.node, "");
    assert_eq!(execute_sync_status(true), 200);
    assert_eq!(execute_sync_status(false), 400);
}

#[test]
fn sqlite_statements_and_rows() {
    assert_eq!(sqlite_run_statement(&"BEGIN TRANSACTION".to_string()), Some("BEGIN TRANSACTION"));
    assert_eq!(sqlite_run_statement(&"END TRANSACTION".to_string()), Some("COMMIT"));
    assert_eq!(sqlite_run_statement(&"VACUUM".to_string()), None);
    let cols = vec!["id".to_string(), "name".to_string()];
    let row = vec!["1".to_string(), "x".to_string()];
    assert_eq!(
        sqlite_row_record(&cols, &row),
        vec![("id".to_string(), "1".to_string()), ("name".to_string(), "x".to_string())]
    );
    assert!(sqlite_row_record(&cols, &vec![]).is_empty());
}

#[test]
fn spdlog_levels() {
    assert_eq!(spdlog_filter(SPDLogLevel::Trace), LogFilter::All);
    assert_eq!(spdlog_filter(SPDLogLevel::Warn), LogFilter::MoreSevereEqual(LogLevel::Warn));
    assert_eq!(spdlog_filter(SPDLogLevel::Off), LogFilter::Off);
    assert_eq!(spdlog_message_level(SPDLogLevel::Critical), Some(LogLevel::Critical));
    assert_eq!(spdlog_message_level(SPDLogLevel::Trace), Some(LogLevel::Trace));
    assert_eq!(spdlog_message_level(SPDLogLevel::Off), None);
}

fn listed(name: &str, path: &str, is_directory: bool, listing: Option<DirListing>) -> ListedEntry {
    ListedEntry { name: name.to_string(), path: path.to_string(), is_directory, listing }
}

fn sample_listing() -> DirListing {
    DirListing {
        entries: vec![
            listed("a.txt", "/root/a.txt", false, None),
            listed(
                "sub",
                "/root/sub",
                true,
                Some(DirListing { entries: vec![listed("x.js", "/root/sub/x.js", false, None)] }),
            ),
            listed("b", "/root/b", true, None),
        ],
    }
}

fn triples(v: Vec<FSDirent>) -> Vec<(String, String, bool)> {
    v.into_iter().map(|d| (d.path, d.name, d.is_directory)).collect()
}

#[test]
fn readdir_flat() {
    let r = triples(fs_readdir_entries(&"/root".to_string(), &sample_listing(), false));
    assert_eq!(
        r,
        vec![
            ("/root".to_string(), "a.txt".to_string(), false),
            ("/root".to_string(), "sub".to_string(), true),
            ("/root".to_string(), "b".to_string(), true),
        ]
    );
}

#[test]
fn readdir_recursive_lists_children_before_their_directory() {
    let r = triples(fs_readdir_entries(&"/root".to_string(), &sample_listing(), true));
    assert_eq!(
        r,
        vec![
            ("/root".to_string(), "a.txt".to_string(), false),
            ("/root/sub".to_string(), "x.js".to_string(), false),
            ("/root".to_string(), "sub".to_string(), true),
            ("/root".to_string(), "b".to_string(), true),
        ]
    );
    assert!(fs_readdir_entries(&"/e".to_string(), &DirListing { entries: vec![] }, true).is_empty());
}

#[test]
fn electron_reply_kinds() {
    assert!(matches!(reply_kind(&ElectronCommand::BrowserWindowGetTitle { id: "w".to_string() }), ReplyKind::Title));
    assert!(matches!(
        reply_kind(&ElectronCommand::BrowserWindowMaximized { id: "w".to_string(), params: BrowserWindowMaximizedAction::Get }),
        ReplyKind::Flag
    ));
    assert!(matches!(
        reply_kind(&ElectronCommand::BrowserWindowMaximized {
            id: "w".to_string(),
            params: BrowserWindowMaximizedAction::SetTo { maximized: true }
        }),
        ReplyKind::Acknowledge
    ));
    assert!(matches!(
        reply_kind(&ElectronCommand::GetAppPath { path: Some("logs".to_string()) }),
        ReplyKind::AppPath { kind: AppPathKind::Cache }
    ));
    assert!(matches!(reply_kind(&ElectronCommand::GetAppVersion), ReplyKind::Version));
    assert!(matches!(reply_kind(&ElectronCommand::PrintToPDF { id: "w".to_string() }), ReplyKind::OkAfterPrint));
    assert!(matches!(reply_kind(&ElectronCommand::Api { data: "{}".to_string() }), ReplyKind::Api));
    assert!(matches!(reply_kind(&ElectronCommand::AppQuit { exit: true }), ReplyKind::Acknowledge));
}

#[test]
fn electron_replies() {
    let t = title_reply(Some("Main".to_string()));
    assert_eq!(t.status, 200);
    assert_eq!(t.content_type, "application/json;charset=utf-8");
    assert_eq!(t.body, b"Main".to_vec());
    assert_eq!(title_reply(None).status, 404);
    assert_eq!(flag_reply(true).body, b"true".to_vec());
    assert_eq!(flag_reply(false).body, b"false".to_vec());
    let p = app_path_reply(Some("/home/u/.config/app".to_string()));
    assert_eq!(p.status, 200);
    assert_eq!(p.body, b"/home/u/.config/app".to_vec());
    assert_eq!(app_path_reply(None).status, 404);
    let v = version_reply(&"1.2.3".to_string());
    assert_eq!(v.status, 200);
    assert_eq!(v.content_type, "text/plain;charset=utf-8");
    assert_eq!(v.body, b"1.2.3".to_vec());
}

#[test]
fn write_needs_data() {
    assert_eq!(fs_write_data(Some(vec![1]), true).ok(), Some(vec![1]));
    match fs_write_data(None, true) {
        Err(r) => {
            assert_eq!(r.status, 500);
            assert_eq!(r.body, b"FSWriteFile error, no data".to_vec());
        },
        Ok(_) => panic!("no data"),
    }
    match fs_write_data(None, false) {
        Err(r) => assert_eq!(r.body, b"FSWrite error, no data".to_vec()),
        Ok(_) => panic!("no data"),
    }
}

#[test]
fn sqlite_row_repeated_column_keeps_last_value() {
    let cols = vec!["a".to_string(), "b".to_string(), "a".to_string()];
    let row = vec!["1".to_string(), "2".to_string(), "3".to_string()];
    assert_eq!(
        sqlite_row_record(&cols, &row),
        vec![("a".to_string(), "3".to_string()), ("b".to_string(), "2".to_string())]
    );
}

#[test]
fn more_command_replies() {
    let r = electrico::fs_api::fs_read_reply(vec![9, 8]);
    assert_eq!(r.status, 200);
    assert_eq!(r.content_type, "application/octet-stream");
    assert_eq!(r.body, vec![9, 8]);
    let w = electrico::fs_api::fs_written_reply(1234);
    assert_eq!(w.status, 200);
    assert_eq!(w.body, b"1234".to_vec());
    let e = electrico::common::reply_error(400, "FSOpen", &"No such file or directory (os error 2)".to_string());
    assert_eq!(e.status, 400);
    assert_eq!(e.content_type, "text/plain;charset=utf-8");
    assert_eq!(e.body, b"FSOpen error: No such file or directory (os error 2)".to_vec());
    match electrico::common::required_data(None, "NETWriteConnection") {
        Err(r) => {
            assert_eq!(r.status, 500);
            assert_eq!(r.body, b"NETWriteConnection error, no data".to_vec());
        },
        Ok(_) => panic!("no data"),
    }
    assert_eq!(electrico::common::required_data(Some(vec![1]), "X").ok(), Some(vec![1]));
    let c = electrico::addons::sqlite_no_connection_reply(&"c7".to_string());
    assert_eq!(c.status, 400);
    assert_eq!(c.body, b"Error: No Connection for cid c7".to_vec());
}

#[test]
fn start_args_as_json() {
    let mut extra = vec![];
    let env = AppEnv::new(
        "/r".to_string(),
        vec!["a\"b".to_string(), "c\n\\".to_string(), "\u{1}\u{1f}\t".to_string(), "é/x".to_string()],
        &mut extra,
    );
    let r = electrico::node::start_args_reply(&env);
    assert_eq!(r.status, 200);
    assert_eq!(r.content_type, "application/json;charset=utf-8");
    assert_eq!(String::from_utf8(r.body).unwrap(), "[\"a\\\"b\",\"c\\n\\\\\",\"\\u0001\\u001f\\t\",\"é/x\"]");
    let mut none = vec![];
    let empty = AppEnv::new("/r".to_string(), vec![], &mut none);
    assert_eq!(electrico::node::start_args_reply(&empty).body, b"[]".to_vec());
}
