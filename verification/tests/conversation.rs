use scrap_wayland::display::{Displays, WaylandDisplayInfo};
use scrap_wayland::monitors::build_hyprland_sessions;
use scrap_wayland::portal::{
    finish_remote_desktop, get_request_path, get_sender_normalized, handle_response, is_settled,
    keep_waiting, note_failure, on_create_session_response, on_remote_opened, on_select_devices_response,
    on_select_sources_response, on_start_response, request_remote_desktop, session_handle_is_valid,
    supports_embedded_cursor, supports_restore_token, Method, Negotiation, Portal, PortalAction,
    PortalArg, PortalRequest, Response,
};
use scrap_wayland::stream::{Arg, PortalResults};
use scrap_wayland::tokens::{load_restore_tokens, LocalOptions};

const NAME: &str = ":1.42";

fn options() -> LocalOptions {
    LocalOptions {
        restore_token: "single".to_string(),
        restore_tokens: "{}".to_string(),
        display_offset: "o".to_string(),
    }
}

// The call among the actions of a step. One listens for its answer first.
fn call_of(actions: Vec<PortalAction>) -> PortalRequest {
    let mut actions = actions.into_iter();
    match (actions.next(), actions.next(), actions.next()) {
        (Some(PortalAction::Listen(method, path)), Some(PortalAction::Call(request)), None) => {
            assert_eq!(method, request.method);
            assert_eq!(path, request.response_path);
            request
        }
        other => panic!("{:?}", other),
    }
}

fn begin(
    version: u32,
    cursor: bool,
    token: Option<&str>,
    running: bool,
) -> (Negotiation, PortalRequest) {
    let (negotiation, actions) = request_remote_desktop(
        NAME.to_string(),
        Some(version),
        cursor,
        token.map(|t| t.to_string()),
        running,
        &mut options(),
    )
    .unwrap();
    (negotiation, call_of(actions))
}

fn nothing() -> Arg {
    Arg { uint: None, int: None, text: None, items: None }
}

fn text(t: &str) -> Arg {
    Arg { text: Some(t.to_string()), ..nothing() }
}

fn number(n: i64) -> Arg {
    Arg { uint: Some(n as u64), int: Some(n), ..nothing() }
}

fn list(items: Vec<Arg>) -> Arg {
    Arg { items: Some(items), ..nothing() }
}

fn created() -> PortalResults {
    PortalResults { entries: vec![("session_handle".to_string(), text("/session"))] }
}

fn granted(width: i64, token: Option<&str>) -> PortalResults {
    let size = list(vec![list(vec![number(width), number(10)])]);
    let stream = list(vec![number(5), list(vec![text("size"), size])]);
    let mut entries = vec![("streams".to_string(), list(vec![list(vec![stream])]))];
    if let Some(t) = token {
        entries.push(("restore_token".to_string(), text(t)));
    }
    PortalResults { entries }
}

fn monitors() -> Displays {
    let display = |name: &str, width: i32| WaylandDisplayInfo {
        name: name.to_string(),
        x: 0,
        y: 0,
        width,
        height: 10,
        logical_size: None,
    };
    Displays { primary: 0, displays: vec![display("DP-3", 1), display("HDMI-A-1", 2)] }
}

fn named<'a>(request: &'a PortalRequest, name: &str) -> Option<&'a PortalArg> {
    request.args.entries.iter().rev().find(|e| e.0 == name).map(|e| &e.1)
}

fn is_text(arg: Option<&PortalArg>, expected: &str) -> bool {
    matches!(arg, Some(PortalArg::Text(t)) if t == expected)
}

fn is_number(arg: Option<&PortalArg>, expected: u32) -> bool {
    matches!(arg, Some(PortalArg::Number(n)) if *n == expected)
}

#[test]
fn paths_of_requests() {
    assert_eq!(get_sender_normalized(":1.42"), "1_42");
    assert_eq!(get_sender_normalized("::a.b.c"), "a_b_c");
    assert_eq!(
        get_request_path(":1.42", "u1").unwrap(),
        "/org/freedesktop/portal/desktop/request/1_42/u1"
    );
    assert_ne!(get_request_path(NAME, "u1").unwrap(), get_request_path(NAME, "u2").unwrap());
    for (name, token) in [(":1.4-2", "u1"), (":", "u1"), (":1.42", ""), (":1.42", "u/"), (":1 2", "u1")] {
        assert_eq!(
            get_request_path(name, token).unwrap_err().0,
            "Failed to construct portal request path"
        );
    }
}

#[test]
fn capabilities_of_the_portal() {
    assert!(supports_restore_token(Some(4)));
    assert!(!supports_restore_token(Some(3)));
    assert!(!supports_restore_token(None));
    assert!(supports_embedded_cursor(Some(2)));
    assert!(supports_embedded_cursor(Some(7)));
    assert!(!supports_embedded_cursor(Some(5)));
    assert!(!supports_embedded_cursor(None));
}

#[test]
fn conversation_begins() {
    let (negotiation, request) = begin(4, false, None, true);
    assert!(negotiation.is_support_restore_token);
    assert!(!is_settled(&negotiation));
    assert_eq!(request.portal, Portal::ScreenCast);
    assert_eq!(request.method, Method::CreateSession);
    assert_eq!(request.response_path, "/org/freedesktop/portal/desktop/request/1_42/u1");
    assert!(request.session.is_none());
    assert!(is_text(named(&request, "session_handle_token"), "u1"));
    assert!(is_text(named(&request, "handle_token"), "u1"));
    assert_eq!(begin(4, false, None, false).1.portal, Portal::RemoteDesktop);
    let e = request_remote_desktop(
        "no name".to_string(),
        Some(4),
        false,
        None,
        true,
        &mut options(),
    )
    .unwrap_err();
    assert_eq!(e.0, "Failed to construct portal request path");
}

#[test]
fn tokens_are_forgotten_where_the_portal_knows_none() {
    let run = |version: Option<u32>, running: bool| {
        let mut o = options();
        let _ = request_remote_desktop(NAME.to_string(), version, false, None, running, &mut o);
        o.restore_token
    };
    assert_eq!(run(Some(3), true), "");
    assert_eq!(run(None, true), "");
    assert_eq!(run(Some(3), false), "single");
    assert_eq!(run(Some(4), true), "single");
}

#[test]
fn codes_of_responses() {
    let (mut negotiation, _) = begin(4, false, None, true);
    assert_eq!(handle_response(&mut negotiation, 0), Response::Proceed);
    assert!(!is_settled(&negotiation));
    assert_eq!(handle_response(&mut negotiation, 1), Response::Cancelled);
    assert!(is_settled(&negotiation));
    let (mut negotiation, _) = begin(4, false, None, true);
    assert_eq!(handle_response(&mut negotiation, 2), Response::Unknown(2));
    assert!(is_settled(&negotiation));
    let (mut negotiation, _) = begin(4, false, None, true);
    note_failure(&mut negotiation);
    assert!(is_settled(&negotiation));
}

#[test]
fn sources_are_chosen_while_the_server_runs() {
    let (mut negotiation, _) = begin(4, true, None, true);
    let request =
        call_of(on_create_session_response(&mut negotiation, &created(), "", true, false, "single", Some(3))
            .unwrap());
    assert_eq!(negotiation.session.as_deref(), Some("/session"));
    assert_eq!(request.portal, Portal::ScreenCast);
    assert_eq!(request.method, Method::SelectSources);
    assert_eq!(request.session.as_deref(), Some("/session"));
    assert!(request.response_path.ends_with("/u3"));
    assert!(is_text(named(&request, "restore_token"), "single"));
    assert!(is_number(named(&request, "persist_mode"), 2));
    assert!(is_number(named(&request, "types"), 1));
    assert!(is_number(named(&request, "cursor_mode"), 2));
    assert!(matches!(named(&request, "multiple"), Some(PortalArg::Flag(true))));
}

#[test]
fn hyprland_grants_one_monitor_at_a_time() {
    let (mut negotiation, _) = begin(4, false, None, true);
    let request =
        call_of(on_create_session_response(&mut negotiation, &created(), "", true, true, "single", Some(3))
            .unwrap());
    assert!(named(&request, "restore_token").is_none());
    assert!(is_number(named(&request, "persist_mode"), 2));
    assert!(named(&request, "cursor_mode").is_none());
    assert!(matches!(named(&request, "multiple"), Some(PortalArg::Flag(false))));
}

#[test]
fn explicit_token_comes_first() {
    let (mut negotiation, _) = begin(4, false, Some("mine"), true);
    let request =
        call_of(on_create_session_response(&mut negotiation, &created(), "", true, false, "single", None)
            .unwrap());
    assert!(is_text(named(&request, "restore_token"), "mine"));
    let (mut negotiation, _) = begin(4, false, Some(""), true);
    let request =
        call_of(on_create_session_response(&mut negotiation, &created(), "", true, false, "single", None)
            .unwrap());
    assert!(is_text(named(&request, "restore_token"), "single"));
    let (mut negotiation, _) = begin(3, false, Some("mine"), true);
    let request =
        call_of(on_create_session_response(&mut negotiation, &created(), "", true, false, "single", None)
            .unwrap());
    assert!(named(&request, "restore_token").is_none());
    assert!(named(&request, "persist_mode").is_none());
}

#[test]
fn devices_are_chosen_without_a_server() {
    let (mut negotiation, _) = begin(4, false, None, false);
    let request =
        call_of(on_create_session_response(&mut negotiation, &created(), "", false, false, "", None).unwrap());
    assert_eq!(request.portal, Portal::RemoteDesktop);
    assert_eq!(request.method, Method::SelectDevices);
    assert!(is_number(named(&request, "types"), 7));
    let request = call_of(on_select_devices_response(&negotiation, false).unwrap());
    assert_eq!(request.portal, Portal::ScreenCast);
    assert_eq!(request.method, Method::SelectSources);
    assert!(named(&request, "multiple").is_none());
    assert!(is_number(named(&request, "types"), 1));
    let request = call_of(on_select_sources_response(&negotiation, false).unwrap());
    assert_eq!(request.portal, Portal::RemoteDesktop);
    assert_eq!(request.method, Method::Start);
    assert!(is_text(named(&request, "handle_token"), "u4"));
    let request = call_of(on_select_sources_response(&negotiation, true).unwrap());
    assert_eq!(request.portal, Portal::ScreenCast);
}

#[test]
fn sessions_without_a_handle() {
    let (mut negotiation, _) = begin(4, false, None, true);
    let none = PortalResults { entries: vec![] };
    let e = on_create_session_response(&mut negotiation, &none, "R", true, false, "", None)
        .unwrap_err();
    assert_eq!(e.0, "Failed to obtain session_handle from response: R");
    let odd = PortalResults { entries: vec![("session_handle".to_string(), number(1))] };
    let e =
        on_create_session_response(&mut negotiation, &odd, "R", true, false, "", None).unwrap_err();
    assert_eq!(e.0, "Failed to convert session_handle to string.");
    assert!(negotiation.session.is_none());
}

#[test]
fn grant_is_restored_by_monitor() {
    let (mut negotiation, _) = begin(4, false, None, true);
    let mut o = options();
    let mut has_position = false;
    on_start_response(
        &mut negotiation,
        &granted(2, Some("tok")),
        &monitors(),
        &mut o,
        &mut has_position,
        true,
        true,
    );
    assert_eq!(o.restore_token, "single");
    assert_eq!(o.restore_tokens, r#"{"HDMI-A-1":"tok"}"#);
    assert!(!has_position);
    // After a restart, the first request for the monitor carries the token.
    let mut sessions = build_hyprland_sessions(&monitors(), load_restore_tokens(&o)).unwrap();
    assert!(sessions.next_request().unwrap().token.is_none());
    let (mut again, _) = begin(4, false, None, true);
    on_start_response(&mut again, &granted(1, None), &monitors(), &mut o, &mut has_position, true, true);
    on_create_session_response(&mut again, &created(), "", true, true, "", None).unwrap();
    on_remote_opened(&mut again, true);
    let first = finish_remote_desktop(again, 1).unwrap();
    let _ = sessions.on_grant(Some(first), &monitors());
    let request = sessions.next_request().unwrap();
    assert_eq!(request.monitor, "HDMI-A-1");
    assert_eq!(request.token.as_deref(), Some("tok"));
}

#[test]
fn grant_is_restored_by_the_single_token() {
    let (mut negotiation, _) = begin(4, false, None, true);
    let mut o = options();
    let mut has_position = false;
    on_start_response(
        &mut negotiation,
        &granted(2, Some("tok")),
        &monitors(),
        &mut o,
        &mut has_position,
        true,
        false,
    );
    assert_eq!(o.restore_token, "tok");
    assert_eq!(o.restore_tokens, "{}");
    on_start_response(
        &mut negotiation,
        &granted(2, None),
        &monitors(),
        &mut o,
        &mut has_position,
        true,
        false,
    );
    assert_eq!(o.restore_token, "");
    assert_eq!(o.display_offset, "");
    assert_eq!(negotiation.streams.len(), 2);
    let mut o = options();
    on_start_response(
        &mut negotiation,
        &granted(2, Some("tok")),
        &monitors(),
        &mut o,
        &mut has_position,
        false,
        false,
    );
    assert_eq!(o.restore_token, "single");
}

#[test]
fn conversation_ends() {
    let ready = || {
        let (mut negotiation, _) = begin(4, false, None, true);
        on_create_session_response(&mut negotiation, &created(), "", true, false, "", None).unwrap();
        on_start_response(
            &mut negotiation,
            &granted(2, None),
            &monitors(),
            &mut options(),
            &mut false,
            true,
            false,
        );
        negotiation
    };
    let mut negotiation = ready();
    on_remote_opened(&mut negotiation, true);
    assert!(is_settled(&negotiation));
    let info = finish_remote_desktop(negotiation, 12).unwrap();
    assert_eq!(info.id, 12);
    assert_eq!(info.session, "/session");
    assert_eq!(info.streams.len(), 1);
    assert!(info.is_support_restore_token);
    let mut negotiation = ready();
    on_remote_opened(&mut negotiation, false);
    assert!(is_settled(&negotiation));
    let e = finish_remote_desktop(negotiation, 12).unwrap_err();
    assert!(e.0.starts_with("Failed to obtain screen capture."));
    let (mut negotiation, _) = begin(4, false, None, true);
    on_remote_opened(&mut negotiation, true);
    assert!(finish_remote_desktop(negotiation, 12).is_err());
}

#[test]
fn handles_of_sessions() {
    let answer = |t: Arg| PortalResults { entries: vec![("session_handle".to_string(), t)] };
    assert!(session_handle_is_valid(&created()));
    assert!(session_handle_is_valid(&answer(text("/a/b_1/C"))));
    assert!(session_handle_is_valid(&answer(text("/"))));
    assert!(session_handle_is_valid(&answer(number(1))));
    assert!(session_handle_is_valid(&PortalResults { entries: vec![] }));
    for handle in ["", "a", "/a/", "//a", "/a-b", "/\u{e9}"] {
        assert!(!session_handle_is_valid(&answer(text(handle))));
    }
}

#[test]
fn refusal_gives_no_session() {
    let (mut negotiation, _) = begin(4, false, None, true);
    on_create_session_response(&mut negotiation, &created(), "", true, false, "", None).unwrap();
    assert_eq!(handle_response(&mut negotiation, 1), Response::Cancelled);
    assert!(is_settled(&negotiation));
    assert!(finish_remote_desktop(negotiation, 1).is_err());
}

#[test]
fn answer_is_awaited_for_a_while() {
    let (mut negotiation, _) = begin(4, false, None, true);
    assert!(keep_waiting(&negotiation, 0));
    assert!(keep_waiting(&negotiation, 1799));
    assert!(!keep_waiting(&negotiation, 1800));
    handle_response(&mut negotiation, 1);
    assert!(!keep_waiting(&negotiation, 1));
    let (mut negotiation, _) = begin(4, false, None, true);
    on_remote_opened(&mut negotiation, true);
    assert!(!keep_waiting(&negotiation, 1));
}

#[test]
fn one_listens_before_the_call() {
    let (mut negotiation, _) = begin(4, false, None, true);
    on_create_session_response(&mut negotiation, &created(), "", true, true, "", None).unwrap();
    let actions = on_select_sources_response(&negotiation, true).unwrap();
    assert_eq!(actions.len(), 2);
    match &actions[0] {
        PortalAction::Listen(Method::Start, path) => {
            assert_eq!(path, "/org/freedesktop/portal/desktop/request/1_42/u4");
        }
        other => panic!("{:?}", other),
    }
    match &actions[1] {
        PortalAction::Call(request) => {
            assert_eq!(request.portal, Portal::ScreenCast);
            assert_eq!(request.method, Method::Start);
            assert_eq!(request.session.as_deref(), Some("/session"));
            assert_eq!(request.args.entries.len(), 1);
            assert!(is_text(named(request, "handle_token"), "u4"));
        }
        other => panic!("{:?}", other),
    }
}
