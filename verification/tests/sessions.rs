use scrap_wayland::capturable::PipeWireCapturable;
use scrap_wayland::display::{Displays, WaylandDisplayInfo};
use scrap_wayland::errors::DBusError;
use scrap_wayland::server::{
    is_hyprland_session, is_server_running, needs_detection, process_list_command,
    set_server_running, shows_server,
};
use scrap_wayland::session::{
    append_held_extra_grants, capturables_from_session, close_session,
    extend_with_additional_grants, get_capturables, hold_monitor_sessions, hold_session,
    is_rdp_session_hold, new_rdp_session, plan_acquisition, settle_capturables,
    take_additional_grant, take_monitor_sessions, try_close_session, Acquisition, CaptureState, RdpSessionInfo,
};
use scrap_wayland::stream::PwStreamInfo;

fn stream(path: u64) -> PwStreamInfo {
    PwStreamInfo {
        path,
        source_type: 1,
        position: (path as i32, 0),
        size: (100, 50),
        mapping_id: None,
    }
}

fn session(id: u64, paths: &[u64], restorable: bool) -> RdpSessionInfo {
    new_rdp_session(
        id,
        paths.iter().map(|p| stream(*p)).collect(),
        format!("/session/{}", id),
        restorable,
    )
}

fn display(name: &str, x: i32, width: i32, height: i32) -> WaylandDisplayInfo {
    WaylandDisplayInfo { name: name.to_string(), x, y: 0, width, height, logical_size: None }
}

fn paths(capturables: &[PipeWireCapturable]) -> Vec<u64> {
    capturables.iter().map(|c| c.path).collect()
}

#[test]
fn closing_forgets_everything() {
    let mut state = CaptureState::new();
    assert!(!is_rdp_session_hold(&state));
    hold_monitor_sessions(&mut state, session(1, &[1], true), vec![session(2, &[2], true)]);
    state.has_position_attr = true;
    state.server_running = Some(true);
    assert!(is_rdp_session_hold(&state));
    assert!(state.tried_additional_grants);
    close_session(&mut state);
    assert!(!is_rdp_session_hold(&state));
    assert!(state.extras.is_empty());
    assert!(!state.has_position_attr);
    assert!(!state.tried_additional_grants);
    assert_eq!(state.server_running, Some(true));
}

#[test]
fn session_is_closed_where_it_can_be_restored() {
    let mut state = CaptureState::new();
    assert!(!try_close_session(&mut state, true, false));
    hold_session(&mut state, session(1, &[1], false));
    assert!(!try_close_session(&mut state, true, false));
    hold_session(&mut state, session(1, &[1], true));
    assert!(!try_close_session(&mut state, false, false));
    assert!(is_rdp_session_hold(&state));
    assert!(try_close_session(&mut state, true, false));
    assert!(!is_rdp_session_hold(&state));
}

#[test]
fn session_is_kept_on_hyprland() {
    let mut state = CaptureState::new();
    hold_session(&mut state, session(1, &[1], true));
    assert!(!try_close_session(&mut state, true, true));
    assert!(is_rdp_session_hold(&state));
    // The next peer is served from it.
    assert_eq!(plan_acquisition(&state, true, true), Acquisition::Held);
}

#[test]
fn capturables_of_a_session() {
    let mut info = session(3, &[7, 8, 9], true);
    let probed = vec![Some((200, 100)), None];
    let capturables = capturables_from_session(&mut info, &probed, true, false);
    assert_eq!(paths(&capturables), vec![7, 8, 9]);
    assert_eq!(capturables[0].physical_size, (200, 100));
    assert_eq!(capturables[1].physical_size, (100, 50));
    assert_eq!(capturables[2].physical_size, (100, 50));
    assert!(capturables.iter().all(|c| c.session == 3 && c.crop.is_none()));
    assert_eq!(info.resolution, Some((100, 50)));
    let mut empty = session(4, &[], true);
    assert!(capturables_from_session(&mut empty, &probed, true, false).is_empty());
    assert_eq!(empty.resolution, None);
}

#[test]
fn extra_sessions_are_appended() {
    let mut info = session(1, &[1], true);
    let mut capturables = capturables_from_session(&mut info, &vec![], true, false);
    let mut extras = vec![session(2, &[2, 3], true), session(3, &[4], true)];
    append_held_extra_grants(
        &mut capturables,
        &mut extras,
        &vec![vec![None, Some((9, 9))]],
        true,
        false,
    );
    assert_eq!(paths(&capturables), vec![1, 2, 3, 4]);
    assert_eq!(capturables[2].physical_size, (9, 9));
    assert_eq!(extras[0].resolution, Some((9, 9)));
    assert_eq!(extras[1].resolution, Some((100, 50)));
}

#[test]
fn more_grants_are_requested_once() {
    let mut state = CaptureState::new();
    assert!(!extend_with_additional_grants(&mut state, 1, 2, true, false));
    assert!(!extend_with_additional_grants(&mut state, 1, 2, false, true));
    assert!(!state.tried_additional_grants);
    assert!(extend_with_additional_grants(&mut state, 1, 2, true, true));
    assert!(!extend_with_additional_grants(&mut state, 1, 2, true, true));
    let mut state = CaptureState::new();
    assert!(!extend_with_additional_grants(&mut state, 2, 2, true, true));
    assert!(state.tried_additional_grants);
}

#[test]
fn additional_grants_are_taken() {
    let mut state = CaptureState::new();
    let mut capturables = vec![];
    assert!(take_additional_grant(
        &mut state,
        &mut capturables,
        Some(session(2, &[2], true)),
        &vec![],
        3,
        true,
        true
    ));
    assert_eq!(paths(&capturables), vec![2]);
    assert_eq!(state.extras.len(), 1);
    assert!(!take_additional_grant(
        &mut state,
        &mut capturables,
        Some(session(3, &[3, 4], true)),
        &vec![],
        3,
        true,
        true
    ));
    assert_eq!(paths(&capturables), vec![2, 3, 4]);
    assert_eq!(state.extras.len(), 2);
    assert!(!take_additional_grant(&mut state, &mut capturables, None, &vec![], 9, true, true));
    assert!(!take_additional_grant(
        &mut state,
        &mut capturables,
        Some(session(5, &[], true)),
        &vec![],
        9,
        true,
        true
    ));
    assert_eq!(state.extras.len(), 2);
}

#[test]
fn acquisition_is_planned() {
    let mut state = CaptureState::new();
    assert_eq!(plan_acquisition(&state, true, true), Acquisition::PerMonitor);
    assert_eq!(plan_acquisition(&state, true, false), Acquisition::Single);
    assert_eq!(plan_acquisition(&state, false, true), Acquisition::Single);
    hold_session(&mut state, session(1, &[1], true));
    assert_eq!(plan_acquisition(&state, true, true), Acquisition::Held);
}

#[test]
fn failed_collection_leads_to_one_request() {
    let mut state = CaptureState::new();
    let failed = Err(DBusError("No Wayland displays to capture".to_string()));
    assert_eq!(take_monitor_sessions(&mut state, failed), Acquisition::Single);
    assert!(!is_rdp_session_hold(&state));
    assert!(!state.tried_additional_grants);
    let outcome = Ok((session(1, &[1], true), vec![session(2, &[2], true)]));
    assert_eq!(take_monitor_sessions(&mut state, outcome), Acquisition::Held);
    assert_eq!(state.primary.as_ref().unwrap().id, 1);
    assert_eq!(state.extras.iter().map(|e| e.id).collect::<Vec<_>>(), vec![2]);
    assert!(state.tried_additional_grants);
}

#[test]
fn capturables_of_all_sessions() {
    let mut state = CaptureState::new();
    let e = get_capturables(&mut state, &vec![], &vec![], true, false).unwrap_err();
    assert_eq!(e.0, "RDP response is None.");
    hold_monitor_sessions(&mut state, session(1, &[1], true), vec![session(2, &[2], true)]);
    let capturables = get_capturables(
        &mut state,
        &vec![Some((7, 7))],
        &vec![vec![Some((8, 8))]],
        true,
        false,
    )
    .unwrap();
    assert_eq!(paths(&capturables), vec![1, 2]);
    assert_eq!(capturables[0].physical_size, (7, 7));
    assert_eq!(capturables[1].physical_size, (8, 8));
    assert_eq!(state.primary.as_ref().unwrap().resolution, Some((7, 7)));
    assert_eq!(state.extras[0].resolution, Some((8, 8)));
}

#[test]
fn desktop_stream_is_settled() {
    let displays = Displays {
        primary: 0,
        displays: vec![display("a", 0, 60, 50), display("b", 60, 40, 50)],
    };
    let mut info = session(1, &[1], true);
    let one = capturables_from_session(&mut info, &vec![], true, false);
    let parts = settle_capturables(one.clone(), &displays, false);
    assert_eq!(parts.len(), 2);
    assert_eq!(parts[0].crop, Some((0, 0, 60, 50)));
    assert_eq!(parts[1].crop, Some((60, 0, 40, 50)));
    assert_eq!(settle_capturables(one.clone(), &displays, true).len(), 1);
    let two = vec![one[0], one[0]];
    let kept = settle_capturables(two, &displays, false);
    assert!(kept.len() == 2 && kept[0].crop.is_none());
}

#[test]
fn server_is_found_among_processes() {
    assert_eq!(process_list_command("RustDesk"), "ps aux | grep rustdesk");
    assert_eq!(process_list_command("\u{c9}T\u{c9}"), "ps aux | grep \u{e9}t\u{e9}");
    assert!(shows_server("root 1 /usr/bin/rustdesk --server\n", "rustdesk"));
    assert!(!shows_server("root 1 /usr/bin/rustdesk --service\n", "rustdesk"));
    assert!(!shows_server("root 1 /usr/bin/rustdesk  --server\n", "rustdesk"));
}

#[test]
fn server_state_is_noted() {
    let mut state = CaptureState::new();
    assert!(!is_server_running(&mut state, "rustdesk", None));
    assert_eq!(state.server_running, None);
    let mut list = b"\xff\xfe ".to_vec();
    list.extend_from_slice(b"rustdesk --server");
    assert!(is_server_running(&mut state, "rustdesk", Some(&list)));
    assert_eq!(state.server_running, Some(true));
    assert!(is_server_running(&mut state, "rustdesk", Some(&vec![])));
    set_server_running(&mut state, false);
    assert!(!is_server_running(&mut state, "rustdesk", Some(&list)));
    // Bytes that are no text are replaced, not dropped.
    let mut state = CaptureState::new();
    let broken = b"rustdesk\xff --server".to_vec();
    assert!(!is_server_running(&mut state, "rustdesk", Some(&broken)));
    assert_eq!(state.server_running, Some(false));
    let mut state = CaptureState::new();
    assert!(is_server_running(&mut state, "rustdesk\u{fffd}", Some(&broken)));
}

#[test]
fn hyprland_is_recognised() {
    assert!(is_hyprland_session(true, None, false));
    assert!(is_hyprland_session(false, Some("HYPRland"), false));
    assert!(is_hyprland_session(false, Some("wlroots:Hyprland"), false));
    assert!(is_hyprland_session(false, Some("GNOME"), true));
    assert!(!is_hyprland_session(false, Some("KDE"), false));
    assert!(!is_hyprland_session(false, None, false));
    assert!(needs_detection(false, Some("KDE")));
    assert!(needs_detection(false, None));
    assert!(!needs_detection(false, Some("Hyprland")));
    assert!(!needs_detection(true, None));
}
