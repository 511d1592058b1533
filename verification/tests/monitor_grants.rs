use scrap_wayland::display::{Displays, WaylandDisplayInfo};
use scrap_wayland::monitors::{build_hyprland_sessions, GrantOutcome, MonitorSessions};
use scrap_wayland::session::{new_rdp_session, RdpSessionInfo};
use scrap_wayland::stream::PwStreamInfo;
use scrap_wayland::tokens::TokenMap;

fn display(name: &str, width: i32) -> WaylandDisplayInfo {
    WaylandDisplayInfo { name: name.to_string(), x: 0, y: 0, width, height: 10, logical_size: None }
}

fn layout() -> Displays {
    Displays { primary: 0, displays: vec![display("A", 1), display("B", 2), display("C", 3)] }
}

fn grant(id: u64, width: usize) -> Option<RdpSessionInfo> {
    let stream = PwStreamInfo {
        path: id,
        source_type: 1,
        position: (0, 0),
        size: (width, 10),
        mapping_id: None,
    };
    Some(new_rdp_session(id, vec![stream], String::new(), true))
}

fn start(tokens: TokenMap) -> MonitorSessions {
    build_hyprland_sessions(&layout(), tokens).unwrap()
}

fn ask(sessions: &mut MonitorSessions) -> (String, Option<String>) {
    let request = sessions.next_request().unwrap();
    (request.monitor, request.token)
}

#[test]
fn no_displays_no_sessions() {
    let none = Displays { primary: 0, displays: vec![] };
    let e = build_hyprland_sessions(&none, TokenMap::new()).unwrap_err();
    assert_eq!(e.0, "No Wayland displays to capture");
}

#[test]
fn every_monitor_is_covered() {
    let d = layout();
    let mut s = start(TokenMap::new().insert("B", "tb"));
    assert_eq!(ask(&mut s), ("A".to_string(), None));
    assert!(matches!(s.on_grant(grant(1, 1), &d), GrantOutcome::Kept));
    assert_eq!(ask(&mut s), ("B".to_string(), Some("tb".to_string())));
    assert!(matches!(s.on_grant(grant(2, 2), &d), GrantOutcome::Kept));
    assert_eq!(s.uncovered(), vec!["C".to_string()]);
    assert_eq!(ask(&mut s), ("C".to_string(), None));
    assert!(matches!(s.on_grant(grant(3, 3), &d), GrantOutcome::Kept));
    assert!(s.next_request().is_none());
    assert!(s.uncovered().is_empty());
    let (primary, extras) = s.finish().unwrap();
    assert_eq!(primary.id, 1);
    assert_eq!(extras.iter().map(|e| e.id).collect::<Vec<_>>(), vec![2, 3]);
}

#[test]
fn another_grant_keeps_the_turn() {
    let d = layout();
    let mut s = start(TokenMap::new().insert("A", "ta"));
    assert_eq!(ask(&mut s), ("A".to_string(), Some("ta".to_string())));
    assert!(matches!(s.on_grant(grant(1, 2), &d), GrantOutcome::Kept));
    // The token restored another monitor: it is not offered again.
    assert_eq!(ask(&mut s), ("A".to_string(), None));
    match s.on_grant(grant(2, 2), &d) {
        GrantOutcome::Duplicate(info) => assert_eq!(info.id, 2),
        other => panic!("{:?}", other),
    }
    assert_eq!(ask(&mut s).0, "A");
}

#[test]
fn attempts_are_limited() {
    let d = layout();
    let mut s = start(TokenMap::new());
    let mut count = 0;
    while s.next_request().is_some() {
        let _ = s.on_grant(grant(count, 3), &d);
        count += 1;
    }
    assert_eq!(count, 6);
    assert_eq!(s.uncovered(), vec!["A".to_string(), "B".to_string()]);
    let (primary, extras) = s.finish().unwrap();
    assert_eq!(primary.id, 0);
    assert!(extras.is_empty());
}

#[test]
fn untold_grant_covers_the_requested() {
    let d = layout();
    let mut s = start(TokenMap::new());
    assert_eq!(ask(&mut s).0, "A");
    assert!(matches!(s.on_grant(grant(1, 99), &d), GrantOutcome::Kept));
    assert_eq!(ask(&mut s).0, "B");
}

#[test]
fn refusal_ends_the_requests() {
    let d = layout();
    let mut s = start(TokenMap::new());
    assert_eq!(ask(&mut s).0, "A");
    assert!(matches!(s.on_grant(None, &d), GrantOutcome::Stopped));
    assert!(s.next_request().is_none());
    assert_eq!(s.finish().unwrap_err().0, "Failed to obtain any Hyprland capture session");
    let mut s = start(TokenMap::new());
    assert_eq!(ask(&mut s).0, "A");
    assert!(matches!(s.on_grant(grant(1, 1), &d), GrantOutcome::Kept));
    assert_eq!(ask(&mut s).0, "B");
    let empty = Some(new_rdp_session(2, vec![], String::new(), true));
    assert!(matches!(s.on_grant(empty, &d), GrantOutcome::Stopped));
    assert!(s.next_request().is_none());
    assert_eq!(s.finish().unwrap().0.id, 1);
}
