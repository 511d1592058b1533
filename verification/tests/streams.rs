use scrap_wayland::display::{Displays, WaylandDisplayInfo};
use scrap_wayland::stream::{
    monitor_name_for_streams, stamp_hyprland_stream_positions, streams_from_response, Arg,
    PortalResults, PwStreamInfo,
};

fn nothing() -> Arg {
    Arg { uint: None, int: None, text: None, items: None }
}

fn number(n: i64) -> Arg {
    Arg { uint: Some(n as u64), int: Some(n), text: None, items: None }
}

fn text(t: &str) -> Arg {
    Arg { text: Some(t.to_string()), ..nothing() }
}

fn list(items: Vec<Arg>) -> Arg {
    Arg { items: Some(items), ..nothing() }
}

// A variant holds one value; a variant with a pair holds the list of the two numbers.
fn pair(a: i64, b: i64) -> Arg {
    list(vec![list(vec![number(a), number(b)])])
}

fn response(streams: Vec<Arg>) -> PortalResults {
    PortalResults { entries: vec![("streams".to_string(), list(vec![list(streams)]))] }
}

fn display(name: &str, x: i32, y: i32, width: i32, height: i32) -> WaylandDisplayInfo {
    WaylandDisplayInfo { name: name.to_string(), x, y, width, height, logical_size: None }
}

fn monitors() -> Displays {
    Displays {
        primary: 0,
        displays: vec![
            display("DP-3", 0, 1440, 3440, 1440),
            display("HDMI-A-1", 440, 0, 3840, 2160),
        ],
    }
}

fn stream(size: (usize, usize), mapping: Option<&str>) -> PwStreamInfo {
    PwStreamInfo {
        path: 1,
        source_type: 1,
        position: (0, 0),
        size,
        mapping_id: mapping.map(|m| m.to_string()),
    }
}

#[test]
fn streams_are_read() {
    let a = list(vec![
        number(11),
        list(vec![
            text("source_type"),
            number(1),
            text("size"),
            pair(1920, 1080),
            text("position"),
            pair(-5, 7),
            text("mapping_id"),
            text("DP-3"),
        ]),
    ]);
    let b = list(vec![number(12), list(vec![text("size"), pair(800, 600)])]);
    let mut has_position = false;
    let streams = streams_from_response(&response(vec![a, b]), &mut has_position);
    assert!(has_position);
    assert_eq!(streams.len(), 2);
    assert_eq!(streams[0].path, 11);
    assert_eq!(streams[0].source_type, 1);
    assert_eq!(streams[0].get_size(), (1920, 1080));
    assert_eq!(streams[0].get_position(), (-5, 7));
    assert_eq!(streams[0].mapping_id.as_deref(), Some("DP-3"));
    assert_eq!(streams[1].path, 12);
    assert_eq!(streams[1].source_type, 0);
    assert_eq!(streams[1].get_size(), (800, 600));
    assert_eq!(streams[1].get_position(), (0, 0));
    assert!(streams[1].mapping_id.is_none());
}

#[test]
fn positions_are_told_or_not() {
    let b = list(vec![number(12), list(vec![text("size"), pair(800, 600)])]);
    let mut has_position = false;
    assert_eq!(streams_from_response(&response(vec![b]), &mut has_position).len(), 1);
    assert!(!has_position);
    has_position = true;
    assert_eq!(streams_from_response(&response(vec![]), &mut has_position).len(), 0);
    assert!(has_position);
}

#[test]
fn odd_streams_are_left_out() {
    let no_size = list(vec![number(1), list(vec![text("source_type"), number(1)])]);
    let bad_kind = list(vec![
        number(1),
        list(vec![text("source_type"), text("x"), text("size"), pair(1, 1)]),
    ]);
    let bad_size = list(vec![number(1), list(vec![text("size"), number(3)])]);
    let bad_position = list(vec![
        number(1),
        list(vec![text("size"), pair(1, 1), text("position"), number(3)]),
    ]);
    let no_node = list(vec![text("x"), list(vec![text("size"), pair(1, 1)])]);
    let short = list(vec![number(1)]);
    let triple = list(vec![
        number(9),
        list(vec![
            text("size"),
            list(vec![list(vec![number(1), number(2), number(3)])]),
        ]),
    ]);
    let mut has_position = false;
    let streams = streams_from_response(
        &response(vec![no_size, bad_kind, bad_size, bad_position, no_node, short, triple]),
        &mut has_position,
    );
    assert_eq!(streams.len(), 1);
    assert_eq!(streams[0].path, 9);
    assert_eq!(streams[0].size, (0, 0));
    assert!(!has_position);
}

#[test]
fn responses_without_streams() {
    let mut has_position = false;
    let none = PortalResults { entries: vec![] };
    assert!(streams_from_response(&none, &mut has_position).is_empty());
    let odd = PortalResults { entries: vec![("streams".to_string(), number(1))] };
    assert!(streams_from_response(&odd, &mut has_position).is_empty());
    let empty = PortalResults { entries: vec![("streams".to_string(), list(vec![]))] };
    assert!(streams_from_response(&empty, &mut has_position).is_empty());
}

#[test]
fn later_result_counts() {
    let results = PortalResults {
        entries: vec![("a".to_string(), number(1)), ("a".to_string(), number(2))],
    };
    assert_eq!(results.get("a").unwrap().int, Some(2));
    assert!(results.get("b").is_none());
}

#[test]
fn monitor_of_a_stream() {
    let d = monitors();
    let by_size = vec![stream((3440, 1440), None)];
    assert_eq!(monitor_name_for_streams(&by_size, &d).as_deref(), Some("DP-3"));
    let by_mapping = vec![stream((3440, 1440), Some("HDMI-A-1")), stream((3440, 1440), None)];
    assert_eq!(monitor_name_for_streams(&by_mapping, &d).as_deref(), Some("HDMI-A-1"));
    let unknown_mapping = vec![stream((3840, 2160), Some("DP-9"))];
    assert_eq!(monitor_name_for_streams(&unknown_mapping, &d).as_deref(), Some("HDMI-A-1"));
    assert_eq!(monitor_name_for_streams(&vec![stream((1, 1), None)], &d), None);
    assert_eq!(monitor_name_for_streams(&vec![], &d), None);
}

#[test]
fn mapped_streams_are_stamped_on_hyprland() {
    let d = monitors();
    let mut streams = vec![
        stream((3840, 2160), Some("HDMI-A-1")),
        stream((3840, 2160), None),
        stream((3440, 1440), Some("DP-9")),
    ];
    stamp_hyprland_stream_positions(&mut streams, &d, false);
    assert_eq!(streams[0].position, (0, 0));
    stamp_hyprland_stream_positions(&mut streams, &d, true);
    assert_eq!(streams[0].position, (440, 0));
    assert_eq!(streams[1].position, (0, 0));
    assert_eq!(streams[2].position, (0, 0));
    stamp_hyprland_stream_positions(&mut streams, &d, true);
    assert_eq!(streams[0].position, (440, 0));
    assert_eq!(streams[0].clone().mapping_id.as_deref(), Some("HDMI-A-1"));
}
