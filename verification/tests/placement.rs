use scrap_wayland::cache::PipewireDisplayOffsetCache;
use scrap_wayland::capturable::{Display, PipeWireCapturable};
use scrap_wayland::display::{Displays, WaylandDisplayInfo};
use scrap_wayland::filling::{
    fill_displays, fill_multi_matched_positions, finish_displays, FillStep,
};
use scrap_wayland::positions::{
    match_positions_by_size, save_positions_to_cache, try_fill_positions,
    try_fill_positions_from_cache, Filled,
};
use scrap_wayland::session::{hold_session, new_rdp_session, CaptureState};
use scrap_wayland::sorting::sort_streams;
use scrap_wayland::stream::PwStreamInfo;
use scrap_wayland::tokens::LocalOptions;

fn display(name: &str, x: i32, width: i32) -> WaylandDisplayInfo {
    WaylandDisplayInfo { name: name.to_string(), x, y: 0, width, height: 10, logical_size: None }
}

// Two displays of one size and one of another.
fn layout() -> Displays {
    Displays {
        primary: 2,
        displays: vec![display("a", 0, 100), display("b", 100, 100), display("c", 200, 50)],
    }
}

fn shared(path: u64, x: i32, width: usize) -> Display {
    Display::WAYLAND(PipeWireCapturable {
        session: 1,
        path,
        source_type: 1,
        crop: None,
        primary: false,
        position: (x, 0),
        logical_size: (width, 10),
        physical_size: (width, 10),
    })
}

fn stream(path: u64, x: i32) -> PwStreamInfo {
    PwStreamInfo { path, source_type: 1, position: (x, 0), size: (0, 0), mapping_id: None }
}

fn places(displays: &[Display]) -> Vec<(u64, i32)> {
    displays
        .iter()
        .map(|d| match d {
            Display::WAYLAND(c) => (c.path, c.position.0),
            Display::X11(n) => (*n as u64, -1),
        })
        .collect()
}

fn stream_places(streams: &[PwStreamInfo]) -> Vec<(u64, i32)> {
    streams.iter().map(|s| (s.path, s.position.0)).collect()
}

fn options(token: &str, offsets: &str) -> LocalOptions {
    LocalOptions {
        restore_token: token.to_string(),
        restore_tokens: String::new(),
        display_offset: offsets.to_string(),
    }
}

#[test]
fn sizes_tell_places() {
    let mut displays = vec![shared(1, 7, 50), shared(2, 7, 100), Display::X11(4), shared(3, 7, 9)];
    let mut streams = vec![stream(1, 8)];
    let ambiguous = match_positions_by_size(&layout(), &mut displays, &mut streams);
    // Of several displays that fit the last one counts.
    assert_eq!(places(&displays), vec![(1, 200), (2, 100), (4, -1), (3, 7)]);
    assert_eq!(stream_places(&streams), vec![(1, 200)]);
    assert_eq!(ambiguous, vec![1]);
}

#[test]
fn saved_positions_are_restored() {
    let displays = vec![shared(1, 200, 50), shared(2, 0, 100)];
    let cache = save_positions_to_cache(&"tok".to_string(), &layout(), &displays).unwrap();
    assert_eq!(cache.restore_token, "tok");
    assert_eq!(cache.display_key, "a-0-0-100-10;b-100-0-100-10;c-200-0-50-10");
    assert_eq!(cache.offsets, vec![(200, 0), (0, 0)]);
    let cache = Some(cache);
    let mut later = vec![shared(1, 7, 50), shared(2, 7, 100)];
    let mut streams = vec![stream(1, 8), stream(2, 8), stream(3, 8)];
    assert!(try_fill_positions_from_cache(
        &cache,
        &"tok".to_string(),
        &layout(),
        &mut later,
        &mut streams
    ));
    assert_eq!(places(&later), places(&displays));
    assert_eq!(stream_places(&streams), vec![(1, 200), (2, 0), (3, 8)]);
}

#[test]
fn cache_that_does_not_fit_is_not_used() {
    let displays = vec![shared(1, 200, 50), shared(2, 0, 100)];
    let cache = save_positions_to_cache(&"tok".to_string(), &layout(), &displays);
    let mut attempt = |cache: &Option<PipewireDisplayOffsetCache>, token: &str, d: &Displays, n: usize| {
        let mut later: Vec<Display> = (0..n).map(|i| shared(i as u64, 7, 50)).collect();
        let r = try_fill_positions_from_cache(
            cache,
            &token.to_string(),
            d,
            &mut later,
            &mut vec![],
        );
        assert!(r || later.iter().all(|d| matches!(d, Display::WAYLAND(c) if c.position == (7, 0))));
        r
    };
    assert!(attempt(&cache, "tok", &layout(), 2));
    assert!(!attempt(&None, "tok", &layout(), 2));
    assert!(!attempt(&cache, "other", &layout(), 2));
    assert!(!attempt(&cache, "tok", &layout(), 1));
    let mut moved = layout();
    moved.displays[0].x = 1;
    assert!(!attempt(&cache, "tok", &moved, 2));
}

#[test]
fn nothing_is_saved_without_a_token() {
    assert!(save_positions_to_cache(&String::new(), &layout(), &vec![shared(1, 0, 50)]).is_none());
    let mixed = vec![Display::X11(1), shared(1, 5, 50)];
    let cache = save_positions_to_cache(&"t".to_string(), &layout(), &mixed).unwrap();
    assert_eq!(cache.offsets, vec![(5, 0)]);
}

#[test]
fn cache_comes_before_sizes() {
    let displays = vec![shared(1, 200, 50), shared(2, 0, 100)];
    let cache = save_positions_to_cache(&"tok".to_string(), &layout(), &displays);
    let fill = |o: &mut LocalOptions, hyprland: bool| {
        let mut later = vec![shared(1, 7, 50), shared(2, 7, 100)];
        let r = try_fill_positions(o, &cache, &layout(), &mut later, &mut vec![], hyprland);
        (r, places(&later))
    };
    let mut o = options("tok", "saved");
    let (r, p) = fill(&mut o, false);
    assert!(matches!(r, Filled::FromCache));
    assert_eq!(p, vec![(1, 200), (2, 0)]);
    assert_eq!(o.display_offset, "saved");
    let (r, p) = fill(&mut o, true);
    assert!(matches!(r, Filled::BySize(i) if i == vec![1]));
    assert_eq!(p, vec![(1, 200), (2, 100)]);
    assert_eq!(o.display_offset, "");
    let mut o = options("other", "saved");
    assert!(matches!(fill(&mut o, false).0, Filled::BySize(_)));
    assert_eq!(o.display_offset, "");
    assert_eq!(o.restore_token, "other");
    let mut o = options("tok", "");
    assert!(matches!(fill(&mut o, false).0, Filled::BySize(_)));
}

#[test]
fn streams_follow_the_display_order() {
    let mut displays = vec![shared(1, 100, 100), shared(2, 0, 100), shared(3, 200, 50)];
    let mut streams = vec![stream(1, 100), stream(2, 0), stream(3, 200)];
    sort_streams(&layout(), &mut displays, &mut streams);
    assert_eq!(places(&displays), vec![(3, 200), (2, 0), (1, 100)]);
    assert_eq!(stream_places(&streams), vec![(3, 200), (2, 0), (1, 100)]);
}

#[test]
fn partial_match_changes_nothing() {
    let mut displays = vec![shared(1, 100, 100), shared(2, 7, 100), shared(3, 200, 50)];
    let mut streams = vec![stream(1, 100), stream(2, 7), stream(3, 200)];
    sort_streams(&layout(), &mut displays, &mut streams);
    assert_eq!(places(&displays), vec![(1, 100), (2, 7), (3, 200)]);
    assert_eq!(stream_places(&streams), vec![(1, 100), (2, 7), (3, 200)]);
    // Two streams at one place: the second finds none.
    let mut displays = vec![shared(1, 200, 50), shared(2, 200, 50)];
    let mut streams = vec![stream(1, 200), stream(2, 200)];
    sort_streams(&layout(), &mut displays, &mut streams);
    assert_eq!(places(&displays), vec![(1, 200), (2, 200)]);
    assert_eq!(stream_places(&streams), vec![(1, 200), (2, 200)]);
    let mut none = vec![];
    let mut displays = vec![shared(1, 100, 100)];
    sort_streams(&layout(), &mut displays, &mut none);
    assert_eq!(displays.len(), 1);
    let odd = Displays { primary: 9, ..layout() };
    let mut displays = vec![shared(1, 100, 100), shared(2, 0, 100)];
    let mut streams = vec![stream(1, 100), stream(2, 0)];
    sort_streams(&odd, &mut displays, &mut streams);
    assert_eq!(stream_places(&streams), vec![(2, 0), (1, 100)]);
}

#[test]
fn finishing_keeps_all() {
    let mut state = held(vec![stream(1, 100), stream(2, 7), stream(3, 200)]);
    let mut displays = vec![shared(1, 100, 100), shared(2, 7, 100), shared(3, 200, 50)];
    finish_displays(&mut state, &layout(), &mut displays);
    assert_eq!(places(&displays), vec![(1, 100), (2, 7), (3, 200)]);
    assert_eq!(
        stream_places(&state.primary.as_ref().unwrap().streams),
        vec![(1, 100), (2, 7), (3, 200)]
    );
    assert!(matches!(&displays[0], Display::WAYLAND(c) if c.primary));
}

fn held(streams: Vec<PwStreamInfo>) -> CaptureState {
    let mut state = CaptureState::new();
    hold_session(&mut state, new_rdp_session(1, streams, String::new(), true));
    state
}

#[test]
fn displays_are_filled() {
    let mut state = held(vec![stream(1, 0), stream(2, 0)]);
    let mut displays = vec![shared(1, 0, 100), shared(2, 0, 50)];
    let mut o = options("", "");
    let step =
        fill_displays(&mut state, &mut o, &None, &layout(), &mut displays, true, false).unwrap();
    assert!(matches!(step, FillStep::Placed(i) if i == vec![0]));
    assert!(!state.has_position_attr);
    assert_eq!(places(&displays), vec![(1, 100), (2, 200)]);
    finish_displays(&mut state, &layout(), &mut displays);
    assert!(state.has_position_attr);
    assert_eq!(places(&displays), vec![(2, 200), (1, 100)]);
    assert_eq!(stream_places(&state.primary.as_ref().unwrap().streams), vec![(2, 200), (1, 100)]);
    assert!(matches!(&displays[0], Display::WAYLAND(c) if c.primary));
    assert!(matches!(&displays[1], Display::WAYLAND(c) if !c.primary));
    let step =
        fill_displays(&mut state, &mut o, &None, &layout(), &mut displays, true, false).unwrap();
    assert!(matches!(step, FillStep::Known));
}

#[test]
fn displays_that_need_no_filling() {
    let mut state = CaptureState::new();
    let mut displays = vec![shared(1, 3, 100)];
    let mut o = options("", "x");
    let e = fill_displays(&mut state, &mut o, &None, &layout(), &mut displays, true, false)
        .unwrap_err();
    assert_eq!(e, "RDP session info is None when filling display positions.");
    assert!(matches!(
        fill_displays(&mut state, &mut o, &None, &layout(), &mut displays, false, false),
        Ok(FillStep::Idle)
    ));
    finish_displays(&mut state, &layout(), &mut displays);
    assert!(!state.has_position_attr);
    let mut state = held(vec![stream(1, 3)]);
    let one = Displays { primary: 0, displays: vec![display("a", 0, 100)] };
    assert!(matches!(
        fill_displays(&mut state, &mut o, &None, &one, &mut displays, true, false),
        Ok(FillStep::Known)
    ));
    assert_eq!(o.display_offset, "x");
    finish_displays(&mut state, &one, &mut displays);
    assert_eq!(places(&displays), vec![(1, 3)]);
    assert!(matches!(&displays[0], Display::WAYLAND(c) if c.primary));
    assert!(state.has_position_attr);
}

#[test]
fn pointer_is_used_where_it_can_be_drawn() {
    assert!(fill_multi_matched_positions(&vec![0], Some(2)));
    assert!(!fill_multi_matched_positions(&vec![], Some(2)));
    assert!(!fill_multi_matched_positions(&vec![0], Some(1)));
    assert!(!fill_multi_matched_positions(&vec![0], None));
}
