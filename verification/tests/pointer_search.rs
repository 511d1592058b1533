use scrap_wayland::capturable::{Display, PipeWireCapturable};
use scrap_wayland::display::{Displays, WaylandDisplayInfo};
use scrap_wayland::recorder::PixelProvider;
use scrap_wayland::search::{frame_of, probe_point, CursorSearch, Frame, ProbeAction};
use scrap_wayland::stream::PwStreamInfo;

fn display(x: i32, width: i32) -> WaylandDisplayInfo {
    WaylandDisplayInfo { name: String::new(), x, y: 20, width, height: 10, logical_size: None }
}

fn layout() -> Displays {
    Displays { primary: 0, displays: vec![display(0, 100), display(100, 50), display(150, 100)] }
}

fn shared(path: u64, width: usize) -> Display {
    Display::WAYLAND(PipeWireCapturable {
        session: 1,
        path,
        source_type: 1,
        crop: None,
        primary: false,
        position: (-1, -1),
        logical_size: (width, 10),
        physical_size: (width, 10),
    })
}

fn stream(path: u64) -> PwStreamInfo {
    PwStreamInfo { path, source_type: 1, position: (-1, -1), size: (4, 4), mapping_id: None }
}

fn frame(is_bgr: bool, value: u8) -> Option<Frame> {
    Some(Frame { is_bgr, width: 4, pixels: vec![value; 64] })
}

struct Scene {
    shared: Vec<Display>,
    streams: Vec<PwStreamInfo>,
    cursor_streams: Vec<PwStreamInfo>,
    search: CursorSearch,
}

impl Scene {
    fn new(widths: &[usize], indices: Vec<usize>) -> Scene {
        Scene {
            shared: widths.iter().enumerate().map(|(i, w)| shared(i as u64, *w)).collect(),
            streams: (0..widths.len()).map(|i| stream(i as u64)).collect(),
            cursor_streams: (0..widths.len()).map(|i| stream(i as u64 + 70)).collect(),
            search: CursorSearch::new(indices),
        }
    }

    fn next(&mut self) -> ProbeAction {
        self.search.next_action(
            33,
            &self.cursor_streams,
            &layout(),
            &mut self.shared,
            &mut self.streams,
        )
    }

    fn probe(&mut self, frame: Option<Frame>) {
        self.search.on_probe(&frame, &layout(), &mut self.shared, &mut self.streams);
    }

    fn places(&self) -> Vec<i32> {
        for (d, s) in self.shared.iter().zip(self.streams.iter()) {
            assert!(matches!(d, Display::WAYLAND(c) if c.position == s.position));
        }
        self.streams.iter().map(|s| s.position.0).collect()
    }
}

#[test]
fn pointer_tells_displays_apart() {
    let mut scene = Scene::new(&[100, 100], vec![0, 1]);
    match scene.next() {
        ProbeAction::Open(c) => {
            assert_eq!((c.session, c.path), (33, 70));
            assert_eq!(c.physical_size, (0, 0));
            assert_eq!(c.logical_size, (4, 4));
        }
        other => panic!("{:?}", other),
    }
    scene.search.on_baseline(frame(true, 0));
    assert!(matches!(scene.next(), ProbeAction::Probe(0)));
    scene.probe(frame(true, 0));
    assert!(matches!(scene.next(), ProbeAction::Probe(2)));
    scene.probe(frame(true, 9));
    // Only one display is left for the second stream.
    assert!(matches!(scene.next(), ProbeAction::Done));
    assert_eq!(scene.places(), vec![150, 0]);
    assert_eq!(scene.search.matched, vec![2, 0]);
}

#[test]
fn no_display_is_taken_twice() {
    let mut scene = Scene::new(&[100, 100, 100], vec![0, 1, 2]);
    assert!(matches!(scene.next(), ProbeAction::Open(_)));
    scene.search.on_baseline(frame(false, 0));
    assert!(matches!(scene.next(), ProbeAction::Probe(0)));
    scene.probe(frame(false, 1));
    assert!(matches!(scene.next(), ProbeAction::Done));
    assert_eq!(scene.places(), vec![0, 150, -1]);
    assert_eq!(scene.search.matched, vec![0, 2]);
}

#[test]
fn search_ends_without_a_result() {
    let mut scene = Scene::new(&[100, 100], vec![0, 1]);
    assert!(matches!(scene.next(), ProbeAction::Open(_)));
    scene.search.on_baseline(frame(true, 0));
    let mut probes = 0;
    while matches!(scene.next(), ProbeAction::Probe(_)) {
        // A missing frame, or one of another format, tells nothing.
        scene.probe(if probes == 0 { None } else { frame(false, 9) });
        probes += 1;
    }
    assert_eq!(probes, 2);
    match scene.next() {
        ProbeAction::Open(c) => assert_eq!(c.path, 71),
        other => panic!("{:?}", other),
    }
    scene.search.on_baseline(None);
    assert!(matches!(scene.next(), ProbeAction::Done));
    assert_eq!(scene.places(), vec![-1, -1]);
}

#[test]
fn displays_without_a_stream_are_left_alone() {
    let mut scene = Scene::new(&[100, 50, 7], vec![5, 2, 1, 0]);
    scene.cursor_streams.truncate(2);
    match scene.next() {
        ProbeAction::Open(c) => assert_eq!(c.path, 70),
        other => panic!("{:?}", other),
    }
    assert_eq!(scene.places(), vec![-1, 100, -1]);
    let mut scene = Scene::new(&[100], vec![0]);
    scene.shared[0] = Display::X11(0);
    assert!(matches!(scene.next(), ProbeAction::Done));
    let mut scene = Scene::new(&[100], vec![0]);
    scene.cursor_streams.clear();
    assert!(matches!(scene.next(), ProbeAction::Done));
}

#[test]
fn events_out_of_turn_change_nothing() {
    let mut scene = Scene::new(&[100, 100], vec![0]);
    scene.probe(frame(true, 9));
    assert_eq!(scene.places(), vec![-1, -1]);
    assert!(matches!(scene.next(), ProbeAction::Open(_)));
    scene.search.on_baseline(frame(true, 0));
    scene.search.on_baseline(None);
    assert!(matches!(scene.next(), ProbeAction::Probe(0)));
}

#[test]
fn frames_and_points() {
    let data = [1u8, 2, 3, 4];
    let f = frame_of(&PixelProvider::BGR0(1, 1, &data)).unwrap();
    assert!(f.is_bgr && f.width == 1 && f.pixels == data);
    assert!(!frame_of(&PixelProvider::RGB0(1, 1, &data)).unwrap().is_bgr);
    assert!(frame_of(&PixelProvider::NONE).is_none());
    assert_eq!(probe_point(&display(-5, 1)), (3, 28));
}
