use scrap_wayland::cache::PipewireDisplayOffsetCache;
use scrap_wayland::capturable::{
    division_is_representable, split_workspace_capturable, try_fix_logical_size, Display,
    PipeWireCapturable,
};
use scrap_wayland::display::{
    desktop_bounds, desktop_is_representable, find_named, find_placed, find_sized, Displays,
    WaylandDisplayInfo,
};
use scrap_wayland::recorder::{PipeWireRecorder, PixelProvider, Sample, SampleBuffer};
use scrap_wayland::stream::PwStreamInfo;

fn display(name: &str, x: i32, y: i32, width: i32, height: i32) -> WaylandDisplayInfo {
    WaylandDisplayInfo { name: name.to_string(), x, y, width, height, logical_size: None }
}

fn scaled(d: WaylandDisplayInfo, w: i32, h: i32) -> WaylandDisplayInfo {
    WaylandDisplayInfo { logical_size: Some((w, h)), ..d }
}

fn two_monitors() -> Displays {
    Displays {
        primary: 0,
        displays: vec![
            display("DP-3", 0, 1440, 3440, 1440),
            scaled(display("HDMI-A-1", 440, 0, 3840, 2160), 2560, 1440),
        ],
    }
}

fn whole(size: (usize, usize)) -> PipeWireCapturable {
    PipeWireCapturable {
        session: 9,
        path: 42,
        source_type: 1,
        crop: None,
        primary: false,
        position: (0, 0),
        logical_size: size,
        physical_size: size,
    }
}

#[test]
fn bounds_of_the_desktop() {
    let d = two_monitors();
    assert_eq!(desktop_bounds(&d.displays, false), Some((0, 0, 4280, 2880)));
    assert_eq!(desktop_bounds(&d.displays, true), Some((0, 0, 3440, 2880)));
    assert_eq!(desktop_bounds(&vec![], false), None);
    let negative = vec![display("a", -1920, -10, 1920, 1080), display("b", 0, 0, 800, 600)];
    assert_eq!(desktop_bounds(&negative, false), Some((-1920, -10, 2720, 1080)));
    assert_eq!(desktop_bounds(&vec![display("a", 0, 0, 0, 10)], false), None);
    assert!(desktop_is_representable(&negative, false));
    let far = vec![display("a", i32::MAX, 0, 1, 1)];
    assert!(!desktop_is_representable(&far, false));
}

#[test]
fn displays_are_found() {
    let d = two_monitors();
    assert_eq!(find_named(&d.displays, &"HDMI-A-1".to_string()), Some(1));
    assert_eq!(find_named(&d.displays, &"HDMI-A-2".to_string()), None);
    assert_eq!(find_sized(&d.displays, (3440, 1440)), Some(0));
    assert_eq!(find_sized(&d.displays, (2560, 1440)), None);
    assert_eq!(find_placed(&d.displays, (440, 0)), Some(1));
    assert_eq!(find_placed(&d.displays, (0, 440)), None);
    let twins = vec![display("a", 0, 0, 10, 10), display("b", 10, 0, 10, 10)];
    assert_eq!(find_sized(&twins, (10, 10)), Some(0));
}

#[test]
fn sizes_are_logical_where_known() {
    let d = two_monitors();
    assert_eq!(d.displays[0].size(true), (3440, 1440));
    assert_eq!(d.displays[1].size(true), (2560, 1440));
    assert_eq!(d.displays[1].size(false), (3840, 2160));
    assert!(d.displays[1].matches_pixels((3840, 2160)));
    assert!(!d.displays[1].matches_pixels((2560, 1440)));
}

#[test]
fn key_of_a_layout() {
    let d = two_monitors();
    assert_eq!(
        PipewireDisplayOffsetCache::displays_to_key(&d),
        "DP-3-0-1440-3440-1440;HDMI-A-1-440-0-3840-2160"
    );
    let none = Displays { primary: 0, displays: vec![] };
    assert_eq!(PipewireDisplayOffsetCache::displays_to_key(&none), "");
    let negative =
        Displays { primary: 0, displays: vec![display("a", i32::MIN, -5, 0, i32::MAX)] };
    assert_eq!(
        PipewireDisplayOffsetCache::displays_to_key(&negative),
        "a--2147483648--5-0-2147483647"
    );
}

#[test]
fn key_identifies_the_layout() {
    let a = Displays { primary: 0, displays: vec![display("a", 1, 23, 4, 5)] };
    let b = Displays { primary: 0, displays: vec![display("a", 12, 3, 4, 5)] };
    assert_ne!(
        PipewireDisplayOffsetCache::displays_to_key(&a),
        PipewireDisplayOffsetCache::displays_to_key(&b)
    );
}

#[test]
fn names_of_capturables() {
    let c = whole((10, 10));
    assert_eq!(c.name(), "Pipewire Desktop, path: 42");
    assert_eq!(
        PipeWireCapturable { source_type: 2, path: 0, ..c }.name(),
        "Pipewire Window, path: 0"
    );
    assert_eq!(
        PipeWireCapturable { source_type: 4, path: u64::MAX, ..c }.name(),
        "Pipewire Unknow, path: 18446744073709551615"
    );
}

#[test]
fn capturable_of_a_stream() {
    let stream = PwStreamInfo {
        path: 7,
        source_type: 1,
        position: (3, 4),
        size: (100, 50),
        mapping_id: None,
    };
    let mut resolution = None;
    let c = PipeWireCapturable::new(5, &mut resolution, &stream, true, false, Some((200, 100)));
    assert_eq!(c.physical_size, (200, 100));
    assert_eq!(c.logical_size, (100, 50));
    assert_eq!(c.position, (3, 4));
    assert_eq!((c.session, c.path, c.source_type, c.primary), (5, 7, 1, false));
    assert_eq!(resolution, Some((200, 100)));
    let c = PipeWireCapturable::new(5, &mut resolution, &stream, true, true, Some((200, 100)));
    assert_eq!(c.physical_size, (100, 50));
    assert_eq!(resolution, Some((100, 50)));
    let c = PipeWireCapturable::new(5, &mut resolution, &stream, false, false, None);
    assert_eq!(c.physical_size, (100, 50));
    assert!(PipeWireCapturable::probe(5, &stream, true, true).is_none());
    let probe = PipeWireCapturable::probe(5, &stream, false, true).unwrap();
    assert_eq!(probe.physical_size, (0, 0));
    assert_eq!(probe.path, 7);
}

#[test]
fn desktop_stream_is_divided_in_pixels() {
    let d = two_monitors();
    let c = whole((4280, 2880));
    assert!(division_is_representable(&c, &d));
    let parts = split_workspace_capturable(c, &d).unwrap();
    assert_eq!(parts.len(), 2);
    assert_eq!(parts[0].crop, Some((0, 1440, 3440, 1440)));
    assert_eq!(parts[0].position, (0, 1440));
    assert_eq!(parts[0].physical_size, (3440, 1440));
    assert_eq!(parts[0].logical_size, (3440, 1440));
    assert_eq!(parts[1].crop, Some((440, 0, 3840, 2160)));
    assert_eq!(parts[1].physical_size, (3840, 2160));
    assert_eq!(parts[1].logical_size, (2560, 1440));
    assert_eq!((parts[1].session, parts[1].path), (9, 42));
}

#[test]
fn desktop_stream_is_divided_in_logical_units() {
    let d = two_monitors();
    let parts = split_workspace_capturable(whole((3440, 2880)), &d).unwrap();
    assert_eq!(parts[0].crop, Some((0, 1440, 3440, 1440)));
    assert_eq!(parts[1].crop, Some((440, 0, 2560, 1440)));
    assert_eq!(parts[1].physical_size, (2560, 1440));
}

#[test]
fn parts_lie_inside_the_stream() {
    let d = two_monitors();
    let c = whole((4280, 2880));
    for part in split_workspace_capturable(c, &d).unwrap() {
        let (x, y, w, h) = part.crop.unwrap();
        assert!(x + w <= c.physical_size.0);
        assert!(y + h <= c.physical_size.1);
    }
}

#[test]
fn streams_that_are_not_divided() {
    let d = two_monitors();
    assert_eq!(
        split_workspace_capturable(whole((1920, 1080)), &d).unwrap_err().physical_size,
        (1920, 1080)
    );
    let part = PipeWireCapturable { crop: Some((0, 0, 1, 1)), ..whole((4280, 2880)) };
    assert!(split_workspace_capturable(part, &d).is_err());
    let one = Displays { primary: 0, displays: vec![display("a", 0, 0, 10, 10)] };
    assert!(split_workspace_capturable(whole((10, 10)), &one).is_err());
    let flat = Displays {
        primary: 0,
        displays: vec![display("a", 0, 0, 10, 10), display("b", 0, 0, 0, 10)],
    };
    assert!(split_workspace_capturable(whole((10, 10)), &flat).is_err());
    let far = Displays {
        primary: 0,
        displays: vec![display("a", i32::MIN, 0, 10, 10), display("b", i32::MAX - 10, 0, 10, 10)],
    };
    assert!(!division_is_representable(&whole((10, 10)), &far));
}

#[test]
fn logical_size_is_put_right() {
    let d = two_monitors();
    let c = PipeWireCapturable { position: (440, 0), ..whole((3840, 2160)) };
    let elsewhere = PipeWireCapturable { position: (441, 0), ..c };
    let other = PipeWireCapturable { physical_size: (3840, 2161), ..c };
    let mut shared = vec![
        Display::WAYLAND(c),
        Display::X11(3),
        Display::WAYLAND(elsewhere),
        Display::WAYLAND(other),
    ];
    try_fix_logical_size(&mut shared, &d, false);
    assert!(matches!(&shared[0], Display::WAYLAND(c) if c.logical_size == (3840, 2160)));
    try_fix_logical_size(&mut shared, &d, true);
    assert!(matches!(&shared[0], Display::WAYLAND(c) if c.logical_size == (2560, 1440)));
    assert!(matches!(&shared[1], Display::X11(3)));
    assert!(matches!(&shared[2], Display::WAYLAND(c) if c.logical_size == (3840, 2160)));
    assert!(matches!(&shared[3], Display::WAYLAND(c) if c.logical_size == (3840, 2160)));
    try_fix_logical_size(&mut shared, &d, true);
    assert!(matches!(&shared[0], Display::WAYLAND(c) if c.logical_size == (2560, 1440)));
}

#[test]
fn parts_can_be_cut_out() {
    let d = Displays {
        primary: 0,
        displays: vec![display("a", -3, 1, 3, 2), display("b", 0, 0, 2, 3)],
    };
    let mut data = Vec::new();
    for i in 0..15u8 {
        data.extend_from_slice(&[i, 0, 0, 0]);
    }
    let mut cut = Vec::new();
    for part in split_workspace_capturable(whole((5, 3)), &d).unwrap() {
        let mut recorder = PipeWireRecorder::new(&part);
        let sample = Sample {
            width: 5,
            height: 3,
            format: Some("BGRx".to_string()),
            crop_meta: None,
            buffer: SampleBuffer::Mapped(data.clone()),
        };
        match recorder.capture(Some(sample)) {
            Ok(PixelProvider::BGR0(_, _, pixels)) => {
                cut.push(pixels.iter().step_by(4).cloned().collect::<Vec<u8>>());
            }
            other => panic!("{:?}", other),
        }
    }
    assert_eq!(cut, vec![vec![5, 6, 7, 10, 11, 12], vec![3, 4, 8, 9, 13, 14]]);
}
