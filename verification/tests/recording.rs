use scrap_wayland::capturable::PipeWireCapturable;
use scrap_wayland::recorder::{
    get_res, plan_pipeline, would_block_if_equal, PipeWireRecorder, PixelProvider, Sample, SampleBuffer,
};

fn capturable(crop: Option<(usize, usize, usize, usize)>) -> PipeWireCapturable {
    PipeWireCapturable {
        session: 1,
        path: 77,
        source_type: 1,
        crop,
        primary: false,
        position: (0, 0),
        logical_size: (4, 3),
        physical_size: (4, 3),
    }
}

// A frame in which each pixel holds its column and its row.
fn frame(w: usize, h: usize) -> Vec<u8> {
    let mut data = Vec::new();
    for y in 0..h {
        for x in 0..w {
            data.extend_from_slice(&[x as u8, y as u8, 0, 0]);
        }
    }
    data
}

fn sample(w: i32, h: i32, format: &str, data: Vec<u8>) -> Sample {
    Sample {
        width: w,
        height: h,
        format: Some(format.to_string()),
        crop_meta: None,
        buffer: SampleBuffer::Mapped(data),
    }
}

#[test]
fn new_recorder_is_empty() {
    let r = PipeWireRecorder::new(&capturable(Some((1, 1, 2, 2))));
    assert_eq!(r.node_id, 77);
    assert_eq!(r.crop, Some((1, 1, 2, 2)));
    assert!(r.buffer.is_none());
    assert_eq!((r.width, r.height), (0, 0));
}

#[test]
fn whole_frames_are_given_out() {
    let mut r = PipeWireRecorder::new(&capturable(None));
    let data = frame(4, 3);
    match r.capture(Some(sample(4, 3, "BGRx", data.clone()))) {
        Ok(PixelProvider::BGR0(4, 3, pixels)) => assert_eq!(pixels, &data[..]),
        other => panic!("{:?}", other),
    }
    match r.capture(Some(sample(3, 4, "RGBx", frame(3, 4)))) {
        Ok(PixelProvider::RGB0(3, 4, pixels)) => assert_eq!(pixels.len(), 48),
        other => panic!("{:?}", other),
    }
}

#[test]
fn repeated_frames_give_no_pixels() {
    let mut r = PipeWireRecorder::new(&capturable(None));
    let _ = r.capture(Some(sample(4, 3, "BGRx", frame(4, 3))));
    assert!(matches!(
        r.capture(Some(sample(4, 3, "BGRx", frame(4, 3)))),
        Ok(PixelProvider::NONE)
    ));
    r.forget_last();
    assert!(matches!(
        r.capture(Some(sample(4, 3, "BGRx", frame(4, 3)))),
        Ok(PixelProvider::BGR0(4, 3, _))
    ));
    assert!(matches!(r.capture(None), Ok(PixelProvider::NONE)));
}

#[test]
fn own_rectangle_is_cut_out() {
    let mut r = PipeWireRecorder::new(&capturable(Some((1, 1, 2, 2))));
    match r.capture(Some(sample(4, 3, "BGRx", frame(4, 3)))) {
        Ok(PixelProvider::BGR0(2, 2, pixels)) => {
            assert_eq!(pixels, &[1, 1, 0, 0, 2, 1, 0, 0, 1, 2, 0, 0, 2, 2, 0, 0][..]);
        }
        other => panic!("{:?}", other),
    }
}

#[test]
fn cropped_pixels_keep_their_place() {
    let (w, h) = (9, 7);
    let (x_off, y_off, w_crop, h_crop) = (3, 2, 4, 5);
    let data = frame(w, h);
    let mut r = PipeWireRecorder::new(&capturable(Some((x_off, y_off, w_crop, h_crop))));
    match r.capture(Some(sample(w as i32, h as i32, "RGBx", data.clone()))) {
        Ok(PixelProvider::RGB0(_, _, pixels)) => {
            for y in 0..h_crop {
                for x in 0..w_crop {
                    let to = 4 * (y * w_crop + x);
                    let from = 4 * ((y + y_off) * w + x + x_off);
                    assert_eq!(pixels[to..to + 4], data[from..from + 4]);
                }
            }
        }
        other => panic!("{:?}", other),
    }
}

#[test]
fn rectangle_of_the_sample_is_cut_out() {
    let mut r = PipeWireRecorder::new(&capturable(None));
    let s = Sample { crop_meta: Some((2, 0, 1, 3)), ..sample(4, 3, "BGRx", frame(4, 3)) };
    match r.capture(Some(s)) {
        Ok(PixelProvider::BGR0(1, 3, pixels)) => {
            assert_eq!(pixels, &[2, 0, 0, 0, 2, 1, 0, 0, 2, 2, 0, 0][..]);
        }
        other => panic!("{:?}", other),
    }
    r.forget_last();
    let s = Sample { crop_meta: Some((0, 0, 4, 3)), ..sample(4, 3, "BGRx", frame(4, 3)) };
    assert!(matches!(r.capture(Some(s)), Ok(PixelProvider::BGR0(4, 3, _))));
    assert!(!r.is_cropped);
}

#[test]
fn own_rectangle_comes_before_that_of_the_sample() {
    let mut r = PipeWireRecorder::new(&capturable(Some((0, 0, 1, 1))));
    let s = Sample { crop_meta: Some((2, 0, 1, 3)), ..sample(4, 3, "BGRx", frame(4, 3)) };
    assert!(matches!(r.capture(Some(s)), Ok(PixelProvider::BGR0(1, 1, _))));
}

#[test]
fn rectangle_that_leaves_the_frame_is_refused() {
    let mut r = PipeWireRecorder::new(&capturable(Some((3, 0, 2, 3))));
    let e = r.capture(Some(sample(4, 3, "BGRx", frame(4, 3)))).unwrap_err();
    assert_eq!(e.0, "Crop (3, 0, 2, 3) exceeds PipeWire frame size 4x3");
    let mut r = PipeWireRecorder::new(&capturable(Some((0, 1, 4, 3))));
    let e = r.capture(Some(sample(4, 3, "BGRx", frame(4, 3)))).unwrap_err();
    assert_eq!(e.0, "Crop (0, 1, 4, 3) exceeds PipeWire frame size 4x3");
}

#[test]
fn frame_of_the_wrong_size_is_dropped() {
    let mut r = PipeWireRecorder::new(&capturable(None));
    let e = r.capture(Some(sample(4, 4, "BGRx", frame(4, 3)))).unwrap_err();
    assert_eq!(e.0, "No buffer available!");
    let _ = r.capture(Some(sample(2, 1, "BGRx", frame(2, 1))));
    assert!(matches!(
        r.capture(Some(sample(4, 4, "BGRx", frame(4, 3)))),
        Ok(PixelProvider::BGR0(2, 1, _))
    ));
}

#[test]
fn samples_that_cannot_be_read() {
    let mut r = PipeWireRecorder::new(&capturable(None));
    let s = Sample { format: None, ..sample(4, 3, "BGRx", frame(4, 3)) };
    assert_eq!(r.capture(Some(s)).unwrap_err().0, "Failed to get pixel format");
    let s = Sample { buffer: SampleBuffer::Missing, ..sample(4, 3, "BGRx", vec![]) };
    assert_eq!(r.capture(Some(s)).unwrap_err().0, "Failed to get owned buffer.");
    let s = Sample { buffer: SampleBuffer::Unmappable, ..sample(4, 3, "BGRx", vec![]) };
    assert_eq!(r.capture(Some(s)).unwrap_err().0, "Failed to map buffer.");
    let s = sample(4, 3, "NV12", frame(4, 3));
    assert_eq!(r.capture(Some(s)).unwrap_err().0, "Unreachable! Unknown pix_fmt, NV12");
}

#[test]
fn frames_hold_whole_pixels() {
    let mut r = PipeWireRecorder::new(&capturable(Some((1, 0, 3, 2))));
    match r.capture(Some(sample(4, 3, "BGRx", frame(4, 3)))) {
        Ok(PixelProvider::BGR0(w, h, pixels)) => assert_eq!(pixels.len(), 4 * w * h),
        other => panic!("{:?}", other),
    }
}

#[test]
fn equal_bytes_block() {
    let mut saved = vec![1, 2, 3];
    assert!(would_block_if_equal(&mut saved, &vec![1, 2, 3]));
    assert!(!would_block_if_equal(&mut saved, &vec![1, 2]));
    assert_eq!(saved, vec![1, 2]);
    assert!(!would_block_if_equal(&mut saved, &vec![1, 3]));
    assert!(would_block_if_equal(&mut saved, &vec![1, 3]));
}

#[test]
fn size_of_a_stream() {
    assert_eq!(get_res(Some((1920, 1080))).unwrap(), (1920, 1080));
    assert_eq!(get_res(None).unwrap_err().0, "Error getting screen resolution");
}

#[test]
fn sizes_that_overflow() {
    let r = PipeWireRecorder::new(&capturable(None));
    assert!(r.sample_is_representable(&None));
    assert!(r.sample_is_representable(&Some(sample(4, 3, "BGRx", frame(4, 3)))));
    assert!(!r.sample_is_representable(&Some(sample(-1, -1, "BGRx", frame(4, 3)))));
    let s = Sample { format: None, ..sample(-1, -1, "BGRx", frame(4, 3)) };
    assert!(r.sample_is_representable(&Some(s)));
    // Bytes that were seen before are not measured.
    assert!(r.sample_is_representable(&Some(sample(-1, -1, "BGRx", vec![]))));
}

#[test]
fn pipeline_is_planned() {
    let plan = plan_pipeline(&capturable(None), true);
    assert_eq!(plan.elements, vec!["pipewiresrc", "videoconvert", "appsink"]);
    assert_eq!(plan.path, "77");
    assert!(plan.always_copy);
    assert!(plan.drop);
    assert_eq!(plan.keepalive_time, 1000);
    assert_eq!(plan.formats, vec!["BGRx".to_string(), "RGBx".to_string()]);
    assert_eq!(plan.max_buffers, 1);
    assert_eq!(plan.settling, Some((2000, 150)));
    assert_eq!(plan_pipeline(&capturable(None), false).settling, None);
    // What the sink accepts is given out.
    for format in &plan.formats {
        let mut r = PipeWireRecorder::new(&capturable(None));
        assert!(matches!(
            r.capture(Some(sample(4, 3, format, frame(4, 3)))),
            Ok(PixelProvider::BGR0(4, 3, _)) | Ok(PixelProvider::RGB0(4, 3, _))
        ));
    }
}
