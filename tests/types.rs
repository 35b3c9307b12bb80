use nokhwa_core::error::NokhwaError;
use nokhwa_core::frame_format::FrameFormat;
use nokhwa_core::types::{CameraFormat, CameraIndex, CameraInformation, FrameRate, Resolution};
use nokhwa_core::utils::min_max_range;

#[test]
fn named_formats_round_trip() {
    for f in FrameFormat::all_named() {
        let code = f.to_fourcc().unwrap();
        assert_eq!(FrameFormat::from_fourcc(code), f);
    }
    assert_eq!(FrameFormat::all_named().len(), 32);
    assert_eq!(FrameFormat::from_fourcc(*b"YUYV"), FrameFormat::Yuyv422);
    assert_eq!(FrameFormat::MJpeg.to_fourcc(), Some(*b"MJPG"));
}

#[test]
fn unknown_codes_round_trip() {
    let code = *b"ZZZZ";
    let f = FrameFormat::from_fourcc(code);
    assert_eq!(f, FrameFormat::Custom([b'Z', b'Z', b'Z', b'Z', 0, 0, 0, 0]));
    assert_eq!(f.to_fourcc(), Some(code));
}

#[test]
fn format_order() {
    assert!(FrameFormat::H265.precedes(&FrameFormat::MJpeg));
    assert!(!FrameFormat::MJpeg.precedes(&FrameFormat::MJpeg));
    assert!(FrameFormat::Bayer16.precedes(&FrameFormat::Custom([0; 8])));
    assert!(FrameFormat::Custom([0, 0, 0, 1, 0, 0, 0, 0]).precedes(&FrameFormat::Custom([0, 0, 0, 2, 0, 0, 0, 0])));
}

#[test]
fn frame_rate_construction() {
    assert!(matches!(FrameRate::new(30, 0), Err(NokhwaError::InvalidFrameRate { numerator: 30, denominator: 0 })));
    assert!(FrameRate::new(30, -1).is_err());
    let f = FrameRate::new(60, 2).unwrap();
    assert_eq!((*f.numerator(), *f.denominator()), (30, 1));
    let g = FrameRate::new(-4, 6).unwrap();
    assert_eq!((*g.numerator(), *g.denominator()), (-2, 3));
    assert_eq!(FrameRate::new(i32::MIN, 1).unwrap().numerator(), &i32::MIN);
    assert_eq!(FrameRate::default(), FrameRate::frame_rate(30));
    assert!(FrameRate::frame_rate(15).is_less_than(&FrameRate::new(31, 2).unwrap()));
}

#[test]
fn resolution_accessors_and_distance() {
    let r = Resolution::new(640, 480);
    assert_eq!((r.width(), r.height(), r.x(), r.y()), (640, 480, 640, 480));
    let big = Resolution::new(u32::MAX, u32::MAX).distance_from(&Resolution::new(0, 0));
    assert_eq!(big, 2 * (u32::MAX as u128) * (u32::MAX as u128));
    assert!(Resolution::new(640, 480).is_less_than(&Resolution::new(640, 481)));
    assert!(Resolution::new(639, 1000).is_less_than(&Resolution::new(640, 1)));
}

#[test]
fn camera_format_accessors() {
    let mut f = CameraFormat::default();
    assert_eq!((f.width(), f.height(), f.format()), (640, 480, FrameFormat::MJpeg));
    assert_eq!(f.frame_rate(), FrameRate::frame_rate(30));
    f.set_resolution(Resolution::new(1, 2));
    f.set_format(FrameFormat::Nv12);
    f.set_frame_rate(FrameRate::frame_rate(5));
    assert_eq!(f, CameraFormat::new_from(1, 2, FrameFormat::Nv12, FrameRate::frame_rate(5)));
    assert_eq!(f.resolution(), Resolution::new(1, 2));
}

#[test]
fn camera_index_conversions() {
    assert_eq!(CameraIndex::Index(3).as_index().unwrap(), 3);
    assert_eq!(CameraIndex::String("42".to_string()).as_index().unwrap(), 42);
    assert_eq!(CameraIndex::String("+7".to_string()).as_index().unwrap(), 7);
    assert!(CameraIndex::String("x1".to_string()).as_index().is_err());
    assert!(CameraIndex::String("4294967296".to_string()).as_index().is_err());
    assert_eq!(CameraIndex::Index(105).as_string(), "105");
    assert_eq!(CameraIndex::String("cam".to_string()).as_string(), "cam");
    assert!(CameraIndex::Index(0).is_index() && CameraIndex::String(String::new()).is_string());
    assert_eq!(CameraIndex::default(), CameraIndex::Index(0));
}

#[test]
fn camera_information_accessors() {
    let mut info = CameraInformation::new("a".to_string(), "b".to_string(), "c".to_string(), CameraIndex::Index(1));
    assert_eq!((info.human_name(), info.description(), info.misc()), ("a".to_string(), "b", "c".to_string()));
    info.set_human_name("n");
    info.set_description("d");
    info.set_misc("m");
    info.set_index(CameraIndex::Index(9));
    assert_eq!((info.human_name(), info.description(), info.misc()), ("n".to_string(), "d", "m".to_string()));
    assert_eq!(info.index(), &CameraIndex::Index(9));
}

#[test]
fn ranges_of_values() {
    assert_eq!(min_max_range(0, 10, 3), vec![0, 3, 6, 9]);
    assert_eq!(min_max_range(0, 9, 3), vec![0, 3, 6, 9]);
    assert_eq!(min_max_range(5, 1, 2), vec![5]);
    assert_eq!(min_max_range(i64::MAX - 1, i64::MAX, 5), vec![i64::MAX - 1]);
}

#[test]
fn frame_rate_arithmetic() {
    let thirty = FrameRate::frame_rate(30);
    let half = FrameRate::new(15, 2).unwrap();
    let d = thirty.checked_sub(&half).unwrap();
    assert_eq!((*d.numerator(), *d.denominator()), (45, 2));
    let neg = half.checked_sub(&thirty).unwrap();
    assert_eq!((*neg.numerator(), *neg.denominator()), (-45, 2));
    let q = thirty.checked_div(&half).unwrap();
    assert_eq!((*q.numerator(), *q.denominator()), (4, 1));
    let q2 = half.checked_div(&FrameRate::frame_rate(-3)).unwrap();
    assert_eq!((*q2.numerator(), *q2.denominator()), (-5, 2));
    assert!(thirty.checked_div(&FrameRate::frame_rate(0)).is_none());
    let r = thirty.checked_rem(&FrameRate::frame_rate(7)).unwrap();
    assert_eq!((*r.numerator(), *r.denominator()), (2, 1));
    let r2 = FrameRate::new(-7, 2).unwrap().checked_rem(&FrameRate::frame_rate(1)).unwrap();
    assert_eq!((*r2.numerator(), *r2.denominator()), (-1, 2));
    assert!(thirty.checked_rem(&FrameRate::frame_rate(0)).is_none());
    let big = FrameRate::frame_rate(i32::MAX).checked_sub(&FrameRate::frame_rate(-1));
    assert!(big.is_none());
}

#[test]
fn resolution_arithmetic() {
    let a = Resolution::new(1920, 1080);
    let b = Resolution::new(640, 480);
    assert_eq!(a.checked_sub(&b), Some(Resolution::new(1280, 600)));
    assert_eq!(b.checked_sub(&a), None);
    assert_eq!(a.checked_div(&b), Some(Resolution::new(3, 2)));
    assert_eq!(a.checked_rem(&b), Some(Resolution::new(0, 120)));
    assert_eq!(a.checked_div(&Resolution::new(0, 1)), None);
    assert_eq!(a.checked_rem(&Resolution::new(1, 0)), None);
}
