use nokhwa_core::format_request::{FormatRequest, FrameRateRange, ResolutionRange};
use nokhwa_core::frame_format::FrameFormat;
use nokhwa_core::types::{CameraFormat, FrameRate, Resolution};

fn fps(n: i32) -> FrameRate {
    FrameRate::frame_rate(n)
}

fn fmt(w: u32, h: u32, f: FrameFormat, rate: FrameRate) -> CameraFormat {
    CameraFormat::new(Resolution::new(w, h), f, rate)
}

#[test]
fn exact_request_returns_the_matching_descriptor() {
    let wanted = fmt(1920, 1080, FrameFormat::Yuyv422, fps(30));
    let list = vec![
        fmt(1280, 720, FrameFormat::Yuyv422, fps(30)),
        fmt(1920, 1080, FrameFormat::MJpeg, fps(30)),
        wanted,
        fmt(1920, 1080, FrameFormat::Yuyv422, fps(60)),
    ];
    let req = FormatRequest::Exact {
        resolution: Resolution::new(1920, 1080),
        frame_rate: fps(30),
        frame_format: vec![FrameFormat::Yuyv422],
    };
    assert_eq!(req.resolve(&list), Some(wanted));
}

#[test]
fn exact_request_picks_the_first_format_in_order() {
    let list = vec![
        fmt(640, 480, FrameFormat::Nv12, fps(30)),
        fmt(640, 480, FrameFormat::MJpeg, fps(30)),
    ];
    let req = FormatRequest::Exact {
        resolution: Resolution::new(640, 480),
        frame_rate: fps(30),
        frame_format: vec![FrameFormat::Nv12, FrameFormat::MJpeg],
    };
    assert_eq!(req.resolve(&list), Some(list[1]));
}

#[test]
fn closest_by_resolution_ignores_frame_rate() {
    // distances from 100x100: (103, 101) -> 9 + 1 = 10; (105, 105) -> 25 + 25 = 50
    let near = fmt(103, 101, FrameFormat::MJpeg, fps(5));
    let far = fmt(105, 105, FrameFormat::MJpeg, fps(120));
    let req = FormatRequest::Closest {
        resolution: Some(Resolution::new(100, 100)),
        frame_rate: None,
        frame_format: vec![FrameFormat::MJpeg],
    };
    assert_eq!(req.resolve(&[far, near]), Some(near));
    assert_eq!(req.resolve(&[near, far]), Some(near));
    assert_eq!(Resolution::new(103, 101).distance_from(&Resolution::new(100, 100)), 10);
    assert_eq!(Resolution::new(105, 105).distance_from(&Resolution::new(100, 100)), 50);
}

#[test]
fn closest_ties_go_to_the_earlier_candidate() {
    let a = fmt(640, 480, FrameFormat::MJpeg, fps(25));
    let b = fmt(640, 480, FrameFormat::MJpeg, fps(35));
    let req = FormatRequest::Closest {
        resolution: None,
        frame_rate: Some(fps(30)),
        frame_format: vec![FrameFormat::MJpeg],
    };
    assert_eq!(req.resolve(&[a, b]), Some(a));
    assert_eq!(req.resolve(&[b, a]), Some(b));
}

#[test]
fn closest_uses_exact_fractional_rate_gaps() {
    let pref = FrameRate::new(30000, 1001).unwrap();
    let a = fmt(640, 480, FrameFormat::MJpeg, fps(30));
    let b = fmt(640, 480, FrameFormat::MJpeg, FrameRate::new(2997, 100).unwrap());
    let req = FormatRequest::Closest {
        resolution: None,
        frame_rate: Some(pref),
        frame_format: vec![FrameFormat::MJpeg],
    };
    // |30 - 29.97002997| > |29.97 - 29.97002997|
    assert_eq!(req.resolve(&[a, b]), Some(b));
}

#[test]
fn highest_resolution_takes_the_largest_in_range() {
    let list = vec![
        fmt(640, 480, FrameFormat::MJpeg, fps(30)),
        fmt(1280, 720, FrameFormat::MJpeg, fps(30)),
        fmt(1280, 720, FrameFormat::MJpeg, fps(60)),
        fmt(3840, 2160, FrameFormat::MJpeg, fps(30)),
        fmt(1920, 1080, FrameFormat::Yuyv422, fps(30)),
    ];
    let req = FormatRequest::HighestResolution {
        resolution: ResolutionRange { min: Resolution::new(320, 240), max: Resolution::new(1920, 1080) },
        frame_format: vec![FrameFormat::MJpeg],
    };
    assert_eq!(req.resolve(&list), Some(list[2]));
}

#[test]
fn highest_frame_rate_takes_the_fastest_in_range() {
    let list = vec![
        fmt(640, 480, FrameFormat::MJpeg, fps(30)),
        fmt(320, 240, FrameFormat::MJpeg, fps(60)),
        fmt(640, 480, FrameFormat::MJpeg, fps(60)),
        fmt(640, 480, FrameFormat::MJpeg, fps(120)),
    ];
    let req = FormatRequest::HighestFrameRate {
        frame_rate: FrameRateRange { min: fps(15), max: fps(60) },
        frame_format: vec![FrameFormat::MJpeg],
    };
    assert_eq!(req.resolve(&list), Some(list[2]));
}

#[test]
fn nothing_matches() {
    let req = FormatRequest::Exact {
        resolution: Resolution::new(640, 480),
        frame_rate: fps(30),
        frame_format: vec![FrameFormat::MJpeg],
    };
    assert_eq!(req.resolve(&[]), None);
    assert_eq!(req.resolve(&[fmt(640, 480, FrameFormat::Nv12, fps(30))]), None);
    assert_eq!(req.best_index(&[fmt(640, 480, FrameFormat::MJpeg, fps(30))]), Some(0));
}

#[test]
fn sorting_is_stable_and_best_first() {
    let a = fmt(640, 480, FrameFormat::MJpeg, fps(25));
    let b = fmt(640, 480, FrameFormat::MJpeg, fps(35));
    let c = fmt(640, 480, FrameFormat::MJpeg, fps(30));
    let d = fmt(640, 480, FrameFormat::Nv12, fps(30));
    let e = fmt(640, 480, FrameFormat::MJpeg, fps(60));
    let req = FormatRequest::Closest {
        resolution: None,
        frame_rate: Some(fps(30)),
        frame_format: vec![FrameFormat::MJpeg],
    };
    let list = [a, b, c, d, e];
    assert_eq!(req.sort_formats(&list), vec![c, a, b, e]);
    assert_eq!(req.resolve(&list), Some(c));
    let by_res = FormatRequest::HighestResolution {
        resolution: ResolutionRange { min: Resolution::new(0, 0), max: Resolution::new(4000, 4000) },
        frame_format: vec![FrameFormat::MJpeg, FrameFormat::Nv12],
    };
    let big = fmt(1920, 1080, FrameFormat::MJpeg, fps(30));
    assert_eq!(by_res.sort_formats(&[a, big, d, e]), vec![big, e, d, a]);
    assert_eq!(by_res.sort_formats(&[]), vec![]);
}
