use shareflow::config::ScreenEdge;
use shareflow::protocol::ScreenInfo;
use shareflow::scale::Ratio;
use shareflow::screen::{
    detect_edge, get_screens, is_boundary_edge, monitor_screen, range_overlap, EdgeHit, ScreenSource,
};

fn screen(id: &str, x: i32, y: i32, width: i32, height: i32) -> ScreenInfo {
    ScreenInfo { id: id.to_string(), x, y, width, height, primary: true }
}

#[test]
fn every_side_of_a_single_screen_is_an_edge() {
    let s = vec![screen("a", 0, 0, 1920, 1080)];
    let hit = |x, y| detect_edge(x, y, &s).map(|h| h.1);
    assert_eq!(hit(0, 500), Some(EdgeHit::Left));
    assert_eq!(hit(1, 500), Some(EdgeHit::Left));
    assert_eq!(hit(2, 500), None);
    assert_eq!(hit(1918, 500), None);
    assert_eq!(hit(1919, 500), Some(EdgeHit::Right));
    assert_eq!(hit(1921, 500), Some(EdgeHit::Right));
    assert_eq!(hit(1922, 500), None);
    assert_eq!(hit(500, -1), Some(EdgeHit::Top));
    assert_eq!(hit(500, 1079), Some(EdgeHit::Bottom));
    assert_eq!(hit(500, 500), None);
}

#[test]
fn corners_prefer_vertical_sides() {
    let s = vec![screen("a", 0, 0, 100, 100)];
    assert_eq!(detect_edge(0, 0, &s).map(|h| h.1), Some(EdgeHit::Left));
    assert_eq!(detect_edge(100, 100, &s).map(|h| h.1), Some(EdgeHit::Right));
}

#[test]
fn the_ratio_is_the_position_along_the_side() {
    let s = vec![screen("a", 100, 200, 1920, 1080)];
    let (id, edge, ratio) = detect_edge(100, 200 + 324, &s).unwrap();
    assert_eq!((id.as_str(), edge), ("a", EdgeHit::Left));
    assert_eq!(ratio, Ratio { num: 324, den: 1080 });
    let (_, _, above) = detect_edge(100, 199, &s).unwrap();
    assert_eq!(above, Ratio { num: 0, den: 1080 });
    let (_, _, below) = detect_edge(100, 1281, &s).unwrap();
    assert_eq!(below, Ratio { num: 1080, den: 1080 });
}

#[test]
fn inner_edges_do_not_fire() {
    let s = vec![screen("l", 0, 0, 1000, 800), screen("r", 1000, 0, 1000, 800)];
    assert_eq!(detect_edge(1000, 400, &s), None);
    assert!(!is_boundary_edge(&s[0], EdgeHit::Right, &s));
    assert!(!is_boundary_edge(&s[1], EdgeHit::Left, &s));
    assert!(is_boundary_edge(&s[1], EdgeHit::Right, &s));
    assert_eq!(detect_edge(1999, 400, &s).map(|h| (h.0, h.1)), Some(("r".to_string(), EdgeHit::Right)));
}

#[test]
fn monitors_touch_within_two_pixels_and_from_ten_pixels_on() {
    let touch = |gap: i32, shared: i32| {
        let s = vec![screen("a", 0, 0, 100, 100), screen("b", 100 + gap, 100 - shared, 100, 100)];
        !is_boundary_edge(&s[0], EdgeHit::Right, &s)
    };
    assert!(touch(2, 10));
    assert!(touch(-2, 10));
    assert!(!touch(3, 10));
    assert!(!touch(0, 9));
    let stacked = vec![screen("a", 0, 0, 100, 100), screen("b", 0, 100, 100, 100)];
    assert!(!is_boundary_edge(&stacked[0], EdgeHit::Bottom, &stacked));
    assert!(!is_boundary_edge(&stacked[1], EdgeHit::Top, &stacked));
}

#[test]
fn ranges_overlap_by_what_they_share() {
    for (a1, a2, b1, b2) in [(0, 10, 5, 20), (0, 5, 5, 9), (0, 3, 7, 9), (4, 4, 0, 9), (0, 9, 2, 4), (5, 1, 0, 9)] {
        let shared = (-1..30).filter(|i| a1 <= *i && *i < a2 && b1 <= *i && *i < b2).count();
        assert_eq!(range_overlap(a1, a2, b1, b2), shared as i64);
        assert_eq!(range_overlap(b1, b2, a1, a2), shared as i64);
    }
    assert_eq!(range_overlap(0, i64::MAX, i64::MIN, i64::MAX), i64::MAX);
}

#[test]
fn screens_without_a_size_are_skipped() {
    let s = vec![screen("z", 0, 0, 0, 100), screen("y", 0, 0, 100, 0), screen("a", 0, 0, 100, 100)];
    assert_eq!(detect_edge(99, 50, &s).map(|h| h.0), Some("a".to_string()));
}

#[test]
fn far_coordinates_do_not_overflow() {
    let s = vec![screen("a", i32::MAX, i32::MAX, i32::MAX, i32::MAX)];
    assert_eq!(detect_edge(i32::MIN, i32::MIN, &s), None);
    assert_eq!(detect_edge(i32::MAX, i32::MAX, &s).map(|h| h.1), Some(EdgeHit::Left));
}

#[test]
fn positions_scale_as_doubles_do() {
    for den in [1u32, 3, 7, 600, 768, 1080, 1440, 2160, 4320, 1_000_003] {
        for num in [0, 1, 2, den / 10, den / 3, den / 2, den - den / 7, den - 1, den] {
            if num > den {
                continue;
            }
            for size in [0u32, 1, 2, 10, 720, 1050, 1080, 1200, 2160, 1_000_000_007, u32::MAX] {
                let expected = (num as f64 / den as f64 * size as f64) as u32;
                assert_eq!(Ratio { num, den }.scale(size), expected, "{} {} {}", num, den, size);
            }
        }
    }
    assert_eq!(Ratio { num: 324, den: 1080 }.scale(1440), 432);
}

#[test]
fn edges_face_each_other() {
    assert_eq!(ScreenEdge::Left.opposite(), ScreenEdge::Right);
    assert_eq!(ScreenEdge::Right.opposite(), ScreenEdge::Left);
    assert_eq!(ScreenEdge::Top.opposite(), ScreenEdge::Bottom);
    assert_eq!(ScreenEdge::Bottom.opposite(), ScreenEdge::Top);
    assert_eq!(EdgeHit::Top.config_edge(), ScreenEdge::Top);
}

#[test]
fn edge_names_are_parsed_in_both_spellings() {
    assert_eq!(ScreenEdge::parse("left"), Some(ScreenEdge::Left));
    assert_eq!(ScreenEdge::parse("Bottom"), Some(ScreenEdge::Bottom));
    assert_eq!(ScreenEdge::parse("LEFT"), None);
    assert_eq!(ScreenEdge::from_name("top"), Some(ScreenEdge::Top));
    assert_eq!(ScreenEdge::from_name("Top"), None);
    assert_eq!(ScreenEdge::Right.wire_name(), "Right");
}

#[test]
fn a_windows_monitor_becomes_a_screen() {
    let device: Vec<u16> = "\\\\.\\DISPLAY1".encode_utf16().chain([0, 0x41]).collect();
    let s = monitor_screen(&device, -1920, 10, 0, 1090, 1);
    assert_eq!(s.id, "\\\\.\\DISPLAY1");
    assert_eq!((s.x, s.y, s.width, s.height, s.primary), (-1920, 10, 1920, 1080, true));
    let lone = monitor_screen(&[0xD800], 0, 0, 1, 1, 2);
    assert_eq!((lone.id.as_str(), lone.primary), ("\u{FFFD}", false));
    let mixed = [0x41, 0xDC00, 0xD83D, 0xDE00, 0xD800, 0xD800, 0xDC00, 0xE000];
    assert_eq!(
        monitor_screen(&mixed, 0, 0, 1, 1, 0).id,
        "A\u{FFFD}\u{1F600}\u{FFFD}\u{10000}\u{E000}"
    );
}

#[test]
fn where_nothing_is_known_one_screen_is_assumed() {
    let assumed = get_screens(ScreenSource::Unknown);
    assert_eq!(assumed, vec![screen("main", 0, 0, 1920, 1080)]);
    assert_eq!(get_screens(ScreenSource::Displays(None)), assumed);
    assert_eq!(get_screens(ScreenSource::Displays(Some(vec![]))), assumed);
    let mine = vec![screen("x", 1, 2, 3, 4)];
    assert_eq!(get_screens(ScreenSource::Monitors(mine.clone())), mine);
}
