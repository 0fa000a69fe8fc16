//! The displays of a machine, and the edges of its desktop.
use crate::config::ScreenEdge;
use crate::input::linux::get_screens_linux;
use crate::input::macos;
use crate::input::macos::{get_screens_macos, Display};
use crate::protocol::ScreenInfo;
use crate::scale;
use crate::scale::Ratio;
use vstd::prelude::*;

verus! {

/// How far from a screen edge, in pixels, the cursor counts as being at it.
pub const MARGIN: i32 = 1;

/// The least length, in pixels, of a border that two monitors share.
pub const OVERLAP_THRESHOLD: i32 = 10;

/// The widest gap, in pixels, between two monitors that touch.
pub const ADJACENCY: i32 = 2;

/// The side of a screen that the cursor is at.
#[derive(Debug, Clone, Copy, PartialEq, Eq, Structural)]
pub enum EdgeHit {
    Left,
    Right,
    Top,
    Bottom,
}

impl EdgeHit {
    /// The edge as the configuration names it.
    pub open spec fn spec_config_edge(self) -> ScreenEdge {
        match self {
            EdgeHit::Left => ScreenEdge::Left,
            EdgeHit::Right => ScreenEdge::Right,
            EdgeHit::Top => ScreenEdge::Top,
            EdgeHit::Bottom => ScreenEdge::Bottom,
        }
    }

    /// The edge as the configuration names it.
    pub fn config_edge(self) -> (r: ScreenEdge)
        ensures
            r == self.spec_config_edge(),
    {
        match self {
            EdgeHit::Left => ScreenEdge::Left,
            EdgeHit::Right => ScreenEdge::Right,
            EdgeHit::Top => ScreenEdge::Top,
            EdgeHit::Bottom => ScreenEdge::Bottom,
        }
    }
}

/// The length that the ranges from `a1` to `a2` and from `b1` to `b2` have in common.
pub open spec fn overlap(a1: int, a2: int, b1: int, b2: int) -> int {
    let start = if a1 >= b1 {
        a1
    } else {
        b1
    };
    let end = if a2 <= b2 {
        a2
    } else {
        b2
    };
    if end > start {
        end - start
    } else {
        0
    }
}

/// The lengths of the common border are at least `OVERLAP_THRESHOLD`, vertically.
pub open spec fn beside(a: ScreenInfo, b: ScreenInfo) -> bool {
    overlap(a.y as int, a.y + a.height, b.y as int, b.y + b.height) >= OVERLAP_THRESHOLD
}

/// The lengths of the common border are at least `OVERLAP_THRESHOLD`, horizontally.
pub open spec fn above(a: ScreenInfo, b: ScreenInfo) -> bool {
    overlap(a.x as int, a.x + a.width, b.x as int, b.x + b.width) >= OVERLAP_THRESHOLD
}

/// `other` touches `screen` on the side `edge`.
pub open spec fn touches(screen: ScreenInfo, edge: EdgeHit, other: ScreenInfo) -> bool {
    match edge {
        EdgeHit::Right => scale::abs(other.x - (screen.x + screen.width)) <= ADJACENCY && beside(
            screen,
            other,
        ),
        EdgeHit::Left => scale::abs(screen.x - (other.x + other.width)) <= ADJACENCY && beside(
            screen,
            other,
        ),
        EdgeHit::Bottom => scale::abs(other.y - (screen.y + screen.height)) <= ADJACENCY && above(
            screen,
            other,
        ),
        EdgeHit::Top => scale::abs(screen.y - (other.y + other.height)) <= ADJACENCY && above(
            screen,
            other,
        ),
    }
}

/// The side `edge` of `screen` is a boundary of the desktop: no other monitor touches it.
pub open spec fn boundary(screen: ScreenInfo, edge: EdgeHit, screens: Seq<ScreenInfo>) -> bool {
    forall|i: int|
        0 <= i < screens.len() ==> (#[trigger] screens[i]).id@ == screen.id@ || !touches(
            screen,
            edge,
            screens[i],
        )
}

/// The cursor is at the side `edge` of a screen.
pub open spec fn at_side(x: int, y: int, s: ScreenInfo, edge: EdgeHit) -> bool {
    match edge {
        EdgeHit::Left => x <= s.x + MARGIN,
        EdgeHit::Right => x >= s.x + s.width - MARGIN,
        EdgeHit::Top => y <= s.y + MARGIN,
        EdgeHit::Bottom => y >= s.y + s.height - MARGIN,
    }
}

/// The cursor is on a screen, or at most `MARGIN` pixels off it.
pub open spec fn on_screen(x: int, y: int, s: ScreenInfo) -> bool {
    &&& s.x - MARGIN <= x <= s.x + s.width + MARGIN
    &&& s.y - MARGIN <= y <= s.y + s.height + MARGIN
}

/// The cursor is at the side `edge` of a screen, and that side is a boundary of the desktop.
pub open spec fn hits(
    x: int,
    y: int,
    s: ScreenInfo,
    edge: EdgeHit,
    screens: Seq<ScreenInfo>,
) -> bool {
    at_side(x, y, s, edge) && boundary(s, edge, screens)
}

/// The boundary of the desktop that the cursor is at on one screen. In a corner a vertical side
/// goes before a horizontal one, the left one before the right one, the top before the bottom.
pub open spec fn hit_on(
    x: int,
    y: int,
    s: ScreenInfo,
    screens: Seq<ScreenInfo>,
) -> Option<EdgeHit> {
    if s.width == 0 || s.height == 0 || !on_screen(x, y, s) {
        None
    } else if hits(x, y, s, EdgeHit::Left, screens) {
        Some(EdgeHit::Left)
    } else if hits(x, y, s, EdgeHit::Right, screens) {
        Some(EdgeHit::Right)
    } else if hits(x, y, s, EdgeHit::Top, screens) {
        Some(EdgeHit::Top)
    } else if hits(x, y, s, EdgeHit::Bottom, screens) {
        Some(EdgeHit::Bottom)
    } else {
        None
    }
}

/// Where along the side `edge` the cursor is.
pub open spec fn ratio_along(x: int, y: int, s: ScreenInfo, edge: EdgeHit) -> Ratio {
    match edge {
        EdgeHit::Left | EdgeHit::Right => Ratio::spec_clamped(y - s.y, s.height as int),
        EdgeHit::Top | EdgeHit::Bottom => Ratio::spec_clamped(x - s.x, s.width as int),
    }
}

/// The index of the first screen, from `i` on, on which the cursor is at a boundary of the
/// desktop, and which one.
pub open spec fn first_hit(
    x: int,
    y: int,
    screens: Seq<ScreenInfo>,
    i: int,
) -> Option<(int, EdgeHit)>
    decreases screens.len() - i,
{
    if i < 0 || i >= screens.len() {
        None
    } else {
        match hit_on(x, y, screens[i], screens) {
            Some(edge) => Some((i, edge)),
            None => first_hit(x, y, screens, i + 1),
        }
    }
}

/// The screen, the boundary of the desktop that the cursor is at, and where along it.
pub open spec fn detected(x: int, y: int, screens: Seq<ScreenInfo>) -> Option<
    (String, EdgeHit, Ratio),
> {
    match first_hit(x, y, screens, 0) {
        None => None,
        Some((i, edge)) => Some((screens[i].id, edge, ratio_along(x, y, screens[i], edge))),
    }
}

/// Calculate the overlap between two ranges, each with its start and without its end.
pub fn range_overlap(a1: i64, a2: i64, b1: i64, b2: i64) -> (r: i64)
    requires
        overlap(a1 as int, a2 as int, b1 as int, b2 as int) <= i64::MAX,
    ensures
        r == overlap(a1 as int, a2 as int, b1 as int, b2 as int),
{
    let start: i64 = if a1 >= b1 {
        a1
    } else {
        b1
    };
    let end: i64 = if a2 <= b2 {
        a2
    } else {
        b2
    };
    if end > start {
        end - start
    } else {
        0
    }
}

fn adjacent(a: i64, b: i64) -> (r: bool)
    requires
        -0x2_0000_0000 <= a <= 0x2_0000_0000,
        -0x2_0000_0000 <= b <= 0x2_0000_0000,
    ensures
        r == (scale::abs(a - b) <= ADJACENCY),
{
    a - b <= ADJACENCY as i64 && b - a <= ADJACENCY as i64
}

fn side_by_side(a: &ScreenInfo, b: &ScreenInfo) -> (r: bool)
    ensures
        r == beside(*a, *b),
{
    range_overlap(
        a.y as i64,
        a.y as i64 + a.height as i64,
        b.y as i64,
        b.y as i64 + b.height as i64,
    ) >= OVERLAP_THRESHOLD as i64
}

fn one_above_other(a: &ScreenInfo, b: &ScreenInfo) -> (r: bool)
    ensures
        r == above(*a, *b),
{
    range_overlap(
        a.x as i64,
        a.x as i64 + a.width as i64,
        b.x as i64,
        b.x as i64 + b.width as i64,
    ) >= OVERLAP_THRESHOLD as i64
}

/// Whether a screen edge is a real desktop boundary, with no adjacent local monitor on that side.
pub fn is_boundary_edge(screen: &ScreenInfo, edge: EdgeHit, all_screens: &[ScreenInfo]) -> (r: bool)
    ensures
        r == boundary(*screen, edge, all_screens@),
{
    let mut i: usize = 0;
    while i < all_screens.len()
        invariant
            i <= all_screens.len(),
            forall|j: int|
                0 <= j < i ==> (#[trigger] all_screens@[j]).id@ == screen.id@ || !touches(
                    *screen,
                    edge,
                    all_screens@[j],
                ),
        decreases all_screens.len() - i,
    {
        let other = &all_screens[i];
        if other.id != screen.id {
            let touching = match edge {
                EdgeHit::Right => adjacent(other.x as i64, screen.x as i64 + screen.width as i64)
                    && side_by_side(screen, other),
                EdgeHit::Left => adjacent(screen.x as i64, other.x as i64 + other.width as i64)
                    && side_by_side(screen, other),
                EdgeHit::Bottom => adjacent(other.y as i64, screen.y as i64 + screen.height as i64)
                    && one_above_other(screen, other),
                EdgeHit::Top => adjacent(screen.y as i64, other.y as i64 + other.height as i64)
                    && one_above_other(screen, other),
            };
            if touching {
                return false;
            }
        }
        i += 1;
    }
    true
}

fn edge_on(x: i32, y: i32, s: &ScreenInfo, screens: &[ScreenInfo]) -> (r: Option<EdgeHit>)
    ensures
        r == hit_on(x as int, y as int, *s, screens@),
{
    if s.width == 0 || s.height == 0 {
        return None;
    }
    let (cx, cy): (i64, i64) = (x as i64, y as i64);
    let m: i64 = MARGIN as i64;
    let (left, right): (i64, i64) = (s.x as i64, s.x as i64 + s.width as i64);
    let (top, bottom): (i64, i64) = (s.y as i64, s.y as i64 + s.height as i64);
    if cx >= left - m && cx <= right + m && cy >= top - m && cy <= bottom + m {
        if cx <= left + m && is_boundary_edge(s, EdgeHit::Left, screens) {
            return Some(EdgeHit::Left);
        }
        if cx >= right - m && is_boundary_edge(s, EdgeHit::Right, screens) {
            return Some(EdgeHit::Right);
        }
        if cy <= top + m && is_boundary_edge(s, EdgeHit::Top, screens) {
            return Some(EdgeHit::Top);
        }
        if cy >= bottom - m && is_boundary_edge(s, EdgeHit::Bottom, screens) {
            return Some(EdgeHit::Bottom);
        }
    }
    None
}

/// Detect if the cursor is at a screen boundary edge.
/// Returns the screen, the edge, and the position along it as a ratio between zero and one.
/// Only fires on real desktop boundary edges, not internal edges between local monitors.
pub fn detect_edge(x: i32, y: i32, screens: &[ScreenInfo]) -> (r: Option<(String, EdgeHit, Ratio)>)
    ensures
        r == detected(x as int, y as int, screens@),
        r matches Some(hit) ==> hit.2.valid(),
{
    let mut i: usize = 0;
    while i < screens.len()
        invariant
            i <= screens.len(),
            first_hit(x as int, y as int, screens@, 0) == first_hit(
                x as int,
                y as int,
                screens@,
                i as int,
            ),
        decreases screens.len() - i,
    {
        let s = &screens[i];
        if let Some(edge) = edge_on(x, y, s, screens) {
            let ratio = match edge {
                EdgeHit::Left | EdgeHit::Right => Ratio::clamped(y as i64 - s.y as i64, s.height),
                EdgeHit::Top | EdgeHit::Bottom => Ratio::clamped(x as i64 - s.x as i64, s.width),
            };
            return Some((s.id.clone(), edge, ratio));
        }
        i += 1;
    }
    None
}

/// The edge that faces this one from the other side.
pub open spec fn facing(edge: EdgeHit) -> EdgeHit {
    match edge {
        EdgeHit::Left => EdgeHit::Right,
        EdgeHit::Right => EdgeHit::Left,
        EdgeHit::Top => EdgeHit::Bottom,
        EdgeHit::Bottom => EdgeHit::Top,
    }
}

proof fn lemma_first_hit(x: int, y: int, screens: Seq<ScreenInfo>, i: int)
    requires
        0 <= i,
    ensures
        match first_hit(x, y, screens, i) {
            None => forall|j: int|
                i <= j < screens.len() ==> hit_on(x, y, #[trigger] screens[j], screens) is None,
            Some((k, edge)) => {
                &&& i <= k < screens.len()
                &&& hit_on(x, y, screens[k], screens) == Some(edge)
                &&& forall|j: int|
                    i <= j < k ==> hit_on(x, y, #[trigger] screens[j], screens) is None
            },
        },
    decreases screens.len() - i,
{
    if i < screens.len() && hit_on(x, y, screens[i], screens) is None {
        lemma_first_hit(x, y, screens, i + 1);
    }
}

/// An edge is detected exactly when the cursor is, on some screen that has a size, at a boundary
/// of the desktop. What is detected is such a screen and such a boundary.
pub proof fn lemma_only_boundaries(x: int, y: int, screens: Seq<ScreenInfo>)
    ensures
        detected(x, y, screens) is Some <==> exists|i: int, edge: EdgeHit|
            0 <= i < screens.len() && screens[i].width != 0 && screens[i].height != 0 && on_screen(
                x,
                y,
                screens[i],
            ) && #[trigger] hits(x, y, screens[i], edge, screens),
        detected(x, y, screens) matches Some((id, edge, ratio)) ==> exists|i: int|
            0 <= i < screens.len() && screens[i].id == id && screens[i].width != 0
                && screens[i].height != 0 && on_screen(x, y, screens[i]) && #[trigger] hits(
                x,
                y,
                screens[i],
                edge,
                screens,
            ) && ratio == ratio_along(x, y, screens[i], edge),
{
    lemma_first_hit(x, y, screens, 0);
    if let Some((k, edge)) = first_hit(x, y, screens, 0) {
        assert(hits(x, y, screens[k], edge, screens));
    } else {
        assert forall|i: int, edge: EdgeHit|
            0 <= i < screens.len() && screens[i].width != 0 && screens[i].height != 0 && on_screen(
                x,
                y,
                screens[i],
            ) implies !#[trigger] hits(x, y, screens[i], edge, screens) by {
            assert(hit_on(x, y, screens[i], screens) is None);
            match edge {
                EdgeHit::Left => {},
                EdgeHit::Right => {},
                EdgeHit::Top => {},
                EdgeHit::Bottom => {},
            }
        }
    }
}

/// The overlap of two ranges is the number of integers that they share, so that it is zero for
/// ranges that only touch or lie apart and for empty ones. It does not matter which of the ranges
/// comes first.
pub proof fn lemma_overlap_counts(a1: int, a2: int, b1: int, b2: int)
    ensures
        Set::new(|i: int| a1 <= i < a2 && b1 <= i < b2).finite(),
        overlap(a1, a2, b1, b2) == Set::new(|i: int| a1 <= i < a2 && b1 <= i < b2).len(),
        overlap(a1, a2, b1, b2) == overlap(b1, b2, a1, a2),
        overlap(a1, a2, b1, b2) >= 0,
{
    let shared = Set::new(|i: int| a1 <= i < a2 && b1 <= i < b2);
    let start = if a1 >= b1 {
        a1
    } else {
        b1
    };
    let end = start + overlap(a1, a2, b1, b2);
    vstd::set_lib::lemma_int_range(start, end);
    assert(shared =~= vstd::set_lib::set_int_range(start, end));
}

/// Two monitors that touch do so for both, and neither of the sides in between is a boundary of
/// the desktop.
pub proof fn lemma_inner_edges(screens: Seq<ScreenInfo>, i: int, j: int, edge: EdgeHit)
    requires
        0 <= i < screens.len(),
        0 <= j < screens.len(),
        screens[i].id@ != screens[j].id@,
        touches(screens[i], edge, screens[j]),
    ensures
        touches(screens[j], facing(edge), screens[i]),
        !boundary(screens[i], edge, screens),
        !boundary(screens[j], facing(edge), screens),
{
}

/// The screen that stands in where no screens can be found.
pub open spec fn is_default_screen(s: ScreenInfo) -> bool {
    s.id@ == "main"@ && s.x == 0 && s.y == 0 && s.width == 1920 && s.height == 1080 && s.primary
}

/// The screen that stands in where no screens can be found.
pub fn default_screen() -> (r: ScreenInfo)
    ensures
        is_default_screen(r),
{
    ScreenInfo {
        id: "main".to_string(),
        x: 0,
        y: 0,
        width: 1920,
        height: 1080,
        primary: true,
    }
}

/// What a platform tells about its screens.
pub enum ScreenSource {
    /// The monitors of Windows, as screens.
    Monitors(Vec<ScreenInfo>),
    /// The displays of macOS, if they could be listed.
    Displays(Option<Vec<Display>>),
    /// Nothing: one screen is assumed.
    Unknown,
}

/// Get information about all connected displays on this machine.
pub fn get_screens(source: ScreenSource) -> (r: Vec<ScreenInfo>)
    ensures
        match source {
            ScreenSource::Monitors(screens) => r@ == screens@,
            ScreenSource::Displays(Some(list)) if list@.len() > 0 => {
                &&& r@.len() == list@.len()
                &&& forall|i: int| 0 <= i < r@.len() ==> macos::shows(#[trigger] r@[i], list@[i])
            },
            _ => r@.len() == 1 && is_default_screen(r@[0]),
        },
{
    match source {
        ScreenSource::Monitors(screens) => screens,
        ScreenSource::Displays(displays) => get_screens_macos(displays),
        ScreenSource::Unknown => get_screens_linux(),
    }
}

/// The code units before the first zero.
pub open spec fn until_zero(units: Seq<u16>) -> Seq<u16>
    decreases units.len(),
{
    if units.len() == 0 || units[0] == 0 {
        Seq::empty()
    } else {
        seq![units[0]] + until_zero(units.skip(1))
    }
}

/// The first half of a pair of UTF-16 code units that stand for one character.
pub open spec fn high_surrogate(unit: u16) -> bool {
    0xD800 <= unit < 0xDC00
}

/// The second half of a pair of UTF-16 code units that stand for one character.
pub open spec fn low_surrogate(unit: u16) -> bool {
    0xDC00 <= unit < 0xE000
}

/// The text that UTF-16 code units stand for, with a replacement character for each half of a pair
/// whose other half is missing.
pub open spec fn utf16_text(units: Seq<u16>) -> Seq<char>
    decreases units.len(),
{
    if units.len() == 0 {
        Seq::empty()
    } else if !high_surrogate(units[0]) && !low_surrogate(units[0]) {
        seq![units[0] as char] + utf16_text(units.skip(1))
    } else if high_surrogate(units[0]) && units.len() > 1 && low_surrogate(units[1]) {
        let code = 0x1_0000 + (units[0] - 0xD800) * 0x400 + (units[1] - 0xDC00);
        seq![code as char] + utf16_text(units.skip(2))
    } else {
        seq!['\u{FFFD}'] + utf16_text(units.skip(1))
    }
}

/// Calls `String::from_utf16_lossy`, which decodes UTF-16 and puts a replacement character in place
/// of each unpaired surrogate.
#[verifier::external_body]
fn from_utf16_lossy(units: &[u16]) -> (r: String)
    ensures
        r@ == utf16_text(units@),
{
    String::from_utf16_lossy(units)
}

/// The flag of a monitor that is the primary one.
pub const MONITORINFOF_PRIMARY: u32 = 1;

/// The screen of a monitor that Windows describes by its device name, padded with zeros, its
/// rectangle and its flags.
pub fn monitor_screen(
    device: &[u16],
    left: i32,
    top: i32,
    right: i32,
    bottom: i32,
    flags: u32,
) -> (r: ScreenInfo)
    requires
        i32::MIN <= right - left <= i32::MAX,
        i32::MIN <= bottom - top <= i32::MAX,
    ensures
        r.id@ == utf16_text(until_zero(device@)),
        r.x == left,
        r.y == top,
        r.width == right - left,
        r.height == bottom - top,
        r.primary == (flags % 2 == 1),
{
    let mut n: usize = 0;
    assert(device@.take(0) + until_zero(device@.skip(0)) =~= until_zero(device@)) by {
        assert(device@.skip(0) =~= device@);
    }
    while n < device.len() && device[n] != 0
        invariant
            n <= device.len(),
            device@.take(n as int) + until_zero(device@.skip(n as int)) == until_zero(device@),
        decreases device.len() - n,
    {
        assert(device@.skip(n as int).skip(1) =~= device@.skip(n + 1));
        assert(device@.take(n as int) + (seq![device@[n as int]] + until_zero(device@.skip(n + 1)))
            =~= device@.take(n + 1) + until_zero(device@.skip(n + 1)));
        n += 1;
    }
    assert(device@.take(n as int) =~= until_zero(device@));
    let name = vstd::slice::slice_subrange(device, 0, n);
    assert(name@ =~= device@.take(n as int));
    assert(flags & 1 == flags % 2) by (bit_vector);
    ScreenInfo {
        id: from_utf16_lossy(name),
        x: left,
        y: top,
        width: right - left,
        height: bottom - top,
        primary: flags & MONITORINFOF_PRIMARY != 0,
    }
}

/// Ten pixels from `at` on lie between `start` and `end`.
pub open spec fn ten_pixels(at: int, start: int, end: int) -> bool {
    start <= at && at + 10 <= end
}

/// Another monitor lies right behind the side `edge` of a monitor, give or take two pixels, and the
/// two have ten rows or columns of pixels in common.
pub open spec fn adjoins(s: ScreenInfo, edge: EdgeHit, other: ScreenInfo) -> bool {
    match edge {
        EdgeHit::Left => -2 <= other.x + other.width - s.x <= 2 && exists|y: int|
            ten_pixels(y, s.y as int, s.y + s.height) && #[trigger] ten_pixels(
                y,
                other.y as int,
                other.y + other.height,
            ),
        EdgeHit::Right => -2 <= other.x - (s.x + s.width) <= 2 && exists|y: int|
            ten_pixels(y, s.y as int, s.y + s.height) && #[trigger] ten_pixels(
                y,
                other.y as int,
                other.y + other.height,
            ),
        EdgeHit::Top => -2 <= other.y + other.height - s.y <= 2 && exists|x: int|
            ten_pixels(x, s.x as int, s.x + s.width) && #[trigger] ten_pixels(
                x,
                other.x as int,
                other.x + other.width,
            ),
        EdgeHit::Bottom => -2 <= other.y - (s.y + s.height) <= 2 && exists|x: int|
            ten_pixels(x, s.x as int, s.x + s.width) && #[trigger] ten_pixels(
                x,
                other.x as int,
                other.x + other.width,
            ),
    }
}

proof fn lemma_overlap_of_ten(a1: int, a2: int, b1: int, b2: int)
    ensures
        overlap(a1, a2, b1, b2) >= 10 <==> exists|at: int|
            ten_pixels(at, a1, a2) && #[trigger] ten_pixels(at, b1, b2),
{
    let start = if a1 >= b1 {
        a1
    } else {
        b1
    };
    if overlap(a1, a2, b1, b2) >= 10 {
        assert(ten_pixels(start, a1, a2) && ten_pixels(start, b1, b2));
    }
}

proof fn lemma_adjoins(s: ScreenInfo, edge: EdgeHit, other: ScreenInfo)
    ensures
        touches(s, edge, other) == adjoins(s, edge, other),
{
    lemma_overlap_of_ten(s.x as int, s.x + s.width, other.x as int, other.x + other.width);
    lemma_overlap_of_ten(s.y as int, s.y + s.height, other.y as int, other.y + other.height);
}

/// A side of a monitor is a boundary of the desktop exactly if no other monitor adjoins it there.
pub proof fn lemma_boundary(s: ScreenInfo, edge: EdgeHit, screens: Seq<ScreenInfo>)
    ensures
        boundary(s, edge, screens) <==> forall|i: int|
            0 <= i < screens.len() && (#[trigger] screens[i]).id@ != s.id@ ==> !adjoins(
                s,
                edge,
                screens[i],
            ),
{
    assert forall|i: int| 0 <= i < screens.len() implies touches(s, edge, #[trigger] screens[i])
        == adjoins(s, edge, screens[i]) by {
        lemma_adjoins(s, edge, screens[i]);
    }
}

/// The cursor is more than a pixel off a monitor.
pub open spec fn off(x: int, y: int, s: ScreenInfo) -> bool {
    x < s.x - 1 || x > s.x + s.width + 1 || y < s.y - 1 || y > s.y + s.height + 1
}

/// The ratio is that of a position that many pixels along a side of that length, held at its ends.
pub open spec fn is_part(ratio: Ratio, pixels: int, length: int) -> bool {
    &&& ratio.den == length
    &&& pixels < 0 ==> ratio.num == 0
    &&& pixels > length ==> ratio.num == length
    &&& 0 <= pixels <= length ==> ratio.num == pixels
}

/// The cursor at a pixel or less from a side of the first monitor that it is on is detected there,
/// wherever along the side it is, if that side is a boundary of the desktop: in a corner at the
/// vertical side, if that is one. Away from the sides, and at inner ones, nothing is detected.
pub proof fn lemma_sides_are_detected(x: int, y: int, screens: Seq<ScreenInfo>, k: int)
    requires
        0 <= k < screens.len(),
        screens[k].width > 0,
        screens[k].height > 0,
        !off(x, y, screens[k]),
        forall|i: int| 0 <= i < k ==> off(x, y, #[trigger] screens[i]),
    ensures
        ({
            let s = screens[k];
            let left = x - s.x <= 1 && boundary(s, EdgeHit::Left, screens);
            let right = s.x + s.width - x <= 1 && boundary(s, EdgeHit::Right, screens);
            let top = y - s.y <= 1 && boundary(s, EdgeHit::Top, screens);
            let bottom = s.y + s.height - y <= 1 && boundary(s, EdgeHit::Bottom, screens);
            &&& !left && !right && !top && !bottom && (forall|i: int|
                k < i < screens.len() ==> off(x, y, #[trigger] screens[i])) ==> detected(
                x,
                y,
                screens,
            ) is None
            &&& left || right || top || bottom ==> {
                &&& detected(x, y, screens) matches Some((id, edge, ratio))
                &&& id == s.id
                &&& edge is Left <==> left
                &&& edge is Right <==> right && !left
                &&& edge is Top <==> top && !left && !right
                &&& edge is Bottom <==> bottom && !left && !right && !top
                &&& edge is Left || edge is Right ==> is_part(ratio, y - s.y, s.height as int)
                &&& edge is Top || edge is Bottom ==> is_part(ratio, x - s.x, s.width as int)
            }
        }),
{
    lemma_first_hit(x, y, screens, 0);
    assert(hit_on(x, y, screens[k], screens) is Some ==> first_hit(x, y, screens, 0) is Some);
}

/// The edge that the cursor is at is named the same in the configuration.
pub proof fn lemma_edges_are_named_alike()
    ensures
        EdgeHit::Left.spec_config_edge() == ScreenEdge::Left,
        EdgeHit::Right.spec_config_edge() == ScreenEdge::Right,
        EdgeHit::Top.spec_config_edge() == ScreenEdge::Top,
        EdgeHit::Bottom.spec_config_edge() == ScreenEdge::Bottom,
        facing(EdgeHit::Left) == EdgeHit::Right && facing(EdgeHit::Right) == EdgeHit::Left,
        facing(EdgeHit::Top) == EdgeHit::Bottom && facing(EdgeHit::Bottom) == EdgeHit::Top,
{
}

/// The screen that stands in is the primary one, 1920 pixels wide and 1080 high, and starts at the
/// origin.
pub proof fn lemma_default_screen(s: ScreenInfo)
    requires
        is_default_screen(s),
    ensures
        s.x == 0 && s.y == 0 && s.width == 1920 && s.height == 1080 && s.primary,
        s.id@ == "main"@,
{
}

/// The name of a device ends before its first zero.
pub proof fn lemma_until_zero(units: Seq<u16>)
    ensures
        ({
            let name = until_zero(units);
            let n = name.len() as int;
            &&& n <= units.len()
            &&& name == units.take(n)
            &&& forall|i: int| 0 <= i < n ==> #[trigger] units[i] != 0
            &&& n < units.len() ==> units[n] == 0
        }),
    decreases units.len(),
{
    if units.len() > 0 && units[0] != 0 {
        let rest = units.skip(1);
        lemma_until_zero(rest);
        let n = until_zero(units).len() as int;
        assert(until_zero(units) =~= units.take(n));
        assert forall|i: int| 0 <= i < n implies #[trigger] units[i] != 0 by {
            if i > 0 {
                assert(rest[i - 1] != 0);
            }
        }
    } else {
        assert(until_zero(units) =~= units.take(0));
    }
}

} // verus!
