//! Which monitors carry the wallpaper, and which part of the wallpaper each one shows.
//!
//! In `span` mode the wallpaper is one picture over the bounding box of the chosen
//! monitors, and each monitor shows its own part of it; a named centre display can shift
//! the picture so that its middle falls on that display. In any other mode each monitor
//! shows the whole picture at its own size.

use crate::text::{chars_of, str_equal};
use vstd::prelude::*;

verus! {

/// A monitor as the display server reports it: its connector name, if it has one, and
/// its rectangle in the global coordinate space.
pub struct MonitorGeometry {
    pub connector: Option<String>,
    pub x: i32,
    pub y: i32,
    pub width: i32,
    pub height: i32,
}

/// What a wallpaper page is told about the monitor that shows it.
pub struct MonitorPayload {
    pub mode: String,
    pub total_width: i32,
    pub total_height: i32,
    pub view_x: i32,
    pub view_y: i32,
    pub view_width: i32,
    pub view_height: i32,
}

/// A payload as values.
pub struct PayloadView {
    pub mode: Seq<char>,
    pub total_width: int,
    pub total_height: int,
    pub view_x: int,
    pub view_y: int,
    pub view_width: int,
    pub view_height: int,
}

impl View for MonitorPayload {
    type V = PayloadView;

    open spec fn view(&self) -> PayloadView {
        PayloadView {
            mode: self.mode@,
            total_width: self.total_width as int,
            total_height: self.total_height as int,
            view_x: self.view_x as int,
            view_y: self.view_y as int,
            view_width: self.view_width as int,
            view_height: self.view_height as int,
        }
    }
}

pub open spec fn min_int(a: int, b: int) -> int {
    if a <= b {
        a
    } else {
        b
    }
}

pub open spec fn max_int(a: int, b: int) -> int {
    if a >= b {
        a
    } else {
        b
    }
}

pub open spec fn in_i32(v: int) -> bool {
    i32::MIN <= v <= i32::MAX
}

/// The smallest left edge; `i32::MAX` for no monitor.
pub open spec fn left_edge(s: Seq<MonitorGeometry>) -> int
    decreases s.len(),
{
    if s.len() == 0 {
        i32::MAX as int
    } else {
        min_int(left_edge(s.drop_last()), s.last().x as int)
    }
}

/// The smallest top edge; `i32::MAX` for no monitor.
pub open spec fn top_edge(s: Seq<MonitorGeometry>) -> int
    decreases s.len(),
{
    if s.len() == 0 {
        i32::MAX as int
    } else {
        min_int(top_edge(s.drop_last()), s.last().y as int)
    }
}

/// The largest right edge; `i32::MIN` for no monitor.
pub open spec fn right_edge(s: Seq<MonitorGeometry>) -> int
    decreases s.len(),
{
    if s.len() == 0 {
        i32::MIN as int
    } else {
        max_int(right_edge(s.drop_last()), s.last().x + s.last().width)
    }
}

/// The largest bottom edge; `i32::MIN` for no monitor.
pub open spec fn bottom_edge(s: Seq<MonitorGeometry>) -> int
    decreases s.len(),
{
    if s.len() == 0 {
        i32::MIN as int
    } else {
        max_int(bottom_edge(s.drop_last()), s.last().y + s.last().height)
    }
}

/// The distance from `lo` to `hi`, or 0 where `hi` is not beyond `lo`.
pub open spec fn extent(lo: int, hi: int) -> int {
    if hi > lo {
        hi - lo
    } else {
        0
    }
}

pub open spec fn total_width(s: Seq<MonitorGeometry>) -> int {
    extent(left_edge(s), right_edge(s))
}

pub open spec fn total_height(s: Seq<MonitorGeometry>) -> int {
    extent(top_edge(s), bottom_edge(s))
}

/// Integer halving rounded toward zero, as `/ 2` does on `i32`.
pub open spec fn half(v: int) -> int {
    if v >= 0 {
        v / 2
    } else {
        -((-v) / 2)
    }
}

/// Whether `m` is the display called `name`.
pub open spec fn is_named(m: MonitorGeometry, name: Seq<char>) -> bool {
    match m.connector {
        Some(c) => c@ == name,
        None => false,
    }
}

/// How far the middle of `m` lies right of the middle of the span.
pub open spec fn center_shift(m: MonitorGeometry, left: int, total: int) -> int {
    (m.x - left + half(m.width as int)) - total / 2
}

/// The shift that the last display called `name` in `s` asks for; 0 where there is none.
pub open spec fn last_center_shift(s: Seq<MonitorGeometry>, name: Seq<char>, left: int, total: int) -> int
    decreases s.len(),
{
    if s.len() == 0 {
        0
    } else if is_named(s.last(), name) {
        center_shift(s.last(), left, total)
    } else {
        last_center_shift(s.drop_last(), name, left, total)
    }
}

/// Whether the picture is spread over the monitors.
pub open spec fn is_span(mode: Seq<char>) -> bool {
    mode == "span"@
}

/// Whether a centre display is asked for in mode `mode`.
pub open spec fn centers(mode: Seq<char>, center: Seq<char>) -> bool {
    is_span(mode) && center != "auto"@
}

/// How far the picture is shifted left.
pub open spec fn picture_shift(s: Seq<MonitorGeometry>, mode: Seq<char>, center: Seq<char>) -> int {
    if centers(mode, center) {
        last_center_shift(s, center, left_edge(s), total_width(s))
    } else {
        0
    }
}

/// The payload of monitor `m` of the monitors `s`.
pub open spec fn payload_of(
    m: MonitorGeometry,
    s: Seq<MonitorGeometry>,
    mode: Seq<char>,
    center: Seq<char>,
) -> PayloadView {
    if is_span(mode) {
        PayloadView {
            mode: "span"@,
            total_width: total_width(s),
            total_height: total_height(s),
            view_x: (m.x - left_edge(s)) - picture_shift(s, mode, center),
            view_y: m.y - top_edge(s),
            view_width: m.width as int,
            view_height: m.height as int,
        }
    } else {
        PayloadView {
            mode: "duplicate"@,
            total_width: m.width as int,
            total_height: m.height as int,
            view_x: 0,
            view_y: 0,
            view_width: m.width as int,
            view_height: m.height as int,
        }
    }
}

/// Whether the right and bottom edge of `m` fit in an `i32`.
pub open spec fn edges_fit(m: MonitorGeometry) -> bool {
    in_i32(m.x + m.width) && in_i32(m.y + m.height)
}

/// Whether the offset of `m` in a span starting at `left`, its middle and the distance
/// of that middle from the middle of a span `total` wide fit in an `i32`.
pub open spec fn center_fits(m: MonitorGeometry, left: int, total: int) -> bool {
    &&& in_i32(m.x - left)
    &&& in_i32(m.x - left + half(m.width as int))
    &&& in_i32(center_shift(m, left, total))
}

/// Whether the view offsets of `m` in a span with top-left corner (`left`, `top`) and a
/// picture shifted by `shift` fit in an `i32`.
pub open spec fn view_fits(m: MonitorGeometry, left: int, top: int, shift: int) -> bool {
    &&& in_i32(m.x - left)
    &&& in_i32(m.x - left - shift)
    &&& in_i32(m.y - top)
}

/// Whether every intermediate value of the layout of `s` fits in an `i32`: each
/// monitor's right and bottom edge, the span's width and height, and in `span` mode each
/// monitor's offset in the span, its shifted offset and, for centre displays, the middle
/// and its distance from the span's middle.
pub open spec fn layout_fits(s: Seq<MonitorGeometry>, mode: Seq<char>, center: Seq<char>) -> bool {
    &&& forall|i: int| 0 <= i < s.len() ==> edges_fit(#[trigger] s[i])
    &&& in_i32(total_width(s))
    &&& in_i32(total_height(s))
    &&& centers(mode, center) ==> forall|i: int|
        0 <= i < s.len() && is_named(#[trigger] s[i], center) ==> center_fits(
            s[i],
            left_edge(s),
            total_width(s),
        )
    &&& is_span(mode) ==> forall|i: int|
        0 <= i < s.len() ==> view_fits(
            #[trigger] s[i],
            left_edge(s),
            top_edge(s),
            picture_shift(s, mode, center),
        )
}

proof fn lemma_edges(s: Seq<MonitorGeometry>, i: int)
    requires
        0 <= i < s.len(),
    ensures
        left_edge(s) <= s[i].x,
        top_edge(s) <= s[i].y,
        right_edge(s) >= s[i].x + s[i].width,
        bottom_edge(s) >= s[i].y + s[i].height,
    decreases s.len(),
{
    if i < s.len() - 1 {
        assert(s.drop_last()[i] == s[i]);
        lemma_edges(s.drop_last(), i);
    }
}

proof fn lemma_last_named(s: Seq<MonitorGeometry>, name: Seq<char>, left: int, total: int, i: int)
    requires
        0 <= i < s.len(),
        is_named(s[i], name),
        forall|j: int| i < j < s.len() ==> !is_named(#[trigger] s[j], name),
    ensures
        last_center_shift(s, name, left, total) == center_shift(s[i], left, total),
    decreases s.len(),
{
    if i < s.len() - 1 {
        assert(s.drop_last()[i] == s[i]);
        assert forall|j: int| i < j < s.drop_last().len() implies !is_named(
            #[trigger] s.drop_last()[j],
            name,
        ) by {
            assert(s.drop_last()[j] == s[j]);
        }
        lemma_last_named(s.drop_last(), name, left, total, i);
    }
}

/// Monitors of `s` at the smallest left edge, the smallest top edge, the largest right
/// edge and the largest bottom edge.
proof fn lemma_edges_attained(s: Seq<MonitorGeometry>) -> (r: (int, int, int, int))
    requires
        s.len() > 0,
        forall|j: int| 0 <= j < s.len() ==> (#[trigger] s[j]).width >= 0 && s[j].height >= 0,
    ensures
        0 <= r.0 < s.len() && left_edge(s) == s[r.0].x,
        0 <= r.1 < s.len() && top_edge(s) == s[r.1].y,
        0 <= r.2 < s.len() && right_edge(s) == s[r.2].x + s[r.2].width,
        0 <= r.3 < s.len() && bottom_edge(s) == s[r.3].y + s[r.3].height,
    decreases s.len(),
{
    let n = s.len() - 1;
    let m = s[n];
    let p = s.drop_last();
    assert(s.last() == m);
    if n == 0 {
        assert(left_edge(p) == i32::MAX && top_edge(p) == i32::MAX);
        assert(right_edge(p) == i32::MIN && bottom_edge(p) == i32::MIN);
        (0, 0, 0, 0)
    } else {
        assert forall|j: int| 0 <= j < p.len() implies (#[trigger] p[j]).width >= 0 && p[j].height
            >= 0 by {
            assert(p[j] == s[j]);
        }
        let q = lemma_edges_attained(p);
        assert(p[q.0] == s[q.0] && p[q.1] == s[q.1] && p[q.2] == s[q.2] && p[q.3] == s[q.3]);
        let a = if left_edge(p) <= m.x { q.0 } else { n };
        let b = if top_edge(p) <= m.y { q.1 } else { n };
        let c = if right_edge(p) >= m.x + m.width { q.2 } else { n };
        let d = if bottom_edge(p) >= m.y + m.height { q.3 } else { n };
        (a, b, c, d)
    }
}

/// In `span` mode the picture is the bounding box of the monitors: its width runs from
/// the leftmost monitor's left edge to the rightmost right edge, its height from the top
/// edge of the highest monitor to the lowest bottom edge; some monitor's view starts at
/// the picture's top, and without a centre display some monitor's view starts at its
/// left edge.
pub proof fn lemma_span_picture_is_bounding_box(
    s: Seq<MonitorGeometry>,
    mode: Seq<char>,
    center: Seq<char>,
)
    requires
        is_span(mode),
        s.len() > 0,
        forall|j: int| 0 <= j < s.len() ==> (#[trigger] s[j]).width >= 0 && s[j].height >= 0,
    ensures
        exists|a: int, b: int|
            #![trigger s[a], s[b]]
            0 <= a < s.len() && 0 <= b < s.len() && (forall|j: int|
                0 <= j < s.len() ==> s[a].x <= (#[trigger] s[j]).x && s[j].x + s[j].width <= s[b].x
                    + s[b].width) && (forall|i: int|
                0 <= i < s.len() ==> (#[trigger] payload_of(s[i], s, mode, center)).total_width
                    == s[b].x + s[b].width - s[a].x),
        exists|a: int, b: int|
            #![trigger s[a], s[b]]
            0 <= a < s.len() && 0 <= b < s.len() && (forall|j: int|
                0 <= j < s.len() ==> s[a].y <= (#[trigger] s[j]).y && s[j].y + s[j].height
                    <= s[b].y + s[b].height) && (forall|i: int|
                0 <= i < s.len() ==> (#[trigger] payload_of(s[i], s, mode, center)).total_height
                    == s[b].y + s[b].height - s[a].y),
        exists|a: int|
            0 <= a < s.len() && (#[trigger] payload_of(s[a], s, mode, center)).view_y == 0,
        !centers(mode, center) ==> exists|a: int|
            0 <= a < s.len() && (#[trigger] payload_of(s[a], s, mode, center)).view_x == 0,
{
    let r = lemma_edges_attained(s);
    assert forall|j: int| 0 <= j < s.len() implies s[r.0].x <= (#[trigger] s[j]).x && s[j].x
        + s[j].width <= s[r.2].x + s[r.2].width && s[r.1].y <= s[j].y && s[j].y + s[j].height
        <= s[r.3].y + s[r.3].height by {
        lemma_edges(s, j);
    }
    lemma_edges(s, r.0);
    lemma_edges(s, r.1);
    assert(payload_of(s[r.1], s, mode, center).view_y == 0);
    if !centers(mode, center) {
        assert(payload_of(s[r.0], s, mode, center).view_x == 0);
    }
}

/// In `span` mode without a centre display, every monitor's view lies inside the
/// picture: it starts at or after the picture's top-left corner and ends at or before
/// its bottom-right corner.
pub proof fn lemma_views_inside_span(s: Seq<MonitorGeometry>, mode: Seq<char>, center: Seq<char>, i: int)
    requires
        is_span(mode),
        !centers(mode, center),
        0 <= i < s.len(),
    ensures
        ({
            let p = payload_of(s[i], s, mode, center);
            &&& 0 <= p.view_x
            &&& p.view_x + p.view_width <= p.total_width
            &&& 0 <= p.view_y
            &&& p.view_y + p.view_height <= p.total_height
        }),
{
    lemma_edges(s, i);
}

/// In `span` mode two monitors' views lie as far apart in the picture as the monitors
/// lie apart on the desktop, so the picture runs on from one monitor to the next.
pub proof fn lemma_views_keep_offsets(
    s: Seq<MonitorGeometry>,
    mode: Seq<char>,
    center: Seq<char>,
    i: int,
    j: int,
)
    requires
        is_span(mode),
        0 <= i < s.len(),
        0 <= j < s.len(),
    ensures
        payload_of(s[i], s, mode, center).view_x - payload_of(s[j], s, mode, center).view_x == s[i].x
            - s[j].x,
        payload_of(s[i], s, mode, center).view_y - payload_of(s[j], s, mode, center).view_y == s[i].y
            - s[j].y,
{
}

/// With a centre display, the middle of the picture falls on the middle of the last
/// monitor with that name: its view starts half the picture's width left of the
/// picture's middle, less half its own width.
pub proof fn lemma_center_display_centered(
    s: Seq<MonitorGeometry>,
    mode: Seq<char>,
    center: Seq<char>,
    i: int,
)
    requires
        centers(mode, center),
        0 <= i < s.len(),
        is_named(s[i], center),
        forall|j: int| i < j < s.len() ==> !is_named(#[trigger] s[j], center),
    ensures
        payload_of(s[i], s, mode, center).view_x == total_width(s) / 2 - half(s[i].width as int),
{
    lemma_last_named(s, center, left_edge(s), total_width(s), i);
}

/// In any mode but `span`, every monitor shows the whole picture at its own size.
pub proof fn lemma_duplicate_whole_picture(
    s: Seq<MonitorGeometry>,
    mode: Seq<char>,
    center: Seq<char>,
    i: int,
)
    requires
        !is_span(mode),
        0 <= i < s.len(),
    ensures
        ({
            let p = payload_of(s[i], s, mode, center);
            &&& p.view_x == 0 && p.view_y == 0
            &&& p.view_width == p.total_width == s[i].width
            &&& p.view_height == p.total_height == s[i].height
        }),
{
}

/// `v / 2` rounded toward zero.
fn half_i32(v: i32) -> (r: i32)
    ensures
        r as int == half(v as int),
{
    if v >= 0 {
        v / 2
    } else {
        let w: i64 = -(v as i64);
        -((w / 2) as i32)
    }
}

/// The payloads of the chosen monitors `monitors`, in their order, for the mode `mode`
/// and the centre display `center_display`.
pub fn compute_payloads(
    monitors: &Vec<MonitorGeometry>,
    mode: &str,
    center_display: &str,
) -> (r: Vec<MonitorPayload>)
    requires
        layout_fits(monitors@, mode@, center_display@),
    ensures
        r@.len() == monitors@.len(),
        forall|i: int|
            0 <= i < r@.len() ==> (#[trigger] r@[i])@ == payload_of(
                monitors@[i],
                monitors@,
                mode@,
                center_display@,
            ),
{
    let ghost s = monitors@;
    let n = monitors.len();
    let mut min_x: i32 = i32::MAX;
    let mut min_y: i32 = i32::MAX;
    let mut max_x: i32 = i32::MIN;
    let mut max_y: i32 = i32::MIN;
    let mut i: usize = 0;
    while i < n
        invariant
            n == s.len(),
            s == monitors@,
            i <= n,
            layout_fits(s, mode@, center_display@),
            min_x as int == left_edge(s.take(i as int)),
            min_y as int == top_edge(s.take(i as int)),
            max_x as int == right_edge(s.take(i as int)),
            max_y as int == bottom_edge(s.take(i as int)),
        decreases n - i,
    {
        let m = &monitors[i];
        assert(s.take(i + 1).drop_last() =~= s.take(i as int));
        assert(s.take(i + 1).last() == s[i as int]);
        assert(edges_fit(s[i as int]));
        if m.x < min_x {
            min_x = m.x;
        }
        if m.y < min_y {
            min_y = m.y;
        }
        let right = m.x + m.width;
        let bottom = m.y + m.height;
        if right > max_x {
            max_x = right;
        }
        if bottom > max_y {
            max_y = bottom;
        }
        i = i + 1;
    }
    assert(s.take(n as int) =~= s);
    let total_w: i32 = if max_x > min_x {
        max_x - min_x
    } else {
        0
    };
    let total_h: i32 = if max_y > min_y {
        max_y - min_y
    } else {
        0
    };
    let span = str_equal(mode, "span");
    let centered = span && !str_equal(center_display, "auto");
    let mut shift: i32 = 0;
    if centered {
        let mut j: usize = 0;
        while j < n
            invariant
                n == s.len(),
                s == monitors@,
                j <= n,
                layout_fits(s, mode@, center_display@),
                centers(mode@, center_display@),
                min_x as int == left_edge(s),
                total_w as int == total_width(s),
                shift as int == last_center_shift(
                    s.take(j as int),
                    center_display@,
                    left_edge(s),
                    total_width(s),
                ),
            decreases n - j,
        {
            let m = &monitors[j];
            assert(s.take(j + 1).drop_last() =~= s.take(j as int));
            assert(s.take(j + 1).last() == s[j as int]);
            match &m.connector {
                Some(conn) => {
                    if str_equal(conn.as_str(), center_display) {
                        assert(is_named(s[j as int], center_display@));
                        assert(center_fits(s[j as int], left_edge(s), total_width(s)));
                        let mon_center = (m.x - min_x) + half_i32(m.width);
                        let target_center = total_w / 2;
                        shift = mon_center - target_center;
                    }
                },
                None => {},
            }
            j = j + 1;
        }
    }
    assert(shift as int == picture_shift(s, mode@, center_display@));
    let mut out: Vec<MonitorPayload> = Vec::new();
    let mut k: usize = 0;
    while k < n
        invariant
            n == s.len(),
            s == monitors@,
            k <= n,
            layout_fits(s, mode@, center_display@),
            span == is_span(mode@),
            min_x as int == left_edge(s),
            min_y as int == top_edge(s),
            total_w as int == total_width(s),
            total_h as int == total_height(s),
            shift as int == picture_shift(s, mode@, center_display@),
            out@.len() == k,
            forall|p: int|
                0 <= p < k ==> (#[trigger] out@[p])@ == payload_of(
                    s[p],
                    s,
                    mode@,
                    center_display@,
                ),
        decreases n - k,
    {
        let m = &monitors[k];
        let payload = if span {
            assert(view_fits(s[k as int], left_edge(s), top_edge(s), picture_shift(s, mode@, center_display@)));
            MonitorPayload {
                mode: "span".to_owned(),
                total_width: total_w,
                total_height: total_h,
                view_x: (m.x - min_x) - shift,
                view_y: m.y - min_y,
                view_width: m.width,
                view_height: m.height,
            }
        } else {
            MonitorPayload {
                mode: "duplicate".to_owned(),
                total_width: m.width,
                total_height: m.height,
                view_x: 0,
                view_y: 0,
                view_width: m.width,
                view_height: m.height,
            }
        };
        out.push(payload);
        k = k + 1;
    }
    out
}

/// Whether `c` is white space in the sense of Unicode's `White_Space` property, which is
/// what string trimming removes.
pub open spec fn is_white_space(c: char) -> bool {
    ||| c == ' '
    ||| ('\u{9}' <= c <= '\u{d}')
    ||| c == '\u{85}'
    ||| c == '\u{a0}'
    ||| c == '\u{1680}'
    ||| ('\u{2000}' <= c <= '\u{200a}')
    ||| c == '\u{2028}'
    ||| c == '\u{2029}'
    ||| c == '\u{202f}'
    ||| c == '\u{205f}'
    ||| c == '\u{3000}'
}

/// `s` without its leading white space.
pub open spec fn trim_start(s: Seq<char>) -> Seq<char>
    decreases s.len(),
{
    if s.len() > 0 && is_white_space(s[0]) {
        trim_start(s.drop_first())
    } else {
        s
    }
}

/// `s` without its trailing white space.
pub open spec fn trim_end(s: Seq<char>) -> Seq<char>
    decreases s.len(),
{
    if s.len() > 0 && is_white_space(s.last()) {
        trim_end(s.drop_last())
    } else {
        s
    }
}

/// `s` without white space at either end.
pub open spec fn trim(s: Seq<char>) -> Seq<char> {
    trim_end(trim_start(s))
}

/// Whether `d[a..b]` is one of the comma-separated pieces of `d`.
pub open spec fn is_piece(d: Seq<char>, a: int, b: int) -> bool {
    &&& 0 <= a <= b <= d.len()
    &&& (a == 0 || d[a - 1] == ',')
    &&& (b == d.len() || d[b] == ',')
    &&& forall|k: int| a <= k < b ==> d[k] != ','
}

/// Whether the comma-separated list `displays` names `name`, each entry trimmed of white
/// space.
pub open spec fn is_listed(displays: Seq<char>, name: Seq<char>) -> bool {
    exists|a: int, b: int| is_piece(displays, a, b) && trim(displays.subrange(a, b)) == name
}

/// Whether the monitor `m` is chosen by the setting `displays`: `all` chooses every
/// monitor, and otherwise a monitor is chosen where it has a connector name in the list.
pub open spec fn is_chosen(displays: Seq<char>, m: MonitorGeometry) -> bool {
    ||| displays == "all"@
    ||| (match m.connector {
        Some(c) => is_listed(displays, c@),
        None => false,
    })
}

/// The monitors of `s` that `displays` chooses, in their order.
pub open spec fn chosen(displays: Seq<char>, s: Seq<MonitorGeometry>) -> Seq<MonitorGeometry>
    decreases s.len(),
{
    if s.len() == 0 {
        s
    } else if is_chosen(displays, s[0]) {
        seq![s[0]] + chosen(displays, s.drop_first())
    } else {
        chosen(displays, s.drop_first())
    }
}

/// The setting `all` chooses every monitor, in its order.
pub proof fn lemma_all_chooses_every_monitor(s: Seq<MonitorGeometry>)
    ensures
        chosen("all"@, s) == s,
    decreases s.len(),
{
    if s.len() > 0 {
        lemma_all_chooses_every_monitor(s.drop_first());
        assert(seq![s[0]] + s.drop_first() =~= s);
    }
}

/// A connector name that stands as one entry of the comma-separated list, between
/// commas or at either end of the list and with any white space around it, is listed.
pub proof fn lemma_entry_listed(l: Seq<char>, ws1: Seq<char>, name: Seq<char>, ws2: Seq<char>, r: Seq<char>)
    requires
        l.len() == 0 || l.last() == ',',
        r.len() == 0 || r[0] == ',',
        name.len() > 0,
        !is_white_space(name[0]) && !is_white_space(name.last()),
        forall|i: int| 0 <= i < name.len() ==> (#[trigger] name[i]) != ',',
        forall|i: int| 0 <= i < ws1.len() ==> is_white_space(#[trigger] ws1[i]),
        forall|i: int| 0 <= i < ws2.len() ==> is_white_space(#[trigger] ws2[i]),
    ensures
        is_listed(l + ws1 + name + ws2 + r, name),
{
    let d = l + ws1 + name + ws2 + r;
    let a = l.len() as int;
    let b = a + ws1.len() + name.len() + ws2.len();
    let e = ws1 + name + ws2;
    assert(d.subrange(a, b) =~= e);
    assert forall|k: int| a <= k < b implies d[k] != ',' by {
        assert(d[k] == e[k - a]);
        if k - a < ws1.len() {
            assert(is_white_space(ws1[k - a]));
        } else if k - a < ws1.len() + name.len() {
            assert(e[k - a] == name[k - a - ws1.len()]);
        } else {
            assert(is_white_space(ws2[k - a - ws1.len() - name.len()]));
        }
    }
    if a > 0 {
        assert(d[a - 1] == l.last());
    }
    if b < d.len() {
        assert(d[b] == r[0]);
    }
    assert(is_piece(d, a, b));
    lemma_trim_around(ws1, name, ws2);
}

proof fn lemma_trim_around(ws1: Seq<char>, name: Seq<char>, ws2: Seq<char>)
    requires
        name.len() > 0,
        !is_white_space(name[0]) && !is_white_space(name.last()),
        forall|i: int| 0 <= i < ws1.len() ==> is_white_space(#[trigger] ws1[i]),
        forall|i: int| 0 <= i < ws2.len() ==> is_white_space(#[trigger] ws2[i]),
    ensures
        trim(ws1 + name + ws2) == name,
    decreases ws1.len() + ws2.len(),
{
    let e = ws1 + name + ws2;
    if ws1.len() > 0 {
        assert(e[0] == ws1[0]);
        assert(e.drop_first() =~= ws1.drop_first() + name + ws2);
        assert forall|i: int| 0 <= i < ws1.drop_first().len() implies is_white_space(
            #[trigger] ws1.drop_first()[i],
        ) by {
            assert(ws1.drop_first()[i] == ws1[i + 1]);
        }
        lemma_trim_around(ws1.drop_first(), name, ws2);
    } else if ws2.len() > 0 {
        assert(e =~= name + ws2);
        assert(trim_start(e) == e) by {
            assert(e[0] == name[0]);
        }
        assert(e.last() == ws2.last());
        assert(e.drop_last() =~= name + ws2.drop_last());
        assert forall|i: int| 0 <= i < ws2.drop_last().len() implies is_white_space(
            #[trigger] ws2.drop_last()[i],
        ) by {
            assert(ws2.drop_last()[i] == ws2[i]);
        }
        lemma_trim_around(ws1, name, ws2.drop_last());
        assert(ws1 + name + ws2.drop_last() =~= name + ws2.drop_last());
        assert(trim_start(name + ws2.drop_last()) == name + ws2.drop_last()) by {
            assert((name + ws2.drop_last())[0] == name[0]);
        }
    } else {
        assert(e =~= name);
        assert(e[0] == name[0]);
        assert(e.last() == name.last());
    }
}

/// Choosing from two runs of monitors one after the other chooses from the first run,
/// then from the second, each in its order.
pub proof fn lemma_chosen_concat(d: Seq<char>, s: Seq<MonitorGeometry>, t: Seq<MonitorGeometry>)
    ensures
        chosen(d, s + t) == chosen(d, s) + chosen(d, t),
    decreases s.len(),
{
    if s.len() == 0 {
        assert(s + t =~= t);
    } else {
        assert((s + t)[0] == s[0]);
        assert((s + t).drop_first() =~= s.drop_first() + t);
        lemma_chosen_concat(d, s.drop_first(), t);
    }
}

/// A single monitor is kept exactly where it is chosen.
pub proof fn lemma_chosen_single(d: Seq<char>, m: MonitorGeometry)
    ensures
        chosen(d, seq![m]) == (if d == "all"@ || (m.connector is Some && is_listed(
            d,
            m.connector->0@,
        )) {
            seq![m]
        } else {
            Seq::empty()
        }),
{
    let one = seq![m];
    assert(one[0] == m);
    assert(one.drop_first() =~= Seq::<MonitorGeometry>::empty());
    assert(chosen(d, one.drop_first()) == Seq::<MonitorGeometry>::empty());
    assert(seq![one[0]] + Seq::<MonitorGeometry>::empty() =~= one);
}

fn white_space(c: char) -> (r: bool)
    ensures
        r == is_white_space(c),
{
    c == ' ' || ('\u{9}' <= c && c <= '\u{d}') || c == '\u{85}' || c == '\u{a0}' || c == '\u{1680}'
        || ('\u{2000}' <= c && c <= '\u{200a}') || c == '\u{2028}' || c == '\u{2029}' || c
        == '\u{202f}' || c == '\u{205f}' || c == '\u{3000}'
}

/// The bounds of `d[a..b]` without white space at either end.
fn trimmed_bounds(d: &Vec<char>, a: usize, b: usize) -> (r: (usize, usize))
    requires
        a <= b <= d@.len(),
    ensures
        a <= r.0 <= r.1 <= b,
        d@.subrange(r.0 as int, r.1 as int) == trim(d@.subrange(a as int, b as int)),
{
    let mut lo = a;
    while lo < b && white_space(d[lo])
        invariant
            a <= lo <= b <= d@.len(),
            trim_start(d@.subrange(lo as int, b as int)) == trim_start(d@.subrange(a as int, b as int)),
        decreases b - lo,
    {
        assert(d@.subrange(lo as int, b as int).drop_first() =~= d@.subrange(lo + 1, b as int));
        lo = lo + 1;
    }
    let mut hi = b;
    while hi > lo && white_space(d[hi - 1])
        invariant
            a <= lo <= hi <= b <= d@.len(),
            trim_end(d@.subrange(lo as int, hi as int)) == trim_end(d@.subrange(lo as int, b as int)),
        decreases hi,
    {
        assert(d@.subrange(lo as int, hi as int).drop_last() =~= d@.subrange(lo as int, hi - 1));
        hi = hi - 1;
    }
    (lo, hi)
}

/// Whether `d[lo..hi]` holds the characters of `t`.
fn same_chars(d: &Vec<char>, lo: usize, hi: usize, t: &Vec<char>) -> (r: bool)
    requires
        lo <= hi <= d@.len(),
    ensures
        r == (d@.subrange(lo as int, hi as int) == t@),
{
    if hi - lo != t.len() {
        return false;
    }
    let mut i: usize = 0;
    while i < t.len()
        invariant
            hi - lo == t@.len(),
            lo <= hi <= d@.len(),
            i <= t@.len(),
            forall|j: int| 0 <= j < i ==> d@[lo + j] == t@[j],
        decreases t@.len() - i,
    {
        if d[lo + i] != t[i] {
            assert(d@.subrange(lo as int, hi as int)[i as int] != t@[i as int]);
            return false;
        }
        i = i + 1;
    }
    assert(d@.subrange(lo as int, hi as int) =~= t@);
    true
}

/// Whether the comma-separated list `displays` names `name`; each entry is trimmed of
/// white space before it is compared.
pub fn is_listed_display(displays: &str, name: &str) -> (r: bool)
    ensures
        r == is_listed(displays@, name@),
{
    let d = chars_of(displays);
    let t = chars_of(name);
    let ghost ds = d@;
    let n = d.len();
    let mut a: usize = 0;
    loop
        invariant
            ds == d@,
            ds == displays@,
            t@ == name@,
            n == ds.len(),
            a <= n,
            a == 0 || ds[a - 1] == ',',
            forall|a0: int, b0: int|
                is_piece(ds, a0, b0) && a0 < a ==> trim(#[trigger] ds.subrange(a0, b0)) != name@,
        decreases n - a,
    {
        let mut b = a;
        while b < n && d[b] != ','
            invariant
                ds == d@,
                n == ds.len(),
                a <= b <= n,
                forall|k: int| a <= k < b ==> ds[k] != ',',
            decreases n - b,
        {
            b = b + 1;
        }
        assert(is_piece(ds, a as int, b as int));
        let (lo, hi) = trimmed_bounds(&d, a, b);
        if same_chars(&d, lo, hi, &t) {
            return true;
        }
        assert forall|a0: int, b0: int|
            is_piece(ds, a0, b0) && a0 <= b implies trim(#[trigger] ds.subrange(a0, b0))
            != name@ by {
            if a0 >= a {
                if a0 > a {
                    assert(ds[a0 - 1] == ',');
                }
                if b0 < b {
                    assert(ds[b0] == ',');
                }
                if b0 > b {
                    assert(ds[b as int] == ',');
                }
            }
        }
        if b == n {
            return false;
        }
        a = b + 1;
    }
}

/// The monitors that the setting `displays` chooses, in their order: all of them for
/// `all`, and otherwise those whose connector name is in the comma-separated list.
pub fn select_monitors(displays: &str, monitors: Vec<MonitorGeometry>) -> (r: Vec<MonitorGeometry>)
    ensures
        r@ == chosen(displays@, monitors@),
{
    let all = str_equal(displays, "all");
    let ghost whole = monitors@;
    let mut rest = monitors;
    let mut out: Vec<MonitorGeometry> = Vec::new();
    while rest.len() > 0
        invariant
            all == (displays@ == "all"@),
            out@ + chosen(displays@, rest@) == chosen(displays@, whole),
        decreases rest@.len(),
    {
        let ghost before = rest@;
        let m = rest.remove(0);
        assert(rest@ =~= before.drop_first());
        let pick = is_chosen_monitor(
            displays,
            match &m.connector {
                Some(c) => Some(c.as_str()),
                None => None,
            },
        );
        if pick {
            out.push(m);
            assert(out@ + chosen(displays@, rest@) =~= out@.drop_last() + chosen(displays@, before));
        }
    }
    assert(out@ + chosen(displays@, rest@) =~= out@);
    out
}

fn half_i64(v: i64) -> (r: i64)
    requires
        i32::MIN <= v <= i32::MAX,
    ensures
        r as int == half(v as int),
{
    if v >= 0 {
        v / 2
    } else {
        -((-v) / 2)
    }
}

fn fits_i32(v: i64) -> (r: bool)
    ensures
        r == in_i32(v as int),
{
    i32::MIN as i64 <= v && v <= i32::MAX as i64
}

/// Whether the layout of `monitors` can be computed without an `i32` overflow (see
/// `layout_fits`).
pub fn check_layout(monitors: &Vec<MonitorGeometry>, mode: &str, center_display: &str) -> (r: bool)
    ensures
        r == layout_fits(monitors@, mode@, center_display@),
{
    let ghost s = monitors@;
    let n = monitors.len();
    let mut min_x: i64 = i32::MAX as i64;
    let mut min_y: i64 = i32::MAX as i64;
    let mut max_x: i64 = i32::MIN as i64;
    let mut max_y: i64 = i32::MIN as i64;
    let mut i: usize = 0;
    while i < n
        invariant
            n == s.len(),
            s == monitors@,
            i <= n,
            forall|j: int| 0 <= j < i ==> edges_fit(#[trigger] s[j]),
            min_x as int == left_edge(s.take(i as int)),
            min_y as int == top_edge(s.take(i as int)),
            max_x as int == right_edge(s.take(i as int)),
            max_y as int == bottom_edge(s.take(i as int)),
            in_i32(min_x as int) && in_i32(min_y as int) && in_i32(max_x as int) && in_i32(max_y as int),
        decreases n - i,
    {
        let m = &monitors[i];
        assert(s.take(i + 1).drop_last() =~= s.take(i as int));
        assert(s.take(i + 1).last() == s[i as int]);
        let right = m.x as i64 + m.width as i64;
        let bottom = m.y as i64 + m.height as i64;
        if !fits_i32(right) || !fits_i32(bottom) {
            assert(!edges_fit(s[i as int]));
            return false;
        }
        assert(edges_fit(s[i as int]));
        if (m.x as i64) < min_x {
            min_x = m.x as i64;
        }
        if (m.y as i64) < min_y {
            min_y = m.y as i64;
        }
        if right > max_x {
            max_x = right;
        }
        if bottom > max_y {
            max_y = bottom;
        }
        i = i + 1;
    }
    assert(s.take(n as int) =~= s);
    let total_w: i64 = if max_x > min_x { max_x - min_x } else { 0 };
    let total_h: i64 = if max_y > min_y { max_y - min_y } else { 0 };
    if !fits_i32(total_w) || !fits_i32(total_h) {
        return false;
    }
    let span = str_equal(mode, "span");
    let centered = span && !str_equal(center_display, "auto");
    let mut shift: i64 = 0;
    if centered {
        let mut j: usize = 0;
        while j < n
            invariant
                n == s.len(),
                s == monitors@,
                j <= n,
                centers(mode@, center_display@),
                min_x as int == left_edge(s),
                total_w as int == total_width(s),
                0 <= total_w <= i32::MAX,
                in_i32(min_x as int),
                forall|k: int|
                    0 <= k < j && is_named(#[trigger] s[k], center_display@) ==> center_fits(
                        s[k],
                        left_edge(s),
                        total_width(s),
                    ),
                shift as int == last_center_shift(s.take(j as int), center_display@, left_edge(s), total_width(s)),
                in_i32(shift as int),
            decreases n - j,
        {
            let m = &monitors[j];
            assert(s.take(j + 1).drop_last() =~= s.take(j as int));
            assert(s.take(j + 1).last() == s[j as int]);
            let named = match &m.connector {
                Some(conn) => str_equal(conn.as_str(), center_display),
                None => false,
            };
            assert(named == is_named(s[j as int], center_display@));
            if named {
                let off = m.x as i64 - min_x;
                if !fits_i32(off) {
                    return false;
                }
                let mid = off + half_i64(m.width as i64);
                if !fits_i32(mid) {
                    return false;
                }
                let d = mid - total_w / 2;
                if !fits_i32(d) {
                    return false;
                }
                shift = d;
            }
            j = j + 1;
        }
        assert(s.take(n as int) =~= s);
    }
    assert(shift as int == picture_shift(s, mode@, center_display@));
    if span {
        let mut k: usize = 0;
        while k < n
            invariant
                n == s.len(),
                s == monitors@,
                k <= n,
                is_span(mode@),
                min_x as int == left_edge(s),
                min_y as int == top_edge(s),
                in_i32(min_x as int) && in_i32(min_y as int),
                in_i32(shift as int),
                shift as int == picture_shift(s, mode@, center_display@),
                forall|p: int|
                    0 <= p < k ==> view_fits(
                        #[trigger] s[p],
                        left_edge(s),
                        top_edge(s),
                        picture_shift(s, mode@, center_display@),
                    ),
            decreases n - k,
        {
            let m = &monitors[k];
            let off = m.x as i64 - min_x;
            let vx = off - shift;
            let vy = m.y as i64 - min_y;
            if !fits_i32(off) || !fits_i32(vx) || !fits_i32(vy) {
                assert(!view_fits(s[k as int], left_edge(s), top_edge(s), picture_shift(s, mode@, center_display@)));
                return false;
            }
            assert(view_fits(s[k as int], left_edge(s), top_edge(s), picture_shift(s, mode@, center_display@)));
            k = k + 1;
        }
    }
    true
}

/// Whether the monitor with connector `connector` is chosen by the setting `displays`:
/// `all` chooses every monitor, and otherwise a monitor is chosen where its connector
/// name is in the comma-separated list.
pub fn is_chosen_monitor(displays: &str, connector: Option<&str>) -> (r: bool)
    ensures
        r == (displays@ == "all"@ || match connector {
            Some(c) => is_listed(displays@, c@),
            None => false,
        }),
{
    if str_equal(displays, "all") {
        return true;
    }
    match connector {
        Some(c) => is_listed_display(displays, c),
        None => false,
    }
}

} // verus!
