use vstd::prelude::*;

use vstd::string::StringSliceAdditionalSpecFns;

use crate::geometry::{fits_i32, u32_to_i32, wrap_i32, Rect};
use crate::window::{WindowId, WindowManager, WindowState, WmView};

verus! {

/// A colour as four 8-bit channels; 255 is full intensity (or full opacity).
#[derive(Clone, Copy, Debug, PartialEq, Eq, Structural)]
pub struct Rgba8 {
    pub r: u8,
    pub g: u8,
    pub b: u8,
    pub a: u8,
}

/// What a filled rectangle of the frame shows, and so which colour it gets.
#[derive(Clone, Copy, Debug, PartialEq, Eq, Structural)]
pub enum FillRole {
    Background,
    BorderActive,
    BorderInactive,
    Bar,
    Cursor,
}

/// One rectangle of the frame, filled in the colour of its role.
#[derive(Clone, Copy, Debug, PartialEq, Eq, Structural)]
pub struct Fill {
    pub rect: Rect,
    pub role: FillRole,
}

/// Sizes the frame is drawn with.
#[derive(Clone, Copy, Debug, PartialEq, Eq, Structural)]
pub struct FrameGeometry {
    pub screen_width: u32,
    pub screen_height: u32,
    pub bar_height: u32,
    pub border_width: u32,
}

/// The byte `'#'`.
pub const HASH: u8 = 0x23;

/// `b` without its leading `'#'` bytes.
pub open spec fn trimmed(b: Seq<u8>) -> Seq<u8>
    decreases b.len(),
{
    if b.len() > 0 && b[0] == HASH {
        trimmed(b.drop_first())
    } else {
        b
    }
}

/// The value of a hexadecimal digit (`0-9`, `a-f`, `A-F`).
pub open spec fn hex_digit(c: u8) -> Option<int> {
    if 0x30 <= c <= 0x39 {
        Some(c - 0x30)
    } else if 0x61 <= c <= 0x66 {
        Some(c - 0x61 + 10)
    } else if 0x41 <= c <= 0x46 {
        Some(c - 0x41 + 10)
    } else {
        None
    }
}

/// `u8::from_str_radix` in base 16 of the two-byte text `c0 c1`, or 0 when that fails:
/// two digits, or a `'+'` and one digit.
pub open spec fn pair_value(c0: u8, c1: u8) -> u8 {
    if c0 == 0x2b {
        match hex_digit(c1) {
            Some(v) => v as u8,
            None => 0,
        }
    } else {
        match (hex_digit(c0), hex_digit(c1)) {
            (Some(h), Some(l)) => (16 * h + l) as u8,
            _ => 0,
        }
    }
}

/// The colour `#rrggbb` or `#rrggbbaa` stands for (opaque when alpha is not given);
/// opaque black for any other length. Leading `'#'`s are ignored.
pub open spec fn hex_rgba(b: Seq<u8>) -> Rgba8 {
    let t = trimmed(b);
    if t.len() == 6 {
        Rgba8 { r: pair_value(t[0], t[1]), g: pair_value(t[2], t[3]), b: pair_value(t[4], t[5]), a: 255 }
    } else if t.len() == 8 {
        Rgba8 {
            r: pair_value(t[0], t[1]),
            g: pair_value(t[2], t[3]),
            b: pair_value(t[4], t[5]),
            a: pair_value(t[6], t[7]),
        }
    } else {
        Rgba8 { r: 0, g: 0, b: 0, a: 255 }
    }
}

/// A UTF-8 continuation byte: no character starts there.
pub open spec fn is_continuation(c: u8) -> bool {
    0x80 <= c <= 0xbf
}

/// The text is cut into two-byte pairs at character boundaries only.
pub open spec fn hex_cuts_ok(b: Seq<u8>) -> bool {
    let t = trimmed(b);
    &&& (t.len() == 6 ==> !is_continuation(t[2]) && !is_continuation(t[4]))
    &&& (t.len() == 8 ==> !is_continuation(t[2]) && !is_continuation(t[4]) && !is_continuation(t[6]))
}

fn hex_digit_of(c: u8) -> (r: Option<u8>)
    ensures
        r matches Some(v) ==> hex_digit(c) == Some(v as int),
        r is None ==> hex_digit(c) is None,
{
    if 0x30 <= c && c <= 0x39 {
        Some(c - 0x30)
    } else if 0x61 <= c && c <= 0x66 {
        Some(c - 0x61 + 10)
    } else if 0x41 <= c && c <= 0x46 {
        Some(c - 0x41 + 10)
    } else {
        None
    }
}

fn pair_of(c0: u8, c1: u8) -> (r: u8)
    ensures
        r == pair_value(c0, c1),
{
    if c0 == 0x2b {
        match hex_digit_of(c1) {
            Some(v) => v,
            None => 0,
        }
    } else {
        match (hex_digit_of(c0), hex_digit_of(c1)) {
            (Some(h), Some(l)) => 16 * h + l,
            _ => 0,
        }
    }
}

/// Reads a `#rrggbb` or `#rrggbbaa` colour; other lengths give opaque black and a
/// pair that is not a number gives 0.
pub fn parse_hex_rgba(hex: &str) -> (c: Rgba8)
    requires
        hex_cuts_ok(hex.spec_bytes()),
    ensures
        c == hex_rgba(hex.spec_bytes()),
{
    let b = hex.as_bytes();
    let n = b.len();
    let mut k: usize = 0;
    proof {
        assert(b@.skip(0) =~= b@);
    }
    while k < n && b[k] == HASH
        invariant
            n == b@.len(),
            k <= n,
            trimmed(b@) == trimmed(b@.skip(k as int)),
        decreases n - k,
    {
        proof {
            assert(b@.skip(k as int).drop_first() =~= b@.skip(k + 1));
        }
        k = k + 1;
    }
    let ghost t = b@.skip(k as int);
    proof {
        assert(trimmed(t) == t);
        assert(t.len() == n - k);
        assert forall|j: int| 0 <= j < t.len() implies t[j] == b@[k + j] by {}
    }
    let len = n - k;
    if len == 6 {
        Rgba8 {
            r: pair_of(b[k], b[k + 1]),
            g: pair_of(b[k + 2], b[k + 3]),
            b: pair_of(b[k + 4], b[k + 5]),
            a: 255,
        }
    } else if len == 8 {
        Rgba8 {
            r: pair_of(b[k], b[k + 1]),
            g: pair_of(b[k + 2], b[k + 3]),
            b: pair_of(b[k + 4], b[k + 5]),
            a: pair_of(b[k + 6], b[k + 7]),
        }
    } else {
        Rgba8 { r: 0, g: 0, b: 0, a: 255 }
    }
}

/// The four border strips around a window at `(x, y)` of size `w` by `h`, `bw` thick:
/// top, bottom, left, right.
pub open spec fn border_fills(x: int, y: int, w: int, h: int, bw: int, role: FillRole) -> Seq<Fill> {
    seq![
        Fill { rect: Rect { x: (x - bw) as i32, y: (y - bw) as i32, w: (w + bw * 2) as i32, h: bw as i32 }, role },
        Fill { rect: Rect { x: (x - bw) as i32, y: (y + h) as i32, w: (w + bw * 2) as i32, h: bw as i32 }, role },
        Fill { rect: Rect { x: (x - bw) as i32, y: y as i32, w: bw as i32, h: h as i32 }, role },
        Fill { rect: Rect { x: (x + w) as i32, y: y as i32, w: bw as i32, h: h as i32 }, role },
    ]
}

/// The border strips of one window: active colour when it has the focus.
pub open spec fn window_border<W>(g: FrameGeometry, s: WindowState<W>, focused: Option<WindowId>) -> Seq<Fill> {
    border_fills(
        s.x as int,
        s.y as int,
        wrap_i32(s.width as int),
        wrap_i32(s.height as int),
        wrap_i32(g.border_width as int),
        if focused == Some(s.id) { FillRole::BorderActive } else { FillRole::BorderInactive },
    )
}

/// The border strips of all the windows, in order.
pub open spec fn border_list<W>(g: FrameGeometry, wins: Seq<WindowState<W>>, focused: Option<WindowId>) -> Seq<Fill>
    decreases wins.len(),
{
    if wins.len() == 0 {
        Seq::empty()
    } else {
        border_list(g, wins.drop_last(), focused) + window_border(g, wins.last(), focused)
    }
}

/// The border arithmetic of one window stays within `i32`.
pub open spec fn border_fits<W>(g: FrameGeometry, s: WindowState<W>) -> bool {
    let bw = wrap_i32(g.border_width as int);
    let w = wrap_i32(s.width as int);
    let h = wrap_i32(s.height as int);
    &&& fits_i32(s.x - bw)
    &&& fits_i32(s.y - bw)
    &&& fits_i32(bw * 2)
    &&& fits_i32(w + bw * 2)
    &&& fits_i32(s.y + h)
    &&& fits_i32(s.x + w)
}

/// The whole frame, back to front: the background over the screen, the borders of the
/// visible windows from the bottom of the stack up (the focused one last, on top), the bar
/// when it is on, and the cursor square.
pub open spec fn frame_fills<W>(g: FrameGeometry, v: WmView<W>, bar_enabled: bool, cursor_x: i32, cursor_y: i32) -> Seq<Fill> {
    let bg = Fill {
        rect: Rect {
            x: 0,
            y: 0,
            w: wrap_i32(g.screen_width as int) as i32,
            h: wrap_i32(g.screen_height as int) as i32,
        },
        role: FillRole::Background,
    };
    let bar = Fill {
        rect: Rect {
            x: 0,
            y: 0,
            w: wrap_i32(g.screen_width as int) as i32,
            h: wrap_i32(g.bar_height as int) as i32,
        },
        role: FillRole::Bar,
    };
    let cursor = Fill { rect: Rect { x: cursor_x, y: cursor_y, w: 8, h: 8 }, role: FillRole::Cursor };
    seq![bg] + border_list(g, v.draw_order(), v.focused) + (if bar_enabled {
        seq![bar]
    } else {
        Seq::empty()
    }) + seq![cursor]
}

/// Appends the border strips of one window.
fn push_borders(fills: &mut Vec<Fill>, x: i32, y: i32, w: i32, h: i32, bw: i32, role: FillRole)
    requires
        fits_i32(x - bw),
        fits_i32(y - bw),
        fits_i32(bw * 2),
        fits_i32(w + bw * 2),
        fits_i32(y + h),
        fits_i32(x + w),
    ensures
        final(fills)@ == old(fills)@ + border_fills(x as int, y as int, w as int, h as int, bw as int, role),
{
    let wide = w + bw * 2;
    fills.push(Fill { rect: Rect { x: x - bw, y: y - bw, w: wide, h: bw }, role });
    fills.push(Fill { rect: Rect { x: x - bw, y: y + h, w: wide, h: bw }, role });
    fills.push(Fill { rect: Rect { x: x - bw, y, w: bw, h }, role });
    fills.push(Fill { rect: Rect { x: x + w, y, w: bw, h }, role });
    proof {
        assert(fills@ =~= old(fills)@ + border_fills(x as int, y as int, w as int, h as int, bw as int, role));
    }
}

/// The rectangles to fill for one frame, back to front (see `frame_fills`).
pub fn frame_plan<W>(g: &FrameGeometry, wm: &WindowManager<W>, bar_enabled: bool, cursor_x: i32, cursor_y: i32) -> (r: Vec<Fill>)
    requires
        forall|i: int| 0 <= i < wm@.draw_order().len() ==> border_fits(*g, #[trigger] wm@.draw_order()[i]),
    ensures
        r@ == frame_fills(*g, wm@, bar_enabled, cursor_x, cursor_y),
{
    let mut fills: Vec<Fill> = Vec::new();
    let sw = u32_to_i32(g.screen_width);
    fills.push(Fill { rect: Rect { x: 0, y: 0, w: sw, h: u32_to_i32(g.screen_height) }, role: FillRole::Background });
    let focused = wm.focused();
    let bw = u32_to_i32(g.border_width);
    let vis = wm.stacked_windows();
    let ghost order = wm@.draw_order();
    let mut i: usize = 0;
    proof {
        assert(order.take(0) =~= Seq::<WindowState<W>>::empty());
    }
    while i < vis.len()
        invariant
            i <= vis@.len(),
            vis@.len() == order.len(),
            order == wm@.draw_order(),
            focused == wm@.focused,
            bw as int == wrap_i32(g.border_width as int),
            sw as int == wrap_i32(g.screen_width as int),
            forall|j: int| 0 <= j < vis@.len() ==> *vis@[j] == order[j],
            forall|j: int| 0 <= j < order.len() ==> border_fits(*g, #[trigger] order[j]),
            fills@ == seq![Fill {
                rect: Rect { x: 0, y: 0, w: sw, h: wrap_i32(g.screen_height as int) as i32 },
                role: FillRole::Background,
            }] + border_list(*g, order.take(i as int), focused),
        decreases vis@.len() - i,
    {
        let s = vis[i];
        let role = if focused == Some(s.id) {
            FillRole::BorderActive
        } else {
            FillRole::BorderInactive
        };
        proof {
            assert(order.take(i + 1).drop_last() =~= order.take(i as int));
            assert(order.take(i + 1).last() == order[i as int]);
            assert(border_fits(*g, order[i as int]));
        }
        let ghost before = fills@;
        push_borders(&mut fills, s.x, s.y, u32_to_i32(s.width), u32_to_i32(s.height), bw, role);
        proof {
            assert(fills@ =~= seq![Fill {
                rect: Rect { x: 0, y: 0, w: sw, h: wrap_i32(g.screen_height as int) as i32 },
                role: FillRole::Background,
            }] + border_list(*g, order.take(i + 1), focused));
        }
        i = i + 1;
    }
    proof {
        assert(order.take(i as int) =~= order);
    }
    if bar_enabled {
        fills.push(Fill { rect: Rect { x: 0, y: 0, w: sw, h: u32_to_i32(g.bar_height) }, role: FillRole::Bar });
    }
    fills.push(Fill { rect: Rect { x: cursor_x, y: cursor_y, w: 8, h: 8 }, role: FillRole::Cursor });
    proof {
        assert(fills@ =~= frame_fills(*g, wm@, bar_enabled, cursor_x, cursor_y));
    }
    fills
}

/// Four strips per window, each in the colour that says whether the window has the focus.
proof fn lemma_border_list<W>(g: FrameGeometry, wins: Seq<WindowState<W>>, focused: Option<WindowId>)
    ensures
        border_list(g, wins, focused).len() == 4 * wins.len(),
        forall|i: int, k: int| 0 <= i < wins.len() && 0 <= k < 4 ==> #[trigger] border_list(g, wins, focused)[4 * i + k]
            == window_border(g, wins[i], focused)[k],
        forall|i: int, k: int| 0 <= i < wins.len() && 0 <= k < 4 ==> #[trigger] border_list(g, wins, focused)[4 * i + k].role
            == (if focused == Some(wins[i].id) { FillRole::BorderActive } else { FillRole::BorderInactive }),
    decreases wins.len(),
{
    if wins.len() > 0 {
        let init = wins.drop_last();
        lemma_border_list(g, init, focused);
        let l = border_list(g, wins, focused);
        assert forall|i: int, k: int| 0 <= i < wins.len() && 0 <= k < 4 implies #[trigger] l[4 * i + k]
            == window_border(g, wins[i], focused)[k] by {
            if i < wins.len() - 1 {
                assert(wins[i] == init[i]);
                assert(l[4 * i + k] == border_list(g, init, focused)[4 * i + k]);
            } else {
                assert(l[4 * i + k] == window_border(g, wins.last(), focused)[k]);
            }
        }
        assert forall|i: int, k: int| 0 <= i < wins.len() && 0 <= k < 4 implies #[trigger] l[4 * i + k].role
            == (if focused == Some(wins[i].id) { FillRole::BorderActive } else { FillRole::BorderInactive }) by {
            if i < wins.len() - 1 {
                assert(wins[i] == init[i]);
                assert(l[4 * i + k] == border_list(g, init, focused)[4 * i + k]);
            } else {
                assert(l[4 * i + k] == window_border(g, wins.last(), focused)[k]);
            }
        }
    }
}

/// Law: a frame starts with the background over the whole screen and ends with the cursor
/// on top; in between come four border strips per visible window in stacking order, in the
/// active colour exactly for the focused window, then the bar when it is on.
pub proof fn law_frame_layers<W>(g: FrameGeometry, v: WmView<W>, bar_enabled: bool, cursor_x: i32, cursor_y: i32)
    ensures
        ({
            let f = frame_fills(g, v, bar_enabled, cursor_x, cursor_y);
            let n = v.draw_order().len();
            &&& f.len() == 2 + 4 * n + (if bar_enabled { 1int } else { 0int })
            &&& f[0].role == FillRole::Background
            &&& f[0].rect == Rect {
                x: 0,
                y: 0,
                w: wrap_i32(g.screen_width as int) as i32,
                h: wrap_i32(g.screen_height as int) as i32,
            }
            &&& f[f.len() - 1] == Fill { rect: Rect { x: cursor_x, y: cursor_y, w: 8, h: 8 }, role: FillRole::Cursor }
            &&& (bar_enabled ==> f[f.len() - 2] == Fill {
                rect: Rect {
                    x: 0,
                    y: 0,
                    w: wrap_i32(g.screen_width as int) as i32,
                    h: wrap_i32(g.bar_height as int) as i32,
                },
                role: FillRole::Bar,
            })
            &&& forall|i: int, k: int| 0 <= i < n && 0 <= k < 4 ==> #[trigger] f[1 + 4 * i + k] == window_border(
                g,
                v.draw_order()[i],
                v.focused,
            )[k]
            &&& forall|i: int, k: int| 0 <= i < n && 0 <= k < 4 ==> #[trigger] f[1 + 4 * i + k].role == (if v.focused
                == Some(v.draw_order()[i].id) {
                FillRole::BorderActive
            } else {
                FillRole::BorderInactive
            })
        }),
{
    let order = v.draw_order();
    lemma_border_list(g, order, v.focused);
    let f = frame_fills(g, v, bar_enabled, cursor_x, cursor_y);
    let b = border_list(g, order, v.focused);
    assert forall|i: int, k: int| 0 <= i < order.len() && 0 <= k < 4 implies #[trigger] f[1 + 4 * i + k].role == (if v.focused
        == Some(order[i].id) {
        FillRole::BorderActive
    } else {
        FillRole::BorderInactive
    }) by {
        assert(f[1 + 4 * i + k] == b[4 * i + k]);
    }
    assert forall|i: int, k: int| 0 <= i < order.len() && 0 <= k < 4 implies #[trigger] f[1 + 4 * i + k] == window_border(
        g,
        order[i],
        v.focused,
    )[k] by {
        assert(f[1 + 4 * i + k] == b[4 * i + k]);
    }
}

/// The lowercase hexadecimal digit for `d` (0 to 15).
pub open spec fn hex_char(d: u8) -> u8 {
    if d < 10 {
        (0x30 + d) as u8
    } else {
        (0x61 + d - 10) as u8
    }
}

/// The uppercase hexadecimal digit for `d` (0 to 15).
pub open spec fn hex_char_upper(d: u8) -> u8 {
    if d < 10 {
        (0x30 + d) as u8
    } else {
        (0x41 + d - 10) as u8
    }
}

/// Law: a byte written as two hexadecimal digits, in either case, reads back as itself,
/// and so does a single digit behind a `'+'`.
pub proof fn law_pair_round_trip(v: u8)
    ensures
        pair_value(hex_char(v / 16), hex_char(v % 16)) == v,
        pair_value(hex_char_upper(v / 16), hex_char_upper(v % 16)) == v,
        v < 16 ==> pair_value(0x2b, hex_char(v)) == v,
{
}

/// Law: a colour written as `#rrggbb` reads back as itself, opaque; written as `#rrggbbaa`
/// it reads back with its alpha.
pub proof fn law_colour_round_trip(r: u8, g: u8, b: u8, a: u8)
    ensures
        hex_rgba(seq![HASH, hex_char(r / 16), hex_char(r % 16), hex_char(g / 16), hex_char(g % 16), hex_char(b / 16), hex_char(b % 16)])
            == (Rgba8 { r, g, b, a: 255 }),
        hex_rgba(
            seq![HASH, hex_char(r / 16), hex_char(r % 16), hex_char(g / 16), hex_char(g % 16), hex_char(b / 16), hex_char(b % 16), hex_char(a / 16), hex_char(a % 16)],
        ) == (Rgba8 { r, g, b, a }),
{
    law_pair_round_trip(r);
    law_pair_round_trip(g);
    law_pair_round_trip(b);
    law_pair_round_trip(a);
    let s6 = seq![HASH, hex_char(r / 16), hex_char(r % 16), hex_char(g / 16), hex_char(g % 16), hex_char(b / 16), hex_char(b % 16)];
    let s8 = seq![HASH, hex_char(r / 16), hex_char(r % 16), hex_char(g / 16), hex_char(g % 16), hex_char(b / 16), hex_char(b % 16), hex_char(a / 16), hex_char(a % 16)];
    assert(s6.drop_first()[0] != HASH);
    assert(trimmed(s6.drop_first()) == s6.drop_first());
    assert(s8.drop_first()[0] != HASH);
    assert(trimmed(s8.drop_first()) == s8.drop_first());
}

/// Law: the four border strips frame the window. Each is `bw` thick; the top strip lies
/// right above the window and the bottom one right below it, both reaching `bw` past either
/// side; the left and right strips lie right beside the window along its full height.
pub proof fn law_borders_frame_window(x: int, y: int, w: int, h: int, bw: int, role: FillRole)
    requires
        fits_i32(x - bw),
        fits_i32(y - bw),
        fits_i32(bw * 2),
        fits_i32(w + bw * 2),
        fits_i32(y + h),
        fits_i32(x + w),
        fits_i32(x),
        fits_i32(y),
        fits_i32(w),
        fits_i32(h),
        fits_i32(bw),
    ensures
        ({
            let f = border_fills(x, y, w, h, bw, role);
            let (top, bottom, left, right) = (f[0].rect, f[1].rect, f[2].rect, f[3].rect);
            &&& f.len() == 4
            &&& forall|i: int| 0 <= i < 4 ==> #[trigger] f[i].role == role
            &&& top.x == x - bw && top.x + top.w == x + w + bw && top.y == y - bw && top.y + top.h == y
            &&& bottom.x == x - bw && bottom.x + bottom.w == x + w + bw && bottom.y == y + h && bottom.h == bw
            &&& left.x == x - bw && left.x + left.w == x && left.y == y && left.y + left.h == y + h
            &&& right.x == x + w && right.w == bw && right.y == y && right.y + right.h == y + h
        }),
{
}

/// How many `'#'` bytes `b` starts with.
pub open spec fn hash_run(b: Seq<u8>) -> nat
    decreases b.len(),
{
    if b.len() > 0 && b[0] == HASH {
        1 + hash_run(b.drop_first())
    } else {
        0
    }
}

/// Law: only leading `'#'`s are dropped: what is left is the text from its first byte
/// that is not a `'#'` on.
pub proof fn law_trimmed(b: Seq<u8>)
    ensures
        hash_run(b) <= b.len(),
        trimmed(b) == b.skip(hash_run(b) as int),
        forall|j: int| 0 <= j < hash_run(b) ==> #[trigger] b[j] == HASH,
        hash_run(b) < b.len() ==> b[hash_run(b) as int] != HASH,
    decreases b.len(),
{
    if b.len() > 0 && b[0] == HASH {
        let rest = b.drop_first();
        law_trimmed(rest);
        assert(b.skip(hash_run(b) as int) =~= rest.skip(hash_run(rest) as int));
        assert forall|j: int| 0 <= j < hash_run(b) implies #[trigger] b[j] == HASH by {
            if j > 0 {
                assert(b[j] == rest[j - 1]);
            }
        }
        if hash_run(b) < b.len() {
            assert(b[hash_run(b) as int] == rest[hash_run(rest) as int]);
        }
    } else {
        assert(b.skip(0) =~= b);
    }
}

/// Law: a pair whose second byte is not a hexadecimal digit reads as 0, and so does a pair
/// whose first byte is neither a digit nor `'+'`.
pub proof fn law_pair_not_digits(c0: u8, c1: u8)
    ensures
        hex_digit(c1) is None ==> pair_value(c0, c1) == 0,
        hex_digit(c0) is None && c0 != 0x2b ==> pair_value(c0, c1) == 0,
{
}

} // verus!
