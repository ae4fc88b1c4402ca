use vstd::prelude::*;

use crate::geometry::{fits_i32, lemma_usize_as_i32, lemma_usize_as_u32, u32_to_i32, wrap_i32};
use crate::text::str_equals;
use crate::window::{shown_on, with_geometry, WindowId, WindowManager, WindowState, WmView};

verus! {

/// How windows are placed: where the user puts them, or tiled automatically.
#[derive(Clone, Copy, Debug, PartialEq, Eq, Structural)]
pub enum LayoutMode {
    Floating,
    Tiling,
}

/// The placement policy in force.
pub struct Layout {
    pub mode: LayoutMode,
}

/// The other mode.
pub open spec fn toggled(m: LayoutMode) -> LayoutMode {
    match m {
        LayoutMode::Floating => LayoutMode::Tiling,
        LayoutMode::Tiling => LayoutMode::Floating,
    }
}

/// Law: toggling always changes the mode, and toggling twice gives back the mode one
/// started with.
pub proof fn law_toggle_twice(m: LayoutMode)
    ensures
        toggled(m) != m,
        toggled(toggled(m)) == m,
{
}

/// Space, in pixels, between tiled windows and around them.
pub const GAP: u32 = 8;

/// The last position of `id` in `ids`, or -1.
pub open spec fn pos_of(ids: Seq<WindowId>, id: WindowId) -> int
    decreases ids.len(),
{
    if ids.len() == 0 {
        -1
    } else if ids.last() == id {
        ids.len() - 1
    } else {
        pos_of(ids.drop_last(), id)
    }
}

/// `right_count as u32`: the number of windows in the right column, truncated to 32 bits.
pub open spec fn right_count32(n: int) -> int {
    (n - 1) % 0x1_0000_0000
}

/// Height of each window in the right column.
pub open spec fn right_height(screen_height: u32, bar_height: u32, n: int) -> int {
    let usable = screen_height - bar_height;
    let rc = right_count32(n);
    (usable - 8 * (rc + 1)) / rc
}

/// Top edge of every tiled window in the first row.
pub open spec fn tile_top(bar_height: u32) -> int {
    wrap_i32(bar_height as int) + 8
}

/// Rectangle `(x, y, width, height)` of the window at position `k` of the `n`
/// visible windows: alone it fills the screen below the bar (minus the gaps);
/// otherwise the first takes the left half and the others share the right half.
pub open spec fn tile(screen_width: u32, screen_height: u32, bar_height: u32, n: int, k: int) -> (int, int, int, int) {
    let usable = screen_height - bar_height;
    let top = tile_top(bar_height);
    if n == 1 {
        (8, top, screen_width - 16, usable - 16)
    } else {
        let half = screen_width / 2;
        if k == 0 {
            (8, top, half - 12, usable - 16)
        } else {
            let rh = right_height(screen_height, bar_height, n);
            (wrap_i32(half + 4), top + wrap_i32(k - 1) * (wrap_i32(rh) + 8), half - 12, rh)
        }
    }
}

/// The arithmetic of tiling `n` windows stays within its integer types.
pub open spec fn tiling_fits(screen_width: u32, screen_height: u32, bar_height: u32, n: int) -> bool {
    n > 0 ==> {
        let usable = screen_height - bar_height;
        let rc = right_count32(n);
        let rh = right_height(screen_height, bar_height, n);
        &&& bar_height <= screen_height
        &&& fits_i32(tile_top(bar_height))
        &&& usable >= 16
        &&& (n == 1 ==> screen_width >= 16)
        &&& (n > 1 ==> {
            &&& rc != 0
            &&& 8 * (rc + 1) <= u32::MAX
            &&& usable >= 8 * (rc + 1)
            &&& screen_width / 2 >= 12
            &&& fits_i32(wrap_i32(rh) + 8)
            &&& forall|i: int|
                0 <= i < n - 1 ==> {
                    &&& fits_i32(#[trigger] wrap_i32(i) * (wrap_i32(rh) + 8))
                    &&& fits_i32(tile_top(bar_height) + wrap_i32(i) * (wrap_i32(rh) + 8))
                }
        })
    }
}

/// A window after tiling, given the visible identifiers in drawing order.
pub open spec fn retiled<W>(v: WmView<W>, ids: Seq<WindowId>, n: int, s: WindowState<W>) -> WindowState<W> {
    let p = pos_of(ids, s.id);
    if p >= 0 {
        let t = tile(v.screen_width, v.screen_height, v.bar_height, n, p);
        with_geometry(s, t.0 as i32, t.1 as i32, t.2 as u32, t.3 as u32)
    } else {
        s
    }
}

/// Identifiers of the visible windows in drawing order.
pub open spec fn visible_ids<W>(v: WmView<W>) -> Seq<WindowId> {
    v.visible_order().map_values(|s: WindowState<W>| s.id)
}

/// The windows after tiling: each visible one gets the tile of its drawing position.
pub open spec fn tiled_windows<W>(v: WmView<W>) -> Seq<WindowState<W>> {
    let ids = visible_ids(v);
    v.windows.map_values(|s: WindowState<W>| retiled(v, ids, ids.len() as int, s))
}

/// The windows after tiling the first `m` visible identifiers.
pub open spec fn tiled_prefix<W>(v: WmView<W>, ids: Seq<WindowId>, m: int, n: int) -> Seq<WindowState<W>> {
    v.windows.map_values(|s: WindowState<W>| retiled(v, ids.take(m), n, s))
}

/// Tiling one more identifier, `ids[m]`, puts its window at tile `m`.
proof fn lemma_tile_step<W>(v: WmView<W>, cur: WmView<W>, next: WmView<W>, ids: Seq<WindowId>, m: int, n: int)
    requires
        v.wf(),
        cur.wf(),
        0 <= m < ids.len(),
        v.has_window(ids[m]),
        cur.windows == tiled_prefix(v, ids, m, n),
        cur.has_window(ids[m]) ==> next.windows == cur.windows.update(
            cur.index_of(ids[m]),
            with_geometry(
                cur.window(ids[m]),
                tile(v.screen_width, v.screen_height, v.bar_height, n, m).0 as i32,
                tile(v.screen_width, v.screen_height, v.bar_height, n, m).1 as i32,
                tile(v.screen_width, v.screen_height, v.bar_height, n, m).2 as u32,
                tile(v.screen_width, v.screen_height, v.bar_height, n, m).3 as u32,
            ),
        ),
    ensures
        cur.has_window(ids[m]),
        next.windows == tiled_prefix(v, ids, m + 1, n),
{
    let k = v.index_of(ids[m]);
    assert(cur.windows[k].id == ids[m]);
    assert(cur.has_window(ids[m]));
    cur.lemma_index_of(k);
    assert(ids.take(m + 1).drop_last() =~= ids.take(m));
    assert(ids.take(m + 1).last() == ids[m]);
    let want = tiled_prefix(v, ids, m + 1, n);
    assert forall|j: int| 0 <= j < next.windows.len() implies next.windows[j] == want[j] by {
        if j == k {
        } else {
            assert(v.windows[j].id != ids[m]) by {
                if j < k {
                    assert(v.windows[j].id != v.windows[k].id);
                } else {
                    assert(v.windows[k].id != v.windows[j].id);
                }
            }
        }
    }
    assert(next.windows =~= want);
}

/// Identifiers of the visible windows, in drawing order.
fn visible_id_list<W>(wm: &WindowManager<W>) -> (ids: Vec<WindowId>)
    ensures
        ids@ == visible_ids(wm@),
{
    let vis = wm.visible_windows();
    let mut ids: Vec<WindowId> = Vec::new();
    let mut i: usize = 0;
    while i < vis.len()
        invariant
            i <= vis@.len(),
            vis@.len() == wm@.visible_order().len(),
            forall|j: int| 0 <= j < vis@.len() ==> *vis@[j] == wm@.visible_order()[j],
            ids@ == wm@.visible_order().take(i as int).map_values(|s: WindowState<W>| s.id),
        decreases vis@.len() - i,
    {
        ids.push(vis[i].id);
        i = i + 1;
        proof {
            assert(ids@ =~= wm@.visible_order().take(i as int).map_values(|s: WindowState<W>| s.id));
        }
    }
    proof {
        assert(wm@.visible_order().take(i as int) =~= wm@.visible_order());
    }
    ids
}

impl Layout {
    /// `"tiling"` selects tiling; anything else floating.
    pub fn new(mode_str: &str) -> (l: Layout)
        ensures
            l.mode == (if mode_str@ == "tiling"@ { LayoutMode::Tiling } else { LayoutMode::Floating }),
    {
        let mode = if str_equals(mode_str, "tiling") {
            LayoutMode::Tiling
        } else {
            LayoutMode::Floating
        };
        Layout { mode }
    }

    /// Switches between floating and tiling.
    pub fn toggle(&mut self)
        ensures
            final(self).mode == toggled(old(self).mode),
    {
        self.mode = match self.mode {
            LayoutMode::Floating => LayoutMode::Tiling,
            LayoutMode::Tiling => LayoutMode::Floating,
        };
    }

    /// Re-places the windows by the current mode: floating leaves them where they are,
    /// tiling gives every visible window its tile.
    pub fn arrange<W>(&self, wm: &mut WindowManager<W>)
        requires
            old(wm)@.wf(),
            self.mode == LayoutMode::Tiling ==> tiling_fits(
                old(wm)@.screen_width,
                old(wm)@.screen_height,
                old(wm)@.bar_height,
                old(wm)@.visible_order().len() as int,
            ),
        ensures
            final(wm)@.wf(),
            final(wm)@.windows == (if self.mode == LayoutMode::Tiling {
                tiled_windows(old(wm)@)
            } else {
                old(wm)@.windows
            }),
            final(wm)@.focused == old(wm)@.focused,
            final(wm)@.next_id == old(wm)@.next_id,
            final(wm)@.same_settings(old(wm)@),
    {
        match self.mode {
            LayoutMode::Floating => {},
            LayoutMode::Tiling => {
                self.arrange_tiling(wm);
            },
        }
    }

    /// Alone, a window fills the screen below the bar less the gaps; with more, the
    /// first takes the left half and the rest share the right half from top to bottom.
    fn arrange_tiling<W>(&self, wm: &mut WindowManager<W>)
        requires
            old(wm)@.wf(),
            tiling_fits(
                old(wm)@.screen_width,
                old(wm)@.screen_height,
                old(wm)@.bar_height,
                old(wm)@.visible_order().len() as int,
            ),
        ensures
            final(wm)@.wf(),
            final(wm)@.windows == tiled_windows(old(wm)@),
            final(wm)@.focused == old(wm)@.focused,
            final(wm)@.next_id == old(wm)@.next_id,
            final(wm)@.same_settings(old(wm)@),
    {
        let ghost v = wm@;
        let screen_w = wm.screen_width();
        let screen_h = wm.screen_height();
        let bar_h = wm.bar_height();
        let ids = visible_id_list(wm);
        let count = ids.len();
        let ghost n = count as int;
        proof {
            v.lemma_visible_members();
            assert forall|m: int| 0 <= m < ids@.len() implies v.has_window(#[trigger] ids@[m]) by {
                let j = choose|j: int| 0 <= j < v.windows.len() && v.windows[j] == v.visible_order()[m];
                assert(v.windows[j].id == ids@[m]);
            }
            assert(ids@.take(0) =~= Seq::<WindowId>::empty());
            assert(wm@.windows =~= tiled_prefix(v, ids@, 0, n));
        }
        if count == 0 {
            proof {
                assert(ids@.take(0) =~= ids@);
            }
            return;
        }
        let usable_h = screen_h - bar_h;
        let top: i32 = u32_to_i32(bar_h) + 8;
        if count == 1 {
            wm.set_geometry(ids[0], 8, top, screen_w - 16, usable_h - 16);
            proof {
                lemma_tile_step(v, v, wm@, ids@, 0, n);
                assert(ids@.take(1) =~= ids@);
            }
        } else {
            let half_w = screen_w / 2;
            let right_count = count - 1;
            proof {
                lemma_usize_as_u32(right_count);
            }
            let rc = right_count as u32;
            let right_h = (usable_h - 8 * (rc + 1)) / rc;
            let ghost before = wm@;
            wm.set_geometry(ids[0], 8, top, half_w - 8 - 4, usable_h - 16);
            proof {
                lemma_tile_step(v, before, wm@, ids@, 0, n);
            }
            let x = u32_to_i32(half_w + 4);
            let step = u32_to_i32(right_h) + 8;
            let mut i: usize = 0;
            while i < right_count
                invariant
                    v == old(wm)@,
                    v.wf(),
                    wm@.wf(),
                    wm@.focused == v.focused,
                    wm@.next_id == v.next_id,
                    wm@.same_settings(v),
                    ids@ == visible_ids(v),
                    n == ids@.len(),
                    n > 1,
                    right_count == n - 1,
                    forall|m: int| 0 <= m < ids@.len() ==> v.has_window(#[trigger] ids@[m]),
                    tiling_fits(v.screen_width, v.screen_height, v.bar_height, n),
                    i <= right_count,
                    wm@.windows == tiled_prefix(v, ids@, i + 1, n),
                    x as int == wrap_i32(v.screen_width / 2 + 4),
                    step as int == wrap_i32(right_height(v.screen_height, v.bar_height, n)) + 8,
                    top as int == tile_top(v.bar_height),
                    half_w == v.screen_width / 2,
                    right_h == right_height(v.screen_height, v.bar_height, n),
                decreases right_count - i,
            {
                proof {
                    lemma_usize_as_i32(i);
                    assert(0 <= i < n - 1);
                }
                let y = top + (i as i32) * step;
                let ghost cur = wm@;
                wm.set_geometry(ids[i + 1], x, y, half_w - 12, right_h);
                proof {
                    lemma_tile_step(v, cur, wm@, ids@, i + 1, n);
                }
                i = i + 1;
            }
            proof {
                assert(ids@.take(i + 1) =~= ids@);
            }
        }
    }
}

/// Law: tiles are laid side by side with one gap between them: the right column starts one
/// gap after the main window ends, and each window of the right column starts one gap
/// below the one above it (for screens and counts whose values fit in `i32`).
pub proof fn law_tiles_abut(screen_width: u32, screen_height: u32, bar_height: u32, n: int)
    requires
        n > 1,
        n - 1 <= i32::MAX,
        tiling_fits(screen_width, screen_height, bar_height, n),
        screen_width / 2 + 4 <= i32::MAX,
        right_height(screen_height, bar_height, n) <= i32::MAX - 8,
    ensures
        tile(screen_width, screen_height, bar_height, n, 0).0 == GAP,
        tile(screen_width, screen_height, bar_height, n, 0).0 + tile(screen_width, screen_height, bar_height, n, 0).2
            + GAP == tile(screen_width, screen_height, bar_height, n, 1).0,
        screen_width - 1 <= tile(screen_width, screen_height, bar_height, n, 1).0 + tile(screen_width, screen_height, bar_height, n, 1).2
            + GAP <= screen_width,
        tile(screen_width, screen_height, bar_height, n, 1).1 == tile(screen_width, screen_height, bar_height, n, 0).1,
        forall|k: int|
            1 <= k < n - 1 ==> #[trigger] tile(screen_width, screen_height, bar_height, n, k + 1).1 == tile(
                screen_width,
                screen_height,
                bar_height,
                n,
                k,
            ).1 + tile(screen_width, screen_height, bar_height, n, k).3 + GAP,
{
    let rh = right_height(screen_height, bar_height, n);
    assert(0 <= rh);
    assert(wrap_i32(rh) == rh);
    assert(wrap_i32(screen_width / 2 + 4) == screen_width / 2 + 4);
    assert(wrap_i32(0) == 0);
    assert forall|k: int| 1 <= k < n - 1 implies #[trigger] tile(screen_width, screen_height, bar_height, n, k + 1).1
        == tile(screen_width, screen_height, bar_height, n, k).1 + tile(screen_width, screen_height, bar_height, n, k).3 + GAP by {
        assert(wrap_i32(k) == k);
        assert(wrap_i32(k - 1) == k - 1);
        assert(k * (rh + 8) == (k - 1) * (rh + 8) + rh + 8) by (nonlinear_arith);
    }
}

/// Law: tiling fills the usable height (screen minus bar). A lone window keeps exactly one
/// gap to every screen edge below the bar. With `n > 1` windows the main one spans the
/// usable height less two gaps, and the `n - 1` windows of the right column, with the
/// `n` gaps around and between them, fill that height up to less than one pixel per
/// window; with two windows the right one is exactly as tall as the main one. All windows
/// of the right column are as wide as the main one.
pub proof fn law_tiles_fill_height(screen_width: u32, screen_height: u32, bar_height: u32, n: int)
    requires
        n > 0,
        n - 1 < 0x1_0000_0000,
        tiling_fits(screen_width, screen_height, bar_height, n),
    ensures
        n == 1 ==> ({
            let t = tile(screen_width, screen_height, bar_height, n, 0);
            &&& t.0 == GAP
            &&& t.0 + t.2 + GAP == screen_width
            &&& t.1 == tile_top(bar_height)
            &&& t.3 + 2 * GAP == screen_height - bar_height
        }),
        n > 1 ==> tile(screen_width, screen_height, bar_height, n, 0).3 + 2 * GAP == screen_height - bar_height,
        bar_height <= i32::MAX ==> tile(screen_width, screen_height, bar_height, n, 0).1 == bar_height + GAP,
        n == 2 ==> tile(screen_width, screen_height, bar_height, n, 1).3 == tile(screen_width, screen_height, bar_height, n, 0).3,
        forall|k: int|
            1 <= k < n ==> {
                let h = #[trigger] tile(screen_width, screen_height, bar_height, n, k).3;
                &&& h >= 0
                &&& (n - 1) * h + GAP * n <= screen_height - bar_height
                &&& screen_height - bar_height < (n - 1) * (h + 1) + GAP * n
                &&& tile(screen_width, screen_height, bar_height, n, k).2 == tile(screen_width, screen_height, bar_height, n, 0).2
            },
{
    if n > 1 {
        let usable = screen_height - bar_height;
        let rc = right_count32(n);
        assert(rc == n - 1);
        let rh = right_height(screen_height, bar_height, n);
        let num = usable - 8 * (rc + 1);
        assert(num >= 0);
        assert(rh == num / rc);
        vstd::arithmetic::div_mod::lemma_fundamental_div_mod(num, rc);
        assert(0 <= num % rc < rc) by {
            vstd::arithmetic::div_mod::lemma_mod_bound(num, rc);
        }
        assert(rh >= 0) by {
            vstd::arithmetic::div_mod::lemma_div_pos_is_pos(num, rc);
        }
        assert forall|k: int| 1 <= k < n implies {
            let h = #[trigger] tile(screen_width, screen_height, bar_height, n, k).3;
            &&& h >= 0
            &&& (n - 1) * h + GAP * n <= screen_height - bar_height
            &&& screen_height - bar_height < (n - 1) * (h + 1) + GAP * n
            &&& tile(screen_width, screen_height, bar_height, n, k).2 == tile(screen_width, screen_height, bar_height, n, 0).2
        } by {
            assert(tile(screen_width, screen_height, bar_height, n, k).3 == rh);
            assert((n - 1) * (rh + 1) == (n - 1) * rh + (n - 1)) by (nonlinear_arith);
            assert(rc * rh == (n - 1) * rh);
        }
        if n == 2 {
            assert(rc == 1);
            assert(num / 1 == num);
            assert(rh == num);
        }
    }
}

/// `pos_of` finds an identifier exactly when it is in the list, at a place holding it.
pub proof fn lemma_pos_of(ids: Seq<WindowId>, id: WindowId)
    ensures
        pos_of(ids, id) >= 0 <==> ids.contains(id),
        pos_of(ids, id) >= 0 ==> pos_of(ids, id) < ids.len() && ids[pos_of(ids, id)] == id,
        pos_of(ids, id) >= -1,
    decreases ids.len(),
{
    if ids.len() > 0 {
        lemma_pos_of(ids.drop_last(), id);
        if ids.last() != id {
            if ids.contains(id) {
                let i = choose|i: int| 0 <= i < ids.len() && ids[i] == id;
                assert(ids.drop_last()[i] == id);
            }
            if ids.drop_last().contains(id) {
                let i = choose|i: int| 0 <= i < ids.drop_last().len() && ids.drop_last()[i] == id;
                assert(ids[i] == id);
            }
        } else {
            assert(ids[ids.len() - 1] == id);
        }
    }
}

/// Law: tiling moves exactly the visible windows: a window that is minimized or on another
/// workspace keeps its place, and each visible window gets the tile of a drawing position
/// that holds it, out of as many tiles as there are visible windows. Nothing but position
/// and size changes.
pub proof fn law_tiling_places<W>(v: WmView<W>)
    requires
        v.wf(),
    ensures
        tiled_windows(v).len() == v.windows.len(),
        forall|j: int| 0 <= j < v.windows.len() ==> {
            let s = v.windows[j];
            let t = #[trigger] tiled_windows(v)[j];
            &&& !shown_on(s, v.active_workspace) ==> t == s
            &&& shown_on(s, v.active_workspace) ==> exists|k: int|
                0 <= k < visible_ids(v).len() && visible_ids(v)[k] == s.id && {
                    let g = tile(v.screen_width, v.screen_height, v.bar_height, visible_ids(v).len() as int, k);
                    t == with_geometry(s, g.0 as i32, g.1 as i32, g.2 as u32, g.3 as u32)
                }
        },
{
    crate::window::law_visible_order(v);
    let ids = visible_ids(v);
    assert forall|j: int| 0 <= j < v.windows.len() implies {
        let s = v.windows[j];
        let t = #[trigger] tiled_windows(v)[j];
        &&& !shown_on(s, v.active_workspace) ==> t == s
        &&& shown_on(s, v.active_workspace) ==> exists|k: int|
            0 <= k < visible_ids(v).len() && visible_ids(v)[k] == s.id && {
                let g = tile(v.screen_width, v.screen_height, v.bar_height, visible_ids(v).len() as int, k);
                t == with_geometry(s, g.0 as i32, g.1 as i32, g.2 as u32, g.3 as u32)
            }
    } by {
        let s = v.windows[j];
        lemma_pos_of(ids, s.id);
        if shown_on(s, v.active_workspace) {
            assert(v.visible_order().contains(s));
            let i = choose|i: int| 0 <= i < v.visible_order().len() && v.visible_order()[i] == s;
            assert(ids[i] == s.id);
            assert(ids.contains(s.id));
        } else {
            if ids.contains(s.id) {
                let i = choose|i: int| 0 <= i < ids.len() && ids[i] == s.id;
                let o = v.visible_order()[i];
                assert(shown_on(o, v.active_workspace));
                v.lemma_visible_members();
                let m = choose|m: int| 0 <= m < v.windows.len() && v.windows[m] == o;
                if m != j {
                    if m < j {
                        assert(v.windows[m].id != v.windows[j].id);
                    } else {
                        assert(v.windows[j].id != v.windows[m].id);
                    }
                }
            }
        }
    }
}

} // verus!
