use vstd::prelude::*;

use crate::animation::WindowAnimPlan;
use crate::geometry::{contains, fits_i32, half_i32, half_toward_zero, rect_contains, u32_to_i32, wrap_i32, Rect};

verus! {

/// Identifier of a managed window; identifiers are handed out in increasing order.
#[derive(Clone, Copy, Debug, PartialEq, Eq, Structural, Hash)]
pub struct WindowId(pub u64);

/// Everything the manager tracks about one window. `window` is the handle of the
/// underlying surface, which the manager carries but never looks into.
pub struct WindowState<W> {
    pub id: WindowId,
    pub window: W,
    pub x: i32,
    pub y: i32,
    pub width: u32,
    pub height: u32,
    pub minimized: bool,
    pub maximized: bool,
    pub fullscreen: bool,
    pub animation: Option<WindowAnimPlan>,
    pub workspace: usize,
    pub title: String,
    /// Position and size from before maximizing, given back when the window is restored.
    pub saved_geometry: Option<(i32, i32, u32, u32)>,
}

/// The animation a new window starts with: an opening animation when animations are on.
pub open spec fn open_plan(duration_ms: u64) -> Option<WindowAnimPlan> {
    if duration_ms > 0 {
        Some(WindowAnimPlan::Open { duration_ms })
    } else {
        None
    }
}

/// `s` with its position and size replaced.
pub open spec fn with_geometry<W>(s: WindowState<W>, x: i32, y: i32, w: u32, h: u32) -> WindowState<W> {
    WindowState {
        id: s.id,
        window: s.window,
        x,
        y,
        width: w,
        height: h,
        minimized: s.minimized,
        maximized: s.maximized,
        fullscreen: s.fullscreen,
        animation: s.animation,
        workspace: s.workspace,
        title: s.title,
        saved_geometry: s.saved_geometry,
    }
}

/// `s` with its position replaced.
pub open spec fn with_position<W>(s: WindowState<W>, x: i32, y: i32) -> WindowState<W> {
    with_geometry(s, x, y, s.width, s.height)
}

/// `s` with its animation replaced.
pub open spec fn with_animation<W>(s: WindowState<W>, a: Option<WindowAnimPlan>) -> WindowState<W> {
    WindowState {
        id: s.id,
        window: s.window,
        x: s.x,
        y: s.y,
        width: s.width,
        height: s.height,
        minimized: s.minimized,
        maximized: s.maximized,
        fullscreen: s.fullscreen,
        animation: a,
        workspace: s.workspace,
        title: s.title,
        saved_geometry: s.saved_geometry,
    }
}

/// `s` with its remembered geometry replaced.
pub open spec fn with_saved<W>(s: WindowState<W>, g: Option<(i32, i32, u32, u32)>) -> WindowState<W> {
    WindowState {
        id: s.id,
        window: s.window,
        x: s.x,
        y: s.y,
        width: s.width,
        height: s.height,
        minimized: s.minimized,
        maximized: s.maximized,
        fullscreen: s.fullscreen,
        animation: s.animation,
        workspace: s.workspace,
        title: s.title,
        saved_geometry: g,
    }
}

/// `s` with its minimized and maximized flags replaced.
pub open spec fn with_flags<W>(s: WindowState<W>, minimized: bool, maximized: bool) -> WindowState<W> {
    WindowState {
        id: s.id,
        window: s.window,
        x: s.x,
        y: s.y,
        width: s.width,
        height: s.height,
        minimized,
        maximized,
        fullscreen: s.fullscreen,
        animation: s.animation,
        workspace: s.workspace,
        title: s.title,
        saved_geometry: s.saved_geometry,
    }
}

impl<W> WindowState<W> {
    /// A fresh, unminimized window on the first workspace titled "Window".
    pub fn new(id: WindowId, window: W, x: i32, y: i32, width: u32, height: u32, duration_ms: u64) -> (s: Self)
        ensures
            s.id == id,
            s.window == window,
            s.x == x,
            s.y == y,
            s.width == width,
            s.height == height,
            !s.minimized,
            !s.maximized,
            !s.fullscreen,
            s.animation == open_plan(duration_ms),
            s.workspace == 0,
            s.title@ == "Window"@,
            s.saved_geometry is None,
    {
        let animation = if duration_ms > 0 {
            Some(WindowAnimPlan::Open { duration_ms })
        } else {
            None
        };
        WindowState {
            id,
            window,
            x,
            y,
            width,
            height,
            minimized: false,
            maximized: false,
            fullscreen: false,
            animation,
            workspace: 0,
            title: String::from_str("Window"),
            saved_geometry: None,
        }
    }

    pub open spec fn geometry_spec(&self) -> Rect {
        Rect {
            x: self.x,
            y: self.y,
            w: wrap_i32(self.width as int) as i32,
            h: wrap_i32(self.height as int) as i32,
        }
    }

    /// The window's rectangle; the size is read as `i32`.
    pub fn geometry(&self) -> (r: Rect)
        ensures
            r == self.geometry_spec(),
    {
        Rect { x: self.x, y: self.y, w: u32_to_i32(self.width), h: u32_to_i32(self.height) }
    }
}

/// A window counts as visible on workspace `ws` when it is there and not minimized.
pub open spec fn shown_on<W>(s: WindowState<W>, ws: usize) -> bool {
    s.workspace == ws && !s.minimized
}

/// The first window, in manager order, shown on workspace `ws`.
pub open spec fn first_shown<W>(wins: Seq<WindowState<W>>, ws: usize) -> Option<WindowId>
    decreases wins.len(),
{
    if wins.len() == 0 {
        None
    } else {
        let before = first_shown(wins.drop_last(), ws);
        if before is Some {
            before
        } else if shown_on(wins.last(), ws) {
            Some(wins.last().id)
        } else {
            None
        }
    }
}

/// The last window, in manager order, shown on workspace `ws` whose rectangle holds the point.
pub open spec fn last_hit<W>(wins: Seq<WindowState<W>>, ws: usize, px: int, py: int) -> Option<WindowId>
    decreases wins.len(),
{
    if wins.len() == 0 {
        None
    } else if shown_on(wins.last(), ws) && rect_contains(wins.last().geometry_spec(), px, py) {
        Some(wins.last().id)
    } else {
        last_hit(wins.drop_last(), ws, px, py)
    }
}

/// The windows shown on `ws`, in manager order, that are (`want_focused`) or are not the focused one.
pub open spec fn shown_part<W>(wins: Seq<WindowState<W>>, ws: usize, focused: Option<WindowId>, want_focused: bool) -> Seq<WindowState<W>>
    decreases wins.len(),
{
    if wins.len() == 0 {
        Seq::empty()
    } else {
        let before = shown_part(wins.drop_last(), ws, focused, want_focused);
        let s = wins.last();
        if shown_on(s, ws) && ((focused == Some(s.id)) == want_focused) {
            before.push(s)
        } else {
            before
        }
    }
}

/// Column where `add_window` puts a window of width `w`: centred, but not left of the screen.
pub open spec fn centered_x(screen_width: u32, w: u32) -> int {
    let c = half_toward_zero(wrap_i32(screen_width as int) - wrap_i32(w as int));
    if c >= 0 {
        c
    } else {
        0
    }
}

/// Row where `add_window` puts a window of height `h`: centred, but not above the bar's bottom.
pub open spec fn centered_y(screen_height: u32, h: u32, bar_height: u32) -> int {
    let c = half_toward_zero(wrap_i32(screen_height as int) - wrap_i32(h as int));
    let b = wrap_i32(bar_height as int);
    if c >= b {
        c
    } else {
        b
    }
}

/// What `move_window` does to a window: with animations on it plans a move
/// taking half the animation length, otherwise the window jumps there.
pub open spec fn moved<W>(s: WindowState<W>, x: i32, y: i32, duration_ms: u64) -> WindowState<W> {
    if duration_ms > 0 {
        with_animation(
            s,
            Some(WindowAnimPlan::Move { from_x: s.x, to_x: x, from_y: s.y, to_y: y, duration_ms: (duration_ms / 2) as u64 }),
        )
    } else {
        with_position(s, x, y)
    }
}

/// What `maximize` does to a window: a maximized one loses the flag and gets back the
/// position and size it had before (when they were remembered); any other one remembers
/// its position and size and covers the screen below the bar.
pub open spec fn maximized<W>(s: WindowState<W>, screen_width: u32, screen_height: u32, bar_height: u32) -> WindowState<W> {
    if s.maximized {
        let t = with_flags(s, s.minimized, false);
        match s.saved_geometry {
            Some(g) => with_saved(with_geometry(t, g.0, g.1, g.2, g.3), None),
            None => t,
        }
    } else {
        with_saved(
            with_geometry(
                with_flags(s, s.minimized, true),
                0,
                wrap_i32(bar_height as int) as i32,
                screen_width,
                (screen_height - bar_height) as u32,
            ),
            Some((s.x, s.y, s.width, s.height)),
        )
    }
}

/// The manager as a value: its windows (oldest first), the next identifier to hand
/// out, the focus, the active workspace, the animation length and the screen.
pub struct WmView<W> {
    pub windows: Seq<WindowState<W>>,
    pub next_id: u64,
    pub focused: Option<WindowId>,
    pub active_workspace: usize,
    pub duration_ms: u64,
    pub screen_width: u32,
    pub screen_height: u32,
    pub bar_height: u32,
}

impl<W> WmView<W> {
    pub open spec fn has_window(self, id: WindowId) -> bool {
        exists|i: int| 0 <= i < self.windows.len() && self.windows[i].id == id
    }

    /// Position of the window with identifier `id` (meaningful when there is one).
    pub open spec fn index_of(self, id: WindowId) -> int {
        choose|i: int| 0 <= i < self.windows.len() && self.windows[i].id == id
    }

    /// The window with identifier `id` (meaningful when there is one).
    pub open spec fn window(self, id: WindowId) -> WindowState<W> {
        self.windows[self.index_of(id)]
    }

    /// Identifiers are distinct and below the next one to hand out.
    pub open spec fn wf(self) -> bool {
        &&& forall|i: int, j: int|
            0 <= i < j < self.windows.len() ==> self.windows[i].id != self.windows[j].id
        &&& forall|i: int| 0 <= i < self.windows.len() ==> self.windows[i].id.0 < self.next_id
    }

    /// The focus, if any, is on a managed window.
    pub open spec fn focus_ok(self) -> bool {
        self.focused matches Some(f) ==> self.has_window(f)
    }

    /// Screen, bar, workspace and animation settings are the same in both.
    pub open spec fn same_settings(self, other: Self) -> bool {
        &&& self.active_workspace == other.active_workspace
        &&& self.screen_width == other.screen_width
        &&& self.screen_height == other.screen_height
        &&& self.bar_height == other.bar_height
        &&& self.duration_ms == other.duration_ms
    }

    /// The visible windows, the focused one first and then the others in manager order.
    pub open spec fn visible_order(self) -> Seq<WindowState<W>> {
        shown_part(self.windows, self.active_workspace, self.focused, true) + shown_part(
            self.windows,
            self.active_workspace,
            self.focused,
            false,
        )
    }

    /// The visible windows from the bottom of the stack up: the others in manager order
    /// (a newer window above an older one), then the focused one on top.
    pub open spec fn draw_order(self) -> Seq<WindowState<W>> {
        shown_part(self.windows, self.active_workspace, self.focused, false) + shown_part(
            self.windows,
            self.active_workspace,
            self.focused,
            true,
        )
    }

    /// Every window in the drawing order is one of the managed windows.
    pub proof fn lemma_draw_members(self)
        ensures
            forall|i: int|
                0 <= i < self.draw_order().len() ==> exists|j: int|
                    0 <= j < self.windows.len() && self.windows[j] == #[trigger] self.draw_order()[i],
    {
        lemma_shown_part_members(self.windows, self.active_workspace, self.focused, true);
        lemma_shown_part_members(self.windows, self.active_workspace, self.focused, false);
        let front = shown_part(self.windows, self.active_workspace, self.focused, true);
        let rest = shown_part(self.windows, self.active_workspace, self.focused, false);
        assert forall|i: int| 0 <= i < self.draw_order().len() implies exists|j: int|
            0 <= j < self.windows.len() && self.windows[j] == #[trigger] self.draw_order()[i] by {
            if i < rest.len() {
                assert(self.draw_order()[i] == rest[i]);
            } else {
                assert(self.draw_order()[i] == front[i - rest.len()]);
            }
        }
    }

    /// Every window in the visible order is one of the managed windows.
    pub proof fn lemma_visible_members(self)
        ensures
            forall|i: int|
                0 <= i < self.visible_order().len() ==> exists|j: int|
                    0 <= j < self.windows.len() && self.windows[j] == #[trigger] self.visible_order()[i],
    {
        lemma_shown_part_members(self.windows, self.active_workspace, self.focused, true);
        lemma_shown_part_members(self.windows, self.active_workspace, self.focused, false);
        let front = shown_part(self.windows, self.active_workspace, self.focused, true);
        let rest = shown_part(self.windows, self.active_workspace, self.focused, false);
        assert forall|i: int| 0 <= i < self.visible_order().len() implies exists|j: int|
            0 <= j < self.windows.len() && self.windows[j] == #[trigger] self.visible_order()[i] by {
            if i < front.len() {
                assert(self.visible_order()[i] == front[i]);
            } else {
                assert(self.visible_order()[i] == rest[i - front.len()]);
            }
        }
    }

    /// Changing windows in place, keeping every identifier, keeps the invariant.
    pub proof fn lemma_keeps_wf(self, prev: Self, k: int)
        requires
            prev.wf(),
            self.windows.len() == prev.windows.len(),
            forall|i: int| 0 <= i < self.windows.len() ==> #[trigger] self.windows[i].id == prev.windows[i].id,
            self.next_id == prev.next_id,
            self.focused == prev.focused,
        ensures
            self.wf(),
            prev.focus_ok() ==> self.focus_ok(),
    {
        if let Some(f) = self.focused {
            if prev.has_window(f) {
                let j = prev.index_of(f);
                assert(self.windows[j].id == f);
            }
        }
        assert forall|i: int, j: int| 0 <= i < j < self.windows.len() implies self.windows[i].id != self.windows[j].id by {
            assert(prev.windows[i].id != prev.windows[j].id);
        }
    }

    pub proof fn lemma_index_of(self, i: int)
        requires
            self.wf(),
            0 <= i < self.windows.len(),
        ensures
            self.has_window(self.windows[i].id),
            self.index_of(self.windows[i].id) == i,
    {
        let id = self.windows[i].id;
        assert(self.has_window(id));
        let k = self.index_of(id);
        assert(0 <= k < self.windows.len() && self.windows[k].id == id);
        if k != i {
            if k < i {
                assert(self.windows[k].id != self.windows[i].id);
            } else {
                assert(self.windows[i].id != self.windows[k].id);
            }
        }
    }
}

/// Every window in a part of the visible order is one of the managed windows.
pub proof fn lemma_shown_part_members<W>(wins: Seq<WindowState<W>>, ws: usize, focused: Option<WindowId>, want_focused: bool)
    ensures
        forall|i: int|
            0 <= i < shown_part(wins, ws, focused, want_focused).len() ==> exists|j: int|
                0 <= j < wins.len() && wins[j] == #[trigger] shown_part(wins, ws, focused, want_focused)[i],
    decreases wins.len(),
{
    if wins.len() > 0 {
        lemma_shown_part_members(wins.drop_last(), ws, focused, want_focused);
        let before = shown_part(wins.drop_last(), ws, focused, want_focused);
        let part = shown_part(wins, ws, focused, want_focused);
        assert forall|i: int| 0 <= i < part.len() implies exists|j: int| 0 <= j < wins.len() && wins[j] == #[trigger] part[i] by {
            if i < before.len() {
                assert(part[i] == before[i]);
                let j = choose|j: int| 0 <= j < wins.drop_last().len() && wins.drop_last()[j] == before[i];
                assert(wins[j] == part[i]);
            } else {
                assert(part[i] == wins[wins.len() - 1]);
            }
        }
    }
}

/// What `first_shown` picks is a window shown on `ws`; it picks nothing only when no window is.
pub proof fn lemma_first_shown<W>(wins: Seq<WindowState<W>>, ws: usize)
    ensures
        first_shown(wins, ws) matches Some(f) ==> exists|i: int| 0 <= i < wins.len() && wins[i].id == f && shown_on(wins[i], ws),
        first_shown(wins, ws) is None ==> forall|i: int| 0 <= i < wins.len() ==> !shown_on(#[trigger] wins[i], ws),
    decreases wins.len(),
{
    if wins.len() > 0 {
        let init = wins.drop_last();
        lemma_first_shown(init, ws);
        if let Some(f) = first_shown(init, ws) {
            let i = choose|i: int| 0 <= i < init.len() && init[i].id == f && shown_on(init[i], ws);
            assert(wins[i] == init[i]);
        }
        assert forall|i: int| 0 <= i < wins.len() - 1 implies wins[i] == init[i] by {}
    }
}

/// Law: after switching workspaces the focus is on a window of the new workspace that is
/// not minimized, and there is a focus whenever the workspace shows any window.
pub proof fn law_switch_focuses_shown<W>(before: WmView<W>, after: WmView<W>, ws: usize)
    requires
        after.windows == before.windows,
        after.active_workspace == ws,
        after.focused == first_shown(before.windows, ws),
    ensures
        after.focused matches Some(f) ==> exists|i: int|
            0 <= i < after.windows.len() && after.windows[i].id == f && shown_on(after.windows[i], ws),
        after.focused is None ==> forall|i: int| 0 <= i < after.windows.len() ==> !shown_on(#[trigger] after.windows[i], ws),
{
    lemma_first_shown(before.windows, ws);
}

/// Law: a minimized window never keeps the focus.
pub proof fn law_minimized_loses_focus<W>(before: WmView<W>, after: WmView<W>, id: WindowId)
    requires
        before.wf(),
        before.has_window(id),
        after.windows == before.windows.update(
            before.index_of(id),
            with_flags(before.window(id), true, before.window(id).maximized),
        ),
        after.focused == (if before.focused == Some(id) {
            first_shown(after.windows, before.active_workspace)
        } else {
            before.focused
        }),
    ensures
        after.focused != Some(id),
{
    let k = before.index_of(id);
    if before.focused == Some(id) {
        lemma_first_shown(after.windows, before.active_workspace);
        if let Some(f) = after.focused {
            let i = choose|i: int| 0 <= i < after.windows.len() && after.windows[i].id == f && shown_on(after.windows[i], before.active_workspace);
            if i != k && f == id {
                if i < k {
                    assert(before.windows[i].id != before.windows[k].id);
                } else {
                    assert(before.windows[k].id != before.windows[i].id);
                }
            }
        }
    }
}

/// Law: removing the window that was just added gives back the windows from before.
pub proof fn law_remove_undoes_add<W>(v0: WmView<W>, v1: WmView<W>, v2: WmView<W>, id: WindowId)
    requires
        v1.wf(),
        v1.windows.len() == v0.windows.len() + 1,
        v1.windows.drop_last() == v0.windows,
        v1.windows.last().id == id,
        v1.has_window(id) ==> v2.windows == v1.windows.remove(v1.index_of(id)),
    ensures
        v2.windows == v0.windows,
{
    let last = v1.windows.len() - 1;
    v1.lemma_index_of(last);
    assert(v1.windows.remove(last) =~= v1.windows.drop_last());
}

/// Law: maximizing a window twice gives it back its position, size and flags (nothing is
/// left remembered) and leaves the other windows alone.
pub proof fn law_maximize_twice<W>(v0: WmView<W>, v1: WmView<W>, v2: WmView<W>, id: WindowId)
    requires
        v0.wf(),
        v1.wf(),
        v0.has_window(id),
        !v0.window(id).maximized,
        v1.windows == v0.windows.update(v0.index_of(id), maximized(v0.window(id), v0.screen_width, v0.screen_height, v0.bar_height)),
        v1.has_window(id) ==> v2.windows == v1.windows.update(v1.index_of(id), maximized(v1.window(id), v1.screen_width, v1.screen_height, v1.bar_height)),
    ensures
        v2.windows == v0.windows.update(v0.index_of(id), with_saved(v0.window(id), None)),
{
    let k = v0.index_of(id);
    assert(v1.windows[k].id == id);
    v1.lemma_index_of(k);
    assert(v2.windows =~= v0.windows.update(k, with_saved(v0.window(id), None)));
}

/// Every window in a part of the visible order is shown on the workspace and is
/// (or is not) the focused one, as the part asks.
proof fn lemma_shown_part_props<W>(wins: Seq<WindowState<W>>, ws: usize, focused: Option<WindowId>, want: bool)
    ensures
        forall|i: int| 0 <= i < shown_part(wins, ws, focused, want).len() ==> {
            let s = #[trigger] shown_part(wins, ws, focused, want)[i];
            shown_on(s, ws) && ((focused == Some(s.id)) == want)
        },
        forall|j: int| 0 <= j < wins.len() && shown_on(wins[j], ws) && ((focused == Some(wins[j].id)) == want)
            ==> shown_part(wins, ws, focused, want).contains(#[trigger] wins[j]),
    decreases wins.len(),
{
    if wins.len() > 0 {
        let init = wins.drop_last();
        lemma_shown_part_props(init, ws, focused, want);
        let before = shown_part(init, ws, focused, want);
        let part = shown_part(wins, ws, focused, want);
        assert forall|j: int| 0 <= j < wins.len() && shown_on(wins[j], ws) && ((focused == Some(wins[j].id)) == want)
            implies part.contains(#[trigger] wins[j]) by {
            if j < wins.len() - 1 {
                assert(wins[j] == init[j]);
                let i = choose|i: int| 0 <= i < before.len() && before[i] == init[j];
                assert(part[i] == before[i]);
            } else {
                assert(part[part.len() - 1] == wins[j]);
            }
        }
        assert forall|i: int| 0 <= i < part.len() implies {
            let s = #[trigger] part[i];
            shown_on(s, ws) && ((focused == Some(s.id)) == want)
        } by {
            if i < before.len() {
                assert(part[i] == before[i]);
            }
        }
    }
}

/// Law: the visible windows are exactly those on the active workspace that are not
/// minimized, and the focused one, when it is among them, comes first.
pub proof fn law_visible_order<W>(v: WmView<W>)
    requires
        v.wf(),
    ensures
        forall|i: int| 0 <= i < v.visible_order().len() ==> shown_on(#[trigger] v.visible_order()[i], v.active_workspace),
        forall|j: int| 0 <= j < v.windows.len() && shown_on(v.windows[j], v.active_workspace)
            ==> v.visible_order().contains(#[trigger] v.windows[j]),
        v.focused is Some && v.has_window(v.focused->0) && shown_on(v.window(v.focused->0), v.active_workspace)
            ==> v.visible_order().len() > 0 && v.visible_order()[0].id == v.focused->0,
{
    let ws = v.active_workspace;
    lemma_shown_part_props(v.windows, ws, v.focused, true);
    lemma_shown_part_props(v.windows, ws, v.focused, false);
    let front = shown_part(v.windows, ws, v.focused, true);
    let rest = shown_part(v.windows, ws, v.focused, false);
    let order = v.visible_order();
    assert forall|i: int| 0 <= i < order.len() implies shown_on(#[trigger] order[i], ws) by {
        if i < front.len() {
            assert(order[i] == front[i]);
        } else {
            assert(order[i] == rest[i - front.len()]);
        }
    }
    assert forall|j: int| 0 <= j < v.windows.len() && shown_on(v.windows[j], ws) implies order.contains(#[trigger] v.windows[j]) by {
        if v.focused == Some(v.windows[j].id) {
            assert(front.contains(v.windows[j]));
            let i = choose|i: int| 0 <= i < front.len() && front[i] == v.windows[j];
            assert(order[i] == front[i]);
        } else {
            assert(rest.contains(v.windows[j]));
            let i = choose|i: int| 0 <= i < rest.len() && rest[i] == v.windows[j];
            assert(order[front.len() + i] == rest[i]);
        }
    }
    if let Some(f) = v.focused {
        if v.has_window(f) && shown_on(v.window(f), ws) {
            let k = v.index_of(f);
            assert(front.contains(v.windows[k]));
            assert(front.len() > 0);
            assert(order[0] == front[0]);
        }
    }
}

/// The point lies in a window shown on `ws`; that window is what `last_hit` looks for.
pub open spec fn hits<W>(s: WindowState<W>, ws: usize, px: int, py: int) -> bool {
    shown_on(s, ws) && rect_contains(s.geometry_spec(), px, py)
}

/// Law: the window found is the topmost under the pointer: it is shown, holds the point,
/// and no window later in the stack does; nothing is found only when no window holds it.
pub proof fn law_focus_at_topmost<W>(wins: Seq<WindowState<W>>, ws: usize, px: int, py: int)
    ensures
        last_hit(wins, ws, px, py) matches Some(f) ==> exists|i: int|
            0 <= i < wins.len() && wins[i].id == f && hits(wins[i], ws, px, py)
                && forall|j: int| i < j < wins.len() ==> !hits(#[trigger] wins[j], ws, px, py),
        last_hit(wins, ws, px, py) is None ==> forall|j: int| 0 <= j < wins.len() ==> !hits(#[trigger] wins[j], ws, px, py),
    decreases wins.len(),
{
    if wins.len() > 0 {
        let init = wins.drop_last();
        law_focus_at_topmost(init, ws, px, py);
        assert forall|j: int| 0 <= j < wins.len() - 1 implies wins[j] == init[j] by {}
        if hits(wins.last(), ws, px, py) {
            assert(wins[wins.len() - 1] == wins.last());
        } else if let Some(f) = last_hit(init, ws, px, py) {
            let i = choose|i: int|
                0 <= i < init.len() && init[i].id == f && hits(init[i], ws, px, py)
                    && forall|j: int| i < j < init.len() ==> !hits(#[trigger] init[j], ws, px, py);
            assert(wins[i] == init[i]);
            assert forall|j: int| i < j < wins.len() implies !hits(#[trigger] wins[j], ws, px, py) by {
                if j < wins.len() - 1 {
                    assert(wins[j] == init[j]);
                }
            }
        }
    }
}

/// Searching a stack from the top finds a hit in the upper part before the lower part.
proof fn lemma_last_hit_concat<W>(a: Seq<WindowState<W>>, b: Seq<WindowState<W>>, ws: usize, px: int, py: int)
    ensures
        last_hit(a + b, ws, px, py) == (if last_hit(b, ws, px, py) is Some {
            last_hit(b, ws, px, py)
        } else {
            last_hit(a, ws, px, py)
        }),
    decreases b.len(),
{
    if b.len() == 0 {
        assert(a + b =~= a);
    } else {
        assert((a + b).drop_last() =~= a + b.drop_last());
        assert((a + b).last() == b.last());
        lemma_last_hit_concat(a, b.drop_last(), ws, px, py);
    }
}

/// Law: the focused window is on top: it is drawn after every other window, and when it is
/// shown and holds the point, clicking there finds it.
pub proof fn law_focused_on_top<W>(v: WmView<W>, px: int, py: int)
    requires
        v.wf(),
    ensures
        forall|i: int, j: int|
            0 <= i < j < v.draw_order().len() && v.focused == Some(#[trigger] v.draw_order()[i].id)
                ==> v.focused == Some(#[trigger] v.draw_order()[j].id),
        v.focused is Some && v.has_window(v.focused->0) && hits(v.window(v.focused->0), v.active_workspace, px, py)
            ==> last_hit(v.draw_order(), v.active_workspace, px, py) == v.focused,
{
    let ws = v.active_workspace;
    lemma_shown_part_props(v.windows, ws, v.focused, true);
    lemma_shown_part_props(v.windows, ws, v.focused, false);
    let front = shown_part(v.windows, ws, v.focused, true);
    let rest = shown_part(v.windows, ws, v.focused, false);
    let d = v.draw_order();
    assert forall|i: int, j: int|
        0 <= i < j < d.len() && v.focused == Some(#[trigger] d[i].id) implies v.focused == Some(#[trigger] d[j].id) by {
        if i < rest.len() {
            assert(d[i] == rest[i]);
        }
        assert(d[j] == front[j - rest.len()]);
    }
    if let Some(f) = v.focused {
        if v.has_window(f) && hits(v.window(f), ws, px, py) {
            let k = v.index_of(f);
            assert(front.contains(v.windows[k]));
            let m = choose|m: int| 0 <= m < front.len() && front[m] == v.windows[k];
            law_focus_at_topmost(front, ws, px, py);
            lemma_last_hit_concat(rest, front, ws, px, py);
            if let Some(g) = last_hit(front, ws, px, py) {
                let i = choose|i: int| 0 <= i < front.len() && front[i].id == g && hits(front[i], ws, px, py)
                    && forall|j: int| i < j < front.len() ==> !hits(#[trigger] front[j], ws, px, py);
                assert(v.focused == Some(front[i].id));
            } else {
                assert(!hits(front[m], ws, px, py));
            }
        }
    }
}

/// Law: a click that is above or left of every shown window finds nothing, so the focus
/// stays where it was.
pub proof fn law_click_beside_windows<W>(v: WmView<W>, px: i32, py: i32)
    requires
        forall|i: int| 0 <= i < v.windows.len() && shown_on(v.windows[i], v.active_workspace)
            ==> py < (#[trigger] v.windows[i]).y || px < v.windows[i].x,
    ensures
        last_hit(v.draw_order(), v.active_workspace, px as int, py as int) is None,
{
    let d = v.draw_order();
    law_focus_at_topmost(d, v.active_workspace, px as int, py as int);
    v.lemma_draw_members();
    if let Some(f) = last_hit(d, v.active_workspace, px as int, py as int) {
        let i = choose|i: int|
            0 <= i < d.len() && d[i].id == f && hits(d[i], v.active_workspace, px as int, py as int)
                && forall|j: int| i < j < d.len() ==> !hits(#[trigger] d[j], v.active_workspace, px as int, py as int);
        let k = choose|k: int| 0 <= k < v.windows.len() && v.windows[k] == d[i];
        crate::geometry::law_contains_bounds(d[i].geometry_spec(), px, py);
        assert(shown_on(v.windows[k], v.active_workspace));
        assert(false);
    }
}

/// Law: a new window is centred. When it fits on the screen its left and right margins
/// differ by at most one pixel; when it is at least as wide as the screen it starts at the
/// left edge. It never starts above the bar's bottom, and when it fits below the bar its
/// top and bottom margins differ by at most one pixel.
pub proof fn law_add_centres(screen_width: u32, screen_height: u32, bar_height: u32, w: u32, h: u32)
    requires
        screen_width <= i32::MAX,
        screen_height <= i32::MAX,
        bar_height <= i32::MAX,
        w <= i32::MAX,
        h <= i32::MAX,
    ensures
        centered_x(screen_width, w) >= 0,
        w <= screen_width ==> screen_width - 1 <= 2 * centered_x(screen_width, w) + w <= screen_width,
        w >= screen_width ==> centered_x(screen_width, w) == 0,
        centered_y(screen_height, h, bar_height) >= bar_height,
        h + 2 * bar_height <= screen_height ==> screen_height - 1 <= 2 * centered_y(screen_height, h, bar_height) + h
            <= screen_height,
{
}

/// Law: moving with animations on leaves the window where it is and plans a move from
/// there to the target that takes half the animation length (rounded down); with
/// animations off the window is at the target at once and nothing else changes.
pub proof fn law_move<W>(s: WindowState<W>, x: i32, y: i32, duration_ms: u64)
    ensures
        duration_ms > 0 ==> ({
            let m = moved(s, x, y, duration_ms);
            &&& m.x == s.x && m.y == s.y && m.width == s.width && m.height == s.height
            &&& m.animation matches Some(WindowAnimPlan::Move { from_x, to_x, from_y, to_y, duration_ms: d })
                && from_x == s.x && from_y == s.y && to_x == x && to_y == y && 2 * d <= duration_ms
                && duration_ms <= 2 * d + 1
        }),
        duration_ms == 0 ==> moved(s, x, y, duration_ms) == with_position(s, x, y),
        moved(s, x, y, duration_ms).id == s.id,
{
}

/// Law: maximizing a window that is not maximized makes it cover the screen below the bar:
/// left edge at 0, right edge at the screen's width, top at the bar's bottom and bottom at
/// the screen's height.
pub proof fn law_maximize_covers<W>(s: WindowState<W>, screen_width: u32, screen_height: u32, bar_height: u32)
    requires
        !s.maximized,
        bar_height <= screen_height,
        bar_height <= i32::MAX,
    ensures
        ({
            let m = maximized(s, screen_width, screen_height, bar_height);
            &&& m.maximized
            &&& m.x == 0
            &&& m.x + m.width == screen_width
            &&& m.y == bar_height
            &&& m.y + m.height == screen_height
            &&& m.id == s.id && m.minimized == s.minimized && m.workspace == s.workspace
        }),
{
}

/// Law: the window `first_shown` picks is shown, and no window before it is.
pub proof fn law_first_shown_is_first<W>(wins: Seq<WindowState<W>>, ws: usize)
    ensures
        first_shown(wins, ws) matches Some(f) ==> exists|i: int|
            0 <= i < wins.len() && wins[i].id == f && shown_on(wins[i], ws) && forall|j: int|
                0 <= j < i ==> !shown_on(#[trigger] wins[j], ws),
        first_shown(wins, ws) is None ==> forall|i: int| 0 <= i < wins.len() ==> !shown_on(#[trigger] wins[i], ws),
    decreases wins.len(),
{
    lemma_first_shown(wins, ws);
    if wins.len() > 0 {
        let init = wins.drop_last();
        law_first_shown_is_first(init, ws);
        assert forall|i: int| 0 <= i < wins.len() - 1 implies wins[i] == init[i] by {}
        if let Some(f) = first_shown(init, ws) {
            let i = choose|i: int|
                0 <= i < init.len() && init[i].id == f && shown_on(init[i], ws) && forall|j: int|
                    0 <= j < i ==> !shown_on(#[trigger] init[j], ws);
            assert(wins[i] == init[i]);
        } else if shown_on(wins.last(), ws) {
            assert(wins[wins.len() - 1] == wins.last());
        }
    }
}

/// Law: a window's rectangle has its position and, when they fit in `i32`, its size; a new
/// window opens with an animation exactly when animations are on, lasting their length.
pub proof fn law_geometry_and_opening<W>(s: WindowState<W>, duration_ms: u64)
    ensures
        s.geometry_spec().x == s.x && s.geometry_spec().y == s.y,
        s.width <= i32::MAX ==> s.geometry_spec().w == s.width,
        s.height <= i32::MAX ==> s.geometry_spec().h == s.height,
        duration_ms > 0 ==> (open_plan(duration_ms) matches Some(WindowAnimPlan::Open { duration_ms: d }) && d == duration_ms),
        duration_ms == 0 ==> open_plan(duration_ms) is None,
{
}

/// Keeps every window, its placement and its flags, and the screen it lays them out on.
pub struct WindowManager<W> {
    windows: Vec<WindowState<W>>,
    next_id: u64,
    pub focused: Option<WindowId>,
    pub active_workspace: usize,
    animation_duration_ms: u64,
    pub screen_width: u32,
    pub screen_height: u32,
    pub bar_height: u32,
}

impl<W> View for WindowManager<W> {
    type V = WmView<W>;

    closed spec fn view(&self) -> WmView<W> {
        WmView {
            windows: self.windows@,
            next_id: self.next_id,
            focused: self.focused,
            active_workspace: self.active_workspace,
            duration_ms: self.animation_duration_ms,
            screen_width: self.screen_width,
            screen_height: self.screen_height,
            bar_height: self.bar_height,
        }
    }
}

impl<W> WindowManager<W> {
    /// An empty manager for a screen of the given size.
    pub fn new(screen_width: u32, screen_height: u32, bar_height: u32, animation_duration_ms: u64) -> (wm: Self)
        ensures
            wm@.wf(),
            wm@.windows.len() == 0,
            wm@.next_id == 0,
            wm@.focused is None,
            wm@.active_workspace == 0,
            wm@.duration_ms == animation_duration_ms,
            wm@.screen_width == screen_width,
            wm@.screen_height == screen_height,
            wm@.bar_height == bar_height,
    {
        WindowManager {
            windows: Vec::new(),
            next_id: 0,
            focused: None,
            active_workspace: 0,
            animation_duration_ms,
            screen_width,
            screen_height,
            bar_height,
        }
    }

    /// Position of the window with identifier `id`, if there is one.
    fn find(&self, id: WindowId) -> (r: Option<usize>)
        requires
            self@.wf(),
        ensures
            r is None <==> !self@.has_window(id),
            r matches Some(i) ==> i < self@.windows.len() && self@.windows[i as int].id == id
                && i == self@.index_of(id),
    {
        let mut i: usize = 0;
        while i < self.windows.len()
            invariant
                self@.wf(),
                i <= self@.windows.len(),
                forall|j: int| 0 <= j < i ==> self@.windows[j].id != id,
            decreases self@.windows.len() - i,
        {
            if self.windows[i].id == id {
                proof {
                    self@.lemma_index_of(i as int);
                }
                return Some(i);
            }
            i = i + 1;
        }
        None
    }
    /// Adds a window centred on the screen, gives it the focus and returns its new identifier.
    pub fn add_window(&mut self, window: W, width: u32, height: u32) -> (id: WindowId)
        requires
            old(self)@.wf(),
            old(self)@.next_id < u64::MAX,
            fits_i32(wrap_i32(old(self)@.screen_width as int) - wrap_i32(width as int)),
            fits_i32(wrap_i32(old(self)@.screen_height as int) - wrap_i32(height as int)),
        ensures
            final(self)@.wf(),
            final(self)@.focus_ok(),
            id == WindowId(old(self)@.next_id),
            !old(self)@.has_window(id),
            final(self)@.next_id == old(self)@.next_id + 1,
            final(self)@.windows.len() == old(self)@.windows.len() + 1,
            final(self)@.windows.drop_last() == old(self)@.windows,
            final(self)@.windows.last().id == id,
            final(self)@.windows.last().window == window,
            final(self)@.windows.last().x == centered_x(old(self)@.screen_width, width),
            final(self)@.windows.last().y == centered_y(old(self)@.screen_height, height, old(self)@.bar_height),
            final(self)@.windows.last().width == width,
            final(self)@.windows.last().height == height,
            !final(self)@.windows.last().minimized,
            !final(self)@.windows.last().maximized,
            !final(self)@.windows.last().fullscreen,
            final(self)@.windows.last().animation == open_plan(old(self)@.duration_ms),
            final(self)@.windows.last().workspace == 0,
            final(self)@.windows.last().title@ == "Window"@,
            final(self)@.focused == Some(id),
            final(self)@.same_settings(old(self)@),
    {
        let id = WindowId(self.next_id);
        self.next_id = self.next_id + 1;
        let dx = u32_to_i32(self.screen_width) as i64 - u32_to_i32(width) as i64;
        let cx = half_i32(dx as i32);
        let x = if cx >= 0 { cx } else { 0 };
        let dy = u32_to_i32(self.screen_height) as i64 - u32_to_i32(height) as i64;
        let cy = half_i32(dy as i32);
        let top = u32_to_i32(self.bar_height);
        let y = if cy >= top { cy } else { top };
        let state = WindowState::new(id, window, x, y, width, height, self.animation_duration_ms);
        self.windows.push(state);
        self.focused = Some(id);
        proof {
            assert(self@.windows.drop_last() =~= old(self)@.windows);
            assert forall|i: int| 0 <= i < old(self)@.windows.len() implies self@.windows[i] == old(self)@.windows[i] by {}
            if !old(self)@.has_window(id) {
            } else {
                let k = old(self)@.index_of(id);
                assert(old(self)@.windows[k].id.0 < old(self)@.next_id);
            }
            assert(self@.has_window(id)) by {
                assert(self@.windows[self@.windows.len() - 1].id == id);
            }
        }
        id
    }

    /// Forgets a window; if it had the focus, the focus goes to the first remaining window.
    pub fn remove_window(&mut self, id: WindowId)
        requires
            old(self)@.wf(),
        ensures
            final(self)@.wf(),
            old(self)@.focus_ok() ==> final(self)@.focus_ok(),
            old(self)@.has_window(id) ==> final(self)@.windows == old(self)@.windows.remove(old(self)@.index_of(id)),
            !old(self)@.has_window(id) ==> final(self)@.windows == old(self)@.windows,
            final(self)@.focused == (if old(self)@.focused == Some(id) {
                if final(self)@.windows.len() > 0 {
                    Some(final(self)@.windows[0].id)
                } else {
                    None
                }
            } else {
                old(self)@.focused
            }),
            final(self)@.next_id == old(self)@.next_id,
            final(self)@.same_settings(old(self)@),
    {
        let found = self.find(id);
        if let Some(k) = found {
            self.windows.remove(k);
            proof {
                let o = old(self)@.windows;
                let n = self@.windows;
                assert(n =~= o.remove(k as int));
                assert forall|i: int| 0 <= i < n.len() implies n[i] == (if i < k { o[i] } else { o[i + 1] }) by {}
            }
        }
        if self.focused == Some(id) {
            if self.windows.len() > 0 {
                self.focused = Some(self.windows[0].id);
            } else {
                self.focused = None;
            }
        }
        proof {
            let o = old(self)@.windows;
            let n = self@.windows;
            if let Some(f) = self@.focused {
                if old(self)@.focused != Some(id) {
                    if old(self)@.has_window(f) {
                        let j = old(self)@.index_of(f);
                        if let Some(k) = found {
                            if j < k {
                                assert(n[j].id == f);
                            } else {
                                assert(j != k);
                                assert(n[j - 1].id == f);
                            }
                        }
                    }
                } else {
                    assert(n[0].id == f);
                }
            }
        }
    }

    /// Gives the focus to `id` if such a window is managed.
    pub fn focus(&mut self, id: WindowId)
        requires
            old(self)@.wf(),
        ensures
            final(self)@.wf(),
            old(self)@.focus_ok() ==> final(self)@.focus_ok(),
            final(self)@.windows == old(self)@.windows,
            final(self)@.focused == (if old(self)@.has_window(id) { Some(id) } else { old(self)@.focused }),
            final(self)@.next_id == old(self)@.next_id,
            final(self)@.same_settings(old(self)@),
    {
        if self.find(id).is_some() {
            self.focused = Some(id);
        }
    }

    /// Focuses the topmost window under the point, and returns it: the last one in drawing
    /// order (see `draw_order`) on the active workspace, not minimized, whose rectangle holds
    /// the point. The focus stays when there is none.
    pub fn focus_at(&mut self, px: i32, py: i32) -> (r: Option<WindowId>)
        requires
            old(self)@.wf(),
        ensures
            final(self)@.wf(),
            old(self)@.focus_ok() ==> final(self)@.focus_ok(),
            r == last_hit(old(self)@.draw_order(), old(self)@.active_workspace, px as int, py as int),
            r matches Some(t) ==> old(self)@.has_window(t),
            final(self)@.windows == old(self)@.windows,
            final(self)@.focused == (if r is Some { r } else { old(self)@.focused }),
            final(self)@.next_id == old(self)@.next_id,
            final(self)@.same_settings(old(self)@),
    {
        let stack = self.stacked_windows();
        let ghost order = self@.draw_order();
        let mut top: Option<WindowId> = None;
        let mut i: usize = 0;
        while i < stack.len()
            invariant
                i <= stack@.len(),
                stack@.len() == order.len(),
                forall|j: int| 0 <= j < stack@.len() ==> *stack@[j] == order[j],
                top == last_hit(order.take(i as int), self@.active_workspace, px as int, py as int),
                top matches Some(t) ==> exists|j: int| 0 <= j < i && order[j].id == t,
            decreases stack@.len() - i,
        {
            let s = stack[i];
            proof {
                assert(order.take(i + 1).drop_last() =~= order.take(i as int));
                assert(order.take(i + 1).last() == order[i as int]);
            }
            if s.workspace == self.active_workspace && !s.minimized {
                let geo = s.geometry();
                if contains(geo, px, py) {
                    top = Some(s.id);
                }
            }
            i = i + 1;
        }
        proof {
            assert(order.take(i as int) =~= order);
            self@.lemma_draw_members();
            if let Some(t) = top {
                let j = choose|j: int| 0 <= j < i && order[j].id == t;
                let k = choose|k: int| 0 <= k < self@.windows.len() && self@.windows[k] == order[j];
                assert(self@.windows[k].id == t);
            }
        }
        if let Some(t) = top {
            self.focused = Some(t);
        }
        top
    }

    /// Moves a window: with animations on, plans the move; otherwise sets the position.
    pub fn move_window(&mut self, id: WindowId, new_x: i32, new_y: i32)
        requires
            old(self)@.wf(),
        ensures
            final(self)@.wf(),
            old(self)@.focus_ok() ==> final(self)@.focus_ok(),
            old(self)@.has_window(id) ==> final(self)@.windows == old(self)@.windows.update(
                old(self)@.index_of(id),
                moved(old(self)@.window(id), new_x, new_y, old(self)@.duration_ms),
            ),
            !old(self)@.has_window(id) ==> final(self)@.windows == old(self)@.windows,
            final(self)@.focused == old(self)@.focused,
            final(self)@.next_id == old(self)@.next_id,
            final(self)@.same_settings(old(self)@),
    {
        if let Some(k) = self.find(id) {
            if self.animation_duration_ms > 0 {
                let from_x = self.windows[k].x;
                let from_y = self.windows[k].y;
                let half = self.animation_duration_ms / 2;
                self.windows[k].animation = Some(
                    WindowAnimPlan::Move { from_x, to_x: new_x, from_y, to_y: new_y, duration_ms: half },
                );
            } else {
                self.windows[k].x = new_x;
                self.windows[k].y = new_y;
            }
            proof {
                self@.lemma_keeps_wf(old(self)@, k as int);
            }
        }
    }

    /// Toggles maximization: a maximized window gets back its earlier place and size;
    /// any other one remembers them and is stretched over the screen below the bar.
    pub fn maximize(&mut self, id: WindowId)
        requires
            old(self)@.wf(),
            old(self)@.has_window(id) && !old(self)@.window(id).maximized
                ==> old(self)@.bar_height <= old(self)@.screen_height,
        ensures
            final(self)@.wf(),
            old(self)@.focus_ok() ==> final(self)@.focus_ok(),
            old(self)@.has_window(id) ==> final(self)@.windows == old(self)@.windows.update(
                old(self)@.index_of(id),
                maximized(old(self)@.window(id), old(self)@.screen_width, old(self)@.screen_height, old(self)@.bar_height),
            ),
            !old(self)@.has_window(id) ==> final(self)@.windows == old(self)@.windows,
            final(self)@.focused == old(self)@.focused,
            final(self)@.next_id == old(self)@.next_id,
            final(self)@.same_settings(old(self)@),
    {
        if let Some(k) = self.find(id) {
            if self.windows[k].maximized {
                self.windows[k].maximized = false;
                if let Some(g) = self.windows[k].saved_geometry {
                    self.windows[k].x = g.0;
                    self.windows[k].y = g.1;
                    self.windows[k].width = g.2;
                    self.windows[k].height = g.3;
                    self.windows[k].saved_geometry = None;
                }
            } else {
                let top = u32_to_i32(self.bar_height);
                let w = self.screen_width;
                let h = self.screen_height - self.bar_height;
                let saved = (self.windows[k].x, self.windows[k].y, self.windows[k].width, self.windows[k].height);
                self.windows[k].saved_geometry = Some(saved);
                self.windows[k].maximized = true;
                self.windows[k].x = 0;
                self.windows[k].y = top;
                self.windows[k].width = w;
                self.windows[k].height = h;
            }
            proof {
                self@.lemma_keeps_wf(old(self)@, k as int);
            }
        }
    }

    /// Minimizes a window; if it had the focus, the focus goes to the first window
    /// on the active workspace that is not minimized, or nowhere.
    pub fn minimize(&mut self, id: WindowId)
        requires
            old(self)@.wf(),
        ensures
            final(self)@.wf(),
            old(self)@.focus_ok() ==> final(self)@.focus_ok(),
            old(self)@.has_window(id) ==> final(self)@.windows == old(self)@.windows.update(
                old(self)@.index_of(id),
                with_flags(old(self)@.window(id), true, old(self)@.window(id).maximized),
            ),
            !old(self)@.has_window(id) ==> final(self)@.windows == old(self)@.windows,
            final(self)@.focused == (if old(self)@.has_window(id) && old(self)@.focused == Some(id) {
                first_shown(final(self)@.windows, old(self)@.active_workspace)
            } else {
                old(self)@.focused
            }),
            final(self)@.next_id == old(self)@.next_id,
            final(self)@.same_settings(old(self)@),
    {
        if let Some(k) = self.find(id) {
            self.windows[k].minimized = true;
            proof {
                self@.lemma_keeps_wf(old(self)@, k as int);
            }
            if self.focused == Some(id) {
                let ws = self.active_workspace;
                self.focused = self.first_shown_on(ws);
            }
        }
    }

    /// Makes `workspace` the active one and focuses its first window that is not minimized.
    pub fn switch_workspace(&mut self, workspace: usize)
        requires
            old(self)@.wf(),
        ensures
            final(self)@.wf(),
            final(self)@.focus_ok(),
            final(self)@.active_workspace == workspace,
            final(self)@.focused == first_shown(old(self)@.windows, workspace),
            final(self)@.windows == old(self)@.windows,
            final(self)@.next_id == old(self)@.next_id,
            final(self)@.screen_width == old(self)@.screen_width,
            final(self)@.screen_height == old(self)@.screen_height,
            final(self)@.bar_height == old(self)@.bar_height,
            final(self)@.duration_ms == old(self)@.duration_ms,
    {
        self.active_workspace = workspace;
        self.focused = self.first_shown_on(workspace);
    }

    /// The first window, in manager order, on `ws` and not minimized.
    fn first_shown_on(&self, ws: usize) -> (r: Option<WindowId>)
        ensures
            r == first_shown(self@.windows, ws),
            r matches Some(f) ==> self@.has_window(f),
    {
        let mut i: usize = 0;
        while i < self.windows.len()
            invariant
                i <= self@.windows.len(),
                first_shown(self@.windows.take(i as int), ws) is None,
            decreases self@.windows.len() - i,
        {
            proof {
                assert(self@.windows.take(i + 1).drop_last() =~= self@.windows.take(i as int));
                assert(self@.windows.take(i + 1).last() == self@.windows[i as int]);
            }
            if self.windows[i].workspace == ws && !self.windows[i].minimized {
                proof {
                    self.lemma_first_shown_prefix(ws, i as int + 1);
                }
                return Some(self.windows[i].id);
            }
            i = i + 1;
        }
        proof {
            assert(self@.windows.take(i as int) =~= self@.windows);
        }
        None
    }

    proof fn lemma_first_shown_prefix(&self, ws: usize, n: int)
        requires
            0 < n <= self@.windows.len(),
            first_shown(self@.windows.take(n), ws) is Some,
        ensures
            first_shown(self@.windows, ws) == first_shown(self@.windows.take(n), ws),
        decreases self@.windows.len() - n,
    {
        if n < self@.windows.len() {
            assert(self@.windows.take(n + 1).drop_last() =~= self@.windows.take(n));
            self.lemma_first_shown_prefix(ws, n + 1);
        } else {
            assert(self@.windows.take(n) =~= self@.windows);
        }
    }
    /// The window with identifier `id`, if it is managed.
    pub fn get(&self, id: WindowId) -> (r: Option<&WindowState<W>>)
        requires
            self@.wf(),
        ensures
            r is Some <==> self@.has_window(id),
            r matches Some(s) ==> *s == self@.window(id),
    {
        match self.find(id) {
            Some(k) => Some(&self.windows[k]),
            None => None,
        }
    }

    /// Mutable access to the window with identifier `id`, if it is managed.
    /// Whatever the caller writes lands in that window's place.
    pub fn get_mut(&mut self, id: WindowId) -> (r: Option<&mut WindowState<W>>)
        requires
            old(self)@.wf(),
        ensures
            r is Some <==> old(self)@.has_window(id),
            r matches Some(s) ==> *s == old(self)@.window(id)
                && final(self)@.windows == old(self)@.windows.update(old(self)@.index_of(id), *final(s)),
            r is None ==> final(self)@.windows == old(self)@.windows,
            final(self)@.focused == old(self)@.focused,
            final(self)@.next_id == old(self)@.next_id,
            final(self)@.same_settings(old(self)@),
    {
        match self.find(id) {
            Some(k) => Some(&mut self.windows[k]),
            None => None,
        }
    }

    /// Number of managed windows.
    pub fn window_count(&self) -> (n: usize)
        ensures
            n == self@.windows.len(),
    {
        self.windows.len()
    }

    /// Title of the focused window, if a window has the focus.
    pub fn focused_title(&self) -> (r: Option<&str>)
        requires
            self@.wf(),
        ensures
            r is Some <==> (self@.focused is Some && self@.has_window(self@.focused->0)),
            r matches Some(t) ==> t@ == self@.window(self@.focused->0).title@,
    {
        match self.focused {
            Some(f) => match self.get(f) {
                Some(s) => Some(s.title.as_str()),
                None => None,
            },
            None => None,
        }
    }

    /// Identifiers of all managed windows, oldest first.
    pub fn window_ids(&self) -> (r: Vec<WindowId>)
        ensures
            r@ == self@.windows.map_values(|s: WindowState<W>| s.id),
    {
        let mut r: Vec<WindowId> = Vec::new();
        let mut i: usize = 0;
        while i < self.windows.len()
            invariant
                i <= self@.windows.len(),
                r@ == self@.windows.take(i as int).map_values(|s: WindowState<W>| s.id),
            decreases self@.windows.len() - i,
        {
            r.push(self.windows[i].id);
            i = i + 1;
            proof {
                assert(r@ =~= self@.windows.take(i as int).map_values(|s: WindowState<W>| s.id));
            }
        }
        proof {
            assert(self@.windows.take(i as int) =~= self@.windows);
        }
        r
    }

    /// The windows on the active workspace that are not minimized, the focused one
    /// first and the others in manager order.
    pub fn visible_windows(&self) -> (r: Vec<&WindowState<W>>)
        ensures
            r@.len() == self@.visible_order().len(),
            forall|i: int| 0 <= i < r@.len() ==> *r@[i] == self@.visible_order()[i],
    {
        let ws = self.active_workspace;
        let mut r: Vec<&WindowState<W>> = Vec::new();
        let mut i: usize = 0;
        while i < self.windows.len()
            invariant
                i <= self@.windows.len(),
                ws == self@.active_workspace,
                r@.len() == shown_part(self@.windows.take(i as int), ws, self@.focused, true).len(),
                forall|j: int| 0 <= j < r@.len() ==> *r@[j] == shown_part(self@.windows.take(i as int), ws, self@.focused, true)[j],
            decreases self@.windows.len() - i,
        {
            proof {
                assert(self@.windows.take(i + 1).drop_last() =~= self@.windows.take(i as int));
                assert(self@.windows.take(i + 1).last() == self@.windows[i as int]);
            }
            let s = &self.windows[i];
            if s.workspace == ws && !s.minimized && self.focused == Some(s.id) {
                r.push(s);
            }
            i = i + 1;
        }
        proof {
            assert(self@.windows.take(i as int) =~= self@.windows);
        }
        let ghost front = shown_part(self@.windows, ws, self@.focused, true);
        let mut i: usize = 0;
        while i < self.windows.len()
            invariant
                i <= self@.windows.len(),
                ws == self@.active_workspace,
                front == shown_part(self@.windows, ws, self@.focused, true),
                r@.len() == front.len() + shown_part(self@.windows.take(i as int), ws, self@.focused, false).len(),
                forall|j: int| 0 <= j < r@.len() ==> *r@[j] == (front + shown_part(self@.windows.take(i as int), ws, self@.focused, false))[j],
            decreases self@.windows.len() - i,
        {
            proof {
                assert(self@.windows.take(i + 1).drop_last() =~= self@.windows.take(i as int));
                assert(self@.windows.take(i + 1).last() == self@.windows[i as int]);
            }
            let s = &self.windows[i];
            if s.workspace == ws && !s.minimized && self.focused != Some(s.id) {
                r.push(s);
            }
            i = i + 1;
        }
        proof {
            assert(self@.windows.take(i as int) =~= self@.windows);
        }
        r
    }

    /// The visible windows from the bottom of the stack up (see `draw_order`).
    pub fn stacked_windows(&self) -> (r: Vec<&WindowState<W>>)
        ensures
            r@.len() == self@.draw_order().len(),
            forall|i: int| 0 <= i < r@.len() ==> *r@[i] == self@.draw_order()[i],
    {
        let ws = self.active_workspace;
        let mut r: Vec<&WindowState<W>> = Vec::new();
        let mut i: usize = 0;
        while i < self.windows.len()
            invariant
                i <= self@.windows.len(),
                ws == self@.active_workspace,
                r@.len() == shown_part(self@.windows.take(i as int), ws, self@.focused, false).len(),
                forall|j: int| 0 <= j < r@.len() ==> *r@[j] == shown_part(self@.windows.take(i as int), ws, self@.focused, false)[j],
            decreases self@.windows.len() - i,
        {
            proof {
                assert(self@.windows.take(i + 1).drop_last() =~= self@.windows.take(i as int));
                assert(self@.windows.take(i + 1).last() == self@.windows[i as int]);
            }
            let s = &self.windows[i];
            if s.workspace == ws && !s.minimized && self.focused != Some(s.id) {
                r.push(s);
            }
            i = i + 1;
        }
        proof {
            assert(self@.windows.take(i as int) =~= self@.windows);
        }
        let ghost below = shown_part(self@.windows, ws, self@.focused, false);
        let mut i: usize = 0;
        while i < self.windows.len()
            invariant
                i <= self@.windows.len(),
                ws == self@.active_workspace,
                below == shown_part(self@.windows, ws, self@.focused, false),
                r@.len() == below.len() + shown_part(self@.windows.take(i as int), ws, self@.focused, true).len(),
                forall|j: int| 0 <= j < r@.len() ==> *r@[j] == (below + shown_part(self@.windows.take(i as int), ws, self@.focused, true))[j],
            decreases self@.windows.len() - i,
        {
            proof {
                assert(self@.windows.take(i + 1).drop_last() =~= self@.windows.take(i as int));
                assert(self@.windows.take(i + 1).last() == self@.windows[i as int]);
            }
            let s = &self.windows[i];
            if s.workspace == ws && !s.minimized && self.focused == Some(s.id) {
                r.push(s);
            }
            i = i + 1;
        }
        proof {
            assert(self@.windows.take(i as int) =~= self@.windows);
        }
        r
    }

    /// Sets a window's position and size, if it is managed.
    pub fn set_geometry(&mut self, id: WindowId, x: i32, y: i32, width: u32, height: u32)
        requires
            old(self)@.wf(),
        ensures
            final(self)@.wf(),
            old(self)@.focus_ok() ==> final(self)@.focus_ok(),
            old(self)@.has_window(id) ==> final(self)@.windows == old(self)@.windows.update(
                old(self)@.index_of(id),
                with_geometry(old(self)@.window(id), x, y, width, height),
            ),
            !old(self)@.has_window(id) ==> final(self)@.windows == old(self)@.windows,
            final(self)@.focused == old(self)@.focused,
            final(self)@.next_id == old(self)@.next_id,
            final(self)@.same_settings(old(self)@),
    {
        if let Some(k) = self.find(id) {
            self.windows[k].x = x;
            self.windows[k].y = y;
            self.windows[k].width = width;
            self.windows[k].height = height;
            proof {
                self@.lemma_keeps_wf(old(self)@, k as int);
            }
        }
    }

    /// Replaces a window's planned animation, if it is managed.
    pub fn set_animation(&mut self, id: WindowId, animation: Option<WindowAnimPlan>)
        requires
            old(self)@.wf(),
        ensures
            final(self)@.wf(),
            old(self)@.focus_ok() ==> final(self)@.focus_ok(),
            old(self)@.has_window(id) ==> final(self)@.windows == old(self)@.windows.update(
                old(self)@.index_of(id),
                with_animation(old(self)@.window(id), animation),
            ),
            !old(self)@.has_window(id) ==> final(self)@.windows == old(self)@.windows,
            final(self)@.focused == old(self)@.focused,
            final(self)@.next_id == old(self)@.next_id,
            final(self)@.same_settings(old(self)@),
    {
        if let Some(k) = self.find(id) {
            self.windows[k].animation = animation;
            proof {
                self@.lemma_keeps_wf(old(self)@, k as int);
            }
        }
    }
    /// Width of the screen.
    pub fn screen_width(&self) -> (r: u32)
        ensures
            r == self@.screen_width,
    {
        self.screen_width
    }

    /// Height of the screen.
    pub fn screen_height(&self) -> (r: u32)
        ensures
            r == self@.screen_height,
    {
        self.screen_height
    }

    /// Height of the bar at the top of the screen.
    pub fn bar_height(&self) -> (r: u32)
        ensures
            r == self@.bar_height,
    {
        self.bar_height
    }

    /// The focused window, if any.
    pub fn focused(&self) -> (r: Option<WindowId>)
        ensures
            r == self@.focused,
    {
        self.focused
    }

    /// The workspace on screen.
    pub fn active_workspace(&self) -> (r: usize)
        ensures
            r == self@.active_workspace,
    {
        self.active_workspace
    }
}

} // verus!
