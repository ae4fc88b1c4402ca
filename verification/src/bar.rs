use vstd::prelude::*;

use crate::config::BarConfig;

verus! {

/// One part of the top bar.
pub enum Widget {
    Clock,
    Workspaces { active: usize, total: usize },
    ActiveWindow { title: String },
    Spacer,
}

/// The top bar: its settings, width and widgets on the left, centre and right.
pub struct Bar {
    pub config: BarConfig,
    pub width: u32,
    pub left: Vec<Widget>,
    pub center: Vec<Widget>,
    pub right: Vec<Widget>,
}

/// What to draw in the bar for one frame.
pub struct BarRenderData {
    pub height: u32,
    pub time: String,
    pub workspace_dots: Vec<WorkspaceDot>,
    pub active_title: String,
}

/// One workspace indicator, lit when it is the active workspace.
#[derive(Clone, Copy, Debug, PartialEq, Eq, Structural)]
pub struct WorkspaceDot {
    pub index: usize,
    pub active: bool,
}

/// Whether chrono accepts `fmt` as a strftime format (no unknown specifier).
pub uninterp spec fn strftime_format_ok(fmt: Seq<char>) -> bool;

/// `chrono::format::StrftimeItems::new(fmt).parse()`: whether the format string has
/// no item that chrono reads as an error, which is when formatting with it succeeds.
#[verifier::external_body]
fn strftime_check(fmt: &str) -> (ok: bool)
    ensures
        ok == strftime_format_ok(fmt@),
{
    chrono::format::StrftimeItems::new(fmt).parse().is_ok()
}

/// A moment as chrono's local clock reports it: seconds since the Unix epoch, the
/// nanoseconds past that second, and the local offset from UTC in seconds.
#[derive(Clone, Copy, Debug, PartialEq, Eq, Structural)]
pub struct ClockStamp {
    pub secs: i64,
    pub nanos: u32,
    pub offset_secs: i32,
}

/// What chrono's strftime formatting of the moment `(secs, nanos)` at UTC offset
/// `offset_secs` gives for the format `fmt`.
pub uninterp spec fn strftime_text(fmt: Seq<char>, secs: i64, nanos: u32, offset_secs: i32) -> Seq<char>;

/// `text` is the format `fmt` applied to some moment of the local clock.
pub open spec fn shows_clock(fmt: Seq<char>, text: Seq<char>) -> bool {
    exists|t: ClockStamp| text == strftime_text(fmt, t.secs, t.nanos, t.offset_secs)
}

/// `chrono::Local::now()` formatted with `fmt`, together with that moment: the text is
/// chrono's formatting of the returned moment (its timestamp, sub-second nanoseconds and
/// offset), which depends on the format and the moment alone. Which moment it is, is the
/// clock's and the time zone's business and is left unsaid.
#[verifier::external_body]
fn local_clock_text(fmt: &str) -> (r: (String, ClockStamp))
    requires
        strftime_format_ok(fmt@),
    ensures
        r.0@ == strftime_text(fmt@, r.1.secs, r.1.nanos, r.1.offset_secs),
{
    let now = chrono::Local::now();
    let text = now.format(fmt).to_string();
    let at = ClockStamp { secs: now.timestamp(), nanos: now.timestamp_subsec_nanos(), offset_secs: now.offset().local_minus_utc() };
    (text, at)
}

/// The text a title argument stands for: the title, or nothing.
pub open spec fn title_text(title: Option<&str>) -> Seq<char> {
    match title {
        Some(t) => t@,
        None => Seq::empty(),
    }
}

/// The dots for a workspace widget: one per workspace, the active one lit.
pub open spec fn dots_for(active: usize, total: usize) -> Seq<WorkspaceDot> {
    Seq::new(total as nat, |i: int| WorkspaceDot { index: i as usize, active: i == active })
}

/// The dots of all workspace widgets, in order.
pub open spec fn dots_of(ws: Seq<Widget>) -> Seq<WorkspaceDot>
    decreases ws.len(),
{
    if ws.len() == 0 {
        Seq::empty()
    } else {
        dots_of(ws.drop_last()) + match ws.last() {
            Widget::Workspaces { active, total } => dots_for(active, total),
            _ => Seq::empty(),
        }
    }
}

/// The title of the first window-title widget, or nothing.
pub open spec fn first_title(ws: Seq<Widget>) -> Seq<char>
    decreases ws.len(),
{
    if ws.len() == 0 {
        Seq::empty()
    } else {
        match ws[0] {
            Widget::ActiveWindow { title } => title@,
            _ => first_title(ws.drop_first()),
        }
    }
}

impl Bar {
    /// A bar with nine workspace dots (the first active) on the left, an empty window
    /// title in the centre and the clock on the right.
    pub fn new(config: BarConfig, width: u32) -> (b: Bar)
        ensures
            b.config == config,
            b.width == width,
            b.left@.len() == 1,
            b.left@[0] == (Widget::Workspaces { active: 0, total: 9 }),
            b.center@.len() == 1,
            b.center@[0] matches Widget::ActiveWindow { title } && title@ == Seq::<char>::empty(),
            b.right@.len() == 1,
            b.right@[0] == Widget::Clock,
    {
        let mut left: Vec<Widget> = Vec::new();
        left.push(Widget::Workspaces { active: 0, total: 9 });
        let mut center: Vec<Widget> = Vec::new();
        center.push(Widget::ActiveWindow { title: String::new() });
        let mut right: Vec<Widget> = Vec::new();
        right.push(Widget::Clock);
        Bar { config, width, left, center, right }
    }

    /// Points every workspace widget at `active_workspace` and sets every window-title
    /// widget to `active_window_title` (empty when there is none); the rest stays.
    pub fn update(&mut self, active_workspace: usize, active_window_title: Option<&str>)
        ensures
            final(self).config == old(self).config,
            final(self).width == old(self).width,
            final(self).right@ == old(self).right@,
            final(self).left@.len() == old(self).left@.len(),
            forall|i: int| 0 <= i < old(self).left@.len() ==> #[trigger] final(self).left@[i] == match old(self).left@[i] {
                Widget::Workspaces { active, total } => Widget::Workspaces { active: active_workspace, total },
                w => w,
            },
            final(self).center@.len() == old(self).center@.len(),
            forall|i: int| 0 <= i < old(self).center@.len() ==> match old(self).center@[i] {
                Widget::ActiveWindow { .. } => #[trigger] final(self).center@[i] matches Widget::ActiveWindow { title }
                    && title@ == title_text(active_window_title),
                w => final(self).center@[i] == w,
            },
    {
        let mut i: usize = 0;
        while i < self.left.len()
            invariant
                i <= self.left@.len(),
                self.left@.len() == old(self).left@.len(),
                self.config == old(self).config,
                self.width == old(self).width,
                self.right@ == old(self).right@,
                self.center@ == old(self).center@,
                forall|j: int| i <= j < self.left@.len() ==> self.left@[j] == old(self).left@[j],
                forall|j: int| 0 <= j < i ==> #[trigger] self.left@[j] == match old(self).left@[j] {
                    Widget::Workspaces { active, total } => Widget::Workspaces { active: active_workspace, total },
                    w => w,
                },
            decreases self.left@.len() - i,
        {
            let total_opt = match &self.left[i] {
                Widget::Workspaces { total, .. } => Some(*total),
                _ => None,
            };
            if let Some(total) = total_opt {
                self.left[i] = Widget::Workspaces { active: active_workspace, total };
            }
            i = i + 1;
        }
        let text: &str = match active_window_title {
            Some(t) => t,
            None => "",
        };
        proof {
            reveal_strlit("");
            assert(text@ == title_text(active_window_title));
        }
        let mut i: usize = 0;
        while i < self.center.len()
            invariant
                i <= self.center@.len(),
                self.center@.len() == old(self).center@.len(),
                text@ == title_text(active_window_title),
                self.config == old(self).config,
                self.width == old(self).width,
                self.right@ == old(self).right@,
                self.left@.len() == old(self).left@.len(),
                forall|j: int| 0 <= j < old(self).left@.len() ==> #[trigger] self.left@[j] == match old(self).left@[j] {
                    Widget::Workspaces { active, total } => Widget::Workspaces { active: active_workspace, total },
                    w => w,
                },
                forall|j: int| i <= j < self.center@.len() ==> self.center@[j] == old(self).center@[j],
                forall|j: int| 0 <= j < i ==> match old(self).center@[j] {
                    Widget::ActiveWindow { .. } => #[trigger] self.center@[j] matches Widget::ActiveWindow { title }
                        && title@ == title_text(active_window_title),
                    w => self.center@[j] == w,
                },
            decreases self.center@.len() - i,
        {
            let is_title = match &self.center[i] {
                Widget::ActiveWindow { .. } => true,
                _ => false,
            };
            if is_title {
                self.center[i] = Widget::ActiveWindow { title: String::from_str(text) };
            }
            i = i + 1;
        }
    }

    /// The clock text: the local time now, formatted with the bar's clock format.
    pub fn current_time(&self) -> (t: String)
        requires
            strftime_format_ok(self.config.clock_format@),
        ensures
            shows_clock(self.config.clock_format@, t@),
    {
        let (text, _at) = local_clock_text(self.config.clock_format.as_str());
        text
    }

    /// What to draw this frame, with the clock showing the local time now.
    pub fn render_data(&self) -> (d: BarRenderData)
        requires
            strftime_format_ok(self.config.clock_format@),
        ensures
            d.height == self.config.height,
            shows_clock(self.config.clock_format@, d.time@),
            d.workspace_dots@ == dots_of(self.left@),
            d.active_title@ == first_title(self.center@),
    {
        let time = self.current_time();
        self.render_data_at(time)
    }

    /// Like `render_data`, but `None` when the clock format is not one chrono accepts.
    pub fn render_data_checked(&self) -> (r: Option<BarRenderData>)
        ensures
            r is Some <==> strftime_format_ok(self.config.clock_format@),
            r matches Some(d) ==> d.height == self.config.height && shows_clock(self.config.clock_format@, d.time@)
                && d.workspace_dots@ == dots_of(self.left@) && d.active_title@ == first_title(self.center@),
    {
        if strftime_check(self.config.clock_format.as_str()) {
            Some(self.render_data())
        } else {
            None
        }
    }

    /// What to draw, with `time` as the clock text.
    pub fn render_data_at(&self, time: String) -> (d: BarRenderData)
        ensures
            d.height == self.config.height,
            d.time == time,
            d.workspace_dots@ == dots_of(self.left@),
            d.active_title@ == first_title(self.center@),
    {
        let workspace_dots = self.get_workspace_dots();
        let active_title = self.get_active_title();
        BarRenderData { height: self.config.height, time, workspace_dots, active_title }
    }

    /// One dot per workspace of every workspace widget on the left, the active one lit.
    pub fn get_workspace_dots(&self) -> (dots: Vec<WorkspaceDot>)
        ensures
            dots@ == dots_of(self.left@),
    {
        let mut dots: Vec<WorkspaceDot> = Vec::new();
        let mut i: usize = 0;
        while i < self.left.len()
            invariant
                i <= self.left@.len(),
                dots@ == dots_of(self.left@.take(i as int)),
            decreases self.left@.len() - i,
        {
            proof {
                assert(self.left@.take(i + 1).drop_last() =~= self.left@.take(i as int));
                assert(self.left@.take(i + 1).last() == self.left@[i as int]);
            }
            match &self.left[i] {
                Widget::Workspaces { active, total } => {
                    let ghost base = dots@;
                    let mut k: usize = 0;
                    while k < *total
                        invariant
                            k <= *total,
                            dots@ == base + dots_for(*active, *total).take(k as int),
                        decreases *total - k,
                    {
                        dots.push(WorkspaceDot { index: k, active: k == *active });
                        k = k + 1;
                        proof {
                            assert(dots@ =~= base + dots_for(*active, *total).take(k as int));
                        }
                    }
                    proof {
                        assert(dots_for(*active, *total).take(k as int) =~= dots_for(*active, *total));
                    }
                },
                _ => {
                    proof {
                        assert(dots@ =~= dots@ + Seq::<WorkspaceDot>::empty());
                    }
                },
            }
            i = i + 1;
        }
        proof {
            assert(self.left@.take(i as int) =~= self.left@);
        }
        dots
    }

    /// The title shown by the first window-title widget in the centre, or an empty text.
    pub fn get_active_title(&self) -> (t: String)
        ensures
            t@ == first_title(self.center@),
    {
        proof {
            assert(self.center@.skip(0) =~= self.center@);
        }
        let mut i: usize = 0;
        while i < self.center.len()
            invariant
                i <= self.center@.len(),
                first_title(self.center@.skip(i as int)) == first_title(self.center@),
            decreases self.center@.len() - i,
        {
            proof {
                assert(self.center@.skip(i as int).drop_first() =~= self.center@.skip(i + 1));
                assert(self.center@.skip(i as int)[0] == self.center@[i as int]);
            }
            match &self.center[i] {
                Widget::ActiveWindow { title } => {
                    return title.clone();
                },
                _ => {},
            }
            i = i + 1;
        }
        String::new()
    }
}

/// Law: on a new bar, after `update(active_workspace, title)` the bar shows nine dots with
/// exactly the active workspace's lit, and shows the title (or nothing).
pub proof fn law_update_shows(
    left0: Seq<Widget>,
    center0: Seq<Widget>,
    left1: Seq<Widget>,
    center1: Seq<Widget>,
    active_workspace: usize,
    title: Option<&str>,
)
    requires
        left0.len() == 1,
        left0[0] == (Widget::Workspaces { active: 0, total: 9 }),
        center0.len() == 1,
        center0[0] is ActiveWindow,
        left1.len() == left0.len(),
        forall|i: int| 0 <= i < left0.len() ==> #[trigger] left1[i] == match left0[i] {
            Widget::Workspaces { active, total } => Widget::Workspaces { active: active_workspace, total },
            w => w,
        },
        center1.len() == center0.len(),
        forall|i: int| 0 <= i < center0.len() ==> match center0[i] {
            Widget::ActiveWindow { .. } => #[trigger] center1[i] matches Widget::ActiveWindow { title: t }
                && t@ == title_text(title),
            w => center1[i] == w,
        },
    ensures
        dots_of(left1).len() == 9,
        forall|i: int| 0 <= i < 9 ==> #[trigger] dots_of(left1)[i] == (WorkspaceDot { index: i as usize, active: i == active_workspace }),
        first_title(center1) == title_text(title),
{
    assert(left1[0] == (Widget::Workspaces { active: active_workspace, total: 9 }));
    assert(left1.drop_last() =~= Seq::<Widget>::empty());
    assert(dots_of(left1.drop_last()) == Seq::<WorkspaceDot>::empty());
    assert(left1.last() == left1[0]);
    assert(dots_of(left1) =~= dots_for(active_workspace, 9));
    assert(center1[0] is ActiveWindow);
    assert(first_title(center1) == title_text(title));
}

/// Law: the active title is the title of the first window-title widget, and empty when
/// there is no such widget.
pub proof fn law_first_title(ws: Seq<Widget>)
    ensures
        (exists|i: int| 0 <= i < ws.len() && ws[i] is ActiveWindow) ==> exists|i: int|
            #![trigger ws[i]]
            0 <= i < ws.len() && (ws[i] matches Widget::ActiveWindow { title } && first_title(ws) == title@)
                && forall|j: int| 0 <= j < i ==> !((#[trigger] ws[j]) is ActiveWindow),
        (forall|i: int| 0 <= i < ws.len() ==> !((#[trigger] ws[i]) is ActiveWindow)) ==> first_title(ws) == Seq::<char>::empty(),
    decreases ws.len(),
{
    if ws.len() > 0 {
        let rest = ws.drop_first();
        law_first_title(rest);
        assert forall|i: int| 0 <= i < rest.len() implies rest[i] == ws[i + 1] by {}
        if ws[0] is ActiveWindow {
        } else {
            if exists|i: int| 0 <= i < ws.len() && ws[i] is ActiveWindow {
                let i0 = choose|i: int| 0 <= i < ws.len() && ws[i] is ActiveWindow;
                assert(rest[i0 - 1] is ActiveWindow);
                let i = choose|i: int|
                    #![trigger rest[i]]
                    0 <= i < rest.len() && (rest[i] matches Widget::ActiveWindow { title } && first_title(rest) == title@)
                        && forall|j: int| 0 <= j < i ==> !((#[trigger] rest[j]) is ActiveWindow);
                assert(ws[i + 1] == rest[i]);
                assert forall|j: int| 0 <= j < i + 1 implies !((#[trigger] ws[j]) is ActiveWindow) by {
                    if j > 0 {
                        assert(ws[j] == rest[j - 1]);
                    }
                }
            }
            if forall|i: int| 0 <= i < ws.len() ==> !((#[trigger] ws[i]) is ActiveWindow) {
                assert forall|i: int| 0 <= i < rest.len() implies !((#[trigger] rest[i]) is ActiveWindow) by {
                    assert(ws[i + 1] == rest[i]);
                }
            }
        }
    }
}

/// Law: the dots of a widget list are the dots of its parts, in order; a workspace widget
/// gives one dot per workspace, numbered from 0, lit exactly at its active workspace, and
/// any other widget gives none.
pub proof fn law_dots_compose(a: Seq<Widget>, b: Seq<Widget>)
    ensures
        dots_of(a + b) == dots_of(a) + dots_of(b),
        forall|w: Widget| #[trigger] dots_of(seq![w]) == match w {
            Widget::Workspaces { active, total } => dots_for(active, total),
            _ => Seq::empty(),
        },
        forall|active: usize, total: usize, i: int|
            0 <= i < total ==> #[trigger] dots_for(active, total)[i] == (WorkspaceDot { index: i as usize, active: i == active }),
        forall|active: usize, total: usize| #[trigger] dots_for(active, total).len() == total,
    decreases b.len(),
{
    if b.len() == 0 {
        assert(a + b =~= a);
        assert(dots_of(a) + dots_of(b) =~= dots_of(a));
    } else {
        law_dots_compose(a, b.drop_last());
        assert((a + b).drop_last() =~= a + b.drop_last());
        assert((a + b).last() == b.last());
        assert(dots_of(a + b) =~= dots_of(a) + dots_of(b));
    }
    assert forall|w: Widget| #[trigger] dots_of(seq![w]) == match w {
        Widget::Workspaces { active, total } => dots_for(active, total),
        _ => Seq::empty(),
    } by {
        assert(seq![w].drop_last() =~= Seq::<Widget>::empty());
        assert(seq![w].last() == w);
        assert(dots_of(Seq::<Widget>::empty()) == Seq::<WorkspaceDot>::empty());
    }
}

} // verus!
