//! The whole bar: three monitor segments built from the context.

use vstd::prelude::*;
use crate::context::{
    applied, applied_all, find_key, find_name, keys_of, lemma_first_index_absent,
    lemma_first_index_at, names_view, opt_view, Context, ContextView, Event, EventView,
};
use crate::markup::{align_center_seq, align_left_seq, align_right_seq, monitor_seq};
use crate::widget::{
    center_panel_seq, char_clock, char_folder, char_space, clock_seq, folder_seq, left_angle_seq, left_arrow_seq,
    left_panel_seq, rendered, right_angle_seq, right_arrow_seq, right_panel_seq, widget_align_center,
    widget_align_left, widget_align_right, widget_angle_center_panel, widget_conditional, widget_left_arrow_panel,
    widget_on_monitor, widget_pair, widget_right_arrow_panel, widget_text, Widget,
};

verus! {

/// Text color of the panels.
pub const FOREGROUND: u32 = 0xFFF8F8F2;

/// Fill color of the panels.
pub const CURRENT_LINE: u32 = 0xFF44475A;

/// The monitors bound to the bar's three roles. The center role's segment
/// also carries the clock.
pub struct Layout {
    pub left: String,
    pub center: String,
    pub right: String,
}

pub struct LayoutView {
    pub left: Seq<char>,
    pub center: Seq<char>,
    pub right: Seq<char>,
}

impl View for Layout {
    type V = LayoutView;

    open spec fn view(&self) -> LayoutView {
        LayoutView { left: self.left@, center: self.center@, right: self.right@ }
    }
}

/// One desktop in a monitor's list: bracketed when it has focus, else
/// between spaces.
pub open spec fn desktop_entry(d: Seq<char>, focused: Seq<char>) -> Seq<char> {
    if d == focused {
        "["@ + d + "]"@
    } else {
        " "@ + d + " "@
    }
}

pub open spec fn desktop_list(ds: Seq<Seq<char>>, focused: Seq<char>) -> Seq<char>
    decreases ds.len(),
{
    if ds.len() == 0 {
        Seq::empty()
    } else {
        desktop_list(ds.drop_last(), focused) + desktop_entry(ds.last(), focused)
    }
}

/// The monitor has an index, a desktop list and a focused desktop.
pub open spec fn known(v: ContextView, m: Seq<char>) -> bool {
    &&& v.monitor_indices.contains_key(m)
    &&& v.monitor_desktops.contains_key(m)
    &&& v.monitor_focused_desktops.contains_key(m)
}

pub open spec fn desktops_seq(v: ContextView, m: Seq<char>) -> Seq<char> {
    desktop_list(v.monitor_desktops[m], v.monitor_focused_desktops[m])
}

/// The workspace's glyph, or a folder when it has none.
pub open spec fn icon_or_folder(icon: Option<Seq<char>>) -> Seq<char> {
    match icon {
        Some(i) => i,
        None => folder_seq(),
    }
}

/// The centered workspace indicator.
pub open spec fn indicator_seq(v: ContextView) -> Seq<char> {
    align_center_seq() + center_panel_seq(
        FOREGROUND,
        CURRENT_LINE,
        left_angle_seq(),
        right_angle_seq(),
        icon_or_folder(v.workspace_icon) + v.workspace,
    )
}

/// The indicator where `m` holds focus, else nothing.
pub open spec fn shown_indicator(v: ContextView, m: Seq<char>) -> Seq<char> {
    if v.focused_monitor == m {
        indicator_seq(v)
    } else {
        Seq::empty()
    }
}

pub open spec fn clock_panel_seq(time: Seq<char>) -> Seq<char> {
    right_panel_seq(FOREGROUND, CURRENT_LINE, left_arrow_seq(), time + " "@ + clock_seq())
}

pub open spec fn screen_seq(v: ContextView, m: Seq<char>) -> Seq<char> {
    monitor_seq(v.monitor_indices[m])
}

/// The part of a segment before the indicator, when the desktops are on the left.
pub open spec fn desktops_left_seq(v: ContextView, m: Seq<char>) -> Seq<char> {
    screen_seq(v, m) + align_left_seq() + left_panel_seq(FOREGROUND, CURRENT_LINE, right_arrow_seq(), desktops_seq(v, m))
}

/// The clock, right-aligned.
pub open spec fn clock_right_seq(time: Seq<char>) -> Seq<char> {
    align_right_seq() + clock_panel_seq(time)
}

/// Desktops on the left, the indicator, the clock on the right.
pub open spec fn center_segment_seq(v: ContextView, m: Seq<char>, time: Seq<char>) -> Seq<char> {
    desktops_left_seq(v, m) + shown_indicator(v, m) + clock_right_seq(time)
}

/// Desktops on the left, then the indicator: the segment of a role without the clock.
pub open spec fn segment_seq(v: ContextView, m: Seq<char>) -> Seq<char> {
    desktops_left_seq(v, m) + shown_indicator(v, m)
}

/// The bar's line, or `None` when a role's monitor is not known.
pub open spec fn bar_line(v: ContextView, l: LayoutView, time: Seq<char>) -> Option<Seq<char>> {
    if known(v, l.center) && known(v, l.left) && known(v, l.right) {
        Some(center_segment_seq(v, l.center, time) + segment_seq(v, l.left) + segment_seq(v, l.right))
    } else {
        None
    }
}

/// Each monitor's desktops, the focused one marked.
pub fn widget_desktops(desktops: &Vec<String>, focused: &str) -> (r: Widget)
    ensures
        rendered(r) == desktop_list(names_view(desktops@), focused@),
{
    let target = String::from_str(focused);
    let ghost ds = names_view(desktops@);
    let mut out = String::new();
    let mut i: usize = 0;
    while i < desktops.len()
        invariant
            i <= desktops@.len(),
            ds == names_view(desktops@),
            target@ == focused@,
            out@ == desktop_list(ds.take(i as int), focused@),
        decreases desktops@.len() - i,
    {
        let d = &desktops[i];
        let selected = *d == target;
        if selected {
            out.append("[");
        } else {
            out.append(" ");
        }
        out.append(d.as_str());
        if selected {
            out.append("]");
        } else {
            out.append(" ");
        }
        assert(ds.take(i + 1).drop_last() =~= ds.take(i as int));
        i = i + 1;
        assert(out@ =~= desktop_list(ds.take(i as int), focused@));
    }
    assert(ds.take(i as int) =~= ds);
    widget_text(out.as_str())
}

/// The centered indicator: the workspace's glyph and name in a panel.
pub fn widget_center_bar(context: &Context) -> (r: Widget)
    ensures
        rendered(r) == indicator_seq(context@),
{
    let icon = match &context.workspace_icon {
        Some(i) => i.clone(),
        None => String::from_str(char_folder()),
    };
    widget_align_center(
        widget_angle_center_panel(
            FOREGROUND,
            CURRENT_LINE,
            widget_pair(widget_text(icon.as_str()), widget_text(context.workspace.as_str())),
        ),
    )
}

/// The clock panel around the given time text.
pub fn widget_clock_panel(time: &str) -> (r: Widget)
    ensures
        rendered(r) == clock_panel_seq(time@),
{
    let r = widget_right_arrow_panel(
        FOREGROUND,
        CURRENT_LINE,
        widget_pair(widget_text(time), widget_pair(widget_text(char_space()), widget_text(char_clock()))),
    );
    assert(time@ + (" "@ + clock_seq()) =~= time@ + " "@ + clock_seq());
    r
}

/// A monitor's screen index and its desktop list.
fn monitor_parts(context: &Context, name: &str) -> (r: Option<(usize, Widget)>)
    ensures
        r is Some <==> known(context@, name@),
        r matches Some(p) ==> p.0 as nat == context@.monitor_indices[name@] && rendered(p.1) == desktops_seq(
            context@,
            name@,
        ),
{
    let index = find_name(&context.monitors, name);
    let desktops = find_key(&context.monitor_desktops, name);
    let focused = find_key(&context.monitor_focused_desktops, name);
    proof {
        match index {
            Some(i) => lemma_first_index_at(names_view(context.monitors@), name@, i as int),
            None => lemma_first_index_absent(names_view(context.monitors@), name@),
        }
        match desktops {
            Some(i) => lemma_first_index_at(keys_of(context.monitor_desktops@), name@, i as int),
            None => lemma_first_index_absent(keys_of(context.monitor_desktops@), name@),
        }
        match focused {
            Some(i) => lemma_first_index_at(keys_of(context.monitor_focused_desktops@), name@, i as int),
            None => lemma_first_index_absent(keys_of(context.monitor_focused_desktops@), name@),
        }
    }
    match (index, desktops, focused) {
        (Some(i), Some(d), Some(f)) => {
            let list = widget_desktops(&context.monitor_desktops[d].1, context.monitor_focused_desktops[f].1.as_str());
            Some((i, list))
        },
        _ => None,
    }
}

fn center_segment(context: &Context, name: &String, index: usize, desktops: Widget, time: &str) -> (r: Widget)
    requires
        known(context@, name@),
        index as nat == context@.monitor_indices[name@],
        rendered(desktops) == desktops_seq(context@, name@),
    ensures
        rendered(r) == center_segment_seq(context@, name@, time@),
{
    let r = widget_on_monitor(
        index,
        widget_pair(
            widget_align_left(widget_left_arrow_panel(FOREGROUND, CURRENT_LINE, desktops)),
            widget_pair(
                widget_conditional(context.focused_monitor == *name, widget_center_bar(context)),
                widget_align_right(widget_clock_panel(time)),
            ),
        ),
    );
    assert(rendered(r) =~= center_segment_seq(context@, name@, time@));
    r
}

fn segment(context: &Context, name: &String, index: usize, desktops: Widget) -> (r: Widget)
    requires
        known(context@, name@),
        index as nat == context@.monitor_indices[name@],
        rendered(desktops) == desktops_seq(context@, name@),
    ensures
        rendered(r) == segment_seq(context@, name@),
{
    let r = widget_on_monitor(
        index,
        widget_pair(
            widget_align_left(widget_left_arrow_panel(FOREGROUND, CURRENT_LINE, desktops)),
            widget_conditional(context.focused_monitor == *name, widget_center_bar(context)),
        ),
    );
    assert(rendered(r) =~= segment_seq(context@, name@));
    r
}

/// The bar for the given time text, or `None` when a role's monitor is not known.
pub fn widget_bar_at(context: &Context, layout: &Layout, time: &str) -> (r: Option<Widget>)
    ensures
        r is Some <==> bar_line(context@, layout@, time@) is Some,
        r matches Some(w) ==> bar_line(context@, layout@, time@) == Some(rendered(w)),
{
    let center = monitor_parts(context, layout.center.as_str());
    let left = monitor_parts(context, layout.left.as_str());
    let right = monitor_parts(context, layout.right.as_str());
    match (center, left, right) {
        (Some((ci, cd)), Some((li, ld)), Some((ri, rd))) => {
            let c = center_segment(context, &layout.center, ci, cd, time);
            let l = segment(context, &layout.left, li, ld);
            let rs = segment(context, &layout.right, ri, rd);
            let r = widget_pair(c, widget_pair(l, rs));
            assert(rendered(r) =~= bar_line(context@, layout@, time@)->0);
            Some(r)
        },
        _ => None,
    }
}

/// The bar's line for the given time text.
pub fn render_bar(context: &Context, layout: &Layout, time: &str) -> (r: Option<String>)
    ensures
        opt_view(r) == bar_line(context@, layout@, time@),
{
    match widget_bar_at(context, layout, time) {
        Some(w) => Some(w.draw()),
        None => None,
    }
}

/// The clock's format: date, time of day, and the half of the day.
pub open spec fn clock_format() -> Seq<char> {
    "%D %H:%M:%S %p"@
}

/// Relies on chrono's `Local::now` and `DateTime::format`: the local time now,
/// written by a strftime-style format. The format is fixed to one that chrono
/// accepts, since writing out an invalid one panics. Nothing is promised of
/// the text, which depends on the clock and the time zone.
#[verifier::external_body]
fn widget_time(format: &str) -> (r: String)
    requires
        format@ == clock_format(),
{
    chrono::Local::now().format(format).to_string()
}

/// The bar's line with the clock showing the time now, or `None` when a role's
/// monitor is not known.
pub fn widget_bar(context: &Context, layout: &Layout) -> (r: Option<String>)
    ensures
        r is Some <==> (known(context@, layout@.center) && known(context@, layout@.left) && known(
            context@,
            layout@.right,
        )),
        r matches Some(line) ==> exists|time: Seq<char>| bar_line(context@, layout@, time) == Some(line@),
{
    let time = widget_time("%D %H:%M:%S %p");
    render_bar(context, layout, time.as_str())
}

pub open spec fn events_view(events: Seq<Event>) -> Seq<EventView> {
    events.map_values(|e: Event| e@)
}

impl Context {
    /// Applies one event, then renders the bar for the given time text.
    pub fn step(&mut self, event: Event, layout: &Layout, time: &str) -> (r: Option<String>)
        ensures
            final(self)@ == applied(old(self)@, event@),
            opt_view(r) == bar_line(final(self)@, layout@, time@),
    {
        self.apply(event);
        render_bar(self, layout, time)
    }

    /// Applies the events one by one and renders the bar after each: one line
    /// per event, each showing exactly the events up to and including its own.
    pub fn process(&mut self, events: Vec<Event>, layout: &Layout, time: &str) -> (lines: Vec<Option<String>>)
        ensures
            lines@.len() == events@.len(),
            final(self)@ == applied_all(old(self)@, events_view(events@)),
            forall|k: int|
                0 <= k < lines@.len() ==> opt_view(#[trigger] lines@[k]) == bar_line(
                    applied_all(old(self)@, events_view(events@).take(k + 1)),
                    layout@,
                    time@,
                ),
    {
        let ghost start = self@;
        let ghost all = events_view(events@);
        let mut rest = events;
        let mut lines: Vec<Option<String>> = Vec::new();
        while rest.len() > 0
            invariant
                lines@.len() + rest@.len() == all.len(),
                events_view(rest@) == all.skip(lines@.len() as int),
                self@ == applied_all(start, all.take(lines@.len() as int)),
                forall|k: int|
                    0 <= k < lines@.len() ==> opt_view(#[trigger] lines@[k]) == bar_line(
                        applied_all(start, all.take(k + 1)),
                        layout@,
                        time@,
                    ),
            decreases rest@.len(),
        {
            let ghost n = lines@.len() as int;
            let ghost before = rest@;
            assert(events_view(before)[0] == all.skip(n)[0]);
            let event = rest.remove(0);
            assert(event@ == all[n]);
            assert forall|j: int| 0 <= j < rest@.len() implies #[trigger] events_view(rest@)[j] == all.skip(n + 1)[j] by {
                assert(rest@[j] == before[j + 1]);
                assert(events_view(before)[j + 1] == all.skip(n)[j + 1]);
            }
            assert(all.take(n + 1).drop_last() =~= all.take(n));
            assert(events_view(rest@) =~= all.skip(n + 1));
            let line = self.step(event, layout, time);
            lines.push(line);
        }
        assert(all.take(all.len() as int) =~= all);
        lines
    }
}

} // verus!
