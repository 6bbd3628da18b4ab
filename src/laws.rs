//! Properties that relate several operations of the library.

use vstd::prelude::*;
use crate::bar::{
    bar_line, center_segment_seq, clock_right_seq, desktops_left_seq, indicator_seq, segment_seq,
    shown_indicator, LayoutView,
};
use crate::context::{applied, applied_all, ContextView, EventView};
use crate::markup::align_center_seq;

verus! {

/// Rendering reads nothing but the context: two contexts with the same content
/// give the same line for the same layout and time text.
pub proof fn law_render_deterministic(a: ContextView, b: ContextView, layout: LayoutView, time: Seq<char>)
    requires
        a == b,
    ensures
        bar_line(a, layout, time) == bar_line(b, layout, time),
{
}

/// A tick changes nothing: the context after a run of events is the same with
/// or without a tick at its end.
pub proof fn law_tick_changes_nothing(v: ContextView, events: Seq<EventView>)
    ensures
        applied(v, EventView::Tick) == v,
        applied_all(v, events.push(EventView::Tick)) == applied_all(v, events),
{
    assert(events.push(EventView::Tick).drop_last() =~= events);
}

/// Each event of a run counts once: the context after `events` followed by
/// `e` is the context after `events`, changed by `e` alone.
pub proof fn law_one_event_per_step(v: ContextView, events: Seq<EventView>, e: EventView)
    ensures
        applied_all(v, events.push(e)) == applied(applied_all(v, events), e),
{
    assert(events.push(e).drop_last() =~= events);
}

/// A workspace change sets the icon to the one it carries, whatever the icon
/// was before, and the same change twice in a row gives what it gave once.
pub proof fn law_workspace_reresolution(v: ContextView, workspace: Seq<char>, icon: Option<Seq<char>>)
    ensures
        applied(v, EventView::WorkspaceChanged { workspace, icon }).workspace == workspace,
        applied(v, EventView::WorkspaceChanged { workspace, icon }).workspace_icon == icon,
        applied(
            applied(v, EventView::WorkspaceChanged { workspace, icon }),
            EventView::WorkspaceChanged { workspace, icon },
        ) == applied(v, EventView::WorkspaceChanged { workspace, icon }),
{
}

/// The workspace indicator is never empty.
pub proof fn lemma_indicator_nonempty(v: ContextView)
    ensures
        indicator_seq(v).len() > 0,
{
    reveal_strlit("%{c}");
    assert(align_center_seq().len() == 4);
}

/// The indicator shows in a role's segment exactly when that role's monitor
/// holds focus; with three distinct monitors, at most one segment shows it,
/// and exactly one when the focused monitor is one of them. After focus moves
/// to `m`, the segment of `m` shows it and no other does, and nothing else in
/// any segment changes.
pub proof fn law_indicator_visibility(v: ContextView, layout: LayoutView, time: Seq<char>, m: Seq<char>)
    requires
        layout.left != layout.center,
        layout.left != layout.right,
        layout.center != layout.right,
    ensures
        forall|name: Seq<char>|
            #![auto]
            (shown_indicator(v, name) == indicator_seq(v) && shown_indicator(v, name).len() > 0) <==> v.focused_monitor
                == name,
        forall|name: Seq<char>| #![auto] shown_indicator(v, name).len() == 0 <==> v.focused_monitor != name,
        (if v.focused_monitor == layout.left {
            1int
        } else {
            0
        }) + (if v.focused_monitor == layout.center {
            1int
        } else {
            0
        }) + (if v.focused_monitor == layout.right {
            1int
        } else {
            0
        }) == (if v.focused_monitor == layout.left || v.focused_monitor == layout.center || v.focused_monitor
            == layout.right {
            1int
        } else {
            0
        }),
        forall|name: Seq<char>|
            #![auto]
            shown_indicator(applied(v, EventView::MonitorFocusChanged { monitor: m }), name).len() > 0 <==> name
                == m,
        center_segment_seq(applied(v, EventView::MonitorFocusChanged { monitor: m }), layout.center, time)
            == desktops_left_seq(v, layout.center) + shown_indicator(
            applied(v, EventView::MonitorFocusChanged { monitor: m }),
            layout.center,
        ) + clock_right_seq(time),
        segment_seq(applied(v, EventView::MonitorFocusChanged { monitor: m }), layout.left)
            == desktops_left_seq(v, layout.left) + shown_indicator(
            applied(v, EventView::MonitorFocusChanged { monitor: m }),
            layout.left,
        ),
        segment_seq(applied(v, EventView::MonitorFocusChanged { monitor: m }), layout.right)
            == desktops_left_seq(v, layout.right) + shown_indicator(
            applied(v, EventView::MonitorFocusChanged { monitor: m }),
            layout.right,
        ),
{
    lemma_indicator_nonempty(v);
    lemma_indicator_nonempty(applied(v, EventView::MonitorFocusChanged { monitor: m }));
}

/// The monitor named by the last monitor-focus event of `events`, or `initial`
/// when there is none.
pub open spec fn last_focused_monitor(events: Seq<EventView>, initial: Seq<char>) -> Seq<char>
    decreases events.len(),
{
    if events.len() == 0 {
        initial
    } else {
        match events.last() {
            EventView::MonitorFocusChanged { monitor } => monitor,
            _ => last_focused_monitor(events.drop_last(), initial),
        }
    }
}

/// The workspace and icon of the last workspace event of `events`, or
/// `initial` when there is none.
pub open spec fn last_workspace(
    events: Seq<EventView>,
    initial: (Seq<char>, Option<Seq<char>>),
) -> (Seq<char>, Option<Seq<char>>)
    decreases events.len(),
{
    if events.len() == 0 {
        initial
    } else {
        match events.last() {
            EventView::WorkspaceChanged { workspace, icon } => (workspace, icon),
            _ => last_workspace(events.drop_last(), initial),
        }
    }
}

/// The desktop of the last desktop-focus event for monitor `m` in `events`,
/// or `initial` when there is none.
pub open spec fn last_focused_desktop(events: Seq<EventView>, m: Seq<char>, initial: Option<Seq<char>>) -> Option<
    Seq<char>,
>
    decreases events.len(),
{
    if events.len() == 0 {
        initial
    } else {
        match events.last() {
            EventView::DesktopFocusChanged { monitor, desktop } if monitor == m => Some(desktop),
            _ => last_focused_desktop(events.drop_last(), m, initial),
        }
    }
}

pub open spec fn focused_desktop_of(v: ContextView, m: Seq<char>) -> Option<Seq<char>> {
    if v.monitor_focused_desktops.contains_key(m) {
        Some(v.monitor_focused_desktops[m])
    } else {
        None
    }
}

/// After a run of events, each part of the context holds what the last event
/// that sets it carried, or its first value when no event sets it; the
/// monitors and their desktop lists never change.
pub proof fn law_context_after_events(v: ContextView, events: Seq<EventView>, m: Seq<char>)
    ensures
        applied_all(v, events).focused_monitor == last_focused_monitor(events, v.focused_monitor),
        (applied_all(v, events).workspace, applied_all(v, events).workspace_icon) == last_workspace(
            events,
            (v.workspace, v.workspace_icon),
        ),
        focused_desktop_of(applied_all(v, events), m) == last_focused_desktop(events, m, focused_desktop_of(v, m)),
        applied_all(v, events).monitor_indices == v.monitor_indices,
        applied_all(v, events).monitor_desktops == v.monitor_desktops,
    decreases events.len(),
{
    if events.len() > 0 {
        law_context_after_events(v, events.drop_last(), m);
    }
}

} // verus!
