//! The context that the bar renders, and the events that change it.
//!
//! Per-monitor tables are held as lists of entries; the first entry for a
//! monitor name is the one that counts.

use vstd::prelude::*;

verus! {

/// `i` is the first position of `k` in `keys`.
pub open spec fn is_first(keys: Seq<Seq<char>>, k: Seq<char>, i: int) -> bool {
    &&& 0 <= i < keys.len()
    &&& keys[i] == k
    &&& forall|j: int| 0 <= j < i ==> keys[j] != k
}

/// The first position of `k` in `keys`, if any.
pub open spec fn first_index(keys: Seq<Seq<char>>, k: Seq<char>) -> Option<int> {
    if exists|i: int| is_first(keys, k, i) {
        Some(choose|i: int| is_first(keys, k, i))
    } else {
        None
    }
}

pub proof fn lemma_first_index_at(keys: Seq<Seq<char>>, k: Seq<char>, i: int)
    requires
        is_first(keys, k, i),
    ensures
        first_index(keys, k) == Some(i),
{
    let j = choose|j: int| is_first(keys, k, j);
    assert(is_first(keys, k, j));
    if j < i {
        assert(keys[j] != k);
    } else if i < j {
        assert(keys[i] != k);
    }
}

pub proof fn lemma_first_index_absent(keys: Seq<Seq<char>>, k: Seq<char>)
    requires
        forall|j: int| 0 <= j < keys.len() ==> keys[j] != k,
    ensures
        first_index(keys, k) is None,
{
}

proof fn lemma_first_exists(keys: Seq<Seq<char>>, k: Seq<char>, j: int)
    requires
        0 <= j < keys.len(),
        keys[j] == k,
    ensures
        exists|i: int| is_first(keys, k, i),
    decreases j,
{
    if exists|m: int| 0 <= m < j && keys[m] == k {
        let m = choose|m: int| 0 <= m < j && keys[m] == k;
        lemma_first_exists(keys, k, m);
    } else {
        assert(is_first(keys, k, j));
    }
}

/// Adding a key that is not there yet leaves the others where they were.
proof fn lemma_first_index_push(keys: Seq<Seq<char>>, added: Seq<char>, k: Seq<char>)
    requires
        forall|j: int| 0 <= j < keys.len() ==> keys[j] != added,
    ensures
        first_index(keys.push(added), k) == if k == added {
            Some(keys.len() as int)
        } else {
            first_index(keys, k)
        },
{
    let pushed = keys.push(added);
    if k == added {
        assert(is_first(pushed, k, keys.len() as int));
        lemma_first_index_at(pushed, k, keys.len() as int);
    } else if exists|j: int| 0 <= j < keys.len() && keys[j] == k {
        let j = choose|j: int| 0 <= j < keys.len() && keys[j] == k;
        lemma_first_exists(keys, k, j);
        let i = choose|i: int| is_first(keys, k, i);
        lemma_first_index_at(keys, k, i);
        assert(is_first(pushed, k, i));
        lemma_first_index_at(pushed, k, i);
    } else {
        lemma_first_index_absent(keys, k);
        lemma_first_index_absent(pushed, k);
    }
}

pub open spec fn names_view(names: Seq<String>) -> Seq<Seq<char>> {
    names.map_values(|s: String| s@)
}

pub open spec fn keys_of<V>(entries: Seq<(String, V)>) -> Seq<Seq<char>> {
    entries.map_values(|e: (String, V)| e.0@)
}

pub open spec fn opt_view(o: Option<String>) -> Option<Seq<char>> {
    match o {
        Some(s) => Some(s@),
        None => None,
    }
}

/// Each name mapped to its first position.
pub open spec fn index_map(names: Seq<Seq<char>>) -> Map<Seq<char>, nat> {
    Map::new(|k: Seq<char>| first_index(names, k) is Some, |k: Seq<char>| first_index(names, k)->0 as nat)
}

pub open spec fn desktops_map(entries: Seq<(String, Vec<String>)>) -> Map<Seq<char>, Seq<Seq<char>>> {
    Map::new(
        |k: Seq<char>| first_index(keys_of(entries), k) is Some,
        |k: Seq<char>| names_view(entries[first_index(keys_of(entries), k)->0].1@),
    )
}

pub open spec fn focused_map(entries: Seq<(String, String)>) -> Map<Seq<char>, Seq<char>> {
    Map::new(
        |k: Seq<char>| first_index(keys_of(entries), k) is Some,
        |k: Seq<char>| entries[first_index(keys_of(entries), k)->0].1@,
    )
}

/// Position of `name` in `names`, if it is there.
pub fn find_name(names: &Vec<String>, name: &str) -> (r: Option<usize>)
    ensures
        r matches Some(i) ==> is_first(names_view(names@), name@, i as int),
        r is None ==> forall|j: int| 0 <= j < names@.len() ==> names@[j]@ != name@,
{
    let target = String::from_str(name);
    let mut i: usize = 0;
    while i < names.len()
        invariant
            i <= names@.len(),
            target@ == name@,
            forall|j: int| 0 <= j < i ==> names@[j]@ != name@,
        decreases names@.len() - i,
    {
        if names[i] == target {
            return Some(i);
        }
        i = i + 1;
    }
    None
}

/// Position of the first entry keyed by `key`, if any.
pub fn find_key<V>(entries: &Vec<(String, V)>, key: &str) -> (r: Option<usize>)
    ensures
        r matches Some(i) ==> is_first(keys_of(entries@), key@, i as int),
        r is None ==> forall|j: int| 0 <= j < entries@.len() ==> entries@[j].0@ != key@,
{
    let target = String::from_str(key);
    let mut i: usize = 0;
    while i < entries.len()
        invariant
            i <= entries@.len(),
            target@ == key@,
            forall|j: int| 0 <= j < i ==> entries@[j].0@ != key@,
        decreases entries@.len() - i,
    {
        if entries[i].0 == target {
            return Some(i);
        }
        i = i + 1;
    }
    None
}

/// What the bar shows, as gathered from the window manager and the workspace file.
pub struct Context {
    /// The connected monitors; a monitor's index is its position here.
    pub monitors: Vec<String>,
    /// Each monitor's desktops, in order.
    pub monitor_desktops: Vec<(String, Vec<String>)>,
    /// The desktop that has focus on each monitor.
    pub monitor_focused_desktops: Vec<(String, String)>,
    /// The monitor that holds input focus.
    pub focused_monitor: String,
    /// The active workspace.
    pub workspace: String,
    /// The active workspace's glyph, if it has one.
    pub workspace_icon: Option<String>,
}

/// The mathematical content of a [`Context`].
pub struct ContextView {
    pub monitor_indices: Map<Seq<char>, nat>,
    pub monitor_desktops: Map<Seq<char>, Seq<Seq<char>>>,
    pub monitor_focused_desktops: Map<Seq<char>, Seq<char>>,
    pub focused_monitor: Seq<char>,
    pub workspace: Seq<char>,
    pub workspace_icon: Option<Seq<char>>,
}

impl View for Context {
    type V = ContextView;

    open spec fn view(&self) -> ContextView {
        ContextView {
            monitor_indices: index_map(names_view(self.monitors@)),
            monitor_desktops: desktops_map(self.monitor_desktops@),
            monitor_focused_desktops: focused_map(self.monitor_focused_desktops@),
            focused_monitor: self.focused_monitor@,
            workspace: self.workspace@,
            workspace_icon: opt_view(self.workspace_icon),
        }
    }
}

/// A change reported by one of the bar's sources.
pub enum Event {
    /// The periodic wake-up: nothing changes.
    Tick,
    /// The workspace file names a workspace; `icon` is what the workspace
    /// registry holds for it.
    WorkspaceChanged { workspace: String, icon: Option<String> },
    /// `desktop` now has focus on `monitor`.
    DesktopFocusChanged { monitor: String, desktop: String },
    /// `monitor` now holds input focus.
    MonitorFocusChanged { monitor: String },
}

pub enum EventView {
    Tick,
    WorkspaceChanged { workspace: Seq<char>, icon: Option<Seq<char>> },
    DesktopFocusChanged { monitor: Seq<char>, desktop: Seq<char> },
    MonitorFocusChanged { monitor: Seq<char> },
}

impl View for Event {
    type V = EventView;

    open spec fn view(&self) -> EventView {
        match self {
            Event::Tick => EventView::Tick,
            Event::WorkspaceChanged { workspace, icon } => EventView::WorkspaceChanged {
                workspace: workspace@,
                icon: opt_view(*icon),
            },
            Event::DesktopFocusChanged { monitor, desktop } => EventView::DesktopFocusChanged {
                monitor: monitor@,
                desktop: desktop@,
            },
            Event::MonitorFocusChanged { monitor } => EventView::MonitorFocusChanged {
                monitor: monitor@,
            },
        }
    }
}

/// The context after one event.
pub open spec fn applied(v: ContextView, e: EventView) -> ContextView {
    match e {
        EventView::Tick => v,
        EventView::WorkspaceChanged { workspace, icon } => ContextView {
            workspace,
            workspace_icon: icon,
            ..v
        },
        EventView::DesktopFocusChanged { monitor, desktop } => ContextView {
            monitor_focused_desktops: v.monitor_focused_desktops.insert(monitor, desktop),
            ..v
        },
        EventView::MonitorFocusChanged { monitor } => ContextView { focused_monitor: monitor, ..v },
    }
}

/// The context after each of `events`, in order.
pub open spec fn applied_all(v: ContextView, events: Seq<EventView>) -> ContextView
    decreases events.len(),
{
    if events.len() == 0 {
        v
    } else {
        applied(applied_all(v, events.drop_last()), events.last())
    }
}

impl Context {
    pub fn new(
        monitors: Vec<String>,
        monitor_desktops: Vec<(String, Vec<String>)>,
        monitor_focused_desktops: Vec<(String, String)>,
        focused_monitor: String,
        workspace: String,
        workspace_icon: Option<String>,
    ) -> (r: Context)
        ensures
            r@ == (ContextView {
                monitor_indices: index_map(names_view(monitors@)),
                monitor_desktops: desktops_map(monitor_desktops@),
                monitor_focused_desktops: focused_map(monitor_focused_desktops@),
                focused_monitor: focused_monitor@,
                workspace: workspace@,
                workspace_icon: opt_view(workspace_icon),
            }),
    {
        Context {
            monitors,
            monitor_desktops,
            monitor_focused_desktops,
            focused_monitor,
            workspace,
            workspace_icon,
        }
    }

    /// Records that `desktop` has focus on `monitor`.
    pub fn set_focused_desktop(&mut self, monitor: String, desktop: String)
        ensures
            final(self)@ == (ContextView {
                monitor_focused_desktops: old(self)@.monitor_focused_desktops.insert(monitor@, desktop@),
                ..old(self)@
            }),
    {
        let ghost old_entries = self.monitor_focused_desktops@;
        let ghost m = monitor@;
        let ghost d = desktop@;
        match find_key(&self.monitor_focused_desktops, monitor.as_str()) {
            Some(i) => {
                self.monitor_focused_desktops.set(i, (monitor, desktop));
                let ghost new_entries = self.monitor_focused_desktops@;
                assert(keys_of(new_entries) =~= keys_of(old_entries));
                assert forall|k: Seq<char>| #[trigger] first_index(keys_of(old_entries), k) is Some
                    && k != m implies first_index(keys_of(old_entries), k)->0 != i as int by {
                    let p = choose|p: int| is_first(keys_of(old_entries), k, p);
                    assert(is_first(keys_of(old_entries), k, p));
                }
                proof {
                    lemma_first_index_at(keys_of(old_entries), m, i as int);
                }
            },
            None => {
                self.monitor_focused_desktops.push((monitor, desktop));
                let ghost new_entries = self.monitor_focused_desktops@;
                assert(keys_of(new_entries) =~= keys_of(old_entries).push(m));
                assert forall|k: Seq<char>| #[trigger] first_index(keys_of(new_entries), k)
                    == if k == m {
                    Some(old_entries.len() as int)
                } else {
                    first_index(keys_of(old_entries), k)
                } by {
                    lemma_first_index_push(keys_of(old_entries), m, k);
                }
                assert forall|k: Seq<char>| #[trigger] first_index(keys_of(old_entries), k) is Some
                    implies first_index(keys_of(old_entries), k)->0 < old_entries.len() by {
                    let p = choose|p: int| is_first(keys_of(old_entries), k, p);
                    assert(is_first(keys_of(old_entries), k, p));
                }
            },
        }
        assert(self@.monitor_focused_desktops =~= old(self)@.monitor_focused_desktops.insert(m, d));
    }

    /// Applies one event in place.
    pub fn apply(&mut self, event: Event)
        ensures
            final(self)@ == applied(old(self)@, event@),
    {
        match event {
            Event::Tick => {},
            Event::WorkspaceChanged { workspace, icon } => {
                self.workspace = workspace;
                self.workspace_icon = icon;
            },
            Event::DesktopFocusChanged { monitor, desktop } => {
                self.set_focused_desktop(monitor, desktop);
            },
            Event::MonitorFocusChanged { monitor } => {
                self.focused_monitor = monitor;
            },
        }
    }
}

} // verus!
