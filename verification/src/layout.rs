//! Layout management
//!
//! The Layout is the top-level manager that coordinates monitors and workspaces.
//! It handles multi-monitor setups, window placement, and focus management.
use vstd::prelude::*;

use crate::monitor::{all_configures, Monitor, MonitorModel};
use crate::output::OutputInfo;
use crate::tiling::{
    lemma_after_adds, valid_params, Configure, WidthRatio, WindowId,
};
use crate::workspace::{name_view, Workspace, WorkspaceId, WorkspaceIdCounter, WorkspaceModel};

verus! {

/// The name of a monitor's output.
pub open spec fn monitor_name(m: Monitor) -> Seq<char> {
    m@.output.name@
}

/// The windows of all workspaces of `s`, workspace by workspace.
pub open spec fn all_windows(s: Seq<Workspace>) -> Seq<WindowId>
    decreases s.len(),
{
    if s.len() == 0 {
        Seq::empty()
    } else {
        all_windows(s.drop_last()) + s.last()@.tiling.windows
    }
}

/// The configure requests of all windows of all monitors of `s`, monitor by monitor.
pub open spec fn all_monitor_configures(s: Seq<Monitor>) -> Seq<Configure>
    decreases s.len(),
{
    if s.len() == 0 {
        Seq::empty()
    } else {
        all_monitor_configures(s.drop_last()) + all_configures(s.last()@.workspaces)
    }
}

/// The mathematical state of a layout.
pub ghost struct LayoutModel {
    pub monitors: Seq<Monitor>,
    pub active: Option<Seq<char>>,
    pub primary: Option<Seq<char>>,
    pub gap: i32,
    pub margin: i32,
    pub ratio: WidthRatio,
    /// The next workspace ID to be handed out.
    pub next_id: u64,
}

impl LayoutModel {
    pub open spec fn name(self, i: int) -> Seq<char> {
        monitor_name(self.monitors[i])
    }

    pub open spec fn ws_id(self, i: int, k: int) -> WorkspaceId {
        self.monitors[i]@.workspaces[k]@.id
    }

    pub open spec fn valid_ws(self, i: int, k: int) -> bool {
        0 <= i < self.monitors.len() && 0 <= k < self.monitors[i]@.workspaces.len()
    }

    pub open spec fn has_name(self, n: Seq<char>) -> bool {
        exists|i: int| 0 <= i < self.monitors.len() && self.name(i) == n
    }

    /// Index of the monitor named `n` (meaningful when there is one).
    pub open spec fn index_of(self, n: Seq<char>) -> int {
        choose|i: int| 0 <= i < self.monitors.len() && self.name(i) == n
    }

    pub open spec fn names_distinct(self) -> bool {
        forall|i: int, j: int|
            #![trigger self.name(i), self.name(j)]
            0 <= i < self.monitors.len() && 0 <= j < self.monitors.len() && i != j ==> self.name(
                i,
            ) != self.name(j)
    }

    /// No two workspaces anywhere in the layout share an ID, and every ID
    /// was handed out before `next_id`.
    pub open spec fn ids_unique(self) -> bool {
        &&& forall|i1: int, k1: int, i2: int, k2: int|
            #![trigger self.ws_id(i1, k1), self.ws_id(i2, k2)]
            self.valid_ws(i1, k1) && self.valid_ws(i2, k2) && (i1 != i2 || k1 != k2)
                ==> self.ws_id(i1, k1) != self.ws_id(i2, k2)
        &&& forall|i: int, k: int|
            #![trigger self.ws_id(i, k)]
            self.valid_ws(i, k) ==> self.ws_id(i, k).spec_get() < self.next_id
    }

    /// A name refers to an existing monitor; there is one exactly when
    /// there are monitors.
    pub open spec fn names_monitor(self, n: Option<Seq<char>>) -> bool {
        &&& (n is None <==> self.monitors.len() == 0)
        &&& (n matches Some(x) ==> self.has_name(x))
    }

    pub open spec fn wf(self) -> bool {
        &&& forall|i: int| 0 <= i < self.monitors.len() ==> (#[trigger] self.monitors[i])@.wf()
        &&& self.names_distinct()
        &&& self.ids_unique()
        &&& self.names_monitor(self.active)
        &&& self.names_monitor(self.primary)
        &&& valid_params(self.gap, self.margin, self.ratio)
    }

    pub open spec fn with_monitor(self, i: int, m: Monitor) -> LayoutModel {
        LayoutModel { monitors: self.monitors.update(i, m), ..self }
    }

    /// Index of the active monitor.
    pub open spec fn active_index(self) -> Option<int> {
        match self.active {
            Some(n) => Some(self.index_of(n)),
            None => None,
        }
    }

    /// Index of the primary monitor.
    pub open spec fn primary_index(self) -> Option<int> {
        match self.primary {
            Some(n) => Some(self.index_of(n)),
            None => None,
        }
    }

    /// Whether monitor `i` holds `w`.
    pub open spec fn holds(self, i: int, w: WindowId) -> bool {
        self.monitors[i]@.holds_window(w)
    }

    pub open spec fn holds_window(self, w: WindowId) -> bool {
        exists|i: int| 0 <= i < self.monitors.len() && self.holds(i, w)
    }

    /// The first monitor that holds `w` (meaningful when one does).
    pub open spec fn first_holding(self, w: WindowId) -> int {
        choose|i: int|
            0 <= i < self.monitors.len() && self.holds(i, w) && forall|j: int|
                0 <= j < i ==> !self.holds(j, w)
    }
}

/// Two monitors have the same workspaces, as far as IDs go.
pub open spec fn same_ids(a: MonitorModel, b: MonitorModel) -> bool {
    &&& a.workspaces.len() == b.workspaces.len()
    &&& forall|k: int| 0 <= k < a.workspaces.len() ==> #[trigger] a.workspaces[k]@.id == b.workspaces[k]@.id
}

/// Lemma: the monitor at a name's index has that name.
pub proof fn lemma_index_of(l: LayoutModel, n: Seq<char>)
    requires
        l.names_distinct(),
        l.has_name(n),
    ensures
        0 <= l.index_of(n) < l.monitors.len(),
        l.name(l.index_of(n)) == n,
{
}

/// Lemma: with distinct names, monitor `i` is found at its own name.
pub proof fn lemma_index_of_at(l: LayoutModel, i: int)
    requires
        l.names_distinct(),
        0 <= i < l.monitors.len(),
    ensures
        l.has_name(l.name(i)),
        l.index_of(l.name(i)) == i,
{
    let n = l.name(i);
    assert(l.name(i) == n);
    let k = l.index_of(n);
    if k != i {
        assert(l.name(k) != l.name(i));
    }
}

/// Lemma: replacing a monitor by a well-formed one with the same name and
/// the same workspace IDs keeps a layout well formed.
pub proof fn lemma_replace_monitor(l: LayoutModel, i: int, m: Monitor)
    requires
        l.wf(),
        0 <= i < l.monitors.len(),
        m@.wf(),
        monitor_name(m) == l.name(i),
        same_ids(m@, l.monitors[i]@),
    ensures
        l.with_monitor(i, m).wf(),
{
    let n = l.with_monitor(i, m);
    assert forall|a: int| 0 <= a < n.monitors.len() implies n.name(a) == l.name(a) by {}
    assert forall|a: int, k: int| n.valid_ws(a, k) implies l.valid_ws(a, k) && n.ws_id(a, k)
        == l.ws_id(a, k) by {
        if a == i {
            assert(m@.workspaces[k]@.id == l.monitors[i]@.workspaces[k]@.id);
        }
    }
    assert forall|a: int| 0 <= a < n.monitors.len() implies (#[trigger] n.monitors[a])@.wf() by {}
    assert(n.names_distinct());
    assert(n.ids_unique()) by {
        assert forall|i1: int, k1: int, i2: int, k2: int|
            #![trigger n.ws_id(i1, k1), n.ws_id(i2, k2)]
            n.valid_ws(i1, k1) && n.valid_ws(i2, k2) && (i1 != i2 || k1 != k2) implies n.ws_id(
                i1,
                k1,
            ) != n.ws_id(i2, k2) by {
            assert(l.ws_id(i1, k1) != l.ws_id(i2, k2));
        }
    }
    if let Some(x) = l.active {
        let j = l.index_of(x);
        assert(n.name(j) == x);
    }
    if let Some(x) = l.primary {
        let j = l.index_of(x);
        assert(n.name(j) == x);
    }
}

/// Lemma: a layout with the monitors, settings and ID counter of a
/// well-formed one is well formed when its active and primary names are.
pub proof fn lemma_same_monitors_wf(a: LayoutModel, b: LayoutModel)
    requires
        a.wf(),
        b.monitors == a.monitors,
        b.next_id == a.next_id,
        b.gap == a.gap,
        b.margin == a.margin,
        b.ratio == a.ratio,
        b.active == a.active || b.names_monitor(b.active),
        b.primary == a.primary || b.names_monitor(b.primary),
    ensures
        b.wf(),
{
    if let Some(x) = a.active {
        let j = a.index_of(x);
        assert(b.name(j) == x);
    }
    if let Some(x) = a.primary {
        let j = a.index_of(x);
        assert(b.name(j) == x);
    }
    assert forall|i1: int, k1: int, i2: int, k2: int|
        #![trigger b.ws_id(i1, k1), b.ws_id(i2, k2)]
        b.valid_ws(i1, k1) && b.valid_ws(i2, k2) && (i1 != i2 || k1 != k2) implies b.ws_id(
            i1,
            k1,
        ) != b.ws_id(i2, k2) by {
        assert(a.ws_id(i1, k1) != a.ws_id(i2, k2));
    }
    assert forall|i: int, k: int| #![trigger b.ws_id(i, k)] b.valid_ws(i, k) implies b.ws_id(
        i,
        k,
    ).spec_get() < b.next_id by {
        assert(a.ws_id(i, k).spec_get() < a.next_id);
    }
    assert forall|i: int, j: int|
        #![trigger b.name(i), b.name(j)]
        0 <= i < b.monitors.len() && 0 <= j < b.monitors.len() && i != j implies b.name(i)
            != b.name(j) by {
        assert(a.name(i) != a.name(j));
    }
}

/// Lemma: a monitor whose workspace `i` is replaced by one with the same ID
/// has the same workspace IDs.
pub proof fn lemma_with_workspace_same_ids(m: MonitorModel, i: int, ws: Workspace)
    requires
        0 <= i < m.workspaces.len(),
        ws@.id == m.workspaces[i]@.id,
    ensures
        same_ids(m.with_workspace(i, ws), m),
{
    assert forall|k: int| 0 <= k < m.workspaces.len() implies #[trigger] m.with_workspace(
        i,
        ws,
    ).workspaces[k]@.id == m.workspaces[k]@.id by {}
}

/// Lemma: a monitor with the same workspaces has the same workspace IDs.
pub proof fn lemma_same_workspaces_same_ids(a: MonitorModel, b: MonitorModel)
    requires
        a.workspaces == b.workspaces,
    ensures
        same_ids(a, b),
{
}

/// Lemma: when some monitor holds `w`, there is a first one.
pub proof fn lemma_first_holding_exists(l: LayoutModel, w: WindowId, k: int)
    requires
        0 <= k < l.monitors.len(),
        l.holds(k, w),
    ensures
        0 <= l.first_holding(w) < l.monitors.len(),
        l.holds(l.first_holding(w), w),
        forall|j: int| 0 <= j < l.first_holding(w) ==> !l.holds(j, w),
    decreases k,
{
    if exists|j: int| 0 <= j < k && l.holds(j, w) {
        let j = choose|j: int| 0 <= j < k && l.holds(j, w);
        lemma_first_holding_exists(l, w, j);
    } else {
        let f = l.first_holding(w);
        assert(0 <= f < l.monitors.len() && l.holds(f, w) && forall|j: int|
            0 <= j < f ==> !l.holds(j, w)) by {
            assert(0 <= k < l.monitors.len() && l.holds(k, w) && forall|j: int|
                0 <= j < k ==> !l.holds(j, w));
        }
    }
}


/// The first snapshot in `outputs` of the output called `name`.
pub open spec fn first_output_named(outputs: Seq<OutputInfo>, name: Seq<char>) -> Option<OutputInfo>
    decreases outputs.len(),
{
    if outputs.len() == 0 {
        None
    } else if outputs[0].name@ == name {
        Some(outputs[0])
    } else {
        first_output_named(outputs.drop_first(), name)
    }
}

/// Index of the first snapshot in `outputs` of the output called `name`.
fn find_output_named(outputs: &Vec<OutputInfo>, name: &String) -> (r: Option<usize>)
    ensures
        r is None ==> first_output_named(outputs@, name@) is None,
        r matches Some(j) ==> j < outputs@.len() && first_output_named(outputs@, name@) == Some(
            outputs@[j as int],
        ),
{
    let mut j: usize = 0;
    assert(outputs@.skip(0) =~= outputs@);
    while j < outputs.len()
        invariant
            0 <= j <= outputs@.len(),
            first_output_named(outputs@, name@) == first_output_named(outputs@.skip(j as int), name@),
        decreases outputs@.len() - j,
    {
        let ghost rest = outputs@.skip(j as int);
        assert(rest[0] == outputs@[j as int]);
        assert(rest.drop_first() =~= outputs@.skip(j + 1));
        if outputs[j].name == *name {
            return Some(j);
        }
        j = j + 1;
    }
    None
}

/// Top-level layout manager
#[derive(Debug)]
pub struct Layout {
    /// Monitors, each with its own output name
    monitors: Vec<Monitor>,
    /// Name of the currently active monitor
    active_monitor: Option<String>,
    /// Name of the primary monitor (first one added, receives orphaned workspaces)
    primary_monitor: Option<String>,
    /// Layout configuration
    gap: i32,
    margin: i32,
    default_width_ratio: WidthRatio,
    /// Source of workspace IDs
    workspace_ids: WorkspaceIdCounter,
}

impl View for Layout {
    type V = LayoutModel;

    closed spec fn view(&self) -> LayoutModel {
        LayoutModel {
            monitors: self.monitors@,
            active: name_view(self.active_monitor),
            primary: name_view(self.primary_monitor),
            gap: self.gap,
            margin: self.margin,
            ratio: self.default_width_ratio,
            next_id: self.workspace_ids.spec_next(),
        }
    }
}

impl Layout {
    /// Create a new empty layout
    pub fn new(gap: i32, margin: i32, default_width_ratio: WidthRatio) -> (r: Self)
        requires
            valid_params(gap, margin, default_width_ratio),
        ensures
            r@.wf(),
            r@.monitors.len() == 0,
            r@.active is None,
            r@.primary is None,
            r@.gap == gap,
            r@.margin == margin,
            r@.ratio == default_width_ratio,
            r@.next_id == 1,
    {
        Layout {
            monitors: Vec::new(),
            active_monitor: None,
            primary_monitor: None,
            gap,
            margin,
            default_width_ratio,
            workspace_ids: WorkspaceIdCounter::new(),
        }
    }

    /// Whether workspace IDs remain to be handed out.
    pub fn has_workspace_ids(&self) -> (r: bool)
        ensures
            r == (self@.next_id < u64::MAX),
    {
        !self.workspace_ids.is_exhausted()
    }

    /// Index of the monitor whose output is called `name`.
    fn index_of_name(&self, name: &String) -> (r: Option<usize>)
        requires
            self@.wf(),
        ensures
            r is Some == self@.has_name(name@),
            r matches Some(i) ==> i == self@.index_of(name@) && i < self@.monitors.len()
                && self@.name(i as int) == name@,
    {
        let mut i: usize = 0;
        while i < self.monitors.len()
            invariant
                0 <= i <= self.monitors@.len(),
                self.monitors@ == self@.monitors,
                self@.wf(),
                forall|j: int| 0 <= j < i ==> self@.name(j) != name@,
            decreases self.monitors@.len() - i,
        {
            if self.monitors[i].output().name == *name {
                proof {
                    lemma_index_of_at(self@, i as int);
                }
                return Some(i);
            }
            i = i + 1;
        }
        proof {
            if self@.has_name(name@) {
                let k = choose|k: int| 0 <= k < self@.monitors.len() && self@.name(k) == name@;
                assert(self@.name(k) != name@);
            }
        }
        None
    }

    /// Index of the active monitor.
    fn active_index(&self) -> (r: Option<usize>)
        requires
            self@.wf(),
        ensures
            r is Some == self@.active is Some,
            r matches Some(i) ==> Some(i as int) == self@.active_index() && i
                < self@.monitors.len(),
    {
        match &self.active_monitor {
            Some(name) => {
                let r = self.index_of_name(name);
                proof {
                    lemma_index_of(self@, name@);
                }
                r
            },
            None => None,
        }
    }

    /// Index of the primary monitor.
    fn primary_index(&self) -> (r: Option<usize>)
        requires
            self@.wf(),
        ensures
            r is Some == self@.primary is Some,
            r matches Some(i) ==> Some(i as int) == self@.primary_index() && i
                < self@.monitors.len(),
    {
        match &self.primary_monitor {
            Some(name) => {
                let r = self.index_of_name(name);
                proof {
                    lemma_index_of(self@, name@);
                }
                r
            },
            None => None,
        }
    }

    /// Get a monitor by output
    pub fn monitor_for_output(&self, output: &OutputInfo) -> (r: Option<&Monitor>)
        requires
            self@.wf(),
        ensures
            r is Some == self@.has_name(output.name@),
            r matches Some(m) ==> *m == self@.monitors[self@.index_of(output.name@)],
    {
        match self.index_of_name(&output.name) {
            Some(i) => Some(&self.monitors[i]),
            None => None,
        }
    }

    /// Get the active monitor
    pub fn active_monitor(&self) -> (r: Option<&Monitor>)
        requires
            self@.wf(),
        ensures
            r is Some == self@.active is Some,
            r matches Some(m) ==> *m == self@.monitors[self@.active_index()->0],
    {
        match self.active_index() {
            Some(i) => Some(&self.monitors[i]),
            None => None,
        }
    }

    /// Get the primary monitor
    pub fn primary_monitor(&self) -> (r: Option<&Monitor>)
        requires
            self@.wf(),
        ensures
            r is Some == self@.primary is Some,
            r matches Some(m) ==> *m == self@.monitors[self@.index_of(self@.primary->0)],
    {
        match &self.primary_monitor {
            Some(name) => match self.index_of_name(name) {
                Some(i) => Some(&self.monitors[i]),
                None => None,
            },
            None => None,
        }
    }

    /// Set the active monitor by output; an unknown output changes nothing.
    pub fn set_active_monitor(&mut self, output: &OutputInfo)
        requires
            old(self)@.wf(),
        ensures
            final(self)@.wf(),
            old(self)@.has_name(output.name@) ==> final(self)@ == (LayoutModel {
                active: Some(output.name@),
                ..old(self)@
            }),
            !old(self)@.has_name(output.name@) ==> final(self)@ == old(self)@,
    {
        let name = output.name.clone();
        if let Some(i) = self.index_of_name(&name) {
            assert(self@.name(i as int) == name@);
            self.active_monitor = Some(name);
            proof {
                assert(self@.name(i as int) == name@);
                assert(self@.has_name(name@));
                lemma_same_monitors_wf(old(self)@, self@);
            }
        }
    }

    /// Get all monitors
    pub fn monitors(&self) -> (r: &[Monitor])
        ensures
            r@ == self@.monitors,
    {
        self.monitors.as_slice()
    }

    /// Replace monitor `i` after it changed in place: the layout stays well
    /// formed when the monitor kept its name and workspace IDs.
    proof fn lemma_after_monitor_op(before: LayoutModel, after: LayoutModel, i: int)
        requires
            before.wf(),
            0 <= i < before.monitors.len(),
            after == before.with_monitor(i, after.monitors[i]),
            after.monitors[i]@.wf(),
            after.monitors[i]@.output == before.monitors[i]@.output,
            same_ids(after.monitors[i]@, before.monitors[i]@),
        ensures
            after.wf(),
    {
        lemma_replace_monitor(before, i, after.monitors[i]);
    }

    /// Add a new output/monitor to the layout, with one fresh workspace. A
    /// monitor already there under the same name is replaced. The first
    /// output becomes primary and active.
    pub fn add_output(&mut self, output: OutputInfo)
        requires
            old(self)@.wf(),
            output.valid(),
            old(self)@.next_id < u64::MAX,
        ensures
            final(self)@.wf(),
            final(self)@.next_id == old(self)@.next_id + 1,
            final(self)@.gap == old(self)@.gap,
            final(self)@.margin == old(self)@.margin,
            final(self)@.ratio == old(self)@.ratio,
            old(self)@.has_name(output.name@) ==> final(self)@.monitors == old(self)@.monitors.update(
                old(self)@.index_of(output.name@),
                final(self)@.monitors[old(self)@.index_of(output.name@)],
            ),
            !old(self)@.has_name(output.name@) ==> final(self)@.monitors == old(self)@.monitors.push(
                final(self)@.monitors.last(),
            ),
            ({
                let m = final(self)@.monitors[final(self)@.index_of(output.name@)]@;
                &&& final(self)@.has_name(output.name@)
                &&& m.output == output
                &&& m.workspaces.len() == 1
                &&& m.workspaces[0]@.is_initial(output, old(self)@.gap, old(self)@.margin, old(self)@.ratio)
                &&& m.workspaces[0]@.name is None
                &&& m.workspaces[0]@.id.spec_get() == old(self)@.next_id
                &&& m.active == 0
                &&& m.previous is None
            }),
            final(self)@.primary == (if old(self)@.primary is None {
                Some(output.name@)
            } else {
                old(self)@.primary
            }),
            final(self)@.active == (if old(self)@.active is None {
                Some(output.name@)
            } else {
                old(self)@.active
            }),
    {
        let name = output.name.clone();
        let ghost n = output.name@;
        let ghost l = old(self)@;
        let found = self.index_of_name(&name);
        // Create monitor with one workspace
        let monitor = Monitor::new(
            output,
            self.gap,
            self.margin,
            self.default_width_ratio,
            &mut self.workspace_ids,
        );
        let ghost m = monitor;
        let ghost idx: int;
        match found {
            Some(i) => {
                self.monitors.set(i, monitor);
                proof {
                    idx = i as int;
                }
            },
            None => {
                self.monitors.push(monitor);
                proof {
                    idx = l.monitors.len() as int;
                }
            },
        }
        proof {
            let a = self@;
            assert(a.monitors[idx] == m);
            assert(a.name(idx) == n);
            assert forall|j: int| 0 <= j < a.monitors.len() && j != idx implies a.monitors[j]
                == l.monitors[j] && a.name(j) == l.name(j) && a.name(j) != n by {
                if l.has_name(n) {
                    assert(l.name(l.index_of(n)) == n);
                    assert(l.name(j) != l.name(l.index_of(n)));
                } else {
                    assert(l.name(j) != n);
                }
            }
            assert forall|j: int| 0 <= j < a.monitors.len() implies (#[trigger] a.monitors[j])@.wf() by {}
            assert(a.names_distinct()) by {
                assert forall|i1: int, i2: int|
                    #![trigger a.name(i1), a.name(i2)]
                    0 <= i1 < a.monitors.len() && 0 <= i2 < a.monitors.len() && i1 != i2 implies a.name(i1)
                        != a.name(i2) by {
                    if i1 != idx && i2 != idx {
                        assert(l.name(i1) != l.name(i2));
                    }
                }
            }
            assert(a.ids_unique()) by {
                assert forall|i1: int, k1: int, i2: int, k2: int|
                    #![trigger a.ws_id(i1, k1), a.ws_id(i2, k2)]
                    a.valid_ws(i1, k1) && a.valid_ws(i2, k2) && (i1 != i2 || k1 != k2) implies a.ws_id(
                        i1,
                        k1,
                    ) != a.ws_id(i2, k2) by {
                    if i1 == idx && i2 == idx {
                    } else if i1 == idx {
                        assert(l.valid_ws(i2, k2));
                        assert(l.ws_id(i2, k2).spec_get() < l.next_id);
                    } else if i2 == idx {
                        assert(l.valid_ws(i1, k1));
                        assert(l.ws_id(i1, k1).spec_get() < l.next_id);
                    } else {
                        assert(l.ws_id(i1, k1) != l.ws_id(i2, k2));
                    }
                }
                assert forall|i: int, k: int| #![trigger a.ws_id(i, k)] a.valid_ws(i, k) implies a.ws_id(
                    i,
                    k,
                ).spec_get() < a.next_id by {
                    if i != idx {
                        assert(l.ws_id(i, k).spec_get() < l.next_id);
                    }
                }
            }
            if let Some(x) = l.active {
                let j = l.index_of(x);
                if j != idx {
                    assert(a.name(j) == x);
                }
            }
            if let Some(x) = l.primary {
                let j = l.index_of(x);
                if j != idx {
                    assert(a.name(j) == x);
                }
            }
            lemma_index_of_at(a, idx);
            if !l.has_name(n) {
                assert(a.monitors =~= l.monitors.push(a.monitors.last()));
            } else {
                assert(a.monitors =~= l.monitors.update(l.index_of(n), a.monitors[l.index_of(n)]));
            }
        }
        // Set as primary if first monitor
        if self.primary_monitor.is_none() {
            self.primary_monitor = Some(name.clone());
        }
        // Set as active if no active monitor
        if self.active_monitor.is_none() {
            self.active_monitor = Some(name);
        }
        proof {
            lemma_index_of_at(self@, idx);
            assert(self@.name(idx) == n);
        }
    }

    /// Remove an output/monitor from the layout. Returns the windows that
    /// were on that monitor, workspace by workspace (they need to be moved
    /// elsewhere). When the removed monitor was active or primary, the first
    /// remaining monitor takes its place.
    pub fn remove_output(&mut self, output: &OutputInfo) -> (r: Vec<WindowId>)
        requires
            old(self)@.wf(),
        ensures
            final(self)@.wf(),
            !old(self)@.has_name(output.name@) ==> final(self)@ == old(self)@ && r@.len() == 0,
            old(self)@.has_name(output.name@) ==> {
                let i = old(self)@.index_of(output.name@);
                let rest = old(self)@.monitors.remove(i);
                let next = if rest.len() == 0 {
                    None
                } else {
                    Some(monitor_name(rest[0]))
                };
                &&& r@ == all_windows(old(self)@.monitors[i]@.workspaces)
                &&& final(self)@ == (LayoutModel {
                    monitors: rest,
                    active: if old(self)@.active == Some(output.name@) {
                        next
                    } else {
                        old(self)@.active
                    },
                    primary: if old(self)@.primary == Some(output.name@) {
                        next
                    } else {
                        old(self)@.primary
                    },
                    ..old(self)@
                })
            },
    {
        let mut orphaned_windows: Vec<WindowId> = Vec::new();
        let i: usize = match self.index_of_name(&output.name) {
            Some(i) => i,
            None => {
                return orphaned_windows;
            },
        };
        let ghost l = old(self)@;
        let ghost n = output.name@;
        let monitor = self.monitors.remove(i);
        // Collect all windows from all workspaces
        let workspaces = monitor.workspaces();
        let mut k: usize = 0;
        while k < workspaces.len()
            invariant
                0 <= k <= workspaces@.len(),
                orphaned_windows@ == all_windows(workspaces@.take(k as int)),
            decreases workspaces@.len() - k,
        {
            let ws_windows = workspaces[k].windows();
            let mut j: usize = 0;
            let ghost start = orphaned_windows@;
            while j < ws_windows.len()
                invariant
                    0 <= j <= ws_windows@.len(),
                    orphaned_windows@ == start + ws_windows@.take(j as int),
                decreases ws_windows@.len() - j,
            {
                orphaned_windows.push(ws_windows[j]);
                proof {
                    assert(ws_windows@.take(j + 1) =~= ws_windows@.take(j as int).push(ws_windows@[j as int]));
                }
                j = j + 1;
            }
            proof {
                let t = workspaces@.take(k + 1);
                assert(t.drop_last() =~= workspaces@.take(k as int));
                assert(ws_windows@.take(ws_windows@.len() as int) =~= ws_windows@);
            }
            k = k + 1;
        }
        proof {
            assert(workspaces@.take(workspaces@.len() as int) =~= workspaces@);
            assert(self@.monitors =~= l.monitors.remove(i as int));
        }
        // Update the active and primary monitors if needed
        let next: Option<String> = if self.monitors.len() > 0 {
            Some(self.monitors[0].output().name.clone())
        } else {
            None
        };
        if let Some(active) = &self.active_monitor {
            if *active == output.name {
                self.active_monitor = match &next {
                    Some(x) => Some(x.clone()),
                    None => None,
                };
            }
        }
        if let Some(primary) = &self.primary_monitor {
            if *primary == output.name {
                self.primary_monitor = next;
            }
        }
        proof {
            let a = self@;
            let rest = l.monitors.remove(i as int);
            if rest.len() > 0 {
                assert(a.name(0) == monitor_name(rest[0]));
            }
            if let Some(x) = l.active {
                if x != n {
                    let j = l.index_of(x);
                    assert(l.name(j) == x);
                    assert(j != i);
                    let j2 = if j < i { j } else { j - 1 };
                    assert(a.name(j2) == x);
                }
            }
            if let Some(x) = l.primary {
                if x != n {
                    let j = l.index_of(x);
                    assert(l.name(j) == x);
                    assert(j != i);
                    let j2 = if j < i { j } else { j - 1 };
                    assert(a.name(j2) == x);
                }
            }
        }
        proof {
            let a = self@;
            assert(a.monitors =~= l.monitors.remove(i as int));
            assert forall|j: int| 0 <= j < a.monitors.len() implies (#[trigger] a.monitors[j])@.wf() by {
                let j2 = if j < i { j } else { j + 1 };
                assert(a.monitors[j] == l.monitors[j2]);
            }
            assert(a.names_distinct()) by {
                assert forall|i1: int, i2: int|
                    #![trigger a.name(i1), a.name(i2)]
                    0 <= i1 < a.monitors.len() && 0 <= i2 < a.monitors.len() && i1 != i2 implies a.name(i1)
                        != a.name(i2) by {
                    let j1 = if i1 < i { i1 } else { i1 + 1 };
                    let j2 = if i2 < i { i2 } else { i2 + 1 };
                    assert(a.monitors[i1] == l.monitors[j1]);
                    assert(a.monitors[i2] == l.monitors[j2]);
                    assert(l.name(j1) != l.name(j2));
                }
            }
            assert(a.ids_unique()) by {
                assert forall|i1: int, k1: int, i2: int, k2: int|
                    #![trigger a.ws_id(i1, k1), a.ws_id(i2, k2)]
                    a.valid_ws(i1, k1) && a.valid_ws(i2, k2) && (i1 != i2 || k1 != k2) implies a.ws_id(
                        i1,
                        k1,
                    ) != a.ws_id(i2, k2) by {
                    let j1 = if i1 < i { i1 } else { i1 + 1 };
                    let j2 = if i2 < i { i2 } else { i2 + 1 };
                    assert(a.monitors[i1] == l.monitors[j1]);
                    assert(a.monitors[i2] == l.monitors[j2]);
                    assert(l.ws_id(j1, k1) != l.ws_id(j2, k2));
                }
                assert forall|i1: int, k1: int| #![trigger a.ws_id(i1, k1)] a.valid_ws(i1, k1) implies a.ws_id(
                    i1,
                    k1,
                ).spec_get() < a.next_id by {
                    let j1 = if i1 < i { i1 } else { i1 + 1 };
                    assert(a.monitors[i1] == l.monitors[j1]);
                    assert(l.ws_id(j1, k1).spec_get() < l.next_id);
                }
            }
        }
        orphaned_windows
    }

    /// Add a window to the active monitor's active workspace; returns the
    /// size it is to be configured with, or `None` when there is no monitor.
    pub fn add_window(&mut self, window: WindowId) -> (r: Option<Configure>)
        requires
            old(self)@.wf(),
        ensures
            final(self)@.wf(),
            r is Some == old(self)@.active is Some,
            r is None ==> final(self)@ == old(self)@,
            old(self)@.active_index() matches Some(i) ==> {
                &&& final(self)@ == old(self)@.with_monitor(i, final(self)@.monitors[i])
                &&& old(self)@.monitors[i]@.added_window(final(self)@.monitors[i]@, window)
                &&& r == Some(
                    old(self)@.monitors[i]@.active_workspace()@.tiling.configure_for(window),
                )
            },
    {
        match self.active_index() {
            Some(i) => {
                let ghost before = self@;
                let c = self.monitors[i].add_window(window);
                proof {
                    let m2 = self.monitors@[i as int];
                    let b = before.monitors[i as int]@;
                    lemma_with_workspace_same_ids(b, b.active, m2@.active_workspace());
                    assert(self@.monitors =~= before.monitors.update(i as int, m2));
                    Self::lemma_after_monitor_op(before, self@, i as int);
                }
                Some(c)
            },
            None => None,
        }
    }

    /// Add `windows`, in order, to the active workspace of the primary
    /// monitor, the one that takes in what other monitors leave behind;
    /// returns the configure requests of the windows added.  Without a
    /// monitor nothing is added.
    pub fn add_windows(&mut self, windows: &Vec<WindowId>) -> (r: Vec<Configure>)
        requires
            old(self)@.wf(),
        ensures
            final(self)@.wf(),
            old(self)@.primary is None ==> r@.len() == 0 && final(self)@ == old(self)@,
            old(self)@.primary_index() matches Some(i) ==> {
                let m = old(self)@.monitors[i]@;
                let ws = m.active_workspace()@;
                let n = final(self)@.monitors[i]@;
                let added = windows@;
                &&& final(self)@ == old(self)@.with_monitor(i, final(self)@.monitors[i])
                &&& n == m.with_workspace(m.active, n.active_workspace())
                &&& n.active_workspace()@ == (WorkspaceModel {
                    tiling: ws.tiling.after_adds(added),
                    ..ws
                })
                &&& r@ == added.map_values(|w: WindowId| ws.tiling.configure_for(w))
            },
    {
        let ghost l0 = self@;
        let mut out: Vec<Configure> = Vec::new();
        let i = match self.primary_index() {
            Some(i) => i,
            None => {
                return out;
            },
        };
        let ghost m = l0.monitors[i as int]@;
        let ghost ws = m.active_workspace()@;
        proof {
            assert(l0.monitors =~= l0.monitors.update(i as int, l0.monitors[i as int]));
            assert(m.workspaces =~= m.workspaces.update(m.active, m.active_workspace()));
            assert(out@ =~= windows@.take(0).map_values(|w: WindowId| ws.tiling.configure_for(w)));
        }
        let mut k: usize = 0;
        while k < windows.len()
            invariant
                self@.wf(),
                l0.wf(),
                l0 == old(self)@,
                l0.primary_index() == Some(i as int),
                0 <= i < l0.monitors.len(),
                m == l0.monitors[i as int]@,
                ws == m.active_workspace()@,
                0 <= k <= windows@.len(),
                self@ == l0.with_monitor(i as int, self@.monitors[i as int]),
                self@.monitors[i as int]@ == m.with_workspace(
                    m.active,
                    self@.monitors[i as int]@.active_workspace(),
                ),
                self@.monitors[i as int]@.active_workspace()@ == (WorkspaceModel {
                    tiling: ws.tiling.after_adds(windows@.take(k as int)),
                    ..ws
                }),
                out@ == windows@.take(k as int).map_values(|w: WindowId| ws.tiling.configure_for(w)),
            decreases windows@.len() - k,
        {
            let ghost before = self@;
            let w = windows[k];
            proof {
                lemma_after_adds(ws.tiling, windows@.take(k as int));
            }
            let c = self.monitors[i].add_window(w);
            proof {
                let nb = before.monitors[i as int]@;
                let na = self.monitors@[i as int];
                let t = windows@.take(k + 1);
                lemma_with_workspace_same_ids(nb, nb.active, na@.active_workspace());
                assert(self@.monitors =~= before.monitors.update(i as int, na));
                Self::lemma_after_monitor_op(before, self@, i as int);
                assert(self@.monitors =~= l0.monitors.update(i as int, na));
                assert(t.drop_last() =~= windows@.take(k as int));
                assert(t.last() == w);
                assert(na@.workspaces =~= m.workspaces.update(m.active, na@.active_workspace()));
            }
            out.push(c);
            proof {
                assert(out@ =~= windows@.take(k + 1).map_values(
                    |w: WindowId| ws.tiling.configure_for(w),
                ));
            }
            k = k + 1;
        }
        proof {
            lemma_after_adds(ws.tiling, windows@.take(k as int));
            assert(windows@.take(k as int) =~= windows@);
        }
        out
    }

    /// Add a window to the active workspace of the monitor of `output`;
    /// returns the size it is to be configured with, or `None` when there is
    /// no such monitor.
    pub fn add_window_to_output(&mut self, window: WindowId, output: &OutputInfo) -> (r: Option<
        Configure,
    >)
        requires
            old(self)@.wf(),
        ensures
            final(self)@.wf(),
            r is Some == old(self)@.has_name(output.name@),
            r is None ==> final(self)@ == old(self)@,
            r is Some ==> {
                let i = old(self)@.index_of(output.name@);
                &&& final(self)@ == old(self)@.with_monitor(i, final(self)@.monitors[i])
                &&& old(self)@.monitors[i]@.added_window(final(self)@.monitors[i]@, window)
                &&& r == Some(
                    old(self)@.monitors[i]@.active_workspace()@.tiling.configure_for(window),
                )
            },
    {
        match self.index_of_name(&output.name) {
            Some(i) => {
                let ghost before = self@;
                let c = self.monitors[i].add_window(window);
                proof {
                    let m2 = self.monitors@[i as int];
                    let b = before.monitors[i as int]@;
                    lemma_with_workspace_same_ids(b, b.active, m2@.active_workspace());
                    assert(self@.monitors =~= before.monitors.update(i as int, m2));
                    Self::lemma_after_monitor_op(before, self@, i as int);
                }
                Some(c)
            },
            None => None,
        }
    }

    /// Remove a window from the layout: from the first monitor that holds it.
    pub fn remove_window(&mut self, window: &WindowId) -> (r: bool)
        requires
            old(self)@.wf(),
        ensures
            final(self)@.wf(),
            r == old(self)@.holds_window(*window),
            !r ==> final(self)@ == old(self)@,
            r ==> {
                let i = old(self)@.first_holding(*window);
                &&& final(self)@ == old(self)@.with_monitor(i, final(self)@.monitors[i])
                &&& old(self)@.monitors[i]@.removed_window(final(self)@.monitors[i]@, *window)
            },
    {
        let mut i: usize = 0;
        while i < self.monitors.len()
            invariant
                0 <= i <= self.monitors@.len(),
                self@ == old(self)@,
                self.monitors@ == self@.monitors,
                old(self)@.wf(),
                forall|j: int| 0 <= j < i ==> !old(self)@.holds(j, *window),
            decreases self.monitors@.len() - i,
        {
            if self.monitors[i].find_window(window).is_some() {
                let ghost before = self@;
                self.monitors[i].remove_window(window);
                proof {
                    lemma_first_holding_exists(old(self)@, *window, i as int);
                    let m2 = self.monitors@[i as int];
                    let b = before.monitors[i as int]@;
                    let k = b.first_holding(*window);
                    let kk = choose|kk: int| 0 <= kk < b.workspaces.len() && b.holds(kk, *window);
                    crate::monitor::lemma_first_holding_exists(b, *window, kk);
                    lemma_with_workspace_same_ids(b, k, m2@.workspaces[k]);
                    assert(self@.monitors =~= before.monitors.update(i as int, m2));
                    Self::lemma_after_monitor_op(before, self@, i as int);
                    let f = old(self)@.first_holding(*window);
                    if f < i as int {
                        assert(!old(self)@.holds(f, *window));
                    } else if f > i as int {
                        assert(!old(self)@.holds(i as int, *window));
                    }
                }
                return true;
            }
            i = i + 1;
        }
        proof {
            if old(self)@.holds_window(*window) {
                let k = choose|k: int| 0 <= k < old(self)@.monitors.len() && old(self)@.holds(k, *window);
                assert(!old(self)@.holds(k, *window));
            }
        }
        false
    }

    /// Find which monitor and workspace contains a window: the first monitor
    /// that holds it, and there the first workspace.
    pub fn find_window(&self, window: &WindowId) -> (r: Option<(&Monitor, usize)>)
        requires
            self@.wf(),
        ensures
            r is Some == self@.holds_window(*window),
            r matches Some(p) ==> *p.0 == self@.monitors[self@.first_holding(*window)] && p.1
                == p.0@.first_holding(*window),
    {
        let mut i: usize = 0;
        while i < self.monitors.len()
            invariant
                0 <= i <= self.monitors@.len(),
                self.monitors@ == self@.monitors,
                self@.wf(),
                forall|j: int| 0 <= j < i ==> !self@.holds(j, *window),
            decreases self.monitors@.len() - i,
        {
            if let Some((ws_idx, _)) = self.monitors[i].find_window(window) {
                proof {
                    lemma_first_holding_exists(self@, *window, i as int);
                    let f = self@.first_holding(*window);
                    if f < i as int {
                        assert(!self@.holds(f, *window));
                    } else if f > i as int {
                        assert(!self@.holds(i as int, *window));
                    }
                }
                return Some((&self.monitors[i], ws_idx));
            }
            i = i + 1;
        }
        proof {
            if self@.holds_window(*window) {
                let k = choose|k: int| 0 <= k < self@.monitors.len() && self@.holds(k, *window);
                assert(!self@.holds(k, *window));
            }
        }
        None
    }

    /// Get the focused window on the active monitor
    pub fn focused_window(&self) -> (r: Option<WindowId>)
        requires
            self@.wf(),
        ensures
            self@.active is None ==> r is None,
            self@.active_index() matches Some(i) ==> r == (match self@.monitors[i]@.active_workspace()@.tiling.focus {
                Some(f) => Some(self@.monitors[i]@.active_workspace()@.tiling.windows[f]),
                None => None,
            }),
    {
        match self.active_index() {
            Some(i) => self.monitors[i].focused_window(),
            None => None,
        }
    }

    /// Focus the next window on the active monitor
    pub fn focus_next(&mut self)
        requires
            old(self)@.wf(),
        ensures
            final(self)@.wf(),
            old(self)@.active is None ==> final(self)@ == old(self)@,
            old(self)@.active_index() matches Some(i) ==> {
                &&& final(self)@ == old(self)@.with_monitor(i, final(self)@.monitors[i])
                &&& old(self)@.monitors[i]@.focused_next(final(self)@.monitors[i]@)
            },
    {
        if let Some(i) = self.active_index() {
            let ghost before = self@;
            self.monitors[i].focus_next();
            proof {
                let m2 = self.monitors@[i as int];
                let b = before.monitors[i as int]@;
                lemma_with_workspace_same_ids(b, b.active, m2@.active_workspace());
                assert(self@.monitors =~= before.monitors.update(i as int, m2));
                Self::lemma_after_monitor_op(before, self@, i as int);
            }
        }
    }

    /// Focus the previous window on the active monitor
    pub fn focus_prev(&mut self)
        requires
            old(self)@.wf(),
        ensures
            final(self)@.wf(),
            old(self)@.active is None ==> final(self)@ == old(self)@,
            old(self)@.active_index() matches Some(i) ==> {
                &&& final(self)@ == old(self)@.with_monitor(i, final(self)@.monitors[i])
                &&& old(self)@.monitors[i]@.focused_prev(final(self)@.monitors[i]@)
            },
    {
        if let Some(i) = self.active_index() {
            let ghost before = self@;
            self.monitors[i].focus_prev();
            proof {
                let m2 = self.monitors@[i as int];
                let b = before.monitors[i as int]@;
                lemma_with_workspace_same_ids(b, b.active, m2@.active_workspace());
                assert(self@.monitors =~= before.monitors.update(i as int, m2));
                Self::lemma_after_monitor_op(before, self@, i as int);
            }
        }
    }

    /// Focus a specific window: the first monitor that holds it becomes
    /// active, and focuses the window there.
    pub fn focus_window(&mut self, window: &WindowId)
        requires
            old(self)@.wf(),
        ensures
            final(self)@.wf(),
            !old(self)@.holds_window(*window) ==> final(self)@ == old(self)@,
            old(self)@.holds_window(*window) ==> {
                let i = old(self)@.first_holding(*window);
                &&& final(self)@ == (LayoutModel {
                    active: Some(old(self)@.name(i)),
                    ..old(self)@
                }).with_monitor(i, final(self)@.monitors[i])
                &&& old(self)@.monitors[i]@.focused_window(final(self)@.monitors[i]@, *window)
            },
    {
        // Find which monitor has this window
        let mut i: usize = 0;
        while i < self.monitors.len()
            invariant
                0 <= i <= self.monitors@.len(),
                self@ == old(self)@,
                self.monitors@ == self@.monitors,
                old(self)@.wf(),
                forall|j: int| 0 <= j < i ==> !old(self)@.holds(j, *window),
            decreases self.monitors@.len() - i,
        {
            if self.monitors[i].find_window(window).is_some() {
                proof {
                    lemma_first_holding_exists(old(self)@, *window, i as int);
                    let f = old(self)@.first_holding(*window);
                    if f < i as int {
                        assert(!old(self)@.holds(f, *window));
                    } else if f > i as int {
                        assert(!old(self)@.holds(i as int, *window));
                    }
                }
                // Set that monitor as active
                let name = self.monitors[i].output().name.clone();
                self.active_monitor = Some(name);
                let ghost before = self@;
                proof {
                    assert(before.name(i as int) == old(self)@.name(i as int));
                    lemma_same_monitors_wf(old(self)@, before);
                }
                // Focus the window
                self.monitors[i].focus_window(window);
                proof {
                    let m2 = self.monitors@[i as int];
                    let b = before.monitors[i as int]@;
                    let k = b.first_holding(*window);
                    let kk = choose|kk: int| 0 <= kk < b.workspaces.len() && b.holds(kk, *window);
                    crate::monitor::lemma_first_holding_exists(b, *window, kk);
                    let sw = if k == b.active { b } else { b.switched(k) };
                    lemma_with_workspace_same_ids(sw, k, m2@.workspaces[k]);
                    lemma_same_workspaces_same_ids(sw, b);
                    assert(self@.monitors =~= before.monitors.update(i as int, m2));
                    Self::lemma_after_monitor_op(before, self@, i as int);
                }
                return;
            }
            i = i + 1;
        }
        proof {
            if old(self)@.holds_window(*window) {
                let k = choose|k: int| 0 <= k < old(self)@.monitors.len() && old(self)@.holds(k, *window);
                assert(!old(self)@.holds(k, *window));
            }
        }
    }

    /// Switch to the next workspace on the active monitor
    pub fn switch_to_next_workspace(&mut self) -> (r: bool)
        requires
            old(self)@.wf(),
        ensures
            final(self)@.wf(),
            old(self)@.active is None ==> !r && final(self)@ == old(self)@,
            old(self)@.active_index() matches Some(i) ==> {
                let m = old(self)@.monitors[i]@;
                &&& final(self)@ == old(self)@.with_monitor(i, final(self)@.monitors[i])
                &&& r == m.can_switch(m.next_index())
                &&& r ==> final(self)@.monitors[i]@ == m.switched(m.next_index())
                &&& !r ==> final(self)@.monitors[i]@ == m
            },
    {
        if let Some(i) = self.active_index() {
            let ghost before = self@;
            let r = self.monitors[i].switch_to_next_workspace();
            proof {
                let m2 = self.monitors@[i as int];
                lemma_same_workspaces_same_ids(m2@, before.monitors[i as int]@);
                assert(self@.monitors =~= before.monitors.update(i as int, m2));
                Self::lemma_after_monitor_op(before, self@, i as int);
            }
            return r;
        }
        false
    }

    /// Switch to the previous workspace on the active monitor
    pub fn switch_to_prev_workspace(&mut self) -> (r: bool)
        requires
            old(self)@.wf(),
        ensures
            final(self)@.wf(),
            old(self)@.active is None ==> !r && final(self)@ == old(self)@,
            old(self)@.active_index() matches Some(i) ==> {
                let m = old(self)@.monitors[i]@;
                &&& final(self)@ == old(self)@.with_monitor(i, final(self)@.monitors[i])
                &&& r == m.can_switch(m.prev_index())
                &&& r ==> final(self)@.monitors[i]@ == m.switched(m.prev_index())
                &&& !r ==> final(self)@.monitors[i]@ == m
            },
    {
        if let Some(i) = self.active_index() {
            let ghost before = self@;
            let r = self.monitors[i].switch_to_prev_workspace();
            proof {
                let m2 = self.monitors@[i as int];
                lemma_same_workspaces_same_ids(m2@, before.monitors[i as int]@);
                assert(self@.monitors =~= before.monitors.update(i as int, m2));
                Self::lemma_after_monitor_op(before, self@, i as int);
            }
            return r;
        }
        false
    }

    /// Switch to a specific workspace by index on the active monitor
    pub fn switch_to_workspace(&mut self, idx: usize) -> (r: bool)
        requires
            old(self)@.wf(),
        ensures
            final(self)@.wf(),
            old(self)@.active is None ==> !r && final(self)@ == old(self)@,
            old(self)@.active_index() matches Some(i) ==> {
                let m = old(self)@.monitors[i]@;
                &&& final(self)@ == old(self)@.with_monitor(i, final(self)@.monitors[i])
                &&& r == m.can_switch(idx as int)
                &&& r ==> final(self)@.monitors[i]@ == m.switched(idx as int)
                &&& !r ==> final(self)@.monitors[i]@ == m
            },
    {
        if let Some(i) = self.active_index() {
            let ghost before = self@;
            let r = self.monitors[i].switch_to_workspace(idx);
            proof {
                let m2 = self.monitors@[i as int];
                lemma_same_workspaces_same_ids(m2@, before.monitors[i as int]@);
                assert(self@.monitors =~= before.monitors.update(i as int, m2));
                Self::lemma_after_monitor_op(before, self@, i as int);
            }
            return r;
        }
        false
    }

    /// Create a new workspace on the active monitor (and switch to it if
    /// asked); `None` when there is no monitor.
    pub fn create_workspace(&mut self, switch_to: bool) -> (r: Option<WorkspaceId>)
        requires
            old(self)@.wf(),
            old(self)@.next_id < u64::MAX,
        ensures
            final(self)@.wf(),
            old(self)@.active is None ==> r is None && final(self)@ == old(self)@,
            old(self)@.active_index() matches Some(i) ==> {
                let m = old(self)@.monitors[i]@;
                let n = final(self)@.monitors[i]@;
                &&& final(self)@ == (LayoutModel {
                    next_id: (old(self)@.next_id + 1) as u64,
                    ..old(self)@
                }).with_monitor(i, final(self)@.monitors[i])
                &&& r matches Some(id) && id.spec_get() == old(self)@.next_id
                &&& n.workspaces.len() == m.workspaces.len() + 1
                &&& n.workspaces.drop_last() == m.workspaces
                &&& n.workspaces.last()@.id == r->0
                &&& n.workspaces.last()@.name is None
                &&& n.workspaces.last()@.is_initial(m.output, m.gap, m.margin, m.ratio)
                &&& switch_to ==> n == (MonitorModel { workspaces: n.workspaces, ..m }).switched(
                    m.workspaces.len() as int,
                )
                &&& !switch_to ==> n == (MonitorModel { workspaces: n.workspaces, ..m })
            },
    {
        if let Some(i) = self.active_index() {
            let ghost l = self@;
            proof {
                let m = l.monitors[i as int]@;
                assert forall|k: int| 0 <= k < m.workspaces.len() implies (
                #[trigger] m.workspaces[k])@.id.spec_get() < l.next_id by {
                    assert(l.valid_ws(i as int, k));
                    assert(l.ws_id(i as int, k).spec_get() < l.next_id);
                }
            }
            let id = self.monitors[i].create_workspace(switch_to, &mut self.workspace_ids);
            proof {
                let a = self@;
                let idx = i as int;
                let m2 = a.monitors[idx];
                assert(a.monitors =~= l.monitors.update(idx, m2));
                let last = l.monitors[idx]@.workspaces.len() as int;
                assert forall|k: int| 0 <= k < last implies #[trigger] m2@.workspaces[k]@.id
                    == l.monitors[idx]@.workspaces[k]@.id by {
                    assert(m2@.workspaces.drop_last()[k] == m2@.workspaces[k]);
                }
                assert(m2@.workspaces[last] == m2@.workspaces.last());
                assert forall|j: int| 0 <= j < a.monitors.len() implies (#[trigger] a.monitors[j])@.wf() by {}
                assert forall|j: int| 0 <= j < a.monitors.len() implies a.name(j) == l.name(j) by {}
                assert(a.names_distinct()) by {
                    assert forall|i1: int, i2: int|
                        #![trigger a.name(i1), a.name(i2)]
                        0 <= i1 < a.monitors.len() && 0 <= i2 < a.monitors.len() && i1 != i2 implies a.name(i1)
                            != a.name(i2) by {
                        assert(l.name(i1) != l.name(i2));
                    }
                }
                assert(a.ids_unique()) by {
                    assert forall|i1: int, k1: int, i2: int, k2: int|
                        #![trigger a.ws_id(i1, k1), a.ws_id(i2, k2)]
                        a.valid_ws(i1, k1) && a.valid_ws(i2, k2) && (i1 != i2 || k1 != k2) implies a.ws_id(
                            i1,
                            k1,
                        ) != a.ws_id(i2, k2) by {
                        let new1 = i1 == idx && k1 == last;
                        let new2 = i2 == idx && k2 == last;
                        if new1 && new2 {
                        } else if new1 {
                            assert(l.valid_ws(i2, k2));
                            assert(a.ws_id(i2, k2) == l.ws_id(i2, k2));
                            assert(l.ws_id(i2, k2).spec_get() < l.next_id);
                        } else if new2 {
                            assert(l.valid_ws(i1, k1));
                            assert(a.ws_id(i1, k1) == l.ws_id(i1, k1));
                            assert(l.ws_id(i1, k1).spec_get() < l.next_id);
                        } else {
                            assert(l.valid_ws(i1, k1));
                            assert(l.valid_ws(i2, k2));
                            assert(a.ws_id(i1, k1) == l.ws_id(i1, k1));
                            assert(a.ws_id(i2, k2) == l.ws_id(i2, k2));
                            assert(l.ws_id(i1, k1) != l.ws_id(i2, k2));
                        }
                    }
                    assert forall|i1: int, k1: int| #![trigger a.ws_id(i1, k1)] a.valid_ws(i1, k1) implies a.ws_id(
                        i1,
                        k1,
                    ).spec_get() < a.next_id by {
                        if !(i1 == idx && k1 == last) {
                            assert(l.valid_ws(i1, k1));
                            assert(a.ws_id(i1, k1) == l.ws_id(i1, k1));
                            assert(l.ws_id(i1, k1).spec_get() < l.next_id);
                        }
                    }
                }
                if let Some(x) = l.active {
                    let j = l.index_of(x);
                    assert(a.name(j) == x);
                }
                if let Some(x) = l.primary {
                    let j = l.index_of(x);
                    assert(a.name(j) == x);
                }
            }
            return Some(id);
        }
        None
    }

    /// Move the focused window of the active monitor to the workspace at
    /// `target_idx` there; returns the size it is to be configured with, or
    /// `None` (nothing moved) when there is no monitor, no focused window,
    /// or no such workspace.
    pub fn move_focused_to_workspace(&mut self, target_idx: usize) -> (r: Option<Configure>)
        requires
            old(self)@.wf(),
        ensures
            final(self)@.wf(),
            old(self)@.active is None ==> r is None && final(self)@ == old(self)@,
            old(self)@.active_index() matches Some(i) ==> {
                let m = old(self)@.monitors[i]@;
                let ws = m.active_workspace()@;
                &&& r is Some == (ws.tiling.focus is Some && target_idx < m.workspaces.len())
                &&& r is None ==> final(self)@ == old(self)@
                &&& r is Some ==> {
                    let w = ws.tiling.windows[ws.tiling.focus->0];
                    &&& final(self)@ == old(self)@.with_monitor(i, final(self)@.monitors[i])
                    &&& m.moved_window(final(self)@.monitors[i]@, w, target_idx as int)
                    &&& r == Some(
                        m.move_target_before(w, target_idx as int).tiling.configure_for(w),
                    )
                }
            },
    {
        if let Some(i) = self.active_index() {
            if let Some(window) = self.monitors[i].focused_window() {
                let ghost before = self@;
                let ghost b = before.monitors[i as int]@;
                if target_idx >= self.monitors[i].workspace_count() {
                    return None;
                }
                proof {
                    let a = b.active;
                    assert(b.holds(a, window));
                    crate::monitor::lemma_first_holding_exists(b, window, a);
                    let f = b.first_holding(window);
                    crate::tiling::lemma_first_index_exists(b.workspaces[f]@.tiling.windows, window);
                }
                let r = self.monitors[i].move_window_to_workspace(&window, target_idx);
                proof {
                    let m2 = self.monitors@[i as int];
                    let f = b.first_holding(window);
                    let t = target_idx as int;
                    assert forall|k: int| 0 <= k < b.workspaces.len() implies #[trigger] m2@.workspaces[k]@.id
                        == b.workspaces[k]@.id by {
                        if k != f && k != t {
                            assert(m2@.workspaces[k] == b.workspaces[k]);
                        }
                    }
                    assert(self@.monitors =~= before.monitors.update(i as int, m2));
                    Self::lemma_after_monitor_op(before, self@, i as int);
                }
                return r;
            }
        }
        None
    }

    /// Update the working areas of all monitors (call when layer shells
    /// change), given fresh snapshots of the outputs: each monitor takes the
    /// free area of the first snapshot with its output's name.
    pub fn update_working_areas(&mut self, outputs: &Vec<OutputInfo>)
        requires
            old(self)@.wf(),
            forall|k: int| 0 <= k < outputs@.len() ==> (#[trigger] outputs@[k]).valid(),
        ensures
            final(self)@.wf(),
            final(self)@ == (LayoutModel { monitors: final(self)@.monitors, ..old(self)@ }),
            final(self)@.monitors.len() == old(self)@.monitors.len(),
            forall|i: int|
                0 <= i < old(self)@.monitors.len() ==> {
                    let m = old(self)@.monitors[i]@;
                    let n = (#[trigger] final(self)@.monitors[i])@;
                    match crate::layout::first_output_named(outputs@, old(self)@.name(i)) {
                        Some(o) => m.updated_working_areas(n, o.working_area),
                        None => n == m,
                    }
                },
    {
        let mut i: usize = 0;
        while i < self.monitors.len()
            invariant
                0 <= i <= self.monitors@.len(),
                self.monitors@ == self@.monitors,
                self@.wf(),
                forall|k: int| 0 <= k < outputs@.len() ==> (#[trigger] outputs@[k]).valid(),
                self@ == (LayoutModel { monitors: self@.monitors, ..old(self)@ }),
                self@.monitors.len() == old(self)@.monitors.len(),
                forall|k: int| 0 <= k < self@.monitors.len() ==> self@.name(k) == old(self)@.name(k),
                forall|k: int| i <= k < self@.monitors.len() ==> self@.monitors[k] == old(self)@.monitors[k],
                forall|k: int|
                    0 <= k < i ==> {
                        let m = old(self)@.monitors[k]@;
                        let n = (#[trigger] self@.monitors[k])@;
                        match crate::layout::first_output_named(outputs@, old(self)@.name(k)) {
                            Some(o) => m.updated_working_areas(n, o.working_area),
                            None => n == m,
                        }
                    },
            decreases self.monitors@.len() - i,
        {
            let found = find_output_named(outputs, &self.monitors[i].output().name);
            if let Some(j) = found {
                let ghost before = self@;
                let zone = outputs[j].working_area;
                self.monitors[i].update_working_areas(zone);
                proof {
                    let m2 = self.monitors@[i as int];
                    let b = before.monitors[i as int]@;
                    assert forall|k: int| 0 <= k < b.workspaces.len() implies #[trigger] m2@.workspaces[k]@.id
                        == b.workspaces[k]@.id by {
                        assert(m2@.workspaces[k]@.id == b.workspaces[k]@.id);
                    }
                    assert(self@.monitors =~= before.monitors.update(i as int, m2));
                    Self::lemma_after_monitor_op_named(before, self@, i as int);
                }
            }
            i = i + 1;
        }
    }

    /// Like `lemma_after_monitor_op`, for a monitor that kept its output's name.
    proof fn lemma_after_monitor_op_named(before: LayoutModel, after: LayoutModel, i: int)
        requires
            before.wf(),
            0 <= i < before.monitors.len(),
            after == before.with_monitor(i, after.monitors[i]),
            after.monitors[i]@.wf(),
            after.monitors[i]@.output.name == before.monitors[i]@.output.name,
            same_ids(after.monitors[i]@, before.monitors[i]@),
        ensures
            after.wf(),
    {
        lemma_replace_monitor(before, i, after.monitors[i]);
    }

    /// The configure requests for all windows on all monitors, monitor by monitor.
    pub fn reconfigure_all(&self) -> (r: Vec<Configure>)
        requires
            self@.wf(),
        ensures
            r@ == all_monitor_configures(self@.monitors),
    {
        let mut out: Vec<Configure> = Vec::new();
        let mut i: usize = 0;
        while i < self.monitors.len()
            invariant
                0 <= i <= self.monitors@.len(),
                self.monitors@ == self@.monitors,
                self@.wf(),
                out@ == all_monitor_configures(self@.monitors.take(i as int)),
            decreases self.monitors@.len() - i,
        {
            let ghost m = self@.monitors[i as int];
            let mut more = self.monitors[i].reconfigure_all();
            proof {
                let t = self@.monitors.take(i + 1);
                assert(t.drop_last() =~= self@.monitors.take(i as int));
                assert(t.last() == m);
            }
            out.append(&mut more);
            i = i + 1;
        }
        proof {
            assert(self@.monitors.take(self@.monitors.len() as int) =~= self@.monitors);
        }
        out
    }

    /// Get active workspace index for an output
    pub fn active_workspace_idx(&self, output: &OutputInfo) -> (r: Option<usize>)
        requires
            self@.wf(),
        ensures
            r is Some == self@.has_name(output.name@),
            r matches Some(a) ==> a == self@.monitors[self@.index_of(output.name@)]@.active,
    {
        match self.monitor_for_output(output) {
            Some(m) => Some(m.active_workspace_idx()),
            None => None,
        }
    }

    /// Get workspace count for an output
    pub fn workspace_count(&self, output: &OutputInfo) -> (r: Option<usize>)
        requires
            self@.wf(),
        ensures
            r is Some == self@.has_name(output.name@),
            r matches Some(c) ==> c == self@.monitors[self@.index_of(output.name@)]@.workspaces.len(),
    {
        match self.monitor_for_output(output) {
            Some(m) => Some(m.workspace_count()),
            None => None,
        }
    }
}

} // verus!
