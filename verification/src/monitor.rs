//! Monitor management
//!
//! A monitor represents a physical output with multiple workspaces.
//! Each monitor has its own set of workspaces that can be switched independently.
use vstd::prelude::*;

use crate::geometry::Rect;
use crate::output::OutputInfo;
use crate::tiling::{
    first_index, lemma_first_index_exists, valid_area, valid_params, Configure, WidthRatio, WindowId,
};
use crate::workspace::{Workspace, WorkspaceId, WorkspaceIdCounter, WorkspaceModel};

verus! {

/// No two workspaces of `s` share an ID.
pub open spec fn ids_distinct(s: Seq<Workspace>) -> bool {
    forall|i: int, j: int|
        #![trigger s[i]@.id, s[j]@.id]
        0 <= i < s.len() && 0 <= j < s.len() && i != j ==> s[i]@.id != s[j]@.id
}

/// Every workspace of `s` is well formed.
pub open spec fn all_wf(s: Seq<Workspace>) -> bool {
    forall|i: int| 0 <= i < s.len() ==> (#[trigger] s[i])@.wf()
}

/// Every workspace of `s` has an ID below `n`.
pub open spec fn ids_below(s: Seq<Workspace>, n: u64) -> bool {
    forall|i: int| 0 <= i < s.len() ==> (#[trigger] s[i])@.id.spec_get() < n
}

/// The workspaces that cleaning up keeps: the active one and those with windows.
pub open spec fn keep_workspace(active: WorkspaceId) -> spec_fn(Workspace) -> bool {
    |ws: Workspace| ws@.id == active || ws@.tiling.windows.len() > 0
}

/// The configure requests of all windows of `s`, workspace by workspace.
pub open spec fn all_configures(s: Seq<Workspace>) -> Seq<Configure>
    decreases s.len(),
{
    if s.len() == 0 {
        Seq::empty()
    } else {
        all_configures(s.drop_last()) + s.last()@.tiling.windows.map_values(
            |w: WindowId| s.last()@.tiling.configure_for(w),
        )
    }
}

/// The mathematical state of a monitor.
pub ghost struct MonitorModel {
    pub output: OutputInfo,
    pub workspaces: Seq<Workspace>,
    pub active: int,
    pub previous: Option<WorkspaceId>,
    pub gap: i32,
    pub margin: i32,
    pub ratio: WidthRatio,
}

impl MonitorModel {
    pub open spec fn wf(self) -> bool {
        &&& self.workspaces.len() >= 1
        &&& 0 <= self.active < self.workspaces.len()
        &&& all_wf(self.workspaces)
        &&& ids_distinct(self.workspaces)
        &&& self.output.valid()
        &&& valid_params(self.gap, self.margin, self.ratio)
    }

    pub open spec fn active_workspace(self) -> Workspace {
        self.workspaces[self.active]
    }

    /// Switching to `idx` changes something: it names another workspace.
    pub open spec fn can_switch(self, idx: int) -> bool {
        0 <= idx < self.workspaces.len() && idx != self.active
    }

    /// The state after switching to workspace `idx`.
    pub open spec fn switched(self, idx: int) -> MonitorModel {
        MonitorModel {
            previous: Some(self.active_workspace()@.id),
            active: idx,
            ..self
        }
    }

    /// Index of the workspace after the active one, wrapping around.
    pub open spec fn next_index(self) -> int {
        if self.active + 1 < self.workspaces.len() {
            self.active + 1
        } else {
            0
        }
    }

    /// Index of the workspace before the active one, wrapping around.
    pub open spec fn prev_index(self) -> int {
        if self.active > 0 {
            self.active - 1
        } else {
            self.workspaces.len() - 1
        }
    }

    /// Index of the workspace with ID `id` (meaningful when there is one).
    pub open spec fn index_of_id(self, id: WorkspaceId) -> int {
        choose|i: int| 0 <= i < self.workspaces.len() && self.workspaces[i]@.id == id
    }

    pub open spec fn has_id(self, id: WorkspaceId) -> bool {
        exists|i: int| 0 <= i < self.workspaces.len() && self.workspaces[i]@.id == id
    }

    /// Whether workspace `i` holds `w`.
    pub open spec fn holds(self, i: int, w: WindowId) -> bool {
        self.workspaces[i]@.tiling.windows.contains(w)
    }

    /// Whether some workspace holds `w`.
    pub open spec fn holds_window(self, w: WindowId) -> bool {
        exists|i: int| 0 <= i < self.workspaces.len() && self.holds(i, w)
    }

    /// The first workspace that holds `w` (meaningful when one does).
    pub open spec fn first_holding(self, w: WindowId) -> int {
        choose|i: int|
            0 <= i < self.workspaces.len() && self.holds(i, w) && forall|j: int|
                0 <= j < i ==> !self.holds(j, w)
    }

    /// Every field but the workspace at `i` is as in `self`, which is `ws` there.
    pub open spec fn with_workspace(self, i: int, ws: Workspace) -> MonitorModel {
        MonitorModel { workspaces: self.workspaces.update(i, ws), ..self }
    }

    /// `new` is this monitor after `w` was added to the active workspace.
    pub open spec fn added_window(self, new: MonitorModel, w: WindowId) -> bool {
        let o = self.active_workspace()@;
        &&& new == self.with_workspace(self.active, new.active_workspace())
        &&& new.active_workspace()@ == (WorkspaceModel { tiling: o.tiling.after_add(w), ..o })
    }

    /// `new` is this monitor after `w` left the first workspace holding it.
    pub open spec fn removed_window(self, new: MonitorModel, w: WindowId) -> bool {
        let i = self.first_holding(w);
        let ws = self.workspaces[i]@;
        &&& new == self.with_workspace(i, new.workspaces[i])
        &&& new.workspaces[i]@ == (WorkspaceModel {
            tiling: ws.tiling.after_remove(first_index(ws.tiling.windows, w)),
            ..ws
        })
    }

    /// `new` is this monitor after the focus moved right on the active workspace.
    pub open spec fn focused_next(self, new: MonitorModel) -> bool {
        let o = self.active_workspace()@;
        &&& new == self.with_workspace(self.active, new.active_workspace())
        &&& o.tiling.windows.len() == 0 ==> new.active_workspace()@ == o
        &&& o.tiling.windows.len() > 0 ==> new.active_workspace()@ == (WorkspaceModel {
            tiling: o.tiling.with_focus(o.tiling.next_focus()).scrolled_to_focus(),
            ..o
        })
    }

    /// `new` is this monitor after the focus moved left on the active workspace.
    pub open spec fn focused_prev(self, new: MonitorModel) -> bool {
        let o = self.active_workspace()@;
        &&& new == self.with_workspace(self.active, new.active_workspace())
        &&& o.tiling.windows.len() == 0 ==> new.active_workspace()@ == o
        &&& o.tiling.windows.len() > 0 ==> new.active_workspace()@ == (WorkspaceModel {
            tiling: o.tiling.with_focus(o.tiling.prev_focus()).scrolled_to_focus(),
            ..o
        })
    }

    /// `new` is this monitor after focusing `w`, which it holds.
    pub open spec fn focused_window(self, new: MonitorModel, w: WindowId) -> bool {
        let i = self.first_holding(w);
        let switched = if i == self.active {
            self
        } else {
            self.switched(i)
        };
        let ws = self.workspaces[i]@;
        &&& new == switched.with_workspace(i, new.workspaces[i])
        &&& new.active == i
        &&& new.workspaces[i]@ == (WorkspaceModel {
            tiling: ws.tiling.with_focus(Some(first_index(ws.tiling.windows, w))).scrolled_to_focus(),
            ..ws
        })
    }

    /// `new` is this monitor after `w` moved from the first workspace holding
    /// it to workspace `t`.
    pub open spec fn moved_window(self, new: MonitorModel, w: WindowId, t: int) -> bool {
        let i = self.first_holding(w);
        let ws = self.workspaces[i]@;
        let removed = WorkspaceModel {
            tiling: ws.tiling.after_remove(first_index(ws.tiling.windows, w)),
            ..ws
        };
        let pre = if t == i {
            removed
        } else {
            self.workspaces[t]@
        };
        &&& new == (MonitorModel { workspaces: new.workspaces, ..self })
        &&& new.workspaces.len() == self.workspaces.len()
        &&& forall|k: int|
            0 <= k < self.workspaces.len() && k != i && k != t ==> #[trigger] new.workspaces[k]
                == self.workspaces[k]
        &&& i != t ==> new.workspaces[i]@ == removed
        &&& new.workspaces[t]@ == (WorkspaceModel { tiling: pre.tiling.after_add(w), ..pre })
    }

    /// The workspace a window moved to `t` lands in, before it arrives.
    pub open spec fn move_target_before(self, w: WindowId, t: int) -> WorkspaceModel {
        let i = self.first_holding(w);
        let ws = self.workspaces[i]@;
        if t == i {
            WorkspaceModel {
                tiling: ws.tiling.after_remove(first_index(ws.tiling.windows, w)),
                ..ws
            }
        } else {
            self.workspaces[t]@
        }
    }

    /// `new` is this monitor after the free area of its output became `zone`.
    pub open spec fn updated_working_areas(self, new: MonitorModel, zone: Rect) -> bool {
        &&& new == (MonitorModel {
            output: OutputInfo { working_area: zone, ..self.output },
            workspaces: new.workspaces,
            ..self
        })
        &&& new.workspaces.len() == self.workspaces.len()
        &&& forall|i: int|
            0 <= i < new.workspaces.len() ==> {
                let o = self.workspaces[i]@;
                let n = (#[trigger] new.workspaces[i])@;
                &&& o.output is None ==> n == o
                &&& o.output matches Some(out) ==> n == (WorkspaceModel {
                    output: Some(OutputInfo { working_area: zone, ..out }),
                    working_area: zone,
                    tiling: crate::tiling::TilingModel {
                        size: zone.size,
                        origin: zone.loc,
                        ..o.tiling
                    },
                    ..o
                })
            }
    }
}

/// Switching to the previous workspace and then to the next one comes back
/// to the workspace where it started, and so does next then previous; away
/// from the ends, the previous workspace is the one just before the active
/// one and the next workspace the one just after it.
pub proof fn lemma_prev_next_inverse(m: MonitorModel)
    requires
        m.wf(),
    ensures
        m.switched(m.prev_index()).next_index() == m.active,
        m.switched(m.next_index()).prev_index() == m.active,
        0 <= m.prev_index() < m.workspaces.len(),
        0 <= m.next_index() < m.workspaces.len(),
        m.active > 0 ==> m.prev_index() == m.active - 1,
        m.active + 1 < m.workspaces.len() ==> m.next_index() == m.active + 1,
{
}

/// Lemma: the first workspace holding `w` is `i` if none before `i` holds it.
pub proof fn lemma_first_holding(m: MonitorModel, w: WindowId, i: int)
    requires
        0 <= i < m.workspaces.len(),
        m.holds(i, w),
        forall|j: int| 0 <= j < i ==> !m.holds(j, w),
    ensures
        m.first_holding(w) == i,
        m.holds_window(w),
{
    let k = m.first_holding(w);
    assert(0 <= k < m.workspaces.len() && m.holds(k, w) && forall|j: int|
        0 <= j < k ==> !m.holds(j, w));
    if k < i {
        assert(!m.holds(k, w));
    } else if k > i {
        assert(!m.holds(i, w));
    }
}

/// Lemma: when some workspace holds `w`, there is a first one.
pub proof fn lemma_first_holding_exists(m: MonitorModel, w: WindowId, k: int)
    requires
        0 <= k < m.workspaces.len(),
        m.holds(k, w),
    ensures
        0 <= m.first_holding(w) < m.workspaces.len(),
        m.holds(m.first_holding(w), w),
        forall|j: int| 0 <= j < m.first_holding(w) ==> !m.holds(j, w),
    decreases k,
{
    if exists|j: int| 0 <= j < k && m.holds(j, w) {
        let j = choose|j: int| 0 <= j < k && m.holds(j, w);
        lemma_first_holding_exists(m, w, j);
    } else {
        lemma_first_holding(m, w, k);
    }
}

/// Lemma: with distinct IDs, the workspace with a given ID is found at its index.
pub proof fn lemma_index_of_id(m: MonitorModel, i: int)
    requires
        ids_distinct(m.workspaces),
        0 <= i < m.workspaces.len(),
    ensures
        m.has_id(m.workspaces[i]@.id),
        m.index_of_id(m.workspaces[i]@.id) == i,
{
    let id = m.workspaces[i]@.id;
    assert(m.workspaces[i]@.id == id);
    let k = m.index_of_id(id);
    if k != i {
        assert(m.workspaces[k]@.id != m.workspaces[i]@.id);
    }
}

/// A window added to a monitor is found on it: on its active workspace,
/// as that workspace's focused window.
pub proof fn lemma_added_window_found(m: MonitorModel, n: MonitorModel, w: WindowId)
    requires
        m.wf(),
        m.added_window(n, w),
    ensures
        n.holds(n.active, w),
        n.holds_window(w),
        n.active_workspace()@.tiling.focus matches Some(f) && n.active_workspace()@.tiling.windows[f]
            == w,
{
    let t = n.active_workspace()@.tiling;
    assert(t.windows[t.windows.len() - 1] == w);
    assert(n.holds(n.active, w));
}

/// A window moved to workspace `t` is found there, as its focused window,
/// and the workspace it came from (if another one) holds one window less.
pub proof fn lemma_moved_window_found(m: MonitorModel, n: MonitorModel, w: WindowId, t: int)
    requires
        m.wf(),
        m.holds_window(w),
        0 <= t < m.workspaces.len(),
        m.moved_window(n, w, t),
    ensures
        n.holds(t, w),
        n.workspaces[t]@.tiling.focus matches Some(f) && n.workspaces[t]@.tiling.windows[f] == w,
        m.first_holding(w) != t ==> n.workspaces[m.first_holding(w)]@.tiling.windows.len()
            == m.workspaces[m.first_holding(w)]@.tiling.windows.len() - 1,
{
    let k = choose|k: int| 0 <= k < m.workspaces.len() && m.holds(k, w);
    lemma_first_holding_exists(m, w, k);
    let i = m.first_holding(w);
    let ws = m.workspaces[i]@;
    lemma_first_index_exists(ws.tiling.windows, w);
    let tt = n.workspaces[t]@.tiling;
    assert(tt.windows[tt.windows.len() - 1] == w);
}

/// Switching to another workspace and then back to the previous one returns
/// to the workspace that was active, with the workspaces unchanged; the one
/// switched to becomes the previous one.
pub proof fn lemma_switch_then_back(m: MonitorModel, i: int)
    requires
        m.wf(),
        m.can_switch(i),
    ensures
        ({
            let n = m.switched(i);
            let prev = n.previous->0;
            &&& n.wf()
            &&& n.previous == Some(m.active_workspace()@.id)
            &&& n.has_id(prev)
            &&& n.can_switch(n.index_of_id(prev))
            &&& n.switched(n.index_of_id(prev)).active == m.active
            &&& n.switched(n.index_of_id(prev)).workspaces == m.workspaces
            &&& n.switched(n.index_of_id(prev)).previous == Some(m.workspaces[i]@.id)
        }),
{
    let n = m.switched(i);
    lemma_index_of_id(n, m.active);
}

/// Lemma: replacing a workspace by a well-formed one with the same ID keeps a
/// monitor well formed.
pub proof fn lemma_update_keeps_wf(m: MonitorModel, i: int, ws: Workspace)
    requires
        m.wf(),
        0 <= i < m.workspaces.len(),
        ws@.wf(),
        ws@.id == m.workspaces[i]@.id,
    ensures
        m.with_workspace(i, ws).wf(),
{
    let s = m.with_workspace(i, ws).workspaces;
    assert forall|a: int, b: int|
        #![trigger s[a]@.id, s[b]@.id]
        0 <= a < s.len() && 0 <= b < s.len() && a != b implies s[a]@.id != s[b]@.id by {
        assert(s[a]@.id == m.workspaces[a]@.id);
        assert(s[b]@.id == m.workspaces[b]@.id);
    }
    assert forall|a: int| 0 <= a < s.len() implies (#[trigger] s[a])@.wf() by {
        if a != i {
            assert(s[a] == m.workspaces[a]);
        }
    }
}

/// Per-output state managing workspaces
#[derive(Debug)]
pub struct Monitor {
    /// The output this monitor represents
    output: OutputInfo,
    /// Workspaces on this monitor (always at least one)
    workspaces: Vec<Workspace>,
    /// Index of the active workspace
    active_workspace_idx: usize,
    /// ID of the previously active workspace (for "go back" functionality)
    previous_workspace_id: Option<WorkspaceId>,
    /// Layout configuration
    gap: i32,
    margin: i32,
    default_width_ratio: WidthRatio,
}

impl View for Monitor {
    type V = MonitorModel;

    closed spec fn view(&self) -> MonitorModel {
        MonitorModel {
            output: self.output,
            workspaces: self.workspaces@,
            active: self.active_workspace_idx as int,
            previous: self.previous_workspace_id,
            gap: self.gap,
            margin: self.margin,
            ratio: self.default_width_ratio,
        }
    }
}

impl Monitor {
    /// Create a new monitor with one empty workspace
    pub fn new(
        output: OutputInfo,
        gap: i32,
        margin: i32,
        default_width_ratio: WidthRatio,
        ids: &mut WorkspaceIdCounter,
    ) -> (r: Self)
        requires
            output.valid(),
            valid_params(gap, margin, default_width_ratio),
            old(ids).spec_next() < u64::MAX,
        ensures
            r@.wf(),
            r@.output == output,
            r@.workspaces.len() == 1,
            r@.workspaces[0]@.is_initial(output, gap, margin, default_width_ratio),
            r@.workspaces[0]@.name is None,
            r@.workspaces[0]@.id.spec_get() == old(ids).spec_next(),
            final(ids).spec_next() == old(ids).spec_next() + 1,
            r@.active == 0,
            r@.previous is None,
            r@.gap == gap,
            r@.margin == margin,
            r@.ratio == default_width_ratio,
    {
        let workspace = Workspace::new(&output, gap, margin, default_width_ratio, ids);
        let mut workspaces: Vec<Workspace> = Vec::new();
        workspaces.push(workspace);
        Monitor {
            output,
            workspaces,
            active_workspace_idx: 0,
            previous_workspace_id: None,
            gap,
            margin,
            default_width_ratio,
        }
    }

    /// Get the output
    pub fn output(&self) -> (r: &OutputInfo)
        ensures
            *r == self@.output,
    {
        &self.output
    }

    /// Get the active workspace
    pub fn active_workspace(&self) -> (r: &Workspace)
        requires
            self@.wf(),
        ensures
            *r == self@.active_workspace(),
    {
        &self.workspaces[self.active_workspace_idx]
    }

    /// Get the active workspace index
    pub fn active_workspace_idx(&self) -> (r: usize)
        ensures
            r == self@.active,
    {
        self.active_workspace_idx
    }

    /// Get all workspaces
    pub fn workspaces(&self) -> (r: &[Workspace])
        ensures
            r@ == self@.workspaces,
    {
        self.workspaces.as_slice()
    }

    /// Get workspace count
    pub fn workspace_count(&self) -> (r: usize)
        ensures
            r == self@.workspaces.len(),
    {
        self.workspaces.len()
    }

    /// Get a workspace by index
    pub fn workspace(&self, idx: usize) -> (r: Option<&Workspace>)
        ensures
            r is Some == (idx < self@.workspaces.len()),
            r matches Some(ws) ==> *ws == self@.workspaces[idx as int],
    {
        if idx < self.workspaces.len() {
            Some(&self.workspaces[idx])
        } else {
            None
        }
    }

    /// Find workspace index by ID
    pub fn workspace_idx_by_id(&self, id: WorkspaceId) -> (r: Option<usize>)
        requires
            self@.wf(),
        ensures
            r is Some == self@.has_id(id),
            r matches Some(i) ==> i == self@.index_of_id(id) && self@.workspaces[i as int]@.id
                == id,
    {
        let mut i: usize = 0;
        while i < self.workspaces.len()
            invariant
                0 <= i <= self.workspaces@.len(),
                self.workspaces@ == self@.workspaces,
                self@.wf(),
                forall|j: int| 0 <= j < i ==> (#[trigger] self.workspaces@[j])@.id != id,
            decreases self.workspaces@.len() - i,
        {
            if self.workspaces[i].id() == id {
                proof {
                    lemma_index_of_id(self@, i as int);
                }
                return Some(i);
            }
            i = i + 1;
        }
        proof {
            if self@.has_id(id) {
                let k = choose|k: int|
                    0 <= k < self@.workspaces.len() && self@.workspaces[k]@.id == id;
                assert(self.workspaces@[k]@.id != id);
            }
        }
        None
    }

    /// Find a workspace by ID
    pub fn workspace_by_id(&self, id: WorkspaceId) -> (r: Option<&Workspace>)
        requires
            self@.wf(),
        ensures
            r is Some == self@.has_id(id),
            r matches Some(ws) ==> *ws == self@.workspaces[self@.index_of_id(id)] && ws@.id
                == id,
    {
        match self.workspace_idx_by_id(id) {
            Some(i) => Some(&self.workspaces[i]),
            None => None,
        }
    }

    /// Switch to a workspace by index; switching to the active workspace or
    /// to one that does not exist does nothing and returns false.
    pub fn switch_to_workspace(&mut self, idx: usize) -> (r: bool)
        requires
            old(self)@.wf(),
        ensures
            r == old(self)@.can_switch(idx as int),
            r ==> final(self)@ == old(self)@.switched(idx as int),
            !r ==> final(self)@ == old(self)@,
            final(self)@.wf(),
    {
        if idx >= self.workspaces.len() || idx == self.active_workspace_idx {
            return false;
        }
        self.previous_workspace_id = Some(self.workspaces[self.active_workspace_idx].id());
        self.active_workspace_idx = idx;
        true
    }

    /// Switch to the next workspace
    pub fn switch_to_next_workspace(&mut self) -> (r: bool)
        requires
            old(self)@.wf(),
        ensures
            r == old(self)@.can_switch(old(self)@.next_index()),
            r ==> final(self)@ == old(self)@.switched(old(self)@.next_index()),
            old(self)@.active + 1 < old(self)@.workspaces.len() ==> r && final(self)@.active
                == old(self)@.active + 1,
            !r ==> final(self)@ == old(self)@,
            final(self)@.wf(),
    {
        let next_idx: usize = if self.active_workspace_idx < self.workspaces.len() - 1 {
            self.active_workspace_idx + 1
        } else {
            0  // Wrap around

        };
        self.switch_to_workspace(next_idx)
    }

    /// Switch to the previous workspace
    pub fn switch_to_prev_workspace(&mut self) -> (r: bool)
        requires
            old(self)@.wf(),
        ensures
            r == old(self)@.can_switch(old(self)@.prev_index()),
            r ==> final(self)@ == old(self)@.switched(old(self)@.prev_index()),
            old(self)@.active > 0 ==> r && final(self)@.active == old(self)@.active - 1,
            !r ==> final(self)@ == old(self)@,
            final(self)@.wf(),
    {
        let prev_idx: usize = if self.active_workspace_idx > 0 {
            self.active_workspace_idx - 1
        } else {
            self.workspaces.len() - 1  // Wrap around

        };
        self.switch_to_workspace(prev_idx)
    }

    /// Switch back to the previously active workspace
    pub fn switch_to_previous(&mut self) -> (r: bool)
        requires
            old(self)@.wf(),
        ensures
            r == (old(self)@.previous matches Some(id) && old(self)@.has_id(id)
                && old(self)@.can_switch(old(self)@.index_of_id(id))),
            r ==> final(self)@ == old(self)@.switched(
                old(self)@.index_of_id(old(self)@.previous->0),
            ),
            !r ==> final(self)@ == old(self)@,
            final(self)@.wf(),
    {
        if let Some(prev_id) = self.previous_workspace_id {
            if let Some(idx) = self.workspace_idx_by_id(prev_id) {
                return self.switch_to_workspace(idx);
            }
        }
        false
    }

    /// Append `workspace` and switch to it if asked.
    fn push_workspace(&mut self, workspace: Workspace, switch_to: bool)
        requires
            old(self)@.wf(),
            workspace@.wf(),
            forall|i: int|
                0 <= i < old(self)@.workspaces.len() ==> (#[trigger] old(self)@.workspaces[i])@.id
                    != workspace@.id,
        ensures
            final(self)@.wf(),
            switch_to ==> final(self)@ == (MonitorModel {
                workspaces: old(self)@.workspaces.push(workspace),
                ..old(self)@
            }).switched(old(self)@.workspaces.len() as int),
            !switch_to ==> final(self)@ == (MonitorModel {
                workspaces: old(self)@.workspaces.push(workspace),
                ..old(self)@
            }),
    {
        self.workspaces.push(workspace);
        proof {
            let s = self.workspaces@;
            assert forall|i: int, j: int|
                #![trigger s[i]@.id, s[j]@.id]
                0 <= i < s.len() && 0 <= j < s.len() && i != j implies s[i]@.id != s[j]@.id by {
                if i < s.len() - 1 && j < s.len() - 1 {
                    assert(s[i] == old(self)@.workspaces[i]);
                    assert(s[j] == old(self)@.workspaces[j]);
                } else if i < s.len() - 1 {
                    assert(s[i] == old(self)@.workspaces[i]);
                } else {
                    assert(s[j] == old(self)@.workspaces[j]);
                }
            }
            assert forall|i: int| 0 <= i < s.len() implies (#[trigger] s[i])@.wf() by {
                if i < s.len() - 1 {
                    assert(s[i] == old(self)@.workspaces[i]);
                }
            }
        }
        if switch_to {
            let last: usize = self.workspaces.len() - 1;
            self.switch_to_workspace(last);
        }
    }

    /// Create a new workspace and optionally switch to it
    pub fn create_workspace(&mut self, switch_to: bool, ids: &mut WorkspaceIdCounter) -> (r:
        WorkspaceId)
        requires
            old(self)@.wf(),
            ids_below(old(self)@.workspaces, old(ids).spec_next()),
            old(ids).spec_next() < u64::MAX,
        ensures
            final(self)@.wf(),
            r.spec_get() == old(ids).spec_next(),
            final(ids).spec_next() == old(ids).spec_next() + 1,
            ids_below(final(self)@.workspaces, final(ids).spec_next()),
            final(self)@.workspaces.len() == old(self)@.workspaces.len() + 1,
            final(self)@.workspaces.drop_last() == old(self)@.workspaces,
            final(self)@.workspaces.last()@.id == r,
            final(self)@.workspaces.last()@.name is None,
            final(self)@.workspaces.last()@.is_initial(
                old(self)@.output,
                old(self)@.gap,
                old(self)@.margin,
                old(self)@.ratio,
            ),
            switch_to ==> final(self)@ == (MonitorModel {
                workspaces: final(self)@.workspaces,
                ..old(self)@
            }).switched(old(self)@.workspaces.len() as int),
            !switch_to ==> final(self)@ == (MonitorModel {
                workspaces: final(self)@.workspaces,
                ..old(self)@
            }),
    {
        let workspace = Workspace::new(
            &self.output,
            self.gap,
            self.margin,
            self.default_width_ratio,
            ids,
        );
        let id = workspace.id();
        self.push_workspace(workspace, switch_to);
        proof {
            assert(self@.workspaces.drop_last() =~= old(self)@.workspaces);
        }
        id
    }

    /// Create a new named workspace
    pub fn create_named_workspace(
        &mut self,
        name: String,
        switch_to: bool,
        ids: &mut WorkspaceIdCounter,
    ) -> (r: WorkspaceId)
        requires
            old(self)@.wf(),
            ids_below(old(self)@.workspaces, old(ids).spec_next()),
            old(ids).spec_next() < u64::MAX,
        ensures
            final(self)@.wf(),
            r.spec_get() == old(ids).spec_next(),
            final(ids).spec_next() == old(ids).spec_next() + 1,
            ids_below(final(self)@.workspaces, final(ids).spec_next()),
            final(self)@.workspaces.len() == old(self)@.workspaces.len() + 1,
            final(self)@.workspaces.drop_last() == old(self)@.workspaces,
            final(self)@.workspaces.last()@.id == r,
            final(self)@.workspaces.last()@.name == Some(name@),
            final(self)@.workspaces.last()@.is_initial(
                old(self)@.output,
                old(self)@.gap,
                old(self)@.margin,
                old(self)@.ratio,
            ),
            switch_to ==> final(self)@ == (MonitorModel {
                workspaces: final(self)@.workspaces,
                ..old(self)@
            }).switched(old(self)@.workspaces.len() as int),
            !switch_to ==> final(self)@ == (MonitorModel {
                workspaces: final(self)@.workspaces,
                ..old(self)@
            }),
    {
        let workspace = Workspace::new_named(
            name,
            &self.output,
            self.gap,
            self.margin,
            self.default_width_ratio,
            ids,
        );
        let id = workspace.id();
        self.push_workspace(workspace, switch_to);
        proof {
            assert(self@.workspaces.drop_last() =~= old(self)@.workspaces);
        }
        id
    }

    /// Remove an empty workspace (cannot remove the last one)
    pub fn remove_workspace(&mut self, idx: usize) -> (r: bool)
        requires
            old(self)@.wf(),
        ensures
            r == (old(self)@.workspaces.len() > 1 && idx < old(self)@.workspaces.len()
                && old(self)@.workspaces[idx as int]@.tiling.windows.len() == 0),
            !r ==> final(self)@ == old(self)@,
            r ==> final(self)@ == (MonitorModel {
                workspaces: old(self)@.workspaces.remove(idx as int),
                active: if old(self)@.active >= old(self)@.workspaces.len() - 1 {
                    old(self)@.workspaces.len() - 2
                } else if idx < old(self)@.active {
                    old(self)@.active - 1
                } else {
                    old(self)@.active
                },
                ..old(self)@
            }),
            final(self)@.wf(),
    {
        // Don't remove if it's the only workspace or has windows
        if self.workspaces.len() <= 1 {
            return false;
        }
        if idx < self.workspaces.len() {
            if !self.workspaces[idx].is_empty() {
                return false;
            }
        } else {
            return false;
        }
        self.workspaces.remove(idx);
        // Adjust active workspace index
        if self.active_workspace_idx >= self.workspaces.len() {
            self.active_workspace_idx = self.workspaces.len() - 1;
        } else if idx < self.active_workspace_idx {
            self.active_workspace_idx = self.active_workspace_idx - 1;
        }
        proof {
            let s = self.workspaces@;
            let o = old(self)@.workspaces;
            assert forall|a: int, b: int|
                #![trigger s[a]@.id, s[b]@.id]
                0 <= a < s.len() && 0 <= b < s.len() && a != b implies s[a]@.id != s[b]@.id by {
                let a2 = if a < idx { a } else { a + 1 };
                let b2 = if b < idx { b } else { b + 1 };
                assert(s[a] == o[a2]);
                assert(s[b] == o[b2]);
                assert(o[a2]@.id != o[b2]@.id);
            }
            assert forall|a: int| 0 <= a < s.len() implies (#[trigger] s[a])@.wf() by {
                let a2 = if a < idx { a } else { a + 1 };
                assert(s[a] == o[a2]);
                assert(o[a2]@.wf());
            }
        }
        true
    }

    /// Clean up empty workspaces, keeping the active one (and so at least one)
    pub fn cleanup_empty_workspaces(&mut self)
        requires
            old(self)@.wf(),
        ensures
            final(self)@.wf(),
            old(self)@.workspaces.len() <= 1 ==> final(self)@ == old(self)@,
            old(self)@.workspaces.len() > 1 ==> final(self)@ == (MonitorModel {
                workspaces: old(self)@.workspaces.filter(
                    keep_workspace(old(self)@.active_workspace()@.id),
                ),
                active: final(self)@.active,
                ..old(self)@
            }),
            final(self)@.active_workspace() == old(self)@.active_workspace(),
    {
        if self.workspaces.len() <= 1 {
            return;
        }
        let ghost o = old(self)@.workspaces;
        let ghost oa = old(self)@.active;
        let ghost pred = keep_workspace(old(self)@.active_workspace()@.id);
        assert(o.skip(o.len() as int) =~= Seq::<Workspace>::empty());
        assert(o.take(o.len() as int) =~= o);
        reveal(Seq::filter);
        assert(Seq::<Workspace>::empty().filter(pred) =~= Seq::<Workspace>::empty());
        // Remove from back to front to preserve indices
        let mut j: usize = self.workspaces.len();
        while j > 0
            invariant
                0 <= j <= o.len(),
                self@ == (MonitorModel { workspaces: self@.workspaces, active: self@.active, ..old(self)@ }),
                self.workspaces@ == self@.workspaces,
                self.active_workspace_idx == self@.active,
                self@.workspaces =~= o.take(j as int) + o.skip(j as int).filter(pred),
                0 <= self@.active < self@.workspaces.len(),
                self@.workspaces[self@.active] == o[oa],
                self@.active <= oa,
                (j as int) > oa ==> self@.active == oa,
                all_wf(self@.workspaces),
                ids_distinct(self@.workspaces),
                old(self)@.wf(),
                o == old(self)@.workspaces,
                oa == old(self)@.active,
                pred == keep_workspace(o[oa]@.id),
            decreases j,
        {
            let i: usize = j - 1;
            proof {
                let t = o.skip(i as int);
                assert(t =~= seq![o[i as int]] + o.skip(j as int));
                o.skip(j as int).lemma_filter_prepend(o[i as int], pred);
                assert(self@.workspaces[i as int] == o[i as int]);
            }
            if i != self.active_workspace_idx && self.workspaces[i].is_empty()
                && self.workspaces.len() > 1 {
                let ghost before = self@.workspaces;
                self.workspaces.remove(i);
                if i < self.active_workspace_idx {
                    self.active_workspace_idx = self.active_workspace_idx - 1;
                }
                proof {
                    let s = self.workspaces@;
                    assert(s =~= before.remove(i as int));
                    assert(!pred(o[i as int])) by {
                        assert(o[i as int]@.id != o[oa]@.id) by {
                            if i as int != oa {
                                assert(o[i as int]@.id != o[oa]@.id);
                            }
                        }
                    }
                    assert(s =~= o.take(i as int) + o.skip(i as int).filter(pred));
                    assert forall|a: int, b: int|
                        #![trigger s[a]@.id, s[b]@.id]
                        0 <= a < s.len() && 0 <= b < s.len() && a != b implies s[a]@.id
                            != s[b]@.id by {
                        let a2 = if a < i { a } else { a + 1 };
                        let b2 = if b < i { b } else { b + 1 };
                        assert(s[a] == before[a2]);
                        assert(s[b] == before[b2]);
                        assert(before[a2]@.id != before[b2]@.id);
                    }
                    assert forall|a: int| 0 <= a < s.len() implies (#[trigger] s[a])@.wf() by {
                        let a2 = if a < i { a } else { a + 1 };
                        assert(s[a] == before[a2]);
                        assert(before[a2]@.wf());
                    }
                }
            } else {
                proof {
                    assert(i < self@.workspaces.len());
                    if i as int != self@.active {
                        assert(self@.workspaces.len() > 1);
                        assert(self@.workspaces[i as int]@.tiling.windows.len() > 0);
                    }
                    assert(pred(o[i as int])) by {
                        if i as int == self@.active {
                            assert(o[i as int] == o[oa]);
                        }
                    }
                    assert(o.take(j as int) =~= o.take(i as int) + seq![o[i as int]]);
                }
            }
            j = i;
        }
        proof {
            assert(o.take(0) =~= Seq::<Workspace>::empty());
            assert(o.skip(0) =~= o);
        }
    }

    /// Add a window to the active workspace; returns the size it is to be
    /// configured with.
    pub fn add_window(&mut self, window: WindowId) -> (r: Configure)
        requires
            old(self)@.wf(),
        ensures
            final(self)@.wf(),
            old(self)@.added_window(final(self)@, window),
            r == old(self)@.active_workspace()@.tiling.configure_for(window),
    {
        let idx: usize = self.active_workspace_idx;
        let r = self.workspaces[idx].add_window(window);
        proof {
            lemma_update_keeps_wf(old(self)@, idx as int, self.workspaces@[idx as int]);
            assert(self@.workspaces =~= old(self)@.workspaces.update(idx as int, self.workspaces@[idx as int]));
        }
        r
    }

    /// Remove a window from the first workspace on this monitor that holds it
    pub fn remove_window(&mut self, window: &WindowId) -> (r: bool)
        requires
            old(self)@.wf(),
        ensures
            final(self)@.wf(),
            r == old(self)@.holds_window(*window),
            !r ==> final(self)@ == old(self)@,
            r ==> old(self)@.removed_window(final(self)@, *window),
    {
        let mut i: usize = 0;
        while i < self.workspaces.len()
            invariant
                0 <= i <= self.workspaces@.len(),
                self@ == old(self)@,
                self.workspaces@ == self@.workspaces,
                old(self)@.wf(),
                forall|j: int| 0 <= j < i ==> !old(self)@.holds(j, *window),
            decreases self.workspaces@.len() - i,
        {
            if self.workspaces[i].contains(window) {
                proof {
                    lemma_first_holding(old(self)@, *window, i as int);
                }
                self.workspaces[i].remove_window(window);
                proof {
                    lemma_update_keeps_wf(old(self)@, i as int, self.workspaces@[i as int]);
                    assert(self@.workspaces =~= old(self)@.workspaces.update(i as int, self.workspaces@[i as int]));
                }
                return true;
            }
            i = i + 1;
        }
        proof {
            if old(self)@.holds_window(*window) {
                let k = choose|k: int| 0 <= k < old(self)@.workspaces.len() && old(self)@.holds(k, *window);
                assert(!old(self)@.holds(k, *window));
            }
        }
        false
    }

    /// Find which workspace contains a window: the first one that does.
    pub fn find_window(&self, window: &WindowId) -> (r: Option<(usize, &Workspace)>)
        requires
            self@.wf(),
        ensures
            r is Some == self@.holds_window(*window),
            r matches Some(p) ==> p.0 == self@.first_holding(*window) && *p.1
                == self@.workspaces[p.0 as int],
    {
        let mut i: usize = 0;
        while i < self.workspaces.len()
            invariant
                0 <= i <= self.workspaces@.len(),
                self.workspaces@ == self@.workspaces,
                self@.wf(),
                forall|j: int| 0 <= j < i ==> !self@.holds(j, *window),
            decreases self.workspaces@.len() - i,
        {
            if self.workspaces[i].contains(window) {
                proof {
                    lemma_first_holding(self@, *window, i as int);
                }
                return Some((i, &self.workspaces[i]));
            }
            i = i + 1;
        }
        proof {
            if self@.holds_window(*window) {
                let k = choose|k: int| 0 <= k < self@.workspaces.len() && self@.holds(k, *window);
                assert(!self@.holds(k, *window));
            }
        }
        None
    }

    /// Move a window to the workspace at `target_idx`: it leaves the first
    /// workspace holding it and is added to the target. Returns the size the
    /// window is to be configured with, or `None` (nothing moved) when the
    /// target does not exist or no workspace holds the window.
    pub fn move_window_to_workspace(&mut self, window: &WindowId, target_idx: usize) -> (r:
        Option<Configure>)
        requires
            old(self)@.wf(),
        ensures
            final(self)@.wf(),
            r is Some == (target_idx < old(self)@.workspaces.len() && old(self)@.holds_window(
                *window,
            )),
            r is None ==> final(self)@ == old(self)@,
            r is Some ==> old(self)@.moved_window(final(self)@, *window, target_idx as int)
                && r == Some(
                old(self)@.move_target_before(*window, target_idx as int).tiling.configure_for(
                    *window,
                ),
            ),
    {
        if target_idx >= self.workspaces.len() {
            return None;
        }
        // Find and remove from current workspace
        if !self.remove_window(window) {
            return None;
        }
        let ghost mid = self@;
        proof {
            let k = choose|k: int| 0 <= k < old(self)@.workspaces.len() && old(self)@.holds(k, *window);
            lemma_first_holding_exists(old(self)@, *window, k);
            let i = old(self)@.first_holding(*window);
            assert(old(self)@.holds(i, *window));
            crate::tiling::lemma_first_index_exists(old(self)@.workspaces[i]@.tiling.windows, *window);
            if i != target_idx as int {
                assert(self@.workspaces[target_idx as int] == old(self)@.workspaces[target_idx as int]);
            }
        }
        // Add to target workspace
        let c = self.workspaces[target_idx].add_window(*window);
        proof {
            lemma_update_keeps_wf(mid, target_idx as int, self.workspaces@[target_idx as int]);
            assert(self@.workspaces =~= mid.workspaces.update(target_idx as int, self.workspaces@[target_idx as int]));
        }
        Some(c)
    }

    /// Point every workspace at the output's new state
    pub fn update_output(&mut self, output: OutputInfo)
        requires
            old(self)@.wf(),
            output.valid(),
        ensures
            final(self)@.wf(),
            final(self)@ == (MonitorModel { output, workspaces: final(self)@.workspaces, ..old(self)@ }),
            final(self)@.workspaces.len() == old(self)@.workspaces.len(),
            forall|i: int|
                0 <= i < final(self)@.workspaces.len() ==> {
                    let o = old(self)@.workspaces[i]@;
                    let n = (#[trigger] final(self)@.workspaces[i])@;
                    &&& n.id == o.id
                    &&& n.name == o.name
                    &&& n.output == Some(output)
                    &&& n.view_size == output.spec_size()
                    &&& n.working_area == output.working_area
                    &&& n.tiling == (crate::tiling::TilingModel {
                        size: output.working_area.size,
                        origin: output.working_area.loc,
                        ..o.tiling
                    })
                },
    {
        self.output = output.clone();
        let mut i: usize = 0;
        while i < self.workspaces.len()
            invariant
                0 <= i <= self.workspaces@.len(),
                output.valid(),
                self@ == (MonitorModel { output, workspaces: self@.workspaces, ..old(self)@ }),
                self.workspaces@ == self@.workspaces,
                self@.workspaces.len() == old(self)@.workspaces.len(),
                old(self)@.wf(),
                forall|k: int| i <= k < self@.workspaces.len() ==> self@.workspaces[k] == old(self)@.workspaces[k],
                forall|k: int| 0 <= k < i ==> (#[trigger] self@.workspaces[k])@.wf(),
                forall|k: int|
                    0 <= k < i ==> {
                        let o = old(self)@.workspaces[k]@;
                        let n = (#[trigger] self@.workspaces[k])@;
                        &&& n.id == o.id
                        &&& n.name == o.name
                        &&& n.output == Some(output)
                        &&& n.view_size == output.spec_size()
                        &&& n.working_area == output.working_area
                        &&& n.tiling == (crate::tiling::TilingModel {
                            size: output.working_area.size,
                            origin: output.working_area.loc,
                            ..o.tiling
                        })
                    },
            decreases self.workspaces@.len() - i,
        {
            let ghost before = self@.workspaces;
            assert(before[i as int]@.wf());
            self.workspaces[i].set_output(Some(output.clone()));
            proof {
                assert forall|k: int| 0 <= k < self@.workspaces.len() && k != i implies self@.workspaces[k] == before[k] by {}
            }
            i = i + 1;
        }
        proof {
            let s = self@.workspaces;
            let o = old(self)@.workspaces;
            assert forall|a: int, b: int|
                #![trigger s[a]@.id, s[b]@.id]
                0 <= a < s.len() && 0 <= b < s.len() && a != b implies s[a]@.id != s[b]@.id by {
                assert(o[a]@.id != o[b]@.id);
            }
        }
    }

    /// Update the working areas of all workspaces (e.g., when layer shells
    /// change), given the area the output's layer surfaces now leave free.
    pub fn update_working_areas(&mut self, zone: Rect)
        requires
            old(self)@.wf(),
            valid_area(zone),
        ensures
            final(self)@.wf(),
            old(self)@.updated_working_areas(final(self)@, zone),
    {
        self.output.working_area = zone;
        let mut i: usize = 0;
        while i < self.workspaces.len()
            invariant
                0 <= i <= self.workspaces@.len(),
                valid_area(zone),
                self@ == (MonitorModel {
                    output: OutputInfo { working_area: zone, ..old(self)@.output },
                    workspaces: self@.workspaces,
                    ..old(self)@
                }),
                self.workspaces@ == self@.workspaces,
                self@.workspaces.len() == old(self)@.workspaces.len(),
                old(self)@.wf(),
                forall|k: int| i <= k < self@.workspaces.len() ==> self@.workspaces[k] == old(self)@.workspaces[k],
                forall|k: int| 0 <= k < i ==> (#[trigger] self@.workspaces[k])@.wf(),
                forall|k: int|
                    0 <= k < i ==> {
                        let o = old(self)@.workspaces[k]@;
                        let n = (#[trigger] self@.workspaces[k])@;
                        &&& o.output is None ==> n == o
                        &&& o.output matches Some(out) ==> n == (WorkspaceModel {
                            output: Some(OutputInfo { working_area: zone, ..out }),
                            working_area: zone,
                            tiling: crate::tiling::TilingModel {
                                size: zone.size,
                                origin: zone.loc,
                                ..o.tiling
                            },
                            ..o
                        })
                    },
            decreases self.workspaces@.len() - i,
        {
            let ghost before = self@.workspaces;
            assert(before[i as int]@.wf());
            self.workspaces[i].update_working_area(zone);
            proof {
                assert forall|k: int| 0 <= k < self@.workspaces.len() && k != i implies self@.workspaces[k] == before[k] by {}
            }
            i = i + 1;
        }
        proof {
            let s = self@.workspaces;
            let o = old(self)@.workspaces;
            assert forall|a: int, b: int|
                #![trigger s[a]@.id, s[b]@.id]
                0 <= a < s.len() && 0 <= b < s.len() && a != b implies s[a]@.id != s[b]@.id by {
                assert(o[a]@.id != o[b]@.id);
            }
        }
    }

    /// The configure requests for all windows on all workspaces, workspace
    /// by workspace.
    pub fn reconfigure_all(&self) -> (r: Vec<Configure>)
        requires
            self@.wf(),
        ensures
            r@ == all_configures(self@.workspaces),
    {
        let mut out: Vec<Configure> = Vec::new();
        let mut i: usize = 0;
        while i < self.workspaces.len()
            invariant
                0 <= i <= self.workspaces@.len(),
                self.workspaces@ == self@.workspaces,
                self@.wf(),
                out@ == all_configures(self@.workspaces.take(i as int)),
            decreases self.workspaces@.len() - i,
        {
            let ghost ws = self@.workspaces[i as int];
            let mut more = self.workspaces[i].reconfigure_all();
            proof {
                let t = self@.workspaces.take(i + 1);
                assert(t.drop_last() =~= self@.workspaces.take(i as int));
                assert(t.last() == ws);
                assert(more@ =~= ws@.tiling.windows.map_values(|w: WindowId| ws@.tiling.configure_for(w)));
            }
            out.append(&mut more);
            i = i + 1;
        }
        proof {
            assert(self@.workspaces.take(self@.workspaces.len() as int) =~= self@.workspaces);
        }
        out
    }

    /// Get the focused window on the active workspace
    pub fn focused_window(&self) -> (r: Option<WindowId>)
        requires
            self@.wf(),
        ensures
            r == (match self@.active_workspace()@.tiling.focus {
                Some(i) => Some(self@.active_workspace()@.tiling.windows[i]),
                None => None,
            }),
    {
        self.workspaces[self.active_workspace_idx].focused_window()
    }

    /// Focus the next window on the active workspace
    pub fn focus_next(&mut self)
        requires
            old(self)@.wf(),
        ensures
            final(self)@.wf(),
            old(self)@.focused_next(final(self)@),
    {
        let idx: usize = self.active_workspace_idx;
        self.workspaces[idx].focus_next();
        proof {
            lemma_update_keeps_wf(old(self)@, idx as int, self.workspaces@[idx as int]);
            assert(self@.workspaces =~= old(self)@.workspaces.update(idx as int, self.workspaces@[idx as int]));
        }
    }

    /// Focus the previous window on the active workspace
    pub fn focus_prev(&mut self)
        requires
            old(self)@.wf(),
        ensures
            final(self)@.wf(),
            old(self)@.focused_prev(final(self)@),
    {
        let idx: usize = self.active_workspace_idx;
        self.workspaces[idx].focus_prev();
        proof {
            lemma_update_keeps_wf(old(self)@, idx as int, self.workspaces@[idx as int]);
            assert(self@.workspaces =~= old(self)@.workspaces.update(idx as int, self.workspaces@[idx as int]));
        }
    }

    /// Focus a specific window: switch to the first workspace holding it (if
    /// it is not the active one) and focus the window there.
    pub fn focus_window(&mut self, window: &WindowId)
        requires
            old(self)@.wf(),
        ensures
            final(self)@.wf(),
            !old(self)@.holds_window(*window) ==> final(self)@ == old(self)@,
            old(self)@.holds_window(*window) ==> old(self)@.focused_window(final(self)@, *window),
    {
        // Find the workspace containing the window
        if let Some((idx, _)) = self.find_window(window) {
            proof {
                let k = choose|k: int| 0 <= k < old(self)@.workspaces.len() && old(self)@.holds(k, *window);
                lemma_first_holding_exists(old(self)@, *window, k);
            }
            // Switch to that workspace if needed
            if idx != self.active_workspace_idx {
                self.switch_to_workspace(idx);
            }
            let ghost mid = self@;
            // Focus the window
            let a: usize = self.active_workspace_idx;
            self.workspaces[a].focus_window(window);
            proof {
                lemma_update_keeps_wf(mid, a as int, self.workspaces@[a as int]);
                assert(self@.workspaces =~= mid.workspaces.update(a as int, self.workspaces@[a as int]));
            }
        }
    }
}

} // verus!
