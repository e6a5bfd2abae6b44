//! Workspace management
//!
//! A workspace contains a set of tiled windows that can be switched as a unit.
use vstd::prelude::*;

use crate::geometry::{Rect, Size};
use crate::output::{compute_working_area, output_size, OutputInfo};
use crate::tiling::{
    valid_area, valid_params, valid_size, Configure, TilingLayout, TilingModel, WidthRatio,
    WindowId,
};

verus! {

/// Hands out workspace IDs; each ID is handed out once.
#[derive(Debug)]
pub struct WorkspaceIdCounter {
    next: u64,
}

impl WorkspaceIdCounter {
    /// IDs start at 1 and only count up.
    #[verifier::type_invariant]
    closed spec fn counts_from_one(self) -> bool {
        self.next >= 1
    }

    /// The value of the next ID handed out.
    pub closed spec fn spec_next(&self) -> u64 {
        self.next
    }

    /// A counter whose first ID is 1.
    pub fn new() -> (r: Self)
        ensures
            r.spec_next() == 1,
    {
        WorkspaceIdCounter { next: 1 }
    }

    /// Whether every ID has been handed out.
    pub fn is_exhausted(&self) -> (r: bool)
        ensures
            r == (self.spec_next() == u64::MAX),
    {
        self.next == u64::MAX
    }
}

/// Unique identifier for a workspace
#[derive(Debug, Clone, Copy, PartialEq, Eq, Structural, Hash)]
pub struct WorkspaceId(u64);

impl WorkspaceId {
    /// Every ID that a counter hands out is at least 1.
    #[verifier::type_invariant]
    closed spec fn at_least_one(self) -> bool {
        self.0 >= 1
    }

    pub closed spec fn spec_get(self) -> u64 {
        self.0
    }

    /// Take the next ID from the counter: later calls give larger IDs, so no
    /// two calls give the same one.
    pub fn next(counter: &mut WorkspaceIdCounter) -> (r: Self)
        requires
            old(counter).spec_next() < u64::MAX,
        ensures
            r.spec_get() == old(counter).spec_next(),
            r.spec_get() >= 1,
            final(counter).spec_next() == old(counter).spec_next() + 1,
    {
        proof {
            use_type_invariant(&*counter);
        }
        let id = WorkspaceId(counter.next);
        counter.next = counter.next + 1;
        id
    }

    /// The numeric value of the ID, at least 1.
    pub fn get(self) -> (r: u64)
        ensures
            r == self.spec_get(),
            r >= 1,
    {
        proof {
            use_type_invariant(&self);
        }
        self.0
    }
}

/// Two IDs are the same exactly when their numeric values are.
pub proof fn lemma_id_eq(a: WorkspaceId, b: WorkspaceId)
    ensures
        (a == b) == (a.spec_get() == b.spec_get()),
{
}

/// The mathematical state of a workspace.
pub ghost struct WorkspaceModel {
    pub id: WorkspaceId,
    pub name: Option<Seq<char>>,
    pub tiling: TilingModel,
    pub output: Option<OutputInfo>,
    pub view_size: Size,
    pub working_area: Rect,
}

impl WorkspaceModel {
    pub open spec fn wf(self) -> bool {
        self.tiling.wf()
    }

    /// The tiling state of a new workspace on `output`.
    pub open spec fn initial_tiling(
        output: OutputInfo,
        gap: i32,
        margin: i32,
        ratio: WidthRatio,
    ) -> TilingModel {
        TilingModel {
            size: output.working_area.size,
            origin: output.working_area.loc,
            ..TilingModel::initial(gap, margin, ratio)
        }
    }

    /// Whether this is a new workspace on `output`, apart from its ID and name.
    pub open spec fn is_initial(
        self,
        output: OutputInfo,
        gap: i32,
        margin: i32,
        ratio: WidthRatio,
    ) -> bool {
        &&& self.tiling == WorkspaceModel::initial_tiling(output, gap, margin, ratio)
        &&& self.output == Some(output)
        &&& self.view_size == output.spec_size()
        &&& self.working_area == output.working_area
    }
}

/// A workspace containing tiled windows
#[derive(Debug)]
pub struct Workspace {
    /// Unique ID for this workspace
    id: WorkspaceId,
    /// Optional name for this workspace
    name: Option<String>,
    /// The tiling layout for windows in this workspace
    tiling: TilingLayout,
    /// Output this workspace is currently on (if any)
    output: Option<OutputInfo>,
    /// View size (output size)
    view_size: Size,
    /// Working area (respecting layer shell exclusive zones)
    working_area: Rect,
}

pub open spec fn name_view(name: Option<String>) -> Option<Seq<char>> {
    match name {
        Some(n) => Some(n@),
        None => None,
    }
}

impl View for Workspace {
    type V = WorkspaceModel;

    closed spec fn view(&self) -> WorkspaceModel {
        WorkspaceModel {
            id: self.id,
            name: name_view(self.name),
            tiling: self.tiling@,
            output: self.output,
            view_size: self.view_size,
            working_area: self.working_area,
        }
    }
}

impl Workspace {
    /// Create a new workspace on `output`, taking its ID from `ids`.
    pub fn new(
        output: &OutputInfo,
        gap: i32,
        margin: i32,
        default_width_ratio: WidthRatio,
        ids: &mut WorkspaceIdCounter,
    ) -> (r: Self)
        requires
            output.valid(),
            valid_params(gap, margin, default_width_ratio),
            old(ids).spec_next() < u64::MAX,
        ensures
            r@.wf(),
            r@.id.spec_get() == old(ids).spec_next(),
            final(ids).spec_next() == old(ids).spec_next() + 1,
            r@.name is None,
            r@.is_initial(*output, gap, margin, default_width_ratio),
    {
        let view_size = output_size(output);
        let working_area = compute_working_area(output);
        let mut tiling = TilingLayout::new(gap, margin, default_width_ratio);
        tiling.set_output_size(view_size);
        if let Some(area) = working_area {
            tiling.set_available_area(area);
        }
        let area: Rect = match working_area {
            Some(r) => r,
            None => Rect { loc: crate::geometry::Point { x: 0, y: 0 }, size: view_size },
        };
        Workspace {
            id: WorkspaceId::next(ids),
            name: None,
            tiling,
            output: Some(output.clone()),
            view_size,
            working_area: area,
        }
    }

    /// Create a new workspace with a name
    pub fn new_named(
        name: String,
        output: &OutputInfo,
        gap: i32,
        margin: i32,
        default_width_ratio: WidthRatio,
        ids: &mut WorkspaceIdCounter,
    ) -> (r: Self)
        requires
            output.valid(),
            valid_params(gap, margin, default_width_ratio),
            old(ids).spec_next() < u64::MAX,
        ensures
            r@.wf(),
            r@.id.spec_get() == old(ids).spec_next(),
            final(ids).spec_next() == old(ids).spec_next() + 1,
            r@.name == Some(name@),
            r@.is_initial(*output, gap, margin, default_width_ratio),
    {
        let mut ws = Self::new(output, gap, margin, default_width_ratio, ids);
        ws.name = Some(name);
        ws
    }

    /// Get the workspace ID
    pub fn id(&self) -> (r: WorkspaceId)
        ensures
            r == self@.id,
    {
        self.id
    }

    /// Get the workspace name
    pub fn name(&self) -> (r: Option<&str>)
        ensures
            r is Some == self@.name is Some,
            r matches Some(n) ==> n@ == self@.name->0,
    {
        match &self.name {
            Some(n) => Some(n.as_str()),
            None => None,
        }
    }

    /// Set the workspace name
    pub fn set_name(&mut self, name: Option<String>)
        ensures
            final(self)@ == (WorkspaceModel { name: name_view(name), ..old(self)@ }),
    {
        self.name = name;
    }

    /// Get the current output
    pub fn output(&self) -> (r: Option<&OutputInfo>)
        ensures
            r is Some == self@.output is Some,
            r matches Some(o) ==> *o == self@.output->0,
    {
        match &self.output {
            Some(o) => Some(o),
            None => None,
        }
    }

    /// Set the output for this workspace; the view size and working area
    /// follow the new output.
    pub fn set_output(&mut self, output: Option<OutputInfo>)
        requires
            old(self)@.wf(),
            output matches Some(o) ==> o.valid(),
        ensures
            final(self)@.wf(),
            final(self)@.output == output,
            final(self)@.id == old(self)@.id,
            final(self)@.name == old(self)@.name,
            output is None ==> final(self)@ == (WorkspaceModel { output, ..old(self)@ }),
            output matches Some(o) ==> {
                &&& final(self)@.view_size == o.spec_size()
                &&& final(self)@.working_area == o.working_area
                &&& final(self)@.tiling == (TilingModel {
                    size: o.working_area.size,
                    origin: o.working_area.loc,
                    ..old(self)@.tiling
                })
            },
    {
        if let Some(out) = &output {
            self.view_size = output_size(out);
            self.tiling.set_output_size(self.view_size);
            if let Some(area) = compute_working_area(out) {
                self.tiling.set_available_area(area);
                self.working_area = area;
            }
        }
        self.output = output;
    }

    /// Update the working area (call when layer shells change), given the
    /// area the output's layer surfaces now leave free; a workspace on no
    /// output keeps its area.
    pub fn update_working_area(&mut self, zone: Rect)
        requires
            old(self)@.wf(),
            valid_area(zone),
        ensures
            final(self)@.wf(),
            old(self)@.output is None ==> final(self)@ == old(self)@,
            old(self)@.output matches Some(o) ==> final(self)@ == (WorkspaceModel {
                output: Some(OutputInfo { working_area: zone, ..o }),
                working_area: zone,
                tiling: TilingModel { size: zone.size, origin: zone.loc, ..old(self)@.tiling },
                ..old(self)@
            }),
    {
        if let Some(out) = &mut self.output {
            out.working_area = zone;
            self.tiling.set_available_area(zone);
            self.working_area = zone;
        }
    }

    /// Add a window to this workspace; returns the size it is to be configured with.
    pub fn add_window(&mut self, window: WindowId) -> (r: Configure)
        requires
            old(self)@.wf(),
        ensures
            final(self)@ == (WorkspaceModel {
                tiling: old(self)@.tiling.after_add(window),
                ..old(self)@
            }),
            final(self)@.wf(),
            r == old(self)@.tiling.configure_for(window),
    {
        self.tiling.add_window(window)
    }

    /// Remove a window from this workspace
    pub fn remove_window(&mut self, window: &WindowId) -> (r: bool)
        requires
            old(self)@.wf(),
        ensures
            r == old(self)@.tiling.windows.contains(*window),
            r ==> final(self)@ == (WorkspaceModel {
                tiling: old(self)@.tiling.after_remove(
                    crate::tiling::first_index(old(self)@.tiling.windows, *window),
                ),
                ..old(self)@
            }),
            !r ==> final(self)@ == old(self)@,
            final(self)@.wf(),
    {
        self.tiling.remove_window(window)
    }

    /// Get the focused window
    pub fn focused_window(&self) -> (r: Option<WindowId>)
        requires
            self@.wf(),
        ensures
            r == (match self@.tiling.focus {
                Some(i) => Some(self@.tiling.windows[i]),
                None => None,
            }),
    {
        self.tiling.focused_window()
    }

    /// Focus the next window
    pub fn focus_next(&mut self)
        requires
            old(self)@.wf(),
        ensures
            final(self)@.wf(),
            old(self)@.tiling.windows.len() == 0 ==> final(self)@ == old(self)@,
            old(self)@.tiling.windows.len() > 0 ==> final(self)@ == (WorkspaceModel {
                tiling: old(self)@.tiling.with_focus(
                    old(self)@.tiling.next_focus(),
                ).scrolled_to_focus(),
                ..old(self)@
            }),
    {
        self.tiling.focus_next();
    }

    /// Focus the previous window
    pub fn focus_prev(&mut self)
        requires
            old(self)@.wf(),
        ensures
            final(self)@.wf(),
            old(self)@.tiling.windows.len() == 0 ==> final(self)@ == old(self)@,
            old(self)@.tiling.windows.len() > 0 ==> final(self)@ == (WorkspaceModel {
                tiling: old(self)@.tiling.with_focus(
                    old(self)@.tiling.prev_focus(),
                ).scrolled_to_focus(),
                ..old(self)@
            }),
    {
        self.tiling.focus_prev();
    }

    /// Focus a specific window
    pub fn focus_window(&mut self, window: &WindowId)
        requires
            old(self)@.wf(),
        ensures
            final(self)@.wf(),
            old(self)@.tiling.windows.contains(*window) ==> final(self)@ == (WorkspaceModel {
                tiling: old(self)@.tiling.with_focus(
                    Some(crate::tiling::first_index(old(self)@.tiling.windows, *window)),
                ).scrolled_to_focus(),
                ..old(self)@
            }),
            !old(self)@.tiling.windows.contains(*window) ==> final(self)@ == old(self)@,
    {
        self.tiling.focus_window(window);
    }

    /// Check if workspace contains a window
    pub fn contains(&self, window: &WindowId) -> (r: bool)
        ensures
            r == self@.tiling.windows.contains(*window),
    {
        self.tiling.contains(window)
    }

    /// Get all windows in this workspace
    pub fn windows(&self) -> (r: &[WindowId])
        ensures
            r@ == self@.tiling.windows,
    {
        self.tiling.windows()
    }

    /// Get window count
    pub fn window_count(&self) -> (r: usize)
        ensures
            r == self@.tiling.windows.len(),
    {
        self.tiling.window_count()
    }

    /// Check if workspace is empty
    pub fn is_empty(&self) -> (r: bool)
        ensures
            r == (self@.tiling.windows.len() == 0),
    {
        self.tiling.window_count() == 0
    }

    /// Get the tiling layout (for position calculations)
    pub fn tiling(&self) -> (r: &TilingLayout)
        ensures
            r@ == self@.tiling,
    {
        &self.tiling
    }

    /// The configure requests that reconfigure all windows (e.g., after resize)
    pub fn reconfigure_all(&self) -> (r: Vec<Configure>)
        requires
            self@.wf(),
        ensures
            r@.len() == self@.tiling.windows.len(),
            forall|k: int|
                0 <= k < r@.len() ==> #[trigger] r@[k] == self@.tiling.configure_for(
                    self@.tiling.windows[k],
                ),
    {
        self.tiling.reconfigure_all()
    }
}

} // verus!
