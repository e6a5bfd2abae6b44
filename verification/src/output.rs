//! What the layout knows of an output (a monitor), and where new outputs go.
use vstd::prelude::*;

use crate::geometry::{Point, Rect, Size, Transform};
use crate::config::OutputConfig;
use crate::text::{nat_text, u64_to_text};
use crate::tiling::{valid_area, valid_size};

verus! {

/// A snapshot of an output: its name, its current mode, its transform, and
/// the area that layer-shell surfaces (panels, bars) leave free for windows.
#[derive(Debug)]
pub struct OutputInfo {
    pub name: String,
    /// Size of the current mode, before the transform.
    pub mode_size: Size,
    pub transform: Transform,
    /// The area not reserved by exclusive layer surfaces, relative to the output.
    pub working_area: Rect,
}

impl Clone for OutputInfo {
    fn clone(&self) -> (r: Self)
        ensures
            r == *self,
    {
        OutputInfo {
            name: self.name.clone(),
            mode_size: self.mode_size,
            transform: self.transform,
            working_area: self.working_area,
        }
    }
}

impl OutputInfo {
    /// The sizes of a valid output are not negative.
    pub open spec fn valid(&self) -> bool {
        &&& valid_size(self.mode_size)
        &&& valid_area(self.working_area)
    }

    /// Checks `valid`.
    pub fn is_valid(&self) -> (r: bool)
        ensures
            r == self.valid(),
    {
        0 <= self.mode_size.w && 0 <= self.mode_size.h && crate::tiling::area_is_valid(
            self.working_area,
        )
    }

    /// The size of the output on screen.
    pub open spec fn spec_size(&self) -> Size {
        self.transform.spec_transform_size(self.mode_size)
    }
}

/// Get the size of an output (its mode size, turned by its transform)
pub fn output_size(output: &OutputInfo) -> (r: Size)
    ensures
        r == output.spec_size(),
        output.valid() ==> valid_size(r),
{
    output.transform.transform_size(output.mode_size)
}

/// Compute the working area for an output (respecting layer shell exclusive zones)
pub fn compute_working_area(output: &OutputInfo) -> (r: Option<Rect>)
    ensures
        r == Some(output.working_area),
{
    Some(output.working_area)
}

/// The right edge of the rightmost output, or 0 when none reaches further right.
pub open spec fn rightmost_edge(geometries: Seq<Rect>) -> int
    decreases geometries.len(),
{
    if geometries.len() == 0 {
        0
    } else {
        let rest = rightmost_edge(geometries.drop_last());
        let g = geometries.last();
        if g.loc.x + g.size.w > rest {
            g.loc.x + g.size.w
        } else {
            rest
        }
    }
}

/// The first placement whose name is `name`, if any.
pub open spec fn first_placement(configs: Seq<OutputConfig>, name: Seq<char>) -> Option<
    OutputConfig,
>
    decreases configs.len(),
{
    if configs.len() == 0 {
        None
    } else if configs[0].name@ == name {
        Some(configs[0])
    } else {
        first_placement(configs.drop_first(), name)
    }
}

/// Where an output called `name` goes.
pub open spec fn spec_output_position(
    configs: Seq<OutputConfig>,
    name: Seq<char>,
    geometries: Seq<Rect>,
) -> Point {
    let auto_x = rightmost_edge(geometries) as i32;
    match first_placement(configs, name) {
        Some(c) => Point {
            x: match c.x {
                Some(x) => x,
                None => auto_x,
            },
            y: match c.y {
                Some(y) => y,
                None => 0,
            },
        },
        None => Point { x: auto_x, y: 0 },
    }
}

proof fn lemma_rightmost_bounds(geometries: Seq<Rect>)
    requires
        forall|i: int|
            0 <= i < geometries.len() ==> i32::MIN <= (#[trigger] geometries[i]).loc.x
                + geometries[i].size.w <= i32::MAX,
    ensures
        0 <= rightmost_edge(geometries) <= i32::MAX,
    decreases geometries.len(),
{
    if geometries.len() > 0 {
        let rest = geometries.drop_last();
        assert forall|i: int| 0 <= i < rest.len() implies i32::MIN <= (#[trigger] rest[i]).loc.x
            + rest[i].size.w <= i32::MAX by {
            assert(rest[i] == geometries[i]);
        }
        lemma_rightmost_bounds(rest);
        assert(geometries.last() == geometries[geometries.len() - 1]);
    }
}

/// Calculate the position of the output called `name`: the position its
/// configuration gives for each coordinate it names; a coordinate it leaves
/// out is auto-arranged: x to the right of the outputs already placed
/// (`geometries`, their on-screen rectangles), y on the top edge.
pub fn calculate_output_position(
    configs: &Vec<OutputConfig>,
    name: &String,
    geometries: &Vec<Rect>,
) -> (r: Point)
    requires
        forall|i: int|
            0 <= i < geometries@.len() ==> i32::MIN <= (#[trigger] geometries@[i]).loc.x
                + geometries@[i].size.w <= i32::MAX,
    ensures
        r == spec_output_position(configs@, name@, geometries@),
{
    // Check if there's a config entry for this output
    let mut i: usize = 0;
    let mut found: bool = false;
    let mut placed_x: Option<i32> = None;
    let mut placed_y: Option<i32> = None;
    assert(configs@.skip(0) =~= configs@);
    while i < configs.len() && !found
        invariant
            0 <= i <= configs@.len(),
            !found ==> first_placement(configs@, name@) == first_placement(
                configs@.skip(i as int),
                name@,
            ),
            !found ==> placed_x is None && placed_y is None,
            found ==> (first_placement(configs@, name@) matches Some(c) && c.x == placed_x
                && c.y == placed_y),
        decreases configs@.len() - i, if found { 0int } else { 1int },
    {
        let ghost rest = configs@.skip(i as int);
        assert(rest[0] == configs@[i as int]);
        assert(rest.drop_first() =~= configs@.skip(i + 1));
        if configs[i].name == *name {
            placed_x = configs[i].x;
            placed_y = configs[i].y;
            found = true;
        } else {
            i = i + 1;
        }
    }
    proof {
        if !found {
            assert(configs@.skip(i as int).len() == 0);
        }
    }
    // Auto-layout: place to the right of existing outputs
    proof {
        lemma_rightmost_bounds(geometries@);
    }
    let mut max_x: i32 = 0;
    let mut j: usize = 0;
    while j < geometries.len()
        invariant
            0 <= j <= geometries@.len(),
            max_x == rightmost_edge(geometries@.take(j as int)),
            forall|k: int|
                0 <= k < geometries@.len() ==> i32::MIN <= (#[trigger] geometries@[k]).loc.x
                    + geometries@[k].size.w <= i32::MAX,
        decreases geometries@.len() - j,
    {
        let g: Rect = geometries[j];
        assert(geometries@.take(j + 1).drop_last() =~= geometries@.take(j as int));
        assert(geometries@.take(j + 1).last() == geometries@[j as int]);
        let right: i32 = g.loc.x + g.size.w;
        if right > max_x {
            max_x = right;
        }
        j = j + 1;
    }
    assert(geometries@.take(geometries@.len() as int) =~= geometries@);
    let x: i32 = match placed_x {
        Some(x) => x,
        None => max_x,
    };
    let y: i32 = match placed_y {
        Some(y) => y,
        None => 0,
    };
    Point { x, y }
}

/// A display mode that a connector offers.
#[derive(Debug, Clone, Copy, PartialEq, Eq, Structural)]
pub struct ModeInfo {
    pub width: u16,
    pub height: u16,
    /// Vertical refresh rate in Hz.
    pub vrefresh: u32,
    /// Whether the connector marks this mode as preferred.
    pub preferred: bool,
}

/// `r` is the default choice among `modes`: the first one marked preferred,
/// or else the first one; none when there is no mode.
pub open spec fn is_default_mode(modes: Seq<ModeInfo>, r: Option<usize>) -> bool {
    &&& (r is None <==> modes.len() == 0)
    &&& (r matches Some(i) ==> i < modes.len() && (forall|j: int|
        0 <= j < i ==> !(#[trigger] modes[j]).preferred) && (modes[i as int].preferred || (i
        == 0 && forall|j: int| 0 <= j < modes.len() ==> !(#[trigger] modes[j]).preferred)))
}

/// Pick the mode to use: the first one marked preferred, or else the first
/// one; `None` when there is no mode.
pub fn select_mode(modes: &Vec<ModeInfo>) -> (r: Option<usize>)
    ensures
        is_default_mode(modes@, r),
{
    let mut i: usize = 0;
    while i < modes.len()
        invariant
            0 <= i <= modes@.len(),
            forall|j: int| 0 <= j < i ==> !(#[trigger] modes@[j]).preferred,
        decreases modes@.len() - i,
    {
        if modes[i].preferred {
            return Some(i);
        }
        i = i + 1;
    }
    if modes.len() == 0 {
        None
    } else {
        Some(0)
    }
}

/// The name of a mode in a configuration: "WIDTHxHEIGHT@REFRESH", such as
/// "1920x1080@60".
pub open spec fn mode_text(m: ModeInfo) -> Seq<char> {
    mode_size_text(m) + seq!['@'] + nat_text(m.vrefresh as nat)
}

/// The name of a mode's size alone: "WIDTHxHEIGHT".
pub open spec fn mode_size_text(m: ModeInfo) -> Seq<char> {
    nat_text(m.width as nat) + seq!['x'] + nat_text(m.height as nat)
}

/// Whether `s` names mode `m`, with its refresh rate or without.
pub open spec fn mode_named(m: ModeInfo, s: Seq<char>) -> bool {
    s == mode_text(m) || s == mode_size_text(m)
}

/// Whether some mode in `modes` is named `s`.
pub open spec fn names_some_mode(modes: Seq<ModeInfo>, s: Seq<char>) -> bool {
    exists|i: int| 0 <= i < modes.len() && mode_named(#[trigger] modes[i], s)
}

/// The mode an output's configuration asks for, if it asks for one.
pub open spec fn requested_mode(configs: Seq<OutputConfig>, name: Seq<char>) -> Option<String> {
    match first_placement(configs, name) {
        Some(c) => c.mode,
        None => None,
    }
}

/// Index of the first configuration for the output called `name`.
fn config_index(configs: &Vec<OutputConfig>, name: &String) -> (r: Option<usize>)
    ensures
        r is None ==> first_placement(configs@, name@) is None,
        r matches Some(i) ==> i < configs@.len() && first_placement(configs@, name@) == Some(
            configs@[i as int],
        ),
{
    let mut i: usize = 0;
    assert(configs@.skip(0) =~= configs@);
    while i < configs.len()
        invariant
            0 <= i <= configs@.len(),
            first_placement(configs@, name@) == first_placement(configs@.skip(i as int), name@),
        decreases configs@.len() - i,
    {
        let ghost rest = configs@.skip(i as int);
        assert(rest[0] == configs@[i as int]);
        assert(rest.drop_first() =~= configs@.skip(i + 1));
        if configs[i].name == *name {
            return Some(i);
        }
        i = i + 1;
    }
    assert(configs@.skip(i as int).len() == 0);
    None
}

/// Pick the mode for the output called `name`: the first mode that its
/// configuration names ("WIDTHxHEIGHT@REFRESH", or "WIDTHxHEIGHT" for any
/// refresh rate); without such a name, or when it names no mode offered
/// (as "preferred" does), the default choice of `select_mode`.
pub fn select_output_mode(
    modes: &Vec<ModeInfo>,
    configs: &Vec<OutputConfig>,
    name: &String,
) -> (r: Option<usize>)
    ensures
        (requested_mode(configs@, name@) matches Some(s) && names_some_mode(modes@, s@)) ==> (
        r matches Some(i) && i < modes@.len() && mode_named(
            modes@[i as int],
            requested_mode(configs@, name@)->0@,
        ) && forall|j: int|
            0 <= j < i ==> !mode_named(#[trigger] modes@[j], requested_mode(configs@, name@)->0@)),
        !(requested_mode(configs@, name@) matches Some(s) && names_some_mode(modes@, s@))
            ==> is_default_mode(modes@, r),
{
    let requested: Option<&String> = match config_index(configs, name) {
        Some(c) => match &configs[c].mode {
            Some(m) => Some(m),
            None => None,
        },
        None => None,
    };
    assert(requested matches Some(x) ==> requested_mode(configs@, name@) == Some(*x));
    if let Some(s) = requested {
        let ghost want = s@;
        let mut i: usize = 0;
        while i < modes.len()
            invariant
                0 <= i <= modes@.len(),
                s@ == want,
                requested_mode(configs@, name@) matches Some(x) && x@ == want,
                forall|j: int| 0 <= j < i ==> !mode_named(#[trigger] modes@[j], want),
            decreases modes@.len() - i,
        {
            let m = modes[i];
            let mut size = u64_to_text(m.width as u64);
            size.append("x");
            let height = u64_to_text(m.height as u64);
            size.append(height.as_str());
            let mut full = size.clone();
            full.append("@");
            let refresh = u64_to_text(m.vrefresh as u64);
            full.append(refresh.as_str());
            proof {
                reveal_strlit("x");
                reveal_strlit("@");
                assert(size@ =~= mode_size_text(m));
                assert(full@ =~= mode_text(m));
            }
            if full == *s || size == *s {
                return Some(i);
            }
            i = i + 1;
        }
    }
    select_mode(modes)
}

/// The transform a configuration names: "normal", "90", "180", "270",
/// "flipped", "flipped-90", "flipped-180" or "flipped-270"; none for any
/// other text.
pub open spec fn transform_named(s: Seq<char>) -> Option<Transform> {
    if s == "normal"@ {
        Some(Transform::Normal)
    } else if s == "90"@ {
        Some(Transform::Rotate90)
    } else if s == "180"@ {
        Some(Transform::Rotate180)
    } else if s == "270"@ {
        Some(Transform::Rotate270)
    } else if s == "flipped"@ {
        Some(Transform::Flipped)
    } else if s == "flipped-90"@ {
        Some(Transform::Flipped90)
    } else if s == "flipped-180"@ {
        Some(Transform::Flipped180)
    } else if s == "flipped-270"@ {
        Some(Transform::Flipped270)
    } else {
        None
    }
}

/// Read a transform name (see `transform_named`).
pub fn parse_transform(s: &String) -> (r: Option<Transform>)
    ensures
        r == transform_named(s@),
{
    if *s == String::from_str("normal") {
        Some(Transform::Normal)
    } else if *s == String::from_str("90") {
        Some(Transform::Rotate90)
    } else if *s == String::from_str("180") {
        Some(Transform::Rotate180)
    } else if *s == String::from_str("270") {
        Some(Transform::Rotate270)
    } else if *s == String::from_str("flipped") {
        Some(Transform::Flipped)
    } else if *s == String::from_str("flipped-90") {
        Some(Transform::Flipped90)
    } else if *s == String::from_str("flipped-180") {
        Some(Transform::Flipped180)
    } else if *s == String::from_str("flipped-270") {
        Some(Transform::Flipped270)
    } else {
        None
    }
}

/// The transform for the output called `name`: the one its configuration
/// names, and the normal one when it names none (or a text that is no
/// transform).
pub open spec fn spec_output_transform(configs: Seq<OutputConfig>, name: Seq<char>) -> Transform {
    match first_placement(configs, name) {
        Some(c) => match c.transform {
            Some(t) => match transform_named(t@) {
                Some(x) => x,
                None => Transform::Normal,
            },
            None => Transform::Normal,
        },
        None => Transform::Normal,
    }
}

/// The transform to display the output called `name` with (see
/// `spec_output_transform`).
pub fn output_transform(configs: &Vec<OutputConfig>, name: &String) -> (r: Transform)
    ensures
        r == spec_output_transform(configs@, name@),
{
    match config_index(configs, name) {
        Some(c) => match &configs[c].transform {
            Some(t) => match parse_transform(t) {
                Some(x) => x,
                None => Transform::Normal,
            },
            None => Transform::Normal,
        },
        None => Transform::Normal,
    }
}

/// Whether the output called `name` is to be used: as its configuration
/// says, and yes when it has none.
pub fn output_enabled(configs: &Vec<OutputConfig>, name: &String) -> (r: bool)
    ensures
        r == (match first_placement(configs@, name@) {
            Some(c) => c.enabled,
            None => true,
        }),
{
    match config_index(configs, name) {
        Some(c) => configs[c].enabled,
        None => true,
    }
}

/// The refresh rate of a mode in mHz, as outputs take it.
pub fn mode_refresh(vrefresh: u32) -> (r: i32)
    requires
        vrefresh * 1000 <= i32::MAX,
    ensures
        r == vrefresh * 1000,
{
    (vrefresh as i32) * 1000
}

/// The name of a connector: its interface name, a hyphen, and its number
/// among the connectors of that interface (such as `HDMI-A-1`).
pub fn connector_name(interface: &str, id: u32) -> (r: String)
    ensures
        r@ == interface@ + "-"@ + nat_text(id as nat),
{
    let mut name = String::from_str(interface);
    name.append("-");
    let num = u64_to_text(id as u64);
    name.append(num.as_str());
    name
}

} // verus!
