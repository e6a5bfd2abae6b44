//! Configuration: settings, keybindings and their parsing.
use vstd::prelude::*;

use crate::text::{
    ascii_lower, chars_of, digit_char, eq_ignore_ascii_case_spec, nat_text, pow10, pow10_u64,
    to_ascii_lower, u64_to_text,
};
use crate::tiling::WidthRatio;

verus! {

/// General settings
#[derive(Debug, Clone, Copy, PartialEq, Eq, Structural)]
pub struct GeneralConfig {
    /// Gap between windows in pixels
    pub gap: i32,
    /// Outer margin around the workspace
    pub margin: i32,
}

/// Keyboard/input settings; empty values use the system defaults.
#[derive(Debug)]
pub struct KeyboardConfig {
    /// XKB rules (empty = system default)
    pub rules: Option<String>,
    /// XKB model (empty = system default)
    pub model: Option<String>,
    /// Keyboard layout(s), comma-separated (e.g., "us,de")
    pub layout: Option<String>,
    /// Layout variant(s), comma-separated
    pub variant: Option<String>,
    /// XKB options (e.g., "grp:alt_shift_toggle,ctrl:nocaps")
    pub options: Option<String>,
    /// Key repeat delay in milliseconds
    pub repeat_delay: i32,
    /// Key repeat rate in milliseconds
    pub repeat_rate: i32,
}

pub fn default_repeat_delay() -> (r: i32)
    ensures
        r == 200,
{
    200
}

pub fn default_repeat_rate() -> (r: i32)
    ensures
        r == 25,
{
    25
}

pub fn default_gap() -> (r: i32)
    ensures
        r == 8,
{
    8
}

pub fn default_margin() -> (r: i32)
    ensures
        r == 8,
{
    8
}

pub fn default_true() -> (r: bool)
    ensures
        r,
{
    true
}

impl Default for KeyboardConfig {
    fn default() -> (r: Self)
        ensures
            r.rules is None,
            r.model is None,
            r.layout is None,
            r.variant is None,
            r.options is None,
            r.repeat_delay == 200,
            r.repeat_rate == 25,
    {
        KeyboardConfig {
            rules: None,
            model: None,
            layout: None,
            variant: None,
            options: None,
            repeat_delay: default_repeat_delay(),
            repeat_rate: default_repeat_rate(),
        }
    }
}

impl Default for GeneralConfig {
    fn default() -> (r: Self)
        ensures
            r.gap == 8,
            r.margin == 8,
    {
        GeneralConfig { gap: default_gap(), margin: default_margin() }
    }
}

/// Which modifier key a name denotes.
#[derive(Debug, Clone, Copy, PartialEq, Eq, Structural)]
pub enum ModifierKey {
    Logo,
    Ctrl,
    Alt,
    Shift,
}

/// The state of the modifier keys.
#[derive(Debug, Clone, Copy, PartialEq, Eq, Structural, Hash)]
pub struct Modifiers {
    pub ctrl: bool,
    pub alt: bool,
    pub shift: bool,
    /// Super/Meta key
    pub logo: bool,
}

impl Default for Modifiers {
    fn default() -> (r: Self)
        ensures
            r == Modifiers::none(),
    {
        Modifiers { ctrl: false, alt: false, shift: false, logo: false }
    }
}

impl Modifiers {
    /// No modifier held.
    pub open spec fn none() -> Modifiers {
        Modifiers { ctrl: false, alt: false, shift: false, logo: false }
    }

    /// These modifiers with `k` held as well.
    pub open spec fn with(self, k: ModifierKey) -> Modifiers {
        match k {
            ModifierKey::Logo => Modifiers { logo: true, ..self },
            ModifierKey::Ctrl => Modifiers { ctrl: true, ..self },
            ModifierKey::Alt => Modifiers { alt: true, ..self },
            ModifierKey::Shift => Modifiers { shift: true, ..self },
        }
    }
}

/// A part of a keybinding names a modifier when it equals one of the
/// modifier names below up to ASCII letter case. (Lower-casing a part by
/// the full Unicode rules gives one of these names exactly when ASCII case
/// folding does: no non-ASCII character lower-cases to one of their letters.)
pub open spec fn modifier_named(part: Seq<char>) -> Option<ModifierKey> {
    if is_name(part, seq!['s', 'u', 'p', 'e', 'r']) || is_name(part, seq!['l', 'o', 'g', 'o'])
        || is_name(part, seq!['m', 'e', 't', 'a']) || is_name(part, seq!['m', 'o', 'd', '4']) {
        Some(ModifierKey::Logo)
    } else if is_name(part, seq!['c', 't', 'r', 'l']) || is_name(
        part,
        seq!['c', 'o', 'n', 't', 'r', 'o', 'l'],
    ) {
        Some(ModifierKey::Ctrl)
    } else if is_name(part, seq!['a', 'l', 't']) || is_name(part, seq!['m', 'o', 'd', '1']) {
        Some(ModifierKey::Alt)
    } else if is_name(part, seq!['s', 'h', 'i', 'f', 't']) {
        Some(ModifierKey::Shift)
    } else {
        None
    }
}

/// `part` equals the lower-case `name` up to ASCII letter case.
pub open spec fn is_name(part: Seq<char>, name: Seq<char>) -> bool {
    &&& part.len() == name.len()
    &&& forall|i: int| 0 <= i < part.len() ==> ascii_lower(#[trigger] part[i]) == name[i]
}

/// Index of the first '+' at or after `from`, or -1 when there is none.
pub open spec fn next_plus(s: Seq<char>, from: int) -> int
    decreases s.len() - from,
{
    if from < 0 || from >= s.len() {
        -1
    } else if s[from] == '+' {
        from
    } else {
        next_plus(s, from + 1)
    }
}

/// Reading a keybinding from `from` on: each '+'-terminated part that names
/// a modifier adds that modifier; the first part that is not followed by
/// '+' or does not name a modifier starts the key. Gives the modifiers and
/// where the key starts.
pub open spec fn parse_from(s: Seq<char>, from: int, mods: Modifiers) -> (Modifiers, int)
    decreases s.len() - from,
{
    let j = next_plus(s, from);
    if from < 0 || j < from || j >= s.len() {
        (mods, from)
    } else {
        match modifier_named(s.subrange(from, j)) {
            Some(k) => parse_from(s, j + 1, mods.with(k)),
            None => (mods, from),
        }
    }
}

/// The keybinding a string denotes: its modifiers and its key, or none when
/// the key is empty.
pub open spec fn spec_parse(s: Seq<char>) -> Option<(Modifiers, Seq<char>)> {
    let (m, k) = parse_from(s, 0, Modifiers::none());
    if k >= s.len() {
        None
    } else {
        Some((m, s.subrange(k, s.len() as int)))
    }
}

proof fn lemma_next_plus(s: Seq<char>, from: int)
    requires
        0 <= from,
    ensures
        next_plus(s, from) == -1 || (from <= next_plus(s, from) < s.len() && s[next_plus(
            s,
            from,
        )] == '+'),
        next_plus(s, from) == -1 ==> forall|k: int| from <= k < s.len() ==> s[k] != '+',
        next_plus(s, from) >= 0 ==> forall|k: int| from <= k < next_plus(s, from) ==> s[k]
            != '+',
    decreases s.len() - from,
{
    if from < s.len() && s[from] != '+' {
        lemma_next_plus(s, from + 1);
    }
}

/// A modifier name holds no '+'.
proof fn lemma_modifier_name_has_no_plus(part: Seq<char>)
    requires
        modifier_named(part) is Some,
    ensures
        forall|i: int| 0 <= i < part.len() ==> part[i] != '+',
{
    assert forall|i: int| 0 <= i < part.len() implies part[i] != '+' by {
        if part[i] == '+' {
            assert(ascii_lower(part[i]) == '+');
            let names = seq![
                seq!['s', 'u', 'p', 'e', 'r'],
                seq!['l', 'o', 'g', 'o'],
                seq!['m', 'e', 't', 'a'],
                seq!['m', 'o', 'd', '4'],
                seq!['c', 't', 'r', 'l'],
                seq!['c', 'o', 'n', 't', 'r', 'o', 'l'],
                seq!['a', 'l', 't'],
                seq!['m', 'o', 'd', '1'],
                seq!['s', 'h', 'i', 'f', 't'],
            ];
            assert forall|n: int| 0 <= n < 9 implies !is_name(part, #[trigger] names[n]) by {
                let name = names[n];
                if is_name(part, name) {
                    assert(name[i] == '+');
                    assert(0 <= i < name.len());
                    assert(false);
                }
            }
            assert(!is_name(part, names[0]));
            assert(!is_name(part, names[1]));
            assert(!is_name(part, names[2]));
            assert(!is_name(part, names[3]));
            assert(!is_name(part, names[4]));
            assert(!is_name(part, names[5]));
            assert(!is_name(part, names[6]));
            assert(!is_name(part, names[7]));
            assert(!is_name(part, names[8]));
        }
    }
}

/// Holding a modifier twice is holding it once, and the order in which
/// modifiers are added does not matter.
pub proof fn lemma_with_commutes(m: Modifiers, x: ModifierKey, y: ModifierKey)
    ensures
        m.with(x).with(y) == m.with(y).with(x),
        m.with(x).with(x) == m.with(x),
{
}

/// Reading one modifier name `a` followed by '+' from `from` on.
proof fn lemma_parse_one(s: Seq<char>, from: int, a: Seq<char>, mods: Modifiers)
    requires
        0 <= from,
        from + a.len() < s.len(),
        s.subrange(from, from + a.len()) == a,
        s[from + a.len()] == '+',
        modifier_named(a) is Some,
    ensures
        parse_from(s, from, mods) == parse_from(
            s,
            from + a.len() + 1,
            mods.with(modifier_named(a)->0),
        ),
{
    lemma_modifier_name_has_no_plus(a);
    let p = from + a.len();
    assert forall|k: int| from <= k < p implies s[k] != '+' by {
        assert(s[k] == a[k - from]);
    }
    lemma_next_plus(s, from);
    let j = next_plus(s, from);
    if j == -1 {
        assert(s[p] != '+');
    } else if j < p {
        assert(s[j] != '+');
    } else if j > p {
        assert(s[p] != '+');
    }
    assert(j == p);
}

/// What a keybinding denotes does not depend on the order or repetition of
/// its modifiers: "a+b+key" means the same as "b+a+key", "a+a+key" the same
/// as "a+key", and "a+key" holds the modifier `a` names and the key `key`
/// (for modifier names `a`, `b` and a non-empty key without '+').
pub proof fn lemma_parse_modifier_order(a: Seq<char>, b: Seq<char>, key: Seq<char>)
    requires
        modifier_named(a) is Some,
        modifier_named(b) is Some,
        key.len() > 0,
        forall|i: int| 0 <= i < key.len() ==> key[i] != '+',
    ensures
        spec_parse(a + seq!['+'] + b + seq!['+'] + key) == spec_parse(
            b + seq!['+'] + a + seq!['+'] + key,
        ),
        spec_parse(a + seq!['+'] + a + seq!['+'] + key) == spec_parse(a + seq!['+'] + key),
        spec_parse(a + seq!['+'] + key) == Some(
            (Modifiers::none().with(modifier_named(a)->0), key),
        ),
{
    let ka = modifier_named(a)->0;
    let kb = modifier_named(b)->0;
    let none = Modifiers::none();
    assert forall|x: Seq<char>, y: Seq<char>|
        modifier_named(x) is Some && modifier_named(y) is Some implies spec_parse(
        #[trigger] (x + seq!['+'] + y + seq!['+'] + key)) == Some(
        (none.with(modifier_named(x)->0).with(modifier_named(y)->0), key),
    ) by {
        let s = x + seq!['+'] + y + seq!['+'] + key;
        let xl = x.len() as int;
        let yl = y.len() as int;
        let e = xl + yl + 2;
        assert(s.subrange(0, xl) =~= x);
        assert(s[xl] == '+');
        lemma_parse_one(s, 0, x, none);
        assert(s.subrange(xl + 1, xl + 1 + yl) =~= y);
        assert(s[xl + 1 + yl] == '+');
        lemma_parse_one(s, xl + 1, y, none.with(modifier_named(x)->0));
        assert forall|k: int| e <= k < s.len() implies s[k] != '+' by {
            assert(s[k] == key[k - e]);
        }
        lemma_next_plus(s, e);
        assert(s.subrange(e, s.len() as int) =~= key);
    }
    let s1 = a + seq!['+'] + key;
    let e1 = a.len() as int + 1;
    assert(s1.subrange(0, a.len() as int) =~= a);
    assert(s1[a.len() as int] == '+');
    lemma_parse_one(s1, 0, a, none);
    assert forall|k: int| e1 <= k < s1.len() implies s1[k] != '+' by {
        assert(s1[k] == key[k - e1]);
    }
    lemma_next_plus(s1, e1);
    assert(s1.subrange(e1, s1.len() as int) =~= key);
    assert(spec_parse(a + seq!['+'] + b + seq!['+'] + key) == Some(
        (none.with(ka).with(kb), key),
    ));
    assert(spec_parse(b + seq!['+'] + a + seq!['+'] + key) == Some(
        (none.with(kb).with(ka), key),
    ));
    assert(spec_parse(a + seq!['+'] + a + seq!['+'] + key) == Some(
        (none.with(ka).with(ka), key),
    ));
    lemma_with_commutes(none, ka, kb);
}

/// Parsed keybind for efficient matching
#[derive(Debug, PartialEq, Eq, Hash)]
pub struct ParsedKeybind {
    pub modifiers: Modifiers,
    pub key: String,
}

impl Clone for ParsedKeybind {
    fn clone(&self) -> (r: Self)
        ensures
            r == *self,
    {
        ParsedKeybind { modifiers: self.modifiers, key: self.key.clone() }
    }
}

/// Whether the characters `cs[from..to]` equal the lower-case `name` up to
/// ASCII letter case.
fn part_is_name(cs: &Vec<char>, from: usize, to: usize, name: &[char]) -> (r: bool)
    requires
        from <= to <= cs@.len(),
    ensures
        r == is_name(cs@.subrange(from as int, to as int), name@),
{
    if to - from != name.len() {
        return false;
    }
    let mut i: usize = 0;
    while i < name.len()
        invariant
            from <= to <= cs@.len(),
            to - from == name@.len(),
            0 <= i <= name@.len(),
            forall|k: int| 0 <= k < i ==> ascii_lower(#[trigger] cs@[from + k]) == name@[k],
        decreases name@.len() - i,
    {
        if to_ascii_lower(cs[from + i]) != name[i] {
            proof {
                let part = cs@.subrange(from as int, to as int);
                assert(part[i as int] == cs@[from + i]);
            }
            return false;
        }
        i = i + 1;
    }
    proof {
        let part = cs@.subrange(from as int, to as int);
        assert forall|k: int| 0 <= k < part.len() implies ascii_lower(#[trigger] part[k])
            == name@[k] by {
            assert(part[k] == cs@[from + k]);
        }
    }
    true
}

/// The modifier that `cs[from..to]` names, if any.
fn modifier_of(cs: &Vec<char>, from: usize, to: usize) -> (r: Option<ModifierKey>)
    requires
        from <= to <= cs@.len(),
    ensures
        r == modifier_named(cs@.subrange(from as int, to as int)),
{
    let sup: [char; 5] = ['s', 'u', 'p', 'e', 'r'];
    let logo: [char; 4] = ['l', 'o', 'g', 'o'];
    let meta: [char; 4] = ['m', 'e', 't', 'a'];
    let mod4: [char; 4] = ['m', 'o', 'd', '4'];
    let ctrl: [char; 4] = ['c', 't', 'r', 'l'];
    let control: [char; 7] = ['c', 'o', 'n', 't', 'r', 'o', 'l'];
    let alt: [char; 3] = ['a', 'l', 't'];
    let mod1: [char; 4] = ['m', 'o', 'd', '1'];
    let shift: [char; 5] = ['s', 'h', 'i', 'f', 't'];
    proof {
        assert(sup@ =~= seq!['s', 'u', 'p', 'e', 'r']);
        assert(logo@ =~= seq!['l', 'o', 'g', 'o']);
        assert(meta@ =~= seq!['m', 'e', 't', 'a']);
        assert(mod4@ =~= seq!['m', 'o', 'd', '4']);
        assert(ctrl@ =~= seq!['c', 't', 'r', 'l']);
        assert(control@ =~= seq!['c', 'o', 'n', 't', 'r', 'o', 'l']);
        assert(alt@ =~= seq!['a', 'l', 't']);
        assert(mod1@ =~= seq!['m', 'o', 'd', '1']);
        assert(shift@ =~= seq!['s', 'h', 'i', 'f', 't']);
    }
    if part_is_name(cs, from, to, &sup) || part_is_name(cs, from, to, &logo) || part_is_name(
        cs,
        from,
        to,
        &meta,
    ) || part_is_name(cs, from, to, &mod4) {
        Some(ModifierKey::Logo)
    } else if part_is_name(cs, from, to, &ctrl) || part_is_name(cs, from, to, &control) {
        Some(ModifierKey::Ctrl)
    } else if part_is_name(cs, from, to, &alt) || part_is_name(cs, from, to, &mod1) {
        Some(ModifierKey::Alt)
    } else if part_is_name(cs, from, to, &shift) {
        Some(ModifierKey::Shift)
    } else {
        None
    }
}

impl ParsedKeybind {
    /// Parse a keybind string like "Super+Ctrl+t": the parts before the last
    /// '+' are modifier names (Super, Logo, Meta, Mod4; Ctrl, Control; Alt,
    /// Mod1; Shift, in any letter case); from the first part that is not a
    /// modifier name, or else the last part, the rest of the string is the
    /// key. `None` when the key is empty.
    pub fn parse(s: &str) -> (r: Option<Self>)
        ensures
            r is Some == spec_parse(s@) is Some,
            r matches Some(kb) ==> kb.modifiers == (spec_parse(s@)->0).0 && kb.key@ == (spec_parse(
                s@,
            )->0).1,
    {
        let cs = chars_of(s);
        let n: usize = cs.len();
        let mut modifiers = Modifiers { ctrl: false, alt: false, shift: false, logo: false };
        let mut start: usize = 0;
        loop
            invariant
                n == cs@.len(),
                cs@ == s@,
                0 <= start <= n,
                parse_from(s@, 0, Modifiers::none()) == parse_from(s@, start as int, modifiers),
            ensures
                0 <= start <= n,
                parse_from(s@, 0, Modifiers::none()) == (modifiers, start as int),
            decreases n - start,
        {
            // Find the end of this part
            proof {
                lemma_next_plus(s@, start as int);
            }
            let mut j: usize = start;
            while j < n && cs[j] != '+'
                invariant
                    n == cs@.len(),
                    cs@ == s@,
                    start <= j <= n,
                    forall|k: int| start <= k < j ==> cs@[k] != '+',
                decreases n - j,
            {
                j = j + 1;
            }
            if j >= n {
                // Last part is the key
                proof {
                    if next_plus(s@, start as int) >= 0 {
                        assert(cs@[next_plus(s@, start as int)] != '+');
                    }
                }
                break ;
            }
            proof {
                if next_plus(s@, start as int) != j as int {
                    if next_plus(s@, start as int) >= 0 && next_plus(s@, start as int) < j {
                        assert(cs@[next_plus(s@, start as int)] != '+');
                    }
                }
                assert(next_plus(s@, start as int) == j as int);
            }
            match modifier_of(&cs, start, j) {
                Some(ModifierKey::Logo) => {
                    modifiers.logo = true;
                },
                Some(ModifierKey::Ctrl) => {
                    modifiers.ctrl = true;
                },
                Some(ModifierKey::Alt) => {
                    modifiers.alt = true;
                },
                Some(ModifierKey::Shift) => {
                    modifiers.shift = true;
                },
                None => {
                    // Unknown modifier: it is part of the key name
                    break ;
                },
            }
            start = j + 1;
        }
        if start >= n {
            return None;
        }
        let key = String::from_str(s.substring_char(start, n));
        Some(ParsedKeybind { modifiers, key })
    }
}

/// Action to perform when a keybind is triggered
#[derive(Debug, PartialEq, Eq)]
pub enum KeyAction {
    /// Spawn a command
    Spawn { command: String },
    /// Close the focused window
    Close,
    /// Focus the next window
    FocusNext,
    /// Focus the previous window
    FocusPrev,
    /// Scroll the view left
    ScrollLeft,
    /// Scroll the view right
    ScrollRight,
    /// Toggle fullscreen for focused window
    Fullscreen,
    /// Quit the compositor
    Quit,
    /// Switch to a specific workspace (1-indexed for user convenience)
    SwitchToWorkspace { workspace: usize },
    /// Switch to the next workspace
    NextWorkspace,
    /// Switch to the previous workspace
    PrevWorkspace,
    /// Move focused window to a specific workspace (1-indexed)
    MoveToWorkspace { workspace: usize },
    /// Create a new workspace
    NewWorkspace,
}

impl Clone for KeyAction {
    fn clone(&self) -> (r: Self)
        ensures
            r == *self,
    {
        match self {
            KeyAction::Spawn { command } => KeyAction::Spawn { command: command.clone() },
            KeyAction::Close => KeyAction::Close,
            KeyAction::FocusNext => KeyAction::FocusNext,
            KeyAction::FocusPrev => KeyAction::FocusPrev,
            KeyAction::ScrollLeft => KeyAction::ScrollLeft,
            KeyAction::ScrollRight => KeyAction::ScrollRight,
            KeyAction::Fullscreen => KeyAction::Fullscreen,
            KeyAction::Quit => KeyAction::Quit,
            KeyAction::SwitchToWorkspace { workspace } => KeyAction::SwitchToWorkspace {
                workspace: *workspace,
            },
            KeyAction::NextWorkspace => KeyAction::NextWorkspace,
            KeyAction::PrevWorkspace => KeyAction::PrevWorkspace,
            KeyAction::MoveToWorkspace { workspace } => KeyAction::MoveToWorkspace {
                workspace: *workspace,
            },
            KeyAction::NewWorkspace => KeyAction::NewWorkspace,
        }
    }
}

/// A keybinding: the string that names the keys and the action it triggers.
#[derive(Debug)]
pub struct Keybind {
    pub keys: String,
    pub action: KeyAction,
}

impl Clone for Keybind {
    fn clone(&self) -> (r: Self)
        ensures
            r == *self,
    {
        Keybind { keys: self.keys.clone(), action: self.action.clone() }
    }
}

/// Whether a keybinding string denotes the pressed `mods` and `key`: its
/// modifiers are exactly `mods` and its key equals `key` up to ASCII case.
pub open spec fn binding_matches(keys: Seq<char>, mods: Modifiers, key: Seq<char>) -> bool {
    spec_parse(keys) matches Some(p) && p.0 == mods && eq_ignore_ascii_case_spec(p.1, key)
}

/// The action of the first binding in `binds` that matches.
pub open spec fn first_match(binds: Seq<Keybind>, mods: Modifiers, key: Seq<char>) -> Option<
    KeyAction,
>
    decreases binds.len(),
{
    if binds.len() == 0 {
        None
    } else if binding_matches(binds[0].keys@, mods, key) {
        Some(binds[0].action)
    } else {
        first_match(binds.drop_first(), mods, key)
    }
}

/// The action bound to the pressed modifiers and key, if any: the first
/// binding whose modifiers are exactly those held and whose key name equals
/// the pressed key's name up to ASCII case.
pub fn find_keybind_action(binds: &Vec<Keybind>, mods: Modifiers, key_name: &str) -> (r: Option<
    KeyAction,
>)
    ensures
        r == first_match(binds@, mods, key_name@),
{
    let key_chars = chars_of(key_name);
    let mut i: usize = 0;
    assert(binds@.skip(0) =~= binds@);
    while i < binds.len()
        invariant
            0 <= i <= binds@.len(),
            key_chars@ == key_name@,
            first_match(binds@, mods, key_name@) == first_match(binds@.skip(i as int), mods, key_name@),
        decreases binds@.len() - i,
    {
        let ghost rest = binds@.skip(i as int);
        assert(rest[0] == binds@[i as int]);
        assert(rest.drop_first() =~= binds@.skip(i + 1));
        if let Some(parsed) = ParsedKeybind::parse(binds[i].keys.as_str()) {
            let parsed_chars = chars_of(parsed.key.as_str());
            if parsed.modifiers == mods && crate::text::eq_ignore_ascii_case(
                &parsed_chars,
                &key_chars,
            ) {
                return Some(binds[i].action.clone());
            }
        }
        i = i + 1;
    }
    None
}

/// A non-negative decimal number, `digits / 10^scale`, as written in the
/// configuration file.
#[derive(Debug, Clone, Copy, PartialEq, Eq, Structural)]
pub struct Decimal {
    pub digits: u64,
    pub scale: u32,
}

impl Decimal {
    pub open spec fn valid(self) -> bool {
        self.scale <= 19
    }

    /// The number as the fraction `digits / 10^scale`.
    pub fn to_ratio(&self) -> (r: WidthRatio)
        requires
            self.valid(),
        ensures
            r.num == self.digits,
            r.den == pow10(self.scale as nat),
    {
        WidthRatio { num: self.digits, den: pow10_u64(self.scale) }
    }
}

/// Tiling configuration
#[derive(Debug, Clone, Copy, PartialEq, Eq, Structural)]
pub struct TilingConfig {
    /// Default window width as a fraction of the screen (0.0 - 1.0)
    pub default_window_width: Decimal,
    /// Enable scrolling tiling (niri-style)
    pub scrolling: bool,
}

/// One half, the default window width.
pub fn default_window_width() -> (r: Decimal)
    ensures
        r == (Decimal { digits: 5, scale: 1 }),
{
    Decimal { digits: 5, scale: 1 }
}

impl Default for TilingConfig {
    fn default() -> (r: Self)
        ensures
            r.default_window_width == (Decimal { digits: 5, scale: 1 }),
            r.scrolling,
    {
        TilingConfig { default_window_width: default_window_width(), scrolling: true }
    }
}

/// Output/monitor configuration
#[derive(Debug)]
pub struct OutputConfig {
    /// Output name (e.g., "HDMI-A-1", "eDP-1", "DP-1")
    pub name: String,
    /// X position in pixels (optional, auto-arranged if not specified)
    pub x: Option<i32>,
    /// Y position in pixels (optional, auto-arranged if not specified)
    pub y: Option<i32>,
    /// Output scale factor (e.g., 1.0, 1.5, 2.0)
    pub scale: Option<Decimal>,
    /// Transform/rotation: "normal", "90", "180", "270", "flipped", "flipped-90", etc.
    pub transform: Option<String>,
    /// Preferred mode (e.g., "1920x1080@60" or "preferred")
    pub mode: Option<String>,
    /// Whether this output is enabled
    pub enabled: bool,
}

impl Default for OutputConfig {
    fn default() -> (r: Self)
        ensures
            r.name@ == Seq::<char>::empty(),
            r.x is None,
            r.y is None,
            r.scale is None,
            r.transform is None,
            r.mode is None,
            r.enabled,
    {
        OutputConfig {
            name: String::new(),
            x: None,
            y: None,
            scale: None,
            transform: None,
            mode: None,
            enabled: true,
        }
    }
}

/// Main configuration
#[derive(Debug)]
pub struct Config {
    /// General settings
    pub general: GeneralConfig,
    pub keyboard: KeyboardConfig,
    /// Tiling configuration
    pub tiling: TilingConfig,
    /// Output/monitor configuration
    pub outputs: Vec<OutputConfig>,
    /// Keybindings, each key string at most once (`keys_distinct`, which
    /// `insert_keybind` keeps)
    pub keybinds: Vec<Keybind>,
    /// Commands to run on startup
    pub on_start: Vec<String>,
}

/// `a` spawns `cmd`.
pub open spec fn is_spawn(a: KeyAction, cmd: Seq<char>) -> bool {
    a matches KeyAction::Spawn { command } && command@ == cmd
}

/// The bindings of the default configuration, in this order.
pub open spec fn is_default_keybinds(b: Seq<Keybind>) -> bool {
    &&& b.len() == 31
    &&& b[0].keys@ == "Super+Ctrl+Return"@ && is_spawn(b[0].action, "alacritty"@)
    &&& b[1].keys@ == "Super+Ctrl+t"@ && is_spawn(b[1].action, "alacritty"@)
    &&& b[2].keys@ == "Super+Ctrl+d"@ && is_spawn(b[2].action, "wofi --show drun"@)
    &&& b[3].keys@ == "Super+Ctrl+q"@ && b[3].action is Close
    &&& b[4].keys@ == "Super+Ctrl+h"@ && b[4].action is FocusPrev
    &&& b[5].keys@ == "Super+Ctrl+l"@ && b[5].action is FocusNext
    &&& b[6].keys@ == "Super+Ctrl+Left"@ && b[6].action is ScrollLeft
    &&& b[7].keys@ == "Super+Ctrl+Right"@ && b[7].action is ScrollRight
    &&& b[8].keys@ == "Super+Ctrl+f"@ && b[8].action is Fullscreen
    &&& b[9].keys@ == "Super+Ctrl+Shift+e"@ && b[9].action is Quit
    &&& forall|i: int|
        1 <= i <= 9 ==> {
            &&& (#[trigger] b[9 + i]).keys@ == "Super+Ctrl+"@ + nat_text(i as nat)
            &&& b[9 + i].action == KeyAction::SwitchToWorkspace { workspace: i as usize }
        }
    &&& forall|i: int|
        1 <= i <= 9 ==> {
            &&& (#[trigger] b[18 + i]).keys@ == "Super+Ctrl+Shift+"@ + nat_text(i as nat)
            &&& b[18 + i].action == KeyAction::MoveToWorkspace { workspace: i as usize }
        }
    &&& b[28].keys@ == "Super+Ctrl+Page_Up"@ && b[28].action is PrevWorkspace
    &&& b[29].keys@ == "Super+Ctrl+Page_Down"@ && b[29].action is NextWorkspace
    &&& b[30].keys@ == "Super+Ctrl+n"@ && b[30].action is NewWorkspace
}

/// No two bindings have the same key string.
pub open spec fn keys_distinct(b: Seq<Keybind>) -> bool {
    forall|i: int, j: int|
        0 <= i < j < b.len() ==> (#[trigger] b[i]).keys@ != (#[trigger] b[j]).keys@
}

/// Whether some binding in `b` has the key string `k`.
pub open spec fn has_keys(b: Seq<Keybind>, k: Seq<char>) -> bool {
    exists|i: int| 0 <= i < b.len() && (#[trigger] b[i]).keys@ == k
}

/// The place of the binding with key string `k` (meaningful when there is one).
pub open spec fn keys_index(b: Seq<Keybind>, k: Seq<char>) -> int {
    choose|i: int| 0 <= i < b.len() && (#[trigger] b[i]).keys@ == k
}

/// Bind `keys` to `action`, as a map insert does: a binding with the same
/// key string gets the new action in its place, otherwise the binding is
/// added at the end. Key strings stay distinct.
pub fn insert_keybind(binds: &mut Vec<Keybind>, keys: String, action: KeyAction)
    requires
        keys_distinct(old(binds)@),
    ensures
        keys_distinct(final(binds)@),
        has_keys(old(binds)@, keys@) ==> final(binds)@ == old(binds)@.update(
            keys_index(old(binds)@, keys@),
            Keybind { keys, action },
        ),
        !has_keys(old(binds)@, keys@) ==> final(binds)@ == old(binds)@.push(
            Keybind { keys, action },
        ),
{
    let ghost b0 = binds@;
    let ghost k = keys@;
    let mut i: usize = 0;
    while i < binds.len()
        invariant
            0 <= i <= binds@.len(),
            binds@ == b0,
            b0 == old(binds)@,
            keys_distinct(b0),
            keys@ == k,
            forall|j: int| 0 <= j < i ==> (#[trigger] b0[j]).keys@ != k,
        decreases binds@.len() - i,
    {
        if binds[i].keys == keys {
            proof {
                let c = keys_index(b0, k);
                assert(b0[i as int].keys@ == k);
                assert(has_keys(b0, k));
                assert(c == i) by {
                    if c != i as int {
                        if c < i {
                            assert(b0[c].keys@ != b0[i as int].keys@);
                        } else {
                            assert(b0[i as int].keys@ != b0[c].keys@);
                        }
                    }
                }
            }
            let ghost nb = Keybind { keys, action };
            binds.set(i, Keybind { keys, action });
            proof {
                assert(binds@ == b0.update(i as int, nb));
                assert forall|x: int, y: int|
                    0 <= x < y < binds@.len() implies (#[trigger] binds@[x]).keys@ != (
                    #[trigger] binds@[y]).keys@ by {
                    if x != i as int && y != i as int {
                        assert(b0[x].keys@ != b0[y].keys@);
                    } else if x == i as int {
                        assert(b0[x].keys@ != b0[y].keys@);
                    } else {
                        assert(b0[x].keys@ != b0[y].keys@);
                    }
                }
            }
            return;
        }
        i = i + 1;
    }
    binds.push(Keybind { keys, action });
    proof {
        assert(!has_keys(b0, k));
        assert forall|x: int, y: int|
            0 <= x < y < binds@.len() implies (#[trigger] binds@[x]).keys@ != (
            #[trigger] binds@[y]).keys@ by {
            if y < b0.len() {
                assert(b0[x].keys@ != b0[y].keys@);
            } else {
                assert(b0[x].keys@ != k);
            }
        }
    }
}

/// The value of a decimal digit from 1 to 9 (0 for any other character).
spec fn digit_value(c: char) -> int {
    if c == '1' {
        1
    } else if c == '2' {
        2
    } else if c == '3' {
        3
    } else if c == '4' {
        4
    } else if c == '5' {
        5
    } else if c == '6' {
        6
    } else if c == '7' {
        7
    } else if c == '8' {
        8
    } else if c == '9' {
        9
    } else {
        0
    }
}

/// The place of a key string among the default bindings, told apart by its
/// length and its last character.
spec fn default_slot(s: Seq<char>) -> int {
    let c = s.last();
    if s.len() == 17 {
        0
    } else if s.len() == 15 {
        6
    } else if s.len() == 16 {
        7
    } else if s.len() == 20 {
        29
    } else if s.len() == 12 {
        if c == 't' {
            1
        } else if c == 'd' {
            2
        } else if c == 'q' {
            3
        } else if c == 'h' {
            4
        } else if c == 'l' {
            5
        } else if c == 'f' {
            8
        } else if c == 'n' {
            30
        } else {
            9 + digit_value(c)
        }
    } else if c == 'e' {
        9
    } else if c == 'p' {
        28
    } else {
        18 + digit_value(c)
    }
}

/// The default bindings name each key string once.
pub proof fn lemma_default_keys_distinct(b: Seq<Keybind>)
    requires
        is_default_keybinds(b),
    ensures
        keys_distinct(b),
{
    reveal_strlit("Super+Ctrl+Return");
    reveal_strlit("Super+Ctrl+t");
    reveal_strlit("Super+Ctrl+d");
    reveal_strlit("Super+Ctrl+q");
    reveal_strlit("Super+Ctrl+h");
    reveal_strlit("Super+Ctrl+l");
    reveal_strlit("Super+Ctrl+Left");
    reveal_strlit("Super+Ctrl+Right");
    reveal_strlit("Super+Ctrl+f");
    reveal_strlit("Super+Ctrl+Shift+e");
    reveal_strlit("Super+Ctrl+Page_Up");
    reveal_strlit("Super+Ctrl+Page_Down");
    reveal_strlit("Super+Ctrl+n");
    reveal_strlit("Super+Ctrl+");
    reveal_strlit("Super+Ctrl+Shift+");
    assert forall|k: int| 0 <= k < 31 implies default_slot((#[trigger] b[k]).keys@) == k by {
        if 10 <= k < 19 {
            let d = k - 9;
            assert(b[9 + d].keys@ == "Super+Ctrl+"@ + nat_text(d as nat));
            assert(nat_text(d as nat) == seq![digit_char(d)]);
        } else if 19 <= k < 28 {
            let d = k - 18;
            assert(b[18 + d].keys@ == "Super+Ctrl+Shift+"@ + nat_text(d as nat));
            assert(nat_text(d as nat) == seq![digit_char(d)]);
        }
    }
    assert forall|i: int, j: int| 0 <= i < j < b.len() implies (#[trigger] b[i]).keys@ != (
    #[trigger] b[j]).keys@ by {
        assert(default_slot(b[i].keys@) == i);
        assert(default_slot(b[j].keys@) == j);
    }
}

fn bind(keys: &str, action: KeyAction) -> (r: Keybind)
    ensures
        r.keys@ == keys@,
        r.action == action,
{
    Keybind { keys: String::from_str(keys), action }
}

fn spawn(command: &str) -> (r: KeyAction)
    ensures
        is_spawn(r, command@),
{
    KeyAction::Spawn { command: String::from_str(command) }
}

impl Default for Config {
    fn default() -> (r: Self)
        ensures
            r.general == (GeneralConfig { gap: 8, margin: 8 }),
            r.keyboard.rules is None,
            r.keyboard.model is None,
            r.keyboard.layout is None,
            r.keyboard.variant is None,
            r.keyboard.options is None,
            r.keyboard.repeat_delay == 200,
            r.keyboard.repeat_rate == 25,
            r.tiling == (TilingConfig {
                default_window_width: Decimal { digits: 5, scale: 1 },
                scrolling: true,
            }),
            r.outputs@.len() == 0,
            is_default_keybinds(r.keybinds@),
            keys_distinct(r.keybinds@),
            r.on_start@.len() == 0,
    {
        let mut keybinds: Vec<Keybind> = Vec::new();
        // Use Super+Ctrl as base modifier for nested compositor compatibility
        keybinds.push(bind("Super+Ctrl+Return", spawn("alacritty")));
        keybinds.push(bind("Super+Ctrl+t", spawn("alacritty")));
        keybinds.push(bind("Super+Ctrl+d", spawn("wofi --show drun")));
        keybinds.push(bind("Super+Ctrl+q", KeyAction::Close));
        keybinds.push(bind("Super+Ctrl+h", KeyAction::FocusPrev));
        keybinds.push(bind("Super+Ctrl+l", KeyAction::FocusNext));
        keybinds.push(bind("Super+Ctrl+Left", KeyAction::ScrollLeft));
        keybinds.push(bind("Super+Ctrl+Right", KeyAction::ScrollRight));
        keybinds.push(bind("Super+Ctrl+f", KeyAction::Fullscreen));
        keybinds.push(bind("Super+Ctrl+Shift+e", KeyAction::Quit));
        let ghost first = keybinds@;
        // Workspace navigation (Super+Ctrl+1-9 to switch)
        let mut i: usize = 1;
        while i <= 9
            invariant
                1 <= i <= 10,
                keybinds@.len() == 9 + i,
                first.len() == 10,
                forall|k: int| 0 <= k < 10 ==> #[trigger] keybinds@[k] == first[k],
                forall|j: int|
                    1 <= j < i ==> {
                        &&& (#[trigger] keybinds@[9 + j]).keys@ == "Super+Ctrl+"@ + nat_text(
                            j as nat,
                        )
                        &&& keybinds@[9 + j].action == KeyAction::SwitchToWorkspace {
                            workspace: j as usize,
                        }
                    },
            decreases 10 - i,
        {
            let mut keys = String::from_str("Super+Ctrl+");
            let num = u64_to_text(i as u64);
            keys.append(num.as_str());
            keybinds.push(Keybind { keys, action: KeyAction::SwitchToWorkspace { workspace: i } });
            i = i + 1;
        }
        let ghost second = keybinds@;
        // Move window to workspace (Super+Ctrl+Shift+1-9)
        let mut i: usize = 1;
        while i <= 9
            invariant
                1 <= i <= 10,
                keybinds@.len() == 18 + i,
                second.len() == 19,
                forall|k: int| 0 <= k < 19 ==> #[trigger] keybinds@[k] == second[k],
                forall|j: int|
                    1 <= j < i ==> {
                        &&& (#[trigger] keybinds@[18 + j]).keys@ == "Super+Ctrl+Shift+"@
                            + nat_text(j as nat)
                        &&& keybinds@[18 + j].action == KeyAction::MoveToWorkspace {
                            workspace: j as usize,
                        }
                    },
            decreases 10 - i,
        {
            let mut keys = String::from_str("Super+Ctrl+Shift+");
            let num = u64_to_text(i as u64);
            keys.append(num.as_str());
            keybinds.push(Keybind { keys, action: KeyAction::MoveToWorkspace { workspace: i } });
            i = i + 1;
        }
        // Next/prev workspace with Page_Up/Page_Down
        keybinds.push(bind("Super+Ctrl+Page_Up", KeyAction::PrevWorkspace));
        keybinds.push(bind("Super+Ctrl+Page_Down", KeyAction::NextWorkspace));
        // Create new workspace
        keybinds.push(bind("Super+Ctrl+n", KeyAction::NewWorkspace));
        proof {
            let b = keybinds@;
            assert forall|j: int| 1 <= j <= 9 implies {
                &&& (#[trigger] b[9 + j]).keys@ == "Super+Ctrl+"@ + nat_text(j as nat)
                &&& b[9 + j].action == KeyAction::SwitchToWorkspace { workspace: j as usize }
            } by {
                assert(b[9 + j] == second[9 + j]);
            }
            lemma_default_keys_distinct(b);
        }
        Config {
            general: GeneralConfig::default(),
            keyboard: KeyboardConfig::default(),
            tiling: TilingConfig::default(),
            outputs: Vec::new(),  // Empty = auto-detect and auto-arrange
            keybinds,
            on_start: Vec::new(),
        }
    }
}

} // verus!
