use vstd::prelude::*;
use vstd::string::StrSliceExecFns;
use vstd::string::StringExecFns;

use crate::event::{InputEvent, EV_KEY, KEY_F12, KEY_D, BTN_MODE};
use crate::strutil::{
    contains_seq,
    str_contains,
    str_eq,
    find_char,
    spec_before_char,
    lemma_before_char_is_prefix,
};

verus! {

/// One event-remapping correction from a quirk profile.
#[derive(Debug, Copy, Clone, PartialEq, Eq, Structural)]
pub enum InputRemap {
    KeyToKey(u16, u16),
    KeyToAbs(u16, u16),
    KeyToQuickAccessMenu(u16),
}

impl InputRemap {
    /// The key code this rule rewrites.
    pub open spec fn source_code(self) -> u16 {
        match self {
            InputRemap::KeyToKey(from, _) => from,
            InputRemap::KeyToAbs(from, _) => from,
            InputRemap::KeyToQuickAccessMenu(from) => from,
        }
    }

    /// Whether this rule applies to the given event: the event is a key event
    /// and carries the rule's source code.
    pub open spec fn applies_to(self, ev: InputEvent) -> bool {
        ev.etype == EV_KEY && ev.code == self.source_code()
    }

    /// What applying this rule to a matching event yields: a button-to-button
    /// rule recodes the event, keeping its value; the unimplemented kinds
    /// yield nothing.
    pub open spec fn spec_apply(self, input: InputEvent) -> Option<InputEvent> {
        if self.applies_to(input) {
            match self {
                InputRemap::KeyToKey(_, to) => Some(
                    InputEvent { etype: EV_KEY, code: to, value: input.value },
                ),
                _ => None,
            }
        } else {
            None
        }
    }

    /// Apply this rule to one event. Axis and menu-action remaps are
    /// unimplemented terminals whose behaviour cannot be honoured; an event
    /// that reaches one is a hard stop for the caller, so such inputs are
    /// excluded here.
    pub fn apply_quirk(self, input: InputEvent) -> (r: Option<InputEvent>)
        requires
            self.applies_to(input) ==> self is KeyToKey,
        ensures
            r == self.spec_apply(input),
    {
        if input.is_key() {
            match self {
                InputRemap::KeyToKey(from, to) => {
                    if input.code == from {
                        Some(InputEvent { etype: EV_KEY, code: to, value: input.value })
                    } else {
                        None
                    }
                },
                _ => None,
            }
        } else {
            None
        }
    }
}

/// Field-by-field matching of a single quirk field: an empty pattern matches
/// anything; a relaxed pattern matches when either string contains the other;
/// otherwise the strings must be equal.
pub open spec fn spec_match_str(inp: Seq<char>, x: Seq<char>, relaxed: bool) -> bool {
    if inp.len() == 0 {
        true
    } else if relaxed {
        contains_seq(inp, x) || contains_seq(x, inp)
    } else {
        inp == x
    }
}

/// Whether the quirk pattern `inp` matches the identity value `x`.
pub fn match_str(inp: &str, x: &str, relaxed: bool) -> (r: bool)
    ensures
        r == spec_match_str(inp@, x@, relaxed),
{
    if inp.is_empty() {
        true
    } else if relaxed {
        str_contains(inp, x) || str_contains(x, inp)
    } else {
        str_eq(inp, x)
    }
}

/// Ghost image of a quirk profile.
#[verifier::ext_equal]
pub ghost struct QuirkView {
    pub board_vendor: Seq<char>,
    pub board_name: Seq<char>,
    pub product_vendor: Seq<char>,
    pub product_name: Seq<char>,
    pub relaxed_name: bool,
    pub relaxed_vendor: bool,
    pub phys_path: Seq<char>,
    pub remap_codes: Seq<InputRemap>,
}

/// A static correction record for one known hardware model: four identity
/// patterns, their match modes, a topology filter, and remap rules.
#[derive(Debug, Clone)]
pub struct DmiQuirk {
    pub board_vendor: String,
    pub board_name: String,
    pub product_vendor: String,
    pub product_name: String,
    pub relaxed_name: bool,
    pub relaxed_vendor: bool,
    pub phys_path: String,
    pub remap_codes: Vec<InputRemap>,
}

impl View for DmiQuirk {
    type V = QuirkView;

    open spec fn view(&self) -> QuirkView {
        QuirkView {
            board_vendor: self.board_vendor@,
            board_name: self.board_name@,
            product_vendor: self.product_vendor@,
            product_name: self.product_name@,
            relaxed_name: self.relaxed_name,
            relaxed_vendor: self.relaxed_vendor,
            phys_path: self.phys_path@,
            remap_codes: self.remap_codes@,
        }
    }
}

/// Ghost image of a hardware identity.
#[verifier::ext_equal]
pub ghost struct IdentityView {
    pub board_vendor: Seq<char>,
    pub board_name: Seq<char>,
    pub product_vendor: Seq<char>,
    pub product_name: Seq<char>,
}

/// The four hardware-identity values read from the host's description tree.
#[derive(Debug, Clone)]
pub struct DmiIdentity {
    pub board_vendor: String,
    pub board_name: String,
    pub product_vendor: String,
    pub product_name: String,
}

impl View for DmiIdentity {
    type V = IdentityView;

    open spec fn view(&self) -> IdentityView {
        IdentityView {
            board_vendor: self.board_vendor@,
            board_name: self.board_name@,
            product_vendor: self.product_vendor@,
            product_name: self.product_name@,
        }
    }
}

/// Whether a quirk profile matches an identity and a topology string: all four
/// identity patterns match in their configured mode, and a non-empty topology
/// filter occurs in the topology string.
pub open spec fn quirk_matches(q: QuirkView, id: IdentityView, topology: Seq<char>) -> bool {
    &&& spec_match_str(q.product_name, id.product_name, q.relaxed_name)
    &&& spec_match_str(q.product_vendor, id.product_vendor, q.relaxed_vendor)
    &&& spec_match_str(q.board_name, id.board_name, q.relaxed_name)
    &&& spec_match_str(q.board_vendor, id.board_vendor, q.relaxed_vendor)
    &&& (q.phys_path.len() == 0 || contains_seq(topology, q.phys_path))
}

/// First profile in declaration order that matches, if any.
pub open spec fn spec_find_quirk(
    quirks: Seq<QuirkView>,
    id: IdentityView,
    topology: Seq<char>,
) -> Option<QuirkView>
    decreases quirks.len(),
{
    if quirks.len() == 0 {
        None
    } else if quirk_matches(quirks[0], id, topology) {
        Some(quirks[0])
    } else {
        spec_find_quirk(quirks.skip(1), id, topology)
    }
}

/// Views of a sequence of quirk records.
pub open spec fn quirk_views(s: Seq<DmiQuirk>) -> Seq<QuirkView> {
    s.map_values(|q: DmiQuirk| q@)
}

/// Matching is order-sensitive: of any set of matching profiles, the earliest
/// declared one is returned, whatever matches after it.
pub proof fn lemma_first_match_wins(
    quirks: Seq<QuirkView>,
    id: IdentityView,
    topology: Seq<char>,
    i: int,
)
    requires
        0 <= i < quirks.len(),
        quirk_matches(quirks[i], id, topology),
        forall|j: int| 0 <= j < i ==> !quirk_matches(quirks[j], id, topology),
    ensures
        spec_find_quirk(quirks, id, topology) == Some(quirks[i]),
    decreases i,
{
    if i == 0 {
    } else {
        let rest = quirks.skip(1);
        assert forall|j: int| 0 <= j < i - 1 implies !quirk_matches(rest[j], id, topology) by {
            assert(rest[j] == quirks[j + 1]);
        }
        assert(rest[i - 1] == quirks[i]);
        lemma_first_match_wins(rest, id, topology, i - 1);
    }
}

/// First matching quirk of the given table, in declaration order.
pub fn find_quirk(quirks: Vec<DmiQuirk>, id: &DmiIdentity, topology: &str) -> (r: Option<
    DmiQuirk,
>)
    ensures
        match r {
            Some(q) => spec_find_quirk(quirk_views(quirks@), id@, topology@) == Some(q@),
            None => spec_find_quirk(quirk_views(quirks@), id@, topology@) is None,
        },
{
    let mut rest = quirks;
    loop
        invariant
            spec_find_quirk(quirk_views(quirks@), id@, topology@) == spec_find_quirk(
                quirk_views(rest@),
                id@,
                topology@,
            ),
        decreases rest@.len(),
    {
        if rest.len() == 0 {
            return None;
        }
        let ghost prev = rest@;
        let q = rest.remove(0);
        proof {
            assert(rest@ =~= prev.skip(1));
            assert(quirk_views(rest@) =~= quirk_views(prev).skip(1));
            assert(quirk_views(prev)[0] == q@);
        }
        let pn_match = match_str(q.product_name.as_str(), id.product_name.as_str(), q.relaxed_name);
        let pv_match = match_str(
            q.product_vendor.as_str(),
            id.product_vendor.as_str(),
            q.relaxed_vendor,
        );
        let bn_match = match_str(q.board_name.as_str(), id.board_name.as_str(), q.relaxed_name);
        let bv_match = match_str(q.board_vendor.as_str(), id.board_vendor.as_str(), q.relaxed_vendor);
        let topo_match = q.phys_path.as_str().is_empty() || str_contains(
            topology,
            q.phys_path.as_str(),
        );
        if pn_match && pv_match && bn_match && bv_match && topo_match {
            return Some(q);
        }
    }
}

/// The static table of known hardware profiles, as ghost values.
pub open spec fn spec_builtin_quirks() -> Seq<QuirkView> {
    seq![
        QuirkView {
            board_vendor: "AYANEO"@,
            board_name: "AIR"@,
            product_vendor: ""@,
            product_name: ""@,
            relaxed_name: true,
            relaxed_vendor: false,
            phys_path: ""@,
            remap_codes: seq![
                InputRemap::KeyToKey(KEY_F12, BTN_MODE),
                InputRemap::KeyToQuickAccessMenu(KEY_D),
            ],
        },
        QuirkView {
            board_vendor: "AYANEO"@,
            board_name: "NEXT"@,
            product_vendor: ""@,
            product_name: ""@,
            relaxed_name: true,
            relaxed_vendor: false,
            phys_path: ""@,
            remap_codes: seq![
                InputRemap::KeyToKey(KEY_F12, BTN_MODE),
                InputRemap::KeyToQuickAccessMenu(KEY_D),
            ],
        },
    ]
}

/// Build the static table of known hardware profiles.
pub fn builtin_quirks() -> (r: Vec<DmiQuirk>)
    ensures
        quirk_views(r@) == spec_builtin_quirks(),
{
    let mut remaps_air: Vec<InputRemap> = Vec::new();
    remaps_air.push(InputRemap::KeyToKey(KEY_F12, BTN_MODE));
    remaps_air.push(InputRemap::KeyToQuickAccessMenu(KEY_D));
    let mut remaps_next: Vec<InputRemap> = Vec::new();
    remaps_next.push(InputRemap::KeyToKey(KEY_F12, BTN_MODE));
    remaps_next.push(InputRemap::KeyToQuickAccessMenu(KEY_D));
    let air = DmiQuirk {
        board_vendor: String::from_str("AYANEO"),
        board_name: String::from_str("AIR"),
        product_vendor: String::from_str(""),
        product_name: String::from_str(""),
        relaxed_name: true,
        relaxed_vendor: false,
        phys_path: String::from_str(""),
        remap_codes: remaps_air,
    };
    let next = DmiQuirk {
        board_vendor: String::from_str("AYANEO"),
        board_name: String::from_str("NEXT"),
        product_vendor: String::from_str(""),
        product_name: String::from_str(""),
        relaxed_name: true,
        relaxed_vendor: false,
        phys_path: String::from_str(""),
        remap_codes: remaps_next,
    };
    let mut r: Vec<DmiQuirk> = Vec::new();
    r.push(air);
    r.push(next);
    proof {
        assert(r@[0]@.remap_codes =~= spec_builtin_quirks()[0].remap_codes);
        assert(r@[1]@.remap_codes =~= spec_builtin_quirks()[1].remap_codes);
        assert(r@[0]@ =~= spec_builtin_quirks()[0]);
        assert(r@[1]@ =~= spec_builtin_quirks()[1]);
        assert(quirk_views(r@) =~= spec_builtin_quirks());
    }
    r
}

/// First profile of the static table that matches the identity and topology,
/// in declaration order.
pub fn get_dmi_quirk(id: &DmiIdentity, topology: &str) -> (r: Option<DmiQuirk>)
    ensures
        match r {
            Some(q) => spec_find_quirk(spec_builtin_quirks(), id@, topology@) == Some(q@),
            None => spec_find_quirk(spec_builtin_quirks(), id@, topology@) is None,
        },
{
    let quirks = builtin_quirks();
    find_quirk(quirks, id, topology)
}

/// The characters of `s` before its first newline (all of `s` when it has none).
pub open spec fn spec_before_newline(s: Seq<char>) -> Seq<char> {
    spec_before_char(s, '\n')
}

/// `s` without a single trailing carriage return, if it ends in one.
pub open spec fn spec_strip_cr(s: Seq<char>) -> Seq<char> {
    if s.len() > 0 && s[s.len() - 1] == '\r' {
        s.take(s.len() - 1)
    } else {
        s
    }
}

/// The first line of a text value: the characters before the first newline,
/// without a trailing carriage return.
pub open spec fn spec_first_line(s: Seq<char>) -> Seq<char> {
    spec_strip_cr(spec_before_newline(s))
}

/// Sentinel value substituted when an identity field cannot be read.
pub open spec fn spec_read_failed() -> Seq<char> {
    "<failed to read>"@
}

/// One identity field from the raw text of its description file: the first
/// line of the text, or a sentinel when the file was unreadable or empty.
pub fn dmi_field_value(content: &Option<String>) -> (r: String)
    ensures
        match content {
            Some(s) => if s@.len() == 0 {
                r@ == spec_read_failed()
            } else {
                r@ == spec_first_line(s@)
            },
            None => r@ == spec_read_failed(),
        },
{
    match content {
        None => "<failed to read>".to_owned(),
        Some(s) => {
            let st = s.as_str();
            if st.is_empty() {
                return "<failed to read>".to_owned();
            }
            let cut = match find_char(st, '\n') {
                Some(i) => {
                    proof {
                        lemma_before_char_is_prefix(st@, '\n', i as int);
                    }
                    i
                },
                None => {
                    proof {
                        lemma_before_char_is_prefix(st@, '\n', st@.len() as int);
                        assert(st@.take(st@.len() as int) =~= st@);
                    }
                    st.unicode_len()
                },
            };
            let line = st.substring_char(0, cut);
            let llen = line.unicode_len();
            if llen > 0 && line.get_char(llen - 1) == '\r' {
                let stripped = line.substring_char(0, llen - 1);
                proof {
                    assert(stripped@ =~= spec_strip_cr(line@));
                }
                stripped.to_owned()
            } else {
                line.to_owned()
            }
        },
    }
}

} // verus!
