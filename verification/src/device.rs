use vstd::prelude::*;

use crate::event::{ABS_X, ABS_Y, BTN_SOUTH, BTN_THUMBL};
use crate::quirks_db::{DmiQuirk, InputRemap, QuirkView};

verus! {

/// Capability class of an input source: either a full gamepad with analog
/// sticks, or a pad limited to digital directions and face buttons.
#[derive(Debug, Copy, Clone, PartialEq, Eq, Structural)]
pub enum SourceCaps {
    FullX360,
    DpadAndAB,
}

/// The codes of an optional capability set, as reported by a device: `None`
/// when the set could not be queried at all.
pub open spec fn opt_codes(s: &Option<Vec<u16>>) -> Option<Seq<u16>> {
    match s {
        Some(v) => Some(v@),
        None => None,
    }
}

/// Whether a reported capability set declares the given code (an unqueryable
/// set declares nothing).
pub open spec fn opt_has_code(s: Option<Seq<u16>>, code: u16) -> bool {
    match s {
        Some(v) => v.contains(code),
        None => false,
    }
}

/// Whether a capability set holds the given code.
pub fn contains_code(v: &Vec<u16>, code: u16) -> (r: bool)
    ensures
        r == v@.contains(code),
{
    let mut i: usize = 0;
    while i < v.len()
        invariant
            i <= v@.len(),
            forall|j: int| 0 <= j < i ==> v@[j] != code,
        decreases v@.len() - i,
    {
        if v[i] == code {
            return true;
        }
        i = i + 1;
    }
    false
}

/// The capability class a device's declared button and axis sets yield:
/// a confirm button together with both planar absolute axes makes a full
/// gamepad; a missing confirm button or a missing axis degrades to the
/// directional class; a button set that cannot be queried at all is
/// optimistically treated as a full gamepad.
pub open spec fn spec_capabilities(keys: Option<Seq<u16>>, axes: Option<Seq<u16>>) -> SourceCaps {
    match keys {
        None => SourceCaps::FullX360,
        Some(ks) => if !ks.contains(BTN_SOUTH) {
            SourceCaps::DpadAndAB
        } else {
            match axes {
                None => SourceCaps::DpadAndAB,
                Some(axs) => if axs.contains(ABS_X) && axs.contains(ABS_Y) {
                    SourceCaps::FullX360
                } else {
                    SourceCaps::DpadAndAB
                },
            }
        },
    }
}

/// Classify a device by its declared button and axis code sets.
pub fn get_capabilities(keys: &Option<Vec<u16>>, axes: &Option<Vec<u16>>) -> (r: SourceCaps)
    ensures
        r == spec_capabilities(opt_codes(keys), opt_codes(axes)),
{
    match keys {
        None => SourceCaps::FullX360,
        Some(ks) => {
            if !contains_code(ks, BTN_SOUTH) {
                SourceCaps::DpadAndAB
            } else {
                match axes {
                    None => SourceCaps::DpadAndAB,
                    Some(axs) => {
                        if contains_code(axs, ABS_X) && contains_code(axs, ABS_Y) {
                            SourceCaps::FullX360
                        } else {
                            SourceCaps::DpadAndAB
                        }
                    },
                }
            }
        },
    }
}

/// Whether enumeration keeps a device: it must declare a confirm button or a
/// thumbstick click; a device lacking both is not a gamepad and is dropped.
pub fn is_gamepad(keys: &Option<Vec<u16>>) -> (r: bool)
    ensures
        r == (opt_has_code(opt_codes(keys), BTN_SOUTH) || opt_has_code(
            opt_codes(keys),
            BTN_THUMBL,
        )),
{
    match keys {
        None => false,
        Some(ks) => contains_code(ks, BTN_SOUTH) || contains_code(ks, BTN_THUMBL),
    }
}

/// The display name a source resolves to: the quirk override when one was
/// found, else the name the device reports, else a fixed fallback.
pub open spec fn spec_display_name(
    override_name: Option<Seq<char>>,
    device_name: Option<Seq<char>>,
) -> Seq<char> {
    match override_name {
        Some(n) => n,
        None => match device_name {
            Some(n) => n,
            None => "Linux event device"@,
        },
    }
}

/// View of an optional string.
pub open spec fn opt_str(s: &Option<String>) -> Option<Seq<char>> {
    match s {
        Some(v) => Some(v@),
        None => None,
    }
}

/// Resolve a source's display name from the quirk override and the name the
/// device reports.
pub fn resolve_display_name(override_name: &Option<String>, device_name: &Option<String>) -> (r:
    String)
    ensures
        r@ == spec_display_name(opt_str(override_name), opt_str(device_name)),
{
    match override_name {
        Some(n) => n.clone(),
        None => match device_name {
            Some(n) => n.clone(),
            None => "Linux event device".to_owned(),
        },
    }
}

/// Resolve a source's stable path from its reported physical path.
pub fn resolve_path(phys_path: &Option<String>) -> (r: String)
    ensures
        r@ == match opt_str(phys_path) {
            Some(p) => p,
            None => "Unknown"@,
        },
{
    match phys_path {
        Some(p) => p.clone(),
        None => "Unknown".to_owned(),
    }
}

/// One corrective quirk attached to an enumerated device: an event remap rule,
/// or a display-name override.
#[derive(Debug)]
pub enum EvdevQuirks {
    RemapCodes(InputRemap),
    OverrideName(String),
}

/// Ghost image of one attached quirk.
pub ghost enum QuirkItemView {
    Remap(InputRemap),
    Name(Seq<char>),
}

impl View for EvdevQuirks {
    type V = QuirkItemView;

    open spec fn view(&self) -> QuirkItemView {
        match self {
            EvdevQuirks::RemapCodes(v) => QuirkItemView::Remap(*v),
            EvdevQuirks::OverrideName(n) => QuirkItemView::Name(n@),
        }
    }
}

/// Views of a sequence of attached quirks.
pub open spec fn quirk_item_views(s: Seq<EvdevQuirks>) -> Seq<QuirkItemView> {
    s.map_values(|q: EvdevQuirks| q@)
}

/// The quirks attached to one device: a name override — the fixed built-in
/// name when a hardware profile matched, else the USB-derived name when one
/// could be computed, and only for devices with a physical path — followed by
/// the matched profile's remap rules.
pub open spec fn spec_device_quirks(
    dmi: Option<QuirkView>,
    has_phys: bool,
    usb_name: Option<Seq<char>>,
) -> Seq<QuirkItemView> {
    let name_part: Seq<QuirkItemView> = if has_phys {
        if dmi is Some {
            seq![QuirkItemView::Name("Built-in Controller"@)]
        } else {
            match usb_name {
                Some(n) => seq![QuirkItemView::Name(n)],
                None => Seq::empty(),
            }
        }
    } else {
        Seq::empty()
    };
    let remap_part: Seq<QuirkItemView> = match dmi {
        Some(q) => q.remap_codes.map_values(|v: InputRemap| QuirkItemView::Remap(v)),
        None => Seq::empty(),
    };
    name_part + remap_part
}

/// View of an optional quirk profile.
pub open spec fn opt_quirk(q: &Option<DmiQuirk>) -> Option<QuirkView> {
    match q {
        Some(v) => Some(v@),
        None => None,
    }
}

/// Collect the quirks for one device from the matched hardware profile (if
/// any), whether the device reports a physical path, and the USB-derived
/// display name (if one was computed).
pub fn get_device_quirks(
    dmi_quirk: &Option<DmiQuirk>,
    phys_path: &Option<String>,
    usb_name: &Option<String>,
) -> (r: Vec<EvdevQuirks>)
    ensures
        quirk_item_views(r@) == spec_device_quirks(
            opt_quirk(dmi_quirk),
            phys_path is Some,
            opt_str(usb_name),
        ),
{
    let ghost spec_result = spec_device_quirks(
        opt_quirk(dmi_quirk),
        phys_path is Some,
        opt_str(usb_name),
    );
    let mut ret: Vec<EvdevQuirks> = Vec::new();
    if phys_path.is_some() {
        if dmi_quirk.is_some() {
            ret.push(EvdevQuirks::OverrideName("Built-in Controller".to_owned()));
        } else {
            match usb_name {
                Some(name) => {
                    ret.push(EvdevQuirks::OverrideName(name.clone()));
                },
                None => {},
            }
        }
    }
    let ghost name_part = quirk_item_views(ret@);
    match dmi_quirk {
        Some(quirk) => {
            let mut i: usize = 0;
            while i < quirk.remap_codes.len()
                invariant
                    i <= quirk.remap_codes@.len(),
                    quirk_item_views(ret@) =~= name_part + quirk.remap_codes@.take(
                        i as int,
                    ).map_values(|v: InputRemap| QuirkItemView::Remap(v)),
                decreases quirk.remap_codes@.len() - i,
            {
                let ghost prev = ret@;
                ret.push(EvdevQuirks::RemapCodes(quirk.remap_codes[i]));
                proof {
                    assert(quirk_item_views(ret@) =~= quirk_item_views(prev).push(
                        QuirkItemView::Remap(quirk.remap_codes@[i as int]),
                    ));
                    assert(quirk_item_views(ret@) =~= name_part + quirk.remap_codes@.take(
                        i + 1,
                    ).map_values(|v: InputRemap| QuirkItemView::Remap(v)));
                }
                i = i + 1;
            }
            proof {
                assert(quirk.remap_codes@.take(i as int) =~= quirk.remap_codes@);
                assert(quirk_item_views(ret@) =~= spec_result);
            }
        },
        None => {
            proof {
                assert(quirk_item_views(ret@) =~= spec_result);
            }
        },
    }
    ret
}

/// Fold a device's quirk list into its two effects: the display-name override
/// (the last one named wins) and the ordered remap-rule list.
pub open spec fn spec_override_of(s: Seq<QuirkItemView>) -> Option<Seq<char>>
    decreases s.len(),
{
    if s.len() == 0 {
        None
    } else {
        match spec_override_of(s.skip(1)) {
            Some(n) => Some(n),
            None => match s[0] {
                QuirkItemView::Name(n) => Some(n),
                QuirkItemView::Remap(_) => None,
            },
        }
    }
}

/// The remap rules of a quirk list, in order.
pub open spec fn spec_remaps_of(s: Seq<QuirkItemView>) -> Seq<InputRemap>
    decreases s.len(),
{
    if s.len() == 0 {
        Seq::empty()
    } else {
        let rest = spec_remaps_of(s.skip(1));
        match s[0] {
            QuirkItemView::Remap(v) => seq![v] + rest,
            QuirkItemView::Name(_) => rest,
        }
    }
}

/// Split a device's quirk list into the resolved name override and the
/// ordered remap rules.
pub fn split_quirks(quirks: Vec<EvdevQuirks>) -> (r: (Option<String>, Vec<InputRemap>))
    ensures
        opt_str(&r.0) == spec_override_of(quirk_item_views(quirks@)),
        r.1@ == spec_remaps_of(quirk_item_views(quirks@)),
{
    let mut override_name: Option<String> = None;
    let mut remap_events: Vec<InputRemap> = Vec::new();
    let mut rest = quirks;
    loop
        invariant
            spec_override_of(quirk_item_views(quirks@)) == match spec_override_of(
                quirk_item_views(rest@),
            ) {
                Some(n) => Some(n),
                None => opt_str(&override_name),
            },
            spec_remaps_of(quirk_item_views(quirks@)) == remap_events@ + spec_remaps_of(
                quirk_item_views(rest@),
            ),
        decreases rest@.len(),
    {
        if rest.len() == 0 {
            proof {
                assert(remap_events@ + spec_remaps_of(quirk_item_views(rest@)) =~= remap_events@);
            }
            return (override_name, remap_events);
        }
        let ghost prev = rest@;
        let item = rest.remove(0);
        proof {
            assert(rest@ =~= prev.skip(1));
            assert(quirk_item_views(rest@) =~= quirk_item_views(prev).skip(1));
            assert(quirk_item_views(prev)[0] == item@);
        }
        match item {
            EvdevQuirks::RemapCodes(v) => {
                remap_events.push(v);
                proof {
                    assert(remap_events@ + spec_remaps_of(quirk_item_views(rest@))
                        =~= remap_events@.drop_last() + (seq![v] + spec_remaps_of(
                        quirk_item_views(rest@),
                    )));
                }
            },
            EvdevQuirks::OverrideName(new) => {
                override_name = Some(new);
            },
        }
    }
}

} // verus!
