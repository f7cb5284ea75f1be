use vstd::prelude::*;

use crate::event::{InputEvent, EV_KEY};
use crate::quirks_db::InputRemap;

verus! {

/// An event reached a remap rule whose behaviour is not implemented; honouring
/// the profile is impossible, so the caller must treat this as fatal.
#[derive(Debug, Copy, Clone, PartialEq, Eq, Structural)]
pub enum RemapError {
    Unsupported(InputRemap),
}

/// The first rule of the list that applies to the event, if any.
pub open spec fn spec_first_applicable(rules: Seq<InputRemap>, ev: InputEvent) -> Option<
    InputRemap,
>
    decreases rules.len(),
{
    if rules.len() == 0 {
        None
    } else if rules[0].applies_to(ev) {
        Some(rules[0])
    } else {
        spec_first_applicable(rules.skip(1), ev)
    }
}

/// What remapping one event yields: the event unchanged when no rule applies,
/// the recoded event when the first applicable rule is button-to-button, and
/// an error when that rule is of an unimplemented kind.
pub open spec fn spec_remap_event(rules: Seq<InputRemap>, ev: InputEvent) -> Result<
    InputEvent,
    RemapError,
> {
    match spec_first_applicable(rules, ev) {
        None => Ok(ev),
        Some(rule) => match rule {
            InputRemap::KeyToKey(_, to) => Ok(InputEvent { etype: EV_KEY, code: to, value: ev.value }),
            _ => Err(RemapError::Unsupported(rule)),
        },
    }
}

/// Remap one event through an ordered rule list: the first rule whose source
/// code matches the event wins; an event no rule matches, and any non-key
/// event, passes through unchanged. An unimplemented rule kind is reported as
/// an error, which the caller must treat as fatal.
pub fn remap_event(rules: &Vec<InputRemap>, ev: InputEvent) -> (r: Result<InputEvent, RemapError>)
    ensures
        r == spec_remap_event(rules@, ev),
{
    let mut i: usize = 0;
    proof {
        assert(rules@.skip(0) =~= rules@);
    }
    loop
        invariant
            i <= rules@.len(),
            spec_first_applicable(rules@, ev) == spec_first_applicable(rules@.skip(i as int), ev),
        decreases rules@.len() - i,
    {
        if i >= rules.len() {
            return Ok(ev);
        }
        let rule = rules[i];
        proof {
            assert(rules@.skip(i as int)[0] == rules@[i as int]);
            assert(rules@.skip(i as int).skip(1) =~= rules@.skip(i as int + 1));
        }
        if ev.is_key() && ev.code == rule_source(rule) {
            match rule {
                InputRemap::KeyToKey(_, to) => {
                    return Ok(InputEvent { etype: EV_KEY, code: to, value: ev.value });
                },
                _ => {
                    return Err(RemapError::Unsupported(rule));
                },
            }
        }
        i = i + 1;
    }
}

/// The key code a rule rewrites.
fn rule_source(rule: InputRemap) -> (r: u16)
    ensures
        r == rule.source_code(),
{
    match rule {
        InputRemap::KeyToKey(from, _) => from,
        InputRemap::KeyToAbs(from, _) => from,
        InputRemap::KeyToQuickAccessMenu(from) => from,
    }
}

/// Pass-through law: an event whose code no rule of the list matches is
/// returned unchanged, whatever the list holds.
pub proof fn lemma_remap_passthrough(rules: Seq<InputRemap>, ev: InputEvent)
    requires
        forall|i: int| 0 <= i < rules.len() ==> !(#[trigger] rules[i].applies_to(ev)),
    ensures
        spec_remap_event(rules, ev) == Ok::<InputEvent, RemapError>(ev),
    decreases rules.len(),
{
    if rules.len() > 0 {
        assert(forall|i: int|
            0 <= i < rules.skip(1).len() ==> rules.skip(1)[i] == rules[i + 1]);
        lemma_remap_passthrough(rules.skip(1), ev);
    }
}

/// Non-key events are never examined by remap rules: they always pass through
/// unchanged, whatever the list holds.
pub proof fn lemma_remap_ignores_non_key(rules: Seq<InputRemap>, ev: InputEvent)
    requires
        ev.etype != EV_KEY,
    ensures
        spec_remap_event(rules, ev) == Ok::<InputEvent, RemapError>(ev),
{
    assert(forall|i: int| 0 <= i < rules.len() ==> !(#[trigger] rules[i].applies_to(ev)));
    lemma_remap_passthrough(rules, ev);
}

} // verus!
