use vstd::prelude::*;

verus! {

/// Raw event type for key/button events, as the kernel input layer numbers them.
pub const EV_KEY: u16 = 1;

/// Raw event type for absolute-axis events.
pub const EV_ABS: u16 = 3;

/// Primary face ("confirm") button.
pub const BTN_SOUTH: u16 = 304;

/// Left shoulder button.
pub const BTN_TL: u16 = 310;

/// Right shoulder button.
pub const BTN_TR: u16 = 311;

/// Secondary left shoulder (trigger) button.
pub const BTN_TL2: u16 = 312;

/// Secondary right shoulder (trigger) button.
pub const BTN_TR2: u16 = 313;

/// Guide / mode button.
pub const BTN_MODE: u16 = 316;

/// Left thumbstick click.
pub const BTN_THUMBL: u16 = 317;

/// Horizontal absolute axis.
pub const ABS_X: u16 = 0;

/// Vertical absolute axis.
pub const ABS_Y: u16 = 1;

/// Function key F12.
pub const KEY_F12: u16 = 88;

/// The letter key D.
pub const KEY_D: u16 = 32;

/// One hardware input event: the raw event type, the event code within that
/// type, and the value (for a key, 1 is press, 0 is release, 2 is repeat).
#[derive(Debug, Copy, Clone, PartialEq, Eq, Structural)]
pub struct InputEvent {
    pub etype: u16,
    pub code: u16,
    pub value: i32,
}

impl InputEvent {
    /// Whether this is a key/button event.
    pub open spec fn spec_is_key(&self) -> bool {
        self.etype == EV_KEY
    }

    #[verifier::when_used_as_spec(spec_is_key)]
    pub fn is_key(&self) -> (r: bool)
        ensures
            r == self.spec_is_key(),
    {
        self.etype == EV_KEY
    }
}

} // verus!
