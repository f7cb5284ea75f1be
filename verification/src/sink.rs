use vstd::prelude::*;

use crate::combine::OpenedEventSource;
use crate::device::SourceCaps;

verus! {

/// The record a virtual-output sink keeps of the logical controller it was
/// built around: its display name and capability class. Draining the
/// controller's event channel into the OS is the surrounding worker's job and
/// happens outside this type.
pub struct UinputSink {
    pub source_name: String,
    pub source_caps: SourceCaps,
}

impl UinputSink {
    /// Capture the logical controller a sink is built around.
    pub fn new(source: &OpenedEventSource) -> (r: UinputSink)
        ensures
            r.source_name@ == source@.name,
            r.source_caps == source@.caps,
    {
        UinputSink { source_name: source.name.clone(), source_caps: source.caps }
    }

    /// The fixed name this sink kind announces.
    pub fn name(&self) -> (r: &'static str)
        ensures
            r@ == "Gamepad device"@,
    {
        "Gamepad device"
    }

    /// The display name of the controller this sink serves.
    pub fn source_name(&self) -> (r: String)
        ensures
            r@ == self.source_name@,
    {
        self.source_name.clone()
    }

    /// The capability class of the controller this sink serves.
    pub fn source_caps(&self) -> (r: SourceCaps)
        ensures
            r == self.source_caps,
    {
        self.source_caps
    }
}

} // verus!
