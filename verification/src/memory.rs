//! Addresses in the engine's memory.
use vstd::prelude::*;
use vstd::std_specs::convert::FromSpecImpl;

verus! {

/// An address in the engine's memory, kept apart from other `u32` values.
#[derive(Debug, Clone, Copy, PartialEq, Eq, Structural)]
pub struct CorePointer(pub(crate) u32);

impl View for CorePointer {
    type V = u32;

    closed spec fn view(&self) -> u32 {
        self.0
    }
}

impl CorePointer {
    /// The pointer to `address`.
    pub fn new(address: u32) -> (p: CorePointer)
        ensures
            p@ == address,
    {
        CorePointer(address)
    }

    /// The pointer `offset` bytes further; the offset is taken modulo 2^32 and the sum must
    /// stay an address.
    pub fn offset_by(&self, offset: usize) -> (p: CorePointer)
        requires
            self@ + (offset as u32) <= u32::MAX,
        ensures
            p@ == self@ + (offset as u32),
    {
        CorePointer(self.0 + #[verifier::truncate] (offset as u32))
    }
}

impl From<CorePointer> for u32 {
    fn from(ptr: CorePointer) -> (a: u32)
        ensures
            a == ptr@,
    {
        ptr.0
    }
}

impl FromSpecImpl<CorePointer> for u32 {
    open spec fn obeys_from_spec() -> bool {
        true
    }

    open spec fn from_spec(ptr: CorePointer) -> u32 {
        ptr@
    }
}

impl From<CorePointer> for usize {
    fn from(ptr: CorePointer) -> (a: usize)
        ensures
            a == ptr@,
    {
        ptr.0 as usize
    }
}

impl FromSpecImpl<CorePointer> for usize {
    open spec fn obeys_from_spec() -> bool {
        true
    }

    open spec fn from_spec(ptr: CorePointer) -> usize {
        ptr@ as usize
    }
}

} // verus!
