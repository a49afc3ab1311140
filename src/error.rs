use vstd::prelude::*;

verus! {

/// Why a flash request was refused or did not complete.
#[derive(Clone, Copy, Debug, PartialEq, Eq, Structural)]
pub enum FlashError {
    /// The byte range is empty or does not lie inside the flash.
    InvalidRange,
    /// The controller did not report ready within the poll budget.
    Timeout,
    /// A request was started while another one was still in flight.
    Busy,
}

} // verus!
