use vstd::prelude::*;
use crate::geometry::{FLASH_PAGE_SIZE, FLASH_PAGE_COUNT, FLASH_SIZE, DOUBLEWORD_SIZE, WORD_SIZE};

verus! {

/// The commands of the flash controller that the library issues.
#[derive(Clone, Copy, Debug, PartialEq, Eq, Structural)]
pub enum FlashCommand {
    /// Programs the page buffer into a page.
    WritePage,
    /// Sets every byte of a page to the erased value.
    ErasePage,
    /// Sets every byte of the page buffer to the erased value.
    ClearPageBuffer,
}

impl FlashCommand {
    /// The value of the CMD field of the command register.
    pub open spec fn spec_code(self) -> u8 {
        match self {
            FlashCommand::WritePage => 1,
            FlashCommand::ErasePage => 2,
            FlashCommand::ClearPageBuffer => 3,
        }
    }

    /// The value to write into the CMD field of the command register.
    pub fn code(&self) -> (c: u8)
        ensures
            c == self.spec_code(),
    {
        match self {
            FlashCommand::WritePage => 1,
            FlashCommand::ErasePage => 2,
            FlashCommand::ClearPageBuffer => 3,
        }
    }
}

/// One hardware action: a write of the command register, or a word stored
/// through the flash address range into the page buffer.
#[derive(Clone, Copy, Debug, PartialEq, Eq, Structural)]
pub enum FlashOp {
    /// Write `command` with page number `page` and the key into the command register.
    Command { command: FlashCommand, page: u32 },
    /// Store `value` at flash address `address`.
    StoreWord { address: u32, value: u32 },
}

impl FlashOp {
    /// After this action the controller is busy until it reports ready.
    pub open spec fn spec_needs_ready(self) -> bool {
        self is Command
    }

    /// Tells whether the controller has to report ready after this action.
    pub fn needs_ready(&self) -> (r: bool)
        ensures
            r == self.spec_needs_ready(),
    {
        match self {
            FlashOp::Command { .. } => true,
            FlashOp::StoreWord { .. } => false,
        }
    }
}

/// One step of a flash request.
#[derive(Clone, Copy, Debug, PartialEq, Eq, Structural)]
pub enum FlashStep {
    /// Erase page `page`.
    ErasePage { page: u32 },
    /// Program the doubleword at `address`, which lies in page `page`,
    /// with the words `low` (its first four bytes) and `high` (its last four).
    ProgramDoubleword { page: u32, address: u32, low: u32, high: u32 },
}

/// A step names an existing page, and a doubleword that lies inside the flash
/// together with the page that holds it.
pub open spec fn step_wf(s: FlashStep) -> bool {
    match s {
        FlashStep::ErasePage { page } => page < FLASH_PAGE_COUNT,
        FlashStep::ProgramDoubleword { page, address, .. } => {
            &&& page < FLASH_PAGE_COUNT
            &&& page as int == address as int / FLASH_PAGE_SIZE as int
            &&& address as int % DOUBLEWORD_SIZE as int == 0
            &&& address as int + DOUBLEWORD_SIZE as int <= FLASH_SIZE as int
        },
    }
}

/// The hardware actions of a step, in the order they are performed:
/// an erase is one command; a doubleword is programmed by clearing the page
/// buffer, storing its two words into the buffer, and committing the page.
pub open spec fn step_ops(s: FlashStep) -> Seq<FlashOp> {
    match s {
        FlashStep::ErasePage { page } => seq![FlashOp::Command { command: FlashCommand::ErasePage, page }],
        FlashStep::ProgramDoubleword { page, address, low, high } => seq![
            FlashOp::Command { command: FlashCommand::ClearPageBuffer, page: 0 },
            FlashOp::StoreWord { address, value: low },
            FlashOp::StoreWord { address: (address + WORD_SIZE) as u32, value: high },
            FlashOp::Command { command: FlashCommand::WritePage, page },
        ],
    }
}

impl FlashStep {
    /// Checks that the step names an existing page and a doubleword inside the flash.
    pub fn is_well_formed(&self) -> (r: bool)
        ensures
            r == step_wf(*self),
    {
        match self {
            FlashStep::ErasePage { page } => *page < FLASH_PAGE_COUNT,
            FlashStep::ProgramDoubleword { page, address, .. } => {
                *page < FLASH_PAGE_COUNT && *page == *address / FLASH_PAGE_SIZE && *address
                    % DOUBLEWORD_SIZE == 0 && *address
                    <= FLASH_SIZE - DOUBLEWORD_SIZE
            },
        }
    }

    /// The number of hardware actions of the step.
    pub fn op_count(&self) -> (n: usize)
        ensures
            n == step_ops(*self).len(),
    {
        match self {
            FlashStep::ErasePage { .. } => 1,
            FlashStep::ProgramDoubleword { .. } => 4,
        }
    }

    /// The hardware action at position `i` of the step.
    pub fn op_at(&self, i: usize) -> (op: FlashOp)
        requires
            step_wf(*self),
            i < step_ops(*self).len(),
        ensures
            op == step_ops(*self)[i as int],
    {
        match self {
            FlashStep::ErasePage { page } => FlashOp::Command { command: FlashCommand::ErasePage, page: *page },
            FlashStep::ProgramDoubleword { page, address, low, high } => {
                if i == 0 {
                    FlashOp::Command { command: FlashCommand::ClearPageBuffer, page: 0 }
                } else if i == 1 {
                    FlashOp::StoreWord { address: *address, value: *low }
                } else if i == 2 {
                    FlashOp::StoreWord { address: *address + WORD_SIZE, value: *high }
                } else {
                    FlashOp::Command { command: FlashCommand::WritePage, page: *page }
                }
            },
        }
    }
}

} // verus!
