use vstd::prelude::*;
use crate::geometry::{
    FLASH_PAGE_SIZE, FLASH_SIZE, DOUBLEWORD_SIZE, ERASED_BYTE, page_of, doubleword_of, valid_range,
    first_page, last_page, word_le, pack_word,
};
use crate::command::FlashStep;
use crate::error::FlashError;

verus! {

/// The steps of an erase of `[address, address + length)`: one erase of
/// each page that the range touches, in ascending order.
pub open spec fn erase_steps(address: int, length: int) -> Seq<FlashStep> {
    Seq::new(
        (last_page(address, length) - first_page(address) + 1) as nat,
        |i: int| FlashStep::ErasePage { page: (first_page(address) + i) as u32 },
    )
}

/// The pages that the erase steps of a sequence name, in order.
pub open spec fn erased_pages(steps: Seq<FlashStep>) -> Seq<u32>
    decreases steps.len(),
{
    if steps.len() == 0 {
        Seq::empty()
    } else {
        match steps.last() {
            FlashStep::ErasePage { page } => erased_pages(steps.drop_last()).push(page),
            FlashStep::ProgramDoubleword { .. } => erased_pages(steps.drop_last()),
        }
    }
}

/// The byte that a write of `source` to `[address, address + length)` asks
/// for at flash address `x`: the source byte inside the range, the erased
/// value outside it.
pub open spec fn staged_byte(address: int, source: Seq<u8>, length: int, x: int) -> u8 {
    if address <= x < address + length {
        source[x - address]
    } else {
        ERASED_BYTE
    }
}

/// The step that programs the doubleword at `d` for a write.
pub open spec fn program_step(address: int, source: Seq<u8>, length: int, d: int) -> FlashStep {
    FlashStep::ProgramDoubleword {
        page: page_of(d) as u32,
        address: d as u32,
        low: word_le(
            staged_byte(address, source, length, d),
            staged_byte(address, source, length, d + 1),
            staged_byte(address, source, length, d + 2),
            staged_byte(address, source, length, d + 3),
        ),
        high: word_le(
            staged_byte(address, source, length, d + 4),
            staged_byte(address, source, length, d + 5),
            staged_byte(address, source, length, d + 6),
            staged_byte(address, source, length, d + 7),
        ),
    }
}

/// The number of doublewords that `[address, address + length)` touches.
pub open spec fn doubleword_count(address: int, length: int) -> int {
    (doubleword_of(address + length - 1) - doubleword_of(address)) / DOUBLEWORD_SIZE as int + 1
}

/// The programming steps of a write: one for each doubleword that the range
/// touches, in ascending order of address.
pub open spec fn program_steps(address: int, source: Seq<u8>, length: int) -> Seq<FlashStep> {
    Seq::new(
        doubleword_count(address, length) as nat,
        |k: int| program_step(address, source, length, doubleword_of(address) + DOUBLEWORD_SIZE as int * k),
    )
}

/// The steps of a write: the pages that the range touches are erased, and
/// then the doublewords that it touches are programmed.
pub open spec fn write_steps(address: int, source: Seq<u8>, length: int) -> Seq<FlashStep> {
    erase_steps(address, length) + program_steps(address, source, length)
}

/// Checks that `[address, address + length)` is a non-empty range of flash bytes.
pub fn check_range(address: u32, length: u32) -> (r: Result<(), FlashError>)
    ensures
        r is Ok <==> valid_range(address as int, length as int),
        r is Err ==> r == Err::<(), FlashError>(FlashError::InvalidRange),
{
    if length == 0 || address > FLASH_SIZE || length > FLASH_SIZE - address {
        Err(FlashError::InvalidRange)
    } else {
        Ok(())
    }
}

/// Plans the erase of every page that `[address, address + length)` touches.
///
/// A range inside one page erases that page; a range that ends on a page
/// boundary does not erase the page after it.
pub fn plan_erase(address: u32, length: u32) -> (r: Result<Vec<FlashStep>, FlashError>)
    ensures
        match r {
            Ok(steps) => valid_range(address as int, length as int) && steps@ == erase_steps(
                address as int,
                length as int,
            ),
            Err(e) => !valid_range(address as int, length as int) && e == FlashError::InvalidRange,
        },
{
    if check_range(address, length).is_err() {
        return Err(FlashError::InvalidRange);
    }
    let first = address / FLASH_PAGE_SIZE;
    let last = (address + length - 1) / FLASH_PAGE_SIZE;
    let mut steps: Vec<FlashStep> = Vec::new();
    let mut page: u32 = first;
    while page <= last
        invariant
            valid_range(address as int, length as int),
            first == first_page(address as int),
            last == last_page(address as int, length as int),
            first <= page <= last + 1,
            last < FLASH_SIZE,
            steps@ =~= erase_steps(address as int, length as int).take(page - first),
        decreases last + 1 - page,
    {
        steps.push(FlashStep::ErasePage { page });
        page = page + 1;
    }
    Ok(steps)
}

/// The byte that a write asks for at flash address `x`.
fn staged(address: u32, source: &[u8], length: u32, x: u32) -> (b: u8)
    requires
        length <= source@.len(),
    ensures
        b == staged_byte(address as int, source@, length as int, x as int),
{
    if address <= x && x - address < length {
        source[(x - address) as usize]
    } else {
        ERASED_BYTE
    }
}

/// Plans the write of the first `length` bytes of `source` to
/// `[address, address + length)`.
///
/// Every page that the range touches is erased first. Then each doubleword
/// that the range touches is programmed once, in ascending order; bytes of
/// those doublewords outside the range are programmed with the erased value.
/// The page of each doubleword is tracked as the cursor moves, and advances
/// each time the cursor crosses into the next page.
pub fn plan_write(address: u32, source: &[u8], length: u32) -> (r: Result<Vec<FlashStep>, FlashError>)
    requires
        length <= source@.len(),
    ensures
        match r {
            Ok(steps) => valid_range(address as int, length as int) && steps@ == write_steps(
                address as int,
                source@,
                length as int,
            ),
            Err(e) => !valid_range(address as int, length as int) && e == FlashError::InvalidRange,
        },
{
    let mut steps = match plan_erase(address, length) {
        Ok(steps) => steps,
        Err(e) => return Err(e),
    };
    let ghost erase = steps@;
    let ghost a = address as int;
    let ghost l = length as int;
    let ghost prog = program_steps(a, source@, l);
    let end = address + length;
    let first_dw = address - address % DOUBLEWORD_SIZE;
    let last_dw = (end - 1) - (end - 1) % DOUBLEWORD_SIZE;
    let count = (last_dw - first_dw) / DOUBLEWORD_SIZE + 1;
    assert(first_dw == doubleword_of(a));
    assert(last_dw == doubleword_of(a + l - 1));
    assert(count == doubleword_count(a, l));
    let mut dw = first_dw;
    let mut page = first_dw / FLASH_PAGE_SIZE;
    let mut k: u32 = 0;
    while k < count
        invariant
            a == address as int,
            l == length as int,
            erase == erase_steps(a, l),
            valid_range(a, l),
            end == a + l,
            first_dw == doubleword_of(a),
            count == doubleword_count(a, l),
            last_dw == doubleword_of(a + l - 1),
            count == (last_dw - first_dw) / 8 + 1,
            first_dw % 8 == 0,
            last_dw % 8 == 0,
            last_dw < end,
            first_dw <= last_dw,
            length <= source@.len(),
            k <= count,
            dw == first_dw + 8 * k,
            page == dw / 512,
            prog == program_steps(a, source@, l),
            steps@ =~= erase + prog.take(k as int),
        decreases count - k,
    {
        assert(dw <= last_dw);
        let (low, high) = if dw >= address && end - dw >= DOUBLEWORD_SIZE {
            // The whole doubleword lies in the range: its words come straight
            // from the source.
            let i = (dw - address) as usize;
            (
                pack_word(source[i], source[i + 1], source[i + 2], source[i + 3]),
                pack_word(source[i + 4], source[i + 5], source[i + 6], source[i + 7]),
            )
        } else {
            // A partial doubleword at either end of the range.
            (
                pack_word(
                    staged(address, source, length, dw),
                    staged(address, source, length, dw + 1),
                    staged(address, source, length, dw + 2),
                    staged(address, source, length, dw + 3),
                ),
                pack_word(
                    staged(address, source, length, dw + 4),
                    staged(address, source, length, dw + 5),
                    staged(address, source, length, dw + 6),
                    staged(address, source, length, dw + 7),
                ),
            )
        };
        let step = FlashStep::ProgramDoubleword { page, address: dw, low, high };
        assert(step == program_step(a, source@, l, doubleword_of(a) + 8 * k));
        steps.push(step);
        assert(steps@ =~= erase + prog.take(k + 1));
        dw = dw + DOUBLEWORD_SIZE;
        if dw % FLASH_PAGE_SIZE == 0 {
            page = page + 1;
        }
        k = k + 1;
    }
    assert(prog.take(count as int) =~= prog);
    Ok(steps)
}

} // verus!
