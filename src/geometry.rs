use vstd::prelude::*;

verus! {

/// Bytes in one flash page, the unit of erasure.
pub const FLASH_PAGE_SIZE: u32 = 512;

/// Pages in the flash of the ATSAM4LC8C.
pub const FLASH_PAGE_COUNT: u32 = 1024;

/// Bytes of flash; the flash starts at address zero.
pub const FLASH_SIZE: u32 = 0x8_0000;

/// Bytes in one doubleword, the unit the controller programs at once.
pub const DOUBLEWORD_SIZE: u32 = 8;

/// Bytes in one word, the unit of a store into the page buffer.
pub const WORD_SIZE: u32 = 4;

/// The value of every byte of a freshly erased page.
pub const ERASED_BYTE: u8 = 0xFF;

/// The write protection key that every command must carry.
pub const FCMD_KEY: u8 = 0xA5;

/// The page that holds byte `address`.
pub open spec fn page_of(address: int) -> int {
    address / FLASH_PAGE_SIZE as int
}

/// The address of the first byte of page `page`.
pub open spec fn page_base(page: int) -> int {
    page * FLASH_PAGE_SIZE as int
}

/// The address of the doubleword that holds byte `address`.
pub open spec fn doubleword_of(address: int) -> int {
    (address / DOUBLEWORD_SIZE as int) * DOUBLEWORD_SIZE as int
}

/// `[address, address + length)` is a non-empty range of flash bytes.
pub open spec fn valid_range(address: int, length: int) -> bool {
    0 <= address && 0 < length && address + length <= FLASH_SIZE as int
}

/// The first page that a valid range touches.
pub open spec fn first_page(address: int) -> int {
    page_of(address)
}

/// The last page that a valid range touches (the page of its last byte).
pub open spec fn last_page(address: int, length: int) -> int {
    page_of(address + length - 1)
}

/// Byte `address` lies in one of the pages that `[start, start + length)` touches.
pub open spec fn in_touched_pages(start: int, length: int, address: int) -> bool {
    page_base(first_page(start)) <= address < page_base(last_page(start, length) + 1)
}

/// The little-endian word made of four bytes.
pub open spec fn word_le(b0: u8, b1: u8, b2: u8, b3: u8) -> u32 {
    (b0 as u32) | ((b1 as u32) << 8u32) | ((b2 as u32) << 16u32) | ((b3 as u32) << 24u32)
}

/// Byte `k` (0 to 3, least significant first) of a word.
pub open spec fn word_byte(w: u32, k: int) -> u8 {
    if k == 0 {
        (w & 0xFFu32) as u8
    } else if k == 1 {
        ((w >> 8u32) & 0xFFu32) as u8
    } else if k == 2 {
        ((w >> 16u32) & 0xFFu32) as u8
    } else {
        ((w >> 24u32) & 0xFFu32) as u8
    }
}

/// Packs four bytes into the word that a little-endian store writes as them.
pub fn pack_word(b0: u8, b1: u8, b2: u8, b3: u8) -> (w: u32)
    ensures
        w == word_le(b0, b1, b2, b3),
        word_byte(w, 0) == b0,
        word_byte(w, 1) == b1,
        word_byte(w, 2) == b2,
        word_byte(w, 3) == b3,
{
    let w = (b0 as u32) | ((b1 as u32) << 8u32) | ((b2 as u32) << 16u32) | ((b3 as u32) << 24u32);
    proof {
        lemma_word_le_bytes(b0, b1, b2, b3);
    }
    w
}

/// Each byte of a packed word is the byte it was packed from.
pub proof fn lemma_word_le_bytes(b0: u8, b1: u8, b2: u8, b3: u8)
    ensures
        word_byte(word_le(b0, b1, b2, b3), 0) == b0,
        word_byte(word_le(b0, b1, b2, b3), 1) == b1,
        word_byte(word_le(b0, b1, b2, b3), 2) == b2,
        word_byte(word_le(b0, b1, b2, b3), 3) == b3,
{
    let (x0, x1, x2, x3) = (b0 as u32, b1 as u32, b2 as u32, b3 as u32);
    assert(x0 < 256 && x1 < 256 && x2 < 256 && x3 < 256);
    let w = word_le(b0, b1, b2, b3);
    assert(w == x0 | (x1 << 8u32) | (x2 << 16u32) | (x3 << 24u32));
    assert((w & 0xFFu32) == x0) by (bit_vector)
        requires
            w == x0 | (x1 << 8u32) | (x2 << 16u32) | (x3 << 24u32),
            x0 < 256 && x1 < 256 && x2 < 256 && x3 < 256,
    ;
    assert(((w >> 8u32) & 0xFFu32) == x1) by (bit_vector)
        requires
            w == x0 | (x1 << 8u32) | (x2 << 16u32) | (x3 << 24u32),
            x0 < 256 && x1 < 256 && x2 < 256 && x3 < 256,
    ;
    assert(((w >> 16u32) & 0xFFu32) == x2) by (bit_vector)
        requires
            w == x0 | (x1 << 8u32) | (x2 << 16u32) | (x3 << 24u32),
            x0 < 256 && x1 < 256 && x2 < 256 && x3 < 256,
    ;
    assert(((w >> 24u32) & 0xFFu32) == x3) by (bit_vector)
        requires
            w == x0 | (x1 << 8u32) | (x2 << 16u32) | (x3 << 24u32),
            x0 < 256 && x1 < 256 && x2 < 256 && x3 < 256,
    ;
}

/// Programming a byte over an erased byte leaves that byte; programming
/// an erased byte over any byte leaves it unchanged.
pub proof fn lemma_and_erased(b: u8)
    ensures
        (ERASED_BYTE & b) == b,
        (b & ERASED_BYTE) == b,
{
    assert((0xFFu8 & b) == b && (b & 0xFFu8) == b) by (bit_vector);
}

} // verus!
