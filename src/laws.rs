use vstd::prelude::*;
use crate::geometry::{
    FLASH_PAGE_SIZE, FLASH_SIZE, ERASED_BYTE, page_of, page_base, doubleword_of,
    valid_range, first_page, last_page, in_touched_pages, lemma_word_le_bytes, lemma_and_erased,
};
use crate::command::{FlashStep, step_ops, step_wf};
use crate::model::{
    FlashImage, image_wf, apply_step, run_ops, run_steps, doubleword_byte, lemma_program_step,
    lemma_run_ops_push, lemma_run_steps_append,
};
use crate::plan::{
    erase_steps, program_steps, erased_pages, write_steps, program_step, staged_byte, doubleword_count,
};

verus! {

/// The effect of the first `k` steps of an erase: the first `k` pages that
/// the range touches are erased, and nothing else changes.
proof fn lemma_erase_prefix(m: FlashImage, a: int, l: int, k: int)
    requires
        image_wf(m),
        valid_range(a, l),
        0 <= k <= erase_steps(a, l).len(),
    ensures
        image_wf(run_steps(m, erase_steps(a, l).take(k))),
        run_steps(m, erase_steps(a, l).take(k)).page_buffer == m.page_buffer,
        forall|x: int|
            0 <= x < m.cells.len() ==> #[trigger] run_steps(m, erase_steps(a, l).take(k)).cells[x] == (
            if page_base(first_page(a)) <= x < page_base(first_page(a) + k) {
                ERASED_BYTE
            } else {
                m.cells[x]
            }),
    decreases k,
{
    let e = erase_steps(a, l);
    if k == 0 {
        assert(e.take(0) =~= Seq::<FlashStep>::empty());
    } else {
        lemma_erase_prefix(m, a, l, k - 1);
        assert(e.take(k).drop_last() =~= e.take(k - 1));
        let prev = run_steps(m, e.take(k - 1));
        let s = e[k - 1];
        let op = step_ops(s)[0];
        assert(step_ops(s) =~= Seq::empty().push(op));
        lemma_run_ops_push(prev, Seq::empty(), op);
        assert(run_ops(prev, Seq::empty()) == prev);
    }
}

/// The effect of an erase: every page that the range touches is erased,
/// and nothing else changes.
pub proof fn lemma_erase_effect(m: FlashImage, a: int, l: int)
    requires
        image_wf(m),
        valid_range(a, l),
    ensures
        image_wf(run_steps(m, erase_steps(a, l))),
        run_steps(m, erase_steps(a, l)).page_buffer == m.page_buffer,
        forall|x: int|
            0 <= x < m.cells.len() ==> #[trigger] run_steps(m, erase_steps(a, l)).cells[x] == (
            if in_touched_pages(a, l, x) {
                ERASED_BYTE
            } else {
                m.cells[x]
            }),
{
    let e = erase_steps(a, l);
    lemma_erase_prefix(m, a, l, e.len() as int);
    assert(e.take(e.len() as int) =~= e);
}

/// The doublewords that a write programs lie inside the flash.
proof fn lemma_program_step_wf(a: int, src: Seq<u8>, l: int, k: int)
    requires
        valid_range(a, l),
        0 <= k < doubleword_count(a, l),
    ensures
        step_wf(program_step(a, src, l, doubleword_of(a) + 8 * k)),
        doubleword_of(a) + 8 * k + 8 <= FLASH_SIZE as int,
        page_base(first_page(a)) <= doubleword_of(a),
        doubleword_of(a + l - 1) + 8 <= page_base(last_page(a, l) + 1),
{
    let d = doubleword_of(a) + 8 * k;
    assert(d <= doubleword_of(a + l - 1));
}

/// Each byte that a programming step of a write writes is the byte that the
/// write asks for at that address.
proof fn lemma_program_step_bytes(a: int, src: Seq<u8>, l: int, d: int)
    requires
        0 <= d,
        d + 8 <= FLASH_SIZE as int,
    ensures
        forall|j: int|
            0 <= j < 8 ==> #[trigger] doubleword_byte(
                program_step(a, src, l, d)->ProgramDoubleword_low,
                program_step(a, src, l, d)->ProgramDoubleword_high,
                j,
            ) == staged_byte(a, src, l, d + j),
{
    lemma_word_le_bytes(
        staged_byte(a, src, l, d),
        staged_byte(a, src, l, d + 1),
        staged_byte(a, src, l, d + 2),
        staged_byte(a, src, l, d + 3),
    );
    lemma_word_le_bytes(
        staged_byte(a, src, l, d + 4),
        staged_byte(a, src, l, d + 5),
        staged_byte(a, src, l, d + 6),
        staged_byte(a, src, l, d + 7),
    );
}

/// The effect of the first `k` programming steps of a write.
proof fn lemma_program_prefix(m: FlashImage, a: int, src: Seq<u8>, l: int, k: int)
    requires
        image_wf(m),
        valid_range(a, l),
        0 <= k <= doubleword_count(a, l),
    ensures
        image_wf(run_steps(m, program_steps(a, src, l).take(k))),
        forall|x: int|
            0 <= x < m.cells.len() ==> #[trigger] run_steps(m, program_steps(a, src, l).take(k)).cells[x]
                == (if doubleword_of(a) <= x < doubleword_of(a) + 8 * k {
                m.cells[x] & staged_byte(a, src, l, x)
            } else {
                m.cells[x]
            }),
    decreases k,
{
    let p = program_steps(a, src, l);
    if k == 0 {
        assert(p.take(0) =~= Seq::<FlashStep>::empty());
    } else {
        lemma_program_prefix(m, a, src, l, k - 1);
        assert(p.take(k).drop_last() =~= p.take(k - 1));
        let prev = run_steps(m, p.take(k - 1));
        let d = doubleword_of(a) + 8 * (k - 1);
        let s = p[k - 1];
        assert(s == program_step(a, src, l, d));
        lemma_program_step_wf(a, src, l, k - 1);
        lemma_program_step(prev, s);
        lemma_program_step_bytes(a, src, l, d);
        assert(s->ProgramDoubleword_address as int == d);
        let r = run_steps(m, p.take(k));
        assert(r == apply_step(prev, s));
        assert forall|x: int| 0 <= x < m.cells.len() implies #[trigger] r.cells[x] == (
        if doubleword_of(a) <= x < doubleword_of(a) + 8 * k {
            m.cells[x] & staged_byte(a, src, l, x)
        } else {
            m.cells[x]
        }) by {
            if d <= x < d + 8 {
                assert(doubleword_byte(
                    s->ProgramDoubleword_low,
                    s->ProgramDoubleword_high,
                    x - d,
                ) == staged_byte(a, src, l, d + (x - d)));
            }
        }
    }
}

/// The effect of the programming steps of a write on a flash whose range is
/// erased: the range holds the source, and nothing else changes.
pub proof fn lemma_program_effect(m: FlashImage, a: int, src: Seq<u8>, l: int)
    requires
        image_wf(m),
        valid_range(a, l),
        l <= src.len(),
        forall|x: int| a <= x < a + l ==> #[trigger] m.cells[x] == ERASED_BYTE,
    ensures
        image_wf(run_steps(m, program_steps(a, src, l))),
        forall|x: int|
            0 <= x < m.cells.len() ==> #[trigger] run_steps(m, program_steps(a, src, l)).cells[x] == (
            if a <= x < a + l {
                src[x - a]
            } else {
                m.cells[x]
            }),
{
    let p = program_steps(a, src, l);
    let n = doubleword_count(a, l);
    lemma_program_prefix(m, a, src, l, n);
    assert(p.take(n) =~= p);
    let r = run_steps(m, p);
    assert(doubleword_of(a) <= a);
    assert(a + l <= doubleword_of(a) + 8 * n);
    assert forall|x: int| 0 <= x < m.cells.len() implies #[trigger] r.cells[x] == (
    if a <= x < a + l {
        src[x - a]
    } else {
        m.cells[x]
    }) by {
        lemma_and_erased(m.cells[x]);
        lemma_and_erased(staged_byte(a, src, l, x));
    }
}

/// The effect of a write: the range holds the source, the rest of every page
/// that the range touches holds the erased value, and every other byte is
/// unchanged.
pub proof fn lemma_write_effect(m: FlashImage, a: int, src: Seq<u8>, l: int)
    requires
        image_wf(m),
        valid_range(a, l),
        l <= src.len(),
    ensures
        image_wf(run_steps(m, write_steps(a, src, l))),
        forall|x: int|
            0 <= x < m.cells.len() ==> #[trigger] run_steps(m, write_steps(a, src, l)).cells[x] == (
            if a <= x < a + l {
                src[x - a]
            } else if in_touched_pages(a, l, x) {
                ERASED_BYTE
            } else {
                m.cells[x]
            }),
{
    let e = erase_steps(a, l);
    let p = program_steps(a, src, l);
    lemma_erase_effect(m, a, l);
    let me = run_steps(m, e);
    assert(page_base(first_page(a)) <= a);
    assert(a + l <= page_base(last_page(a, l) + 1));
    lemma_program_effect(me, a, src, l);
    lemma_run_steps_append(m, e, p);
}

/// Every step of a planned erase or write names a page and a doubleword
/// inside the flash.
pub proof fn lemma_planned_steps_wf(a: int, src: Seq<u8>, l: int)
    requires
        valid_range(a, l),
    ensures
        forall|i: int| 0 <= i < erase_steps(a, l).len() ==> step_wf(#[trigger] erase_steps(a, l)[i]),
        forall|i: int| 0 <= i < write_steps(a, src, l).len() ==> step_wf(#[trigger] write_steps(a, src, l)[i]),
{
    let e = erase_steps(a, l);
    let p = program_steps(a, src, l);
    assert forall|k: int| 0 <= k < p.len() implies step_wf(#[trigger] p[k]) by {
        lemma_program_step_wf(a, src, l, k);
    }
    assert forall|i: int| 0 <= i < write_steps(a, src, l).len() implies step_wf(
        #[trigger] write_steps(a, src, l)[i],
    ) by {
        if i >= e.len() {
            assert(write_steps(a, src, l)[i] == p[i - e.len()]);
        }
    }
}

/// The pages that an erase names are the pages that its range touches, each
/// once, in ascending order.
proof fn lemma_erased_pages_of_erase(a: int, l: int, k: int)
    requires
        valid_range(a, l),
        0 <= k <= erase_steps(a, l).len(),
    ensures
        erased_pages(erase_steps(a, l).take(k)) =~= Seq::new(
            k as nat,
            |i: int| (first_page(a) + i) as u32,
        ),
    decreases k,
{
    let e = erase_steps(a, l);
    if k == 0 {
        assert(e.take(0) =~= Seq::<FlashStep>::empty());
    } else {
        lemma_erased_pages_of_erase(a, l, k - 1);
        assert(e.take(k).drop_last() =~= e.take(k - 1));
    }
}

/// Programming steps name no page to erase.
proof fn lemma_erased_pages_skip_program(pre: Seq<FlashStep>, a: int, src: Seq<u8>, l: int, k: int)
    requires
        0 <= k <= program_steps(a, src, l).len(),
    ensures
        erased_pages(pre + program_steps(a, src, l).take(k)) == erased_pages(pre),
    decreases k,
{
    let p = program_steps(a, src, l);
    if k == 0 {
        assert(pre + p.take(0) =~= pre);
    } else {
        lemma_erased_pages_skip_program(pre, a, src, l, k - 1);
        assert((pre + p.take(k)).drop_last() =~= pre + p.take(k - 1));
    }
}

/// An erase and a write of the same range erase the same pages: each page
/// that the range touches, once, in ascending order.
pub proof fn lemma_erased_pages(a: int, src: Seq<u8>, l: int)
    requires
        valid_range(a, l),
    ensures
        erased_pages(erase_steps(a, l)) == Seq::new(
            (last_page(a, l) - first_page(a) + 1) as nat,
            |i: int| (first_page(a) + i) as u32,
        ),
        erased_pages(write_steps(a, src, l)) == erased_pages(erase_steps(a, l)),
{
    let e = erase_steps(a, l);
    let p = program_steps(a, src, l);
    lemma_erased_pages_of_erase(a, l, e.len() as int);
    assert(e.take(e.len() as int) =~= e);
    lemma_erased_pages_skip_program(e, a, src, l, p.len() as int);
    assert(p.take(p.len() as int) =~= p);
}

/// Erasing a whole page leaves every byte of it at the erased value.
pub proof fn erased_page_reads_erased(m: FlashImage, a: int, l: int)
    requires
        image_wf(m),
        0 <= a,
        a % FLASH_PAGE_SIZE as int == 0,
        l == FLASH_PAGE_SIZE as int,
        a + l <= FLASH_SIZE as int,
    ensures
        forall|x: int| a <= x < a + l ==> #[trigger] run_steps(m, erase_steps(a, l)).cells[x] == ERASED_BYTE,
{
    lemma_erase_effect(m, a, l);
    assert forall|x: int| a <= x < a + l implies #[trigger] run_steps(m, erase_steps(a, l)).cells[x]
        == ERASED_BYTE by {
        assert(in_touched_pages(a, l, x));
    }
}

/// A non-empty write of at most a page at the start of a page reads back as
/// the source, and the rest of that page reads as erased.
pub proof fn write_in_page_reads_back(m: FlashImage, a: int, src: Seq<u8>, l: int)
    requires
        image_wf(m),
        0 <= a < FLASH_SIZE as int,
        a % FLASH_PAGE_SIZE as int == 0,
        0 < l <= FLASH_PAGE_SIZE as int,
        l <= src.len(),
    ensures
        run_steps(m, write_steps(a, src, l)).cells.subrange(a, a + l) == src.subrange(0, l),
        forall|x: int|
            a + l <= x < a + FLASH_PAGE_SIZE as int ==> #[trigger] run_steps(m, write_steps(a, src, l)).cells[x]
                == ERASED_BYTE,
{
    let r = run_steps(m, write_steps(a, src, l));
    assert(a + FLASH_PAGE_SIZE as int <= FLASH_SIZE as int);
    lemma_write_effect(m, a, src, l);
    assert(r.cells.subrange(a, a + l) =~= src.subrange(0, l));
    assert forall|x: int| a + l <= x < a + FLASH_PAGE_SIZE as int implies #[trigger] r.cells[x]
        == ERASED_BYTE by {
        assert(in_touched_pages(a, l, x));
    }
}

/// Erasing a range twice leaves the flash as erasing it once does.
pub proof fn erase_is_idempotent(m: FlashImage, a: int, l: int)
    requires
        image_wf(m),
        valid_range(a, l),
    ensures
        run_steps(run_steps(m, erase_steps(a, l)), erase_steps(a, l)) == run_steps(m, erase_steps(a, l)),
{
    let once = run_steps(m, erase_steps(a, l));
    let twice = run_steps(once, erase_steps(a, l));
    lemma_erase_effect(m, a, l);
    lemma_erase_effect(once, a, l);
    assert(twice.cells =~= once.cells);
    assert(twice.page_buffer =~= once.page_buffer);
}

/// An erase or a write of a range inside one page erases exactly that page,
/// once, wherever in the page the range starts.
pub proof fn range_in_one_page_erases_one_page(a: int, src: Seq<u8>, l: int)
    requires
        valid_range(a, l),
        page_of(a) == page_of(a + l - 1),
    ensures
        erased_pages(erase_steps(a, l)) == seq![page_of(a) as u32],
        erased_pages(write_steps(a, src, l)) == seq![page_of(a) as u32],
{
    lemma_erased_pages(a, src, l);
    assert(Seq::new(1, |i: int| (first_page(a) + i) as u32) =~= seq![page_of(a) as u32]);
}

/// A write of exactly one page at the start of a page erases that page alone.
pub proof fn full_page_write_erases_one_page(a: int, src: Seq<u8>)
    requires
        0 <= a,
        a % FLASH_PAGE_SIZE as int == 0,
        a + FLASH_PAGE_SIZE as int <= FLASH_SIZE as int,
        FLASH_PAGE_SIZE as int <= src.len(),
    ensures
        erased_pages(write_steps(a, src, FLASH_PAGE_SIZE as int)) == seq![page_of(a) as u32],
{
    range_in_one_page_erases_one_page(a, src, FLASH_PAGE_SIZE as int);
}

} // verus!
