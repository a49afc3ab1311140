use vstd::prelude::*;
use crate::geometry::{
    FLASH_PAGE_SIZE, FLASH_PAGE_COUNT, FLASH_SIZE, WORD_SIZE, ERASED_BYTE, page_base, word_byte, lemma_and_erased,
};
use crate::command::{FlashCommand, FlashOp, FlashStep, step_ops, step_wf};

verus! {

/// The state of the flash as the controller holds it: the bytes of the
/// flash, and the page buffer that a write page command programs.
pub struct FlashImage {
    pub cells: Seq<u8>,
    pub page_buffer: Seq<u8>,
}

/// The image has one byte per flash address and one per page buffer position.
pub open spec fn image_wf(m: FlashImage) -> bool {
    m.cells.len() == FLASH_SIZE as nat && m.page_buffer.len() == FLASH_PAGE_SIZE as nat
}

/// Byte `x` lies in page `page`.
pub open spec fn in_page(page: int, x: int) -> bool {
    page_base(page) <= x < page_base(page + 1)
}

/// The effect of one hardware action on the flash.
///
/// Erasing sets a page to the erased value. Clearing sets the page buffer to
/// the erased value. A word stored through the flash address range lands in
/// the page buffer at the address's offset within its page. Writing a page
/// programs it with the page buffer; programming can only clear bits, so each
/// byte becomes the bitwise and of itself and its buffer byte.
pub open spec fn apply_op(m: FlashImage, op: FlashOp) -> FlashImage {
    match op {
        FlashOp::Command { command, page } => match command {
            FlashCommand::ErasePage => FlashImage {
                cells: Seq::new(
                    m.cells.len(),
                    |x: int| if in_page(page as int, x) { ERASED_BYTE } else { m.cells[x] },
                ),
                page_buffer: m.page_buffer,
            },
            FlashCommand::ClearPageBuffer => FlashImage {
                cells: m.cells,
                page_buffer: Seq::new(FLASH_PAGE_SIZE as nat, |i: int| ERASED_BYTE),
            },
            FlashCommand::WritePage => FlashImage {
                cells: Seq::new(
                    m.cells.len(),
                    |x: int|
                        if in_page(page as int, x) {
                            m.cells[x] & m.page_buffer[x - page_base(page as int)]
                        } else {
                            m.cells[x]
                        },
                ),
                page_buffer: m.page_buffer,
            },
        },
        FlashOp::StoreWord { address, value } => {
            let o = address as int % FLASH_PAGE_SIZE as int;
            FlashImage {
                cells: m.cells,
                page_buffer: Seq::new(
                    m.page_buffer.len(),
                    |i: int| if o <= i < o + WORD_SIZE as int { word_byte(value, i - o) } else { m.page_buffer[i] },
                ),
            }
        },
    }
}

/// The effect of a sequence of hardware actions, performed in order.
pub open spec fn run_ops(m: FlashImage, ops: Seq<FlashOp>) -> FlashImage
    decreases ops.len(),
{
    if ops.len() == 0 {
        m
    } else {
        apply_op(run_ops(m, ops.drop_last()), ops.last())
    }
}

/// The effect of one step: the effect of its hardware actions.
pub open spec fn apply_step(m: FlashImage, s: FlashStep) -> FlashImage {
    run_ops(m, step_ops(s))
}

/// The effect of a sequence of steps, performed in order.
pub open spec fn run_steps(m: FlashImage, steps: Seq<FlashStep>) -> FlashImage
    decreases steps.len(),
{
    if steps.len() == 0 {
        m
    } else {
        apply_step(run_steps(m, steps.drop_last()), steps.last())
    }
}

/// Running two sequences of steps one after the other is running their concatenation.
pub proof fn lemma_run_steps_append(m: FlashImage, s1: Seq<FlashStep>, s2: Seq<FlashStep>)
    ensures
        run_steps(m, s1 + s2) == run_steps(run_steps(m, s1), s2),
    decreases s2.len(),
{
    if s2.len() == 0 {
        assert(s1 + s2 =~= s1);
    } else {
        assert((s1 + s2).drop_last() =~= s1 + s2.drop_last());
        lemma_run_steps_append(m, s1, s2.drop_last());
    }
}

/// The hardware actions of a sequence of steps, in the order they are performed.
pub open spec fn plan_ops(steps: Seq<FlashStep>) -> Seq<FlashOp>
    decreases steps.len(),
{
    if steps.len() == 0 {
        Seq::empty()
    } else {
        plan_ops(steps.drop_last()) + step_ops(steps.last())
    }
}

/// Performing two sequences of actions one after the other is performing their concatenation.
pub proof fn lemma_run_ops_append(m: FlashImage, o1: Seq<FlashOp>, o2: Seq<FlashOp>)
    ensures
        run_ops(m, o1 + o2) == run_ops(run_ops(m, o1), o2),
    decreases o2.len(),
{
    if o2.len() == 0 {
        assert(o1 + o2 =~= o1);
    } else {
        assert((o1 + o2).drop_last() =~= o1 + o2.drop_last());
        lemma_run_ops_append(m, o1, o2.drop_last());
    }
}

/// Performing the hardware actions of a sequence of steps has the effect of the steps.
pub proof fn lemma_run_plan_ops(m: FlashImage, steps: Seq<FlashStep>)
    ensures
        run_ops(m, plan_ops(steps)) == run_steps(m, steps),
    decreases steps.len(),
{
    if steps.len() > 0 {
        lemma_run_plan_ops(m, steps.drop_last());
        lemma_run_ops_append(m, plan_ops(steps.drop_last()), step_ops(steps.last()));
    }
}

/// The byte that programming a doubleword writes at position `k` (0 to 7) of it.
pub open spec fn doubleword_byte(low: u32, high: u32, k: int) -> u8 {
    if k < WORD_SIZE as int {
        word_byte(low, k)
    } else {
        word_byte(high, k - WORD_SIZE as int)
    }
}

/// The effect of programming a doubleword: the bytes of the doubleword are
/// programmed with its words, and no other byte of the flash changes.
pub proof fn lemma_program_step(m: FlashImage, s: FlashStep)
    requires
        image_wf(m),
        step_wf(s),
        s is ProgramDoubleword,
    ensures
        image_wf(apply_step(m, s)),
        ({
            let address = s->ProgramDoubleword_address;
            let low = s->ProgramDoubleword_low;
            let high = s->ProgramDoubleword_high;
            apply_step(m, s).cells =~= Seq::new(
                m.cells.len(),
                |x: int|
                    if address <= x < address + 8 {
                        m.cells[x] & doubleword_byte(low, high, x - address)
                    } else {
                        m.cells[x]
                    },
            )
        }),
{
    let page = s->ProgramDoubleword_page;
    let address = s->ProgramDoubleword_address;
    let low = s->ProgramDoubleword_low;
    let high = s->ProgramDoubleword_high;
    let ops = step_ops(s);
    let base = page_base(page as int);
    let o = address as int % FLASH_PAGE_SIZE as int;
    assert(address as int == base + o && o + 8 <= FLASH_PAGE_SIZE as int);
    assert((address as int + 4) % FLASH_PAGE_SIZE as int == o + 4);
    let m1 = apply_op(m, ops[0]);
    let m2 = apply_op(m1, ops[1]);
    let m3 = apply_op(m2, ops[2]);
    let m4 = apply_op(m3, ops[3]);
    let e = Seq::<FlashOp>::empty();
    assert(ops =~= e.push(ops[0]).push(ops[1]).push(ops[2]).push(ops[3]));
    assert(run_ops(m, e) == m);
    lemma_run_ops_push(m, e, ops[0]);
    lemma_run_ops_push(m, e.push(ops[0]), ops[1]);
    lemma_run_ops_push(m, e.push(ops[0]).push(ops[1]), ops[2]);
    lemma_run_ops_push(m, e.push(ops[0]).push(ops[1]).push(ops[2]), ops[3]);
    assert(run_ops(m, ops) == m4);
    assert forall|i: int| 0 <= i < FLASH_PAGE_SIZE as int implies #[trigger] m3.page_buffer[i] == (
    if o <= i < o + 8 {
        doubleword_byte(low, high, i - o)
    } else {
        ERASED_BYTE
    }) by {}
    assert forall|x: int| 0 <= x < m.cells.len() implies #[trigger] m4.cells[x] == (
    if address <= x < address + 8 {
        m.cells[x] & doubleword_byte(low, high, x - address)
    } else {
        m.cells[x]
    }) by {
        if in_page(page as int, x) {
            lemma_and_erased(m.cells[x]);
        }
    }
}

/// Performing one more action after a sequence applies that action to the sequence's result.
pub proof fn lemma_run_ops_push(m: FlashImage, ops: Seq<FlashOp>, op: FlashOp)
    ensures
        run_ops(m, ops.push(op)) == apply_op(run_ops(m, ops), op),
{
    assert(ops.push(op).drop_last() =~= ops);
}

/// Byte `k` (0 to 3, least significant first) of a word.
pub fn byte_of_word(w: u32, k: u32) -> (b: u8)
    requires
        k < 4,
    ensures
        b == word_byte(w, k as int),
{
    if k == 0 {
        (w & 0xFFu32) as u8
    } else if k == 1 {
        ((w >> 8u32) & 0xFFu32) as u8
    } else if k == 2 {
        ((w >> 16u32) & 0xFFu32) as u8
    } else {
        ((w >> 24u32) & 0xFFu32) as u8
    }
}

/// A flash controller simulated in memory, which performs hardware actions
/// as the model says.
pub struct SimulatedFlash {
    cells: Vec<u8>,
    page_buffer: Vec<u8>,
}

impl View for SimulatedFlash {
    type V = FlashImage;

    closed spec fn view(&self) -> FlashImage {
        FlashImage { cells: self.cells@, page_buffer: self.page_buffer@ }
    }
}

impl SimulatedFlash {
    /// A flash whose every byte holds `fill`, with a cleared page buffer.
    pub fn new(fill: u8) -> (r: Self)
        ensures
            image_wf(r@),
            r@.cells == Seq::new(FLASH_SIZE as nat, |x: int| fill),
            r@.page_buffer == Seq::new(FLASH_PAGE_SIZE as nat, |i: int| ERASED_BYTE),
    {
        let mut cells: Vec<u8> = Vec::new();
        let mut x: u32 = 0;
        while x < FLASH_SIZE
            invariant
                x <= FLASH_SIZE,
                cells@ =~= Seq::new(x as nat, |y: int| fill),
            decreases FLASH_SIZE - x,
        {
            cells.push(fill);
            x = x + 1;
        }
        let mut page_buffer: Vec<u8> = Vec::new();
        let mut i: u32 = 0;
        while i < FLASH_PAGE_SIZE
            invariant
                i <= FLASH_PAGE_SIZE,
                page_buffer@ =~= Seq::new(i as nat, |y: int| ERASED_BYTE),
            decreases FLASH_PAGE_SIZE - i,
        {
            page_buffer.push(ERASED_BYTE);
            i = i + 1;
        }
        SimulatedFlash { cells, page_buffer }
    }

    /// The byte at flash address `address`.
    pub fn byte_at(&self, address: u32) -> (b: u8)
        requires
            image_wf(self@),
            address < FLASH_SIZE,
        ensures
            b == self@.cells[address as int],
    {
        self.cells[address as usize]
    }

    /// The bytes of `[address, address + length)`.
    pub fn read(&self, address: u32, length: u32) -> (r: Vec<u8>)
        requires
            image_wf(self@),
            address as int + length as int <= FLASH_SIZE as int,
        ensures
            r@ == self@.cells.subrange(address as int, address as int + length as int),
    {
        let mut r: Vec<u8> = Vec::new();
        let mut i: u32 = 0;
        while i < length
            invariant
                image_wf(self@),
                address as int + length as int <= FLASH_SIZE as int,
                i <= length,
                r@ =~= self@.cells.subrange(address as int, address as int + i as int),
            decreases length - i,
        {
            r.push(self.cells[(address + i) as usize]);
            i = i + 1;
        }
        r
    }

    /// Performs one hardware action.
    pub fn apply(&mut self, op: &FlashOp)
        requires
            image_wf(old(self)@),
        ensures
            image_wf(final(self)@),
            final(self)@ == apply_op(old(self)@, *op),
    {
        let ghost m = self@;
        match op {
            FlashOp::Command { command, page } => match command {
                FlashCommand::ErasePage => {
                    if *page < FLASH_PAGE_COUNT {
                        let base = *page * FLASH_PAGE_SIZE;
                        let mut i: u32 = 0;
                        while i < FLASH_PAGE_SIZE
                            invariant
                                image_wf(self@),
                                self@.page_buffer == m.page_buffer,
                                base as int == page_base(*page as int),
                                base + FLASH_PAGE_SIZE <= FLASH_SIZE,
                                i <= FLASH_PAGE_SIZE,
                                forall|x: int|
                                    0 <= x < FLASH_SIZE as int ==> #[trigger] self@.cells[x] == (
                                    if base <= x < base + i {
                                        ERASED_BYTE
                                    } else {
                                        m.cells[x]
                                    }),
                            decreases FLASH_PAGE_SIZE - i,
                        {
                            self.cells[(base + i) as usize] = ERASED_BYTE;
                            i = i + 1;
                        }
                    }
                    assert(self@.cells =~= apply_op(m, *op).cells);
                },
                FlashCommand::WritePage => {
                    if *page < FLASH_PAGE_COUNT {
                        let base = *page * FLASH_PAGE_SIZE;
                        let mut i: u32 = 0;
                        while i < FLASH_PAGE_SIZE
                            invariant
                                image_wf(self@),
                                self@.page_buffer == m.page_buffer,
                                base as int == page_base(*page as int),
                                base + FLASH_PAGE_SIZE <= FLASH_SIZE,
                                i <= FLASH_PAGE_SIZE,
                                forall|x: int|
                                    0 <= x < FLASH_SIZE as int ==> #[trigger] self@.cells[x] == (
                                    if base <= x < base + i {
                                        m.cells[x] & m.page_buffer[x - base]
                                    } else {
                                        m.cells[x]
                                    }),
                            decreases FLASH_PAGE_SIZE - i,
                        {
                            let b = self.cells[(base + i) as usize] & self.page_buffer[i as usize];
                            self.cells[(base + i) as usize] = b;
                            i = i + 1;
                        }
                    }
                    assert(self@.cells =~= apply_op(m, *op).cells);
                },
                FlashCommand::ClearPageBuffer => {
                    let mut i: u32 = 0;
                    while i < FLASH_PAGE_SIZE
                        invariant
                            image_wf(self@),
                            self@.cells == m.cells,
                            i <= FLASH_PAGE_SIZE,
                            forall|j: int|
                                0 <= j < FLASH_PAGE_SIZE as int ==> #[trigger] self@.page_buffer[j] == (
                                if j < i {
                                    ERASED_BYTE
                                } else {
                                    m.page_buffer[j]
                                }),
                        decreases FLASH_PAGE_SIZE - i,
                    {
                        self.page_buffer[i as usize] = ERASED_BYTE;
                        i = i + 1;
                    }
                    assert(self@.page_buffer =~= apply_op(m, *op).page_buffer);
                },
            },
            FlashOp::StoreWord { address, value } => {
                let o = *address % FLASH_PAGE_SIZE;
                let mut k: u32 = 0;
                while k < WORD_SIZE
                    invariant
                        image_wf(self@),
                        self@.cells == m.cells,
                        o < FLASH_PAGE_SIZE,
                        o as int == *address as int % FLASH_PAGE_SIZE as int,
                        k <= WORD_SIZE,
                        forall|j: int|
                            0 <= j < FLASH_PAGE_SIZE as int ==> #[trigger] self@.page_buffer[j] == (
                            if o <= j < o + k {
                                word_byte(*value, j - o)
                            } else {
                                m.page_buffer[j]
                            }),
                    decreases WORD_SIZE - k,
                {
                    if o + k < FLASH_PAGE_SIZE {
                        let b = byte_of_word(*value, k);
                        self.page_buffer[(o + k) as usize] = b;
                    }
                    k = k + 1;
                }
                assert(self@.page_buffer =~= apply_op(m, *op).page_buffer);
            },
        }
    }

    /// Performs the hardware actions of one step.
    pub fn perform_step(&mut self, step: &FlashStep)
        requires
            image_wf(old(self)@),
            step_wf(*step),
        ensures
            image_wf(final(self)@),
            final(self)@ == apply_step(old(self)@, *step),
    {
        let ghost m = self@;
        let ghost ops = step_ops(*step);
        let n = step.op_count();
        let mut i: usize = 0;
        while i < n
            invariant
                step_wf(*step),
                n == ops.len(),
                ops == step_ops(*step),
                i <= n,
                image_wf(self@),
                self@ == run_ops(m, ops.take(i as int)),
            decreases n - i,
        {
            let op = step.op_at(i);
            proof {
                assert(ops.take(i as int + 1) =~= ops.take(i as int).push(op));
                lemma_run_ops_push(m, ops.take(i as int), op);
            }
            self.apply(&op);
            i = i + 1;
        }
        assert(ops.take(n as int) =~= ops);
    }

    /// Performs the steps in order.
    pub fn perform_steps(&mut self, steps: &[FlashStep])
        requires
            image_wf(old(self)@),
            forall|i: int| 0 <= i < steps@.len() ==> step_wf(#[trigger] steps@[i]),
        ensures
            image_wf(final(self)@),
            final(self)@ == run_steps(old(self)@, steps@),
    {
        let ghost m = self@;
        let mut i: usize = 0;
        while i < steps.len()
            invariant
                forall|i: int| 0 <= i < steps@.len() ==> step_wf(#[trigger] steps@[i]),
                i <= steps@.len(),
                image_wf(self@),
                self@ == run_steps(m, steps@.take(i as int)),
            decreases steps@.len() - i,
        {
            proof {
                assert(steps@.take(i as int + 1).drop_last() =~= steps@.take(i as int));
            }
            self.perform_step(&steps[i]);
            i = i + 1;
        }
        assert(steps@.take(steps@.len() as int) =~= steps@);
    }
}

} // verus!
