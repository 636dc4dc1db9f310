use vstd::prelude::*;
use crate::config::RAMConfig;

verus! {

/// Where loaded programs begin.
pub const PROGRAM_START_ADDRESS: u16 = 0x200;

/// The number of addressable bytes.
pub const HEAP_SIZE: usize = 0x1000;

/// The heap position `k` bytes past `a`, wrapping round past the last byte
/// (for `a < HEAP_SIZE` and `k < 2 * HEAP_SIZE - a`).
pub open spec fn wrap_pos(a: int, k: int) -> int {
    if a + k < HEAP_SIZE {
        a + k
    } else {
        a + k - HEAP_SIZE
    }
}

/// How far position `i` lies forward of position `a`, going round the heap.
pub open spec fn forward_offset(a: int, i: int) -> int {
    if i >= a {
        i - a
    } else {
        i - a + HEAP_SIZE
    }
}

/// The heap position that an address names once it is taken modulo the heap.
pub open spec fn start_of(addr: u16) -> int {
    addr as int % (HEAP_SIZE as int)
}

/// Whether an access of `count` bytes at `addr` is refused: without overflow
/// allowed, it must start and end inside the heap.
pub open spec fn access_refused(allow_overflow: bool, addr: u16, count: int) -> bool {
    !allow_overflow && (addr >= HEAP_SIZE || addr + count > HEAP_SIZE)
}

/// Whether an access wraps round the end of the heap at most once, which
/// the memory needs (a longer one would index past the heap).
pub open spec fn access_fits(allow_overflow: bool, addr: u16, count: int) -> bool {
    allow_overflow ==> start_of(addr) + count <= 2 * HEAP_SIZE
}

/// The heap after `vals` is written byte after byte from position `a`,
/// wrapping round; where a long write comes round twice, the later byte stays.
pub open spec fn heap_after_write(heap: Seq<u8>, vals: Seq<u8>, a: int) -> Seq<u8> {
    Seq::new(
        heap.len(),
        |i: int|
            {
                let off = forward_offset(a, i);
                if off + HEAP_SIZE < vals.len() {
                    vals[off + HEAP_SIZE]
                } else if off < vals.len() {
                    vals[off]
                } else {
                    heap[i]
                }
            },
    )
}

/// The `count` bytes of the heap from position `a`, wrapping round.
pub open spec fn heap_read(heap: Seq<u8>, a: int, count: int) -> Seq<u8> {
    Seq::new(count as nat, |k: int| heap[wrap_pos(a, k)])
}

/// A fresh heap: zeros, with the font at `start`.
pub open spec fn heap_with_font(start: int, font: Seq<u8>) -> Seq<u8> {
    Seq::new(
        HEAP_SIZE as nat,
        |i: int|
            if start <= i < start + font.len() {
                font[i - start]
            } else {
                0u8
            },
    )
}

/// The stack and stack pointer after a push of `val`: at a full stack, with
/// overflow allowed, the push starts again at the bottom.
pub open spec fn stack_after_push(stack: Seq<u16>, sp: nat, val: u16) -> (Seq<u16>, nat) {
    if sp == stack.len() {
        (stack.update(0, val), 1)
    } else {
        (stack.update(sp as int, val), sp + 1)
    }
}

/// The stack pointer after a pop, and the slot that the value comes from:
/// at an empty stack, with overflow allowed, the pop goes round to the top.
pub open spec fn slot_popped(stack_len: nat, sp: nat) -> nat {
    if sp == 0 {
        (stack_len - 1) as nat
    } else {
        (sp - 1) as nat
    }
}

/// Reading back what was just written gives the written bytes, for a write
/// of at most `HEAP_SIZE` bytes from any heap position (a longer write
/// overwrites its own start when it comes round).
pub proof fn lemma_read_after_write(heap: Seq<u8>, vals: Seq<u8>, a: int)
    requires
        heap.len() == HEAP_SIZE,
        0 <= a < HEAP_SIZE,
        vals.len() <= HEAP_SIZE,
    ensures
        heap_read(heap_after_write(heap, vals, a), a, vals.len() as int) == vals,
{
    let h2 = heap_after_write(heap, vals, a);
    assert forall|k: int| 0 <= k < vals.len() implies heap_read(h2, a, vals.len() as int)[k]
        == vals[k] by {
        let i = wrap_pos(a, k);
        assert(forward_offset(a, i) == k);
    }
    assert(heap_read(h2, a, vals.len() as int) =~= vals);
}

/// A write changes no byte outside the positions it covers.
pub proof fn lemma_write_keeps_other_bytes(heap: Seq<u8>, vals: Seq<u8>, a: int, i: int)
    requires
        heap.len() == HEAP_SIZE,
        0 <= a < HEAP_SIZE,
        0 <= i < HEAP_SIZE,
        forall|k: int| 0 <= k < vals.len() ==> wrap_pos(a, k) != i,
        vals.len() <= 2 * HEAP_SIZE - a,
    ensures
        heap_after_write(heap, vals, a)[i] == heap[i],
{
    let off = forward_offset(a, i);
    if off < vals.len() {
        assert(wrap_pos(a, off) == i);
    }
}

/// Writing back the bytes just read leaves the heap as it was.
pub proof fn lemma_write_what_was_read(heap: Seq<u8>, a: int, count: int)
    requires
        heap.len() == HEAP_SIZE,
        0 <= a < HEAP_SIZE,
        0 <= count <= HEAP_SIZE,
    ensures
        heap_after_write(heap, heap_read(heap, a, count), a) == heap,
{
    let r = heap_read(heap, a, count);
    assert forall|i: int| 0 <= i < HEAP_SIZE implies heap_after_write(heap, r, a)[i]
        == heap[i] by {
        let off = forward_offset(a, i);
        if off < count {
            assert(wrap_pos(a, off) == i);
        }
    }
    assert(heap_after_write(heap, r, a) =~= heap);
}

/// A pop right after an accepted push gives back the pushed value; where
/// the push did not go round, the stack pointer is back where it was.
pub proof fn lemma_pop_after_push(stack: Seq<u16>, sp: nat, val: u16)
    requires
        stack.len() > 0,
        sp <= stack.len(),
    ensures
        ({
            let (s2, sp2) = stack_after_push(stack, sp, val);
            &&& sp2 > 0
            &&& s2[slot_popped(s2.len(), sp2) as int] == val
            &&& sp < stack.len() ==> slot_popped(s2.len(), sp2) == sp
        }),
{
}

/// A push leaves every slot below the stack pointer as it was, so values
/// pushed earlier come back after the later ones are popped.
pub proof fn lemma_push_keeps_lower_slots(stack: Seq<u16>, sp: nat, val: u16, i: int)
    requires
        stack.len() > 0,
        sp < stack.len(),
        0 <= i < sp,
    ensures
        stack_after_push(stack, sp, val).0[i] == stack[i],
        stack_after_push(stack, sp, val).0.len() == stack.len(),
{
}

/// The machine's memory: a heap of `HEAP_SIZE` bytes and a call stack.
/// A refused access stops the machine (see `is_active`).
pub struct Ram {
    config: RAMConfig,
    heap: Vec<u8>,
    stack: Vec<u16>,
    stack_ptr: usize,
    active: bool,
}

impl Ram {
    /// The heap's bytes.
    pub closed spec fn heap_bytes(&self) -> Seq<u8> {
        self.heap@
    }

    /// The stack's slots, bottom first.
    pub closed spec fn stack_slots(&self) -> Seq<u16> {
        self.stack@
    }

    /// The number of values on the stack.
    pub closed spec fn stack_top(&self) -> nat {
        self.stack_ptr as nat
    }

    /// Whether no access has been refused.
    pub closed spec fn running(&self) -> bool {
        self.active
    }

    /// The settings that the memory was made with.
    pub closed spec fn settings(&self) -> RAMConfig {
        self.config
    }

    /// The memory's invariant.
    pub closed spec fn wf(&self) -> bool {
        &&& self.heap@.len() == HEAP_SIZE
        &&& self.stack@.len() == self.config.stack_size
        &&& self.config.stack_size > 0
        &&& self.stack_ptr <= self.config.stack_size
        &&& self.config.font_starting_address <= 0xFB0
    }

    /// What every memory satisfies.
    pub proof fn lemma_wf_facts(&self)
        requires
            self.wf(),
        ensures
            self.heap_bytes().len() == HEAP_SIZE,
            self.stack_slots().len() == self.settings().stack_size,
            self.stack_slots().len() > 0,
            self.stack_top() <= self.stack_slots().len(),
            self.settings().font_starting_address <= 0xFB0,
    {
    }

    /// Whether the memory accepts these settings.
    pub open spec fn config_accepted(config: RAMConfig) -> bool {
        config.stack_size != 0 && config.font_starting_address <= 0xFB0
    }

    /// Builds the memory: a zeroed heap with the font copied in at its
    /// starting address, and an empty stack. Refuses a stack of size zero
    /// and a font that would not end inside the heap's first 0x1000 bytes.
    pub fn try_new(config: RAMConfig) -> (r: Option<Ram>)
        ensures
            r.is_some() == Self::config_accepted(config),
            r matches Some(ram) ==> {
                &&& ram.wf()
                &&& ram.settings() == config
                &&& ram.heap_bytes() == heap_with_font(
                    config.font_starting_address as int,
                    config.font_data@,
                )
                &&& ram.stack_slots() == Seq::new(config.stack_size as nat, |i: int| 0u16)
                &&& ram.stack_top() == 0
                &&& ram.running()
            },
    {
        if config.stack_size == 0 {
            return None;
        }
        if config.font_starting_address > 0xFB0 {
            return None;
        }
        let mut heap: Vec<u8> = Vec::new();
        let mut i: usize = 0;
        while i < HEAP_SIZE
            invariant
                i <= HEAP_SIZE,
                heap@.len() == i,
                forall|j: int| 0 <= j < i ==> heap@[j] == 0u8,
            decreases HEAP_SIZE - i,
        {
            heap.push(0u8);
            i = i + 1;
        }
        let mut stack: Vec<u16> = Vec::new();
        let mut j: usize = 0;
        while j < config.stack_size
            invariant
                j <= config.stack_size,
                stack@.len() == j,
                forall|k: int| 0 <= k < j ==> stack@[k] == 0u16,
            decreases config.stack_size - j,
        {
            stack.push(0u16);
            j = j + 1;
        }
        let start = config.font_starting_address as usize;
        let mut k: usize = 0;
        while k < 80
            invariant
                start <= 0xFB0,
                k <= 80,
                heap@.len() == HEAP_SIZE,
                forall|p: int|
                    0 <= p < HEAP_SIZE ==> heap@[p] == (if start <= p < start + k {
                        config.font_data@[p - start]
                    } else {
                        0u8
                    }),
            decreases 80 - k,
        {
            heap.set(start + k, config.font_data[k]);
            k = k + 1;
        }
        assert(heap@ =~= heap_with_font(start as int, config.font_data@));
        assert(stack@ =~= Seq::new(config.stack_size as nat, |i: int| 0u16));
        Some(Ram { config, heap, stack, stack_ptr: 0, active: true })
    }

    /// A memory of 16 stack slots that refuses every overflow, with a font
    /// of bytes 0x67 at address 0.
    pub fn new_default_conservative() -> (r: Ram)
        ensures
            r.wf(),
            r.settings().stack_size == 16,
            !r.settings().allow_stack_overflow,
            !r.settings().allow_heap_overflow,
            r.settings().font_starting_address == 0,
            r.settings().font_data@ == Seq::new(80, |i: int| 0x67u8),
            r.heap_bytes() == heap_with_font(0, Seq::new(80, |i: int| 0x67u8)),
            r.stack_slots() == Seq::new(16, |i: int| 0u16),
            r.stack_top() == 0,
            r.running(),
    {
        let config = RAMConfig {
            stack_size: 16,
            allow_stack_overflow: false,
            allow_heap_overflow: false,
            font_starting_address: 0,
            font_data: [0x67u8; 80],
        };
        assert(config.font_data@ =~= Seq::new(80, |i: int| 0x67u8));
        let r = Self::try_new(config);
        r.unwrap()
    }

    /// A memory of 16 stack slots that lets the stack and the heap wrap
    /// round, with a font of bytes 0x67 at address 0.
    pub fn new_default_liberal() -> (r: Ram)
        ensures
            r.wf(),
            r.settings().stack_size == 16,
            r.settings().allow_stack_overflow,
            r.settings().allow_heap_overflow,
            r.settings().font_starting_address == 0,
            r.settings().font_data@ == Seq::new(80, |i: int| 0x67u8),
            r.heap_bytes() == heap_with_font(0, Seq::new(80, |i: int| 0x67u8)),
            r.stack_slots() == Seq::new(16, |i: int| 0u16),
            r.stack_top() == 0,
            r.running(),
    {
        let config = RAMConfig {
            stack_size: 16,
            allow_stack_overflow: true,
            allow_heap_overflow: true,
            font_starting_address: 0,
            font_data: [0x67u8; 80],
        };
        assert(config.font_data@ =~= Seq::new(80, |i: int| 0x67u8));
        let r = Self::try_new(config);
        r.unwrap()
    }
    /// Whether no access has been refused yet.
    pub fn is_active(&self) -> (r: bool)
        ensures
            r == self.running(),
    {
        self.active
    }

    /// The settings that the memory was made with.
    pub fn get_config(&self) -> (r: &RAMConfig)
        ensures
            *r == self.settings(),
    {
        &self.config
    }

    /// Copies a program into the heap from `PROGRAM_START_ADDRESS`. A program
    /// that does not fit stops the machine and leaves the heap as it was.
    pub fn load_program(&mut self, program: &[u8]) -> (ok: bool)
        requires
            old(self).wf(),
        ensures
            final(self).wf(),
            ok == (PROGRAM_START_ADDRESS + program@.len() <= HEAP_SIZE),
            ok ==> final(self).heap_bytes() == heap_after_write(
                old(self).heap_bytes(),
                program@,
                PROGRAM_START_ADDRESS as int,
            ),
            !ok ==> final(self).heap_bytes() == old(self).heap_bytes(),
            final(self).running() == (old(self).running() && ok),
            final(self).stack_slots() == old(self).stack_slots(),
            final(self).stack_top() == old(self).stack_top(),
            final(self).settings() == old(self).settings(),
    {
        let start = PROGRAM_START_ADDRESS as usize;
        if program.len() > HEAP_SIZE - start {
            self.active = false;
            return false;
        }
        self.copy_into_heap(program, start);
        true
    }

    /// Writes `vals` byte after byte from heap position `a`, wrapping round.
    fn copy_into_heap(&mut self, vals: &[u8], a: usize)
        requires
            old(self).wf(),
            a < HEAP_SIZE,
            a + vals@.len() <= 2 * HEAP_SIZE,
        ensures
            final(self).wf(),
            final(self).heap_bytes() == heap_after_write(old(self).heap_bytes(), vals@, a as int),
            final(self).stack_slots() == old(self).stack_slots(),
            final(self).stack_top() == old(self).stack_top(),
            final(self).settings() == old(self).settings(),
            final(self).running() == old(self).running(),
    {
        let ghost h0 = self.heap@;
        let count = vals.len();
        let mut k: usize = 0;
        assert(self.heap@ =~= heap_after_write(h0, vals@.take(0), a as int));
        while k < count
            invariant
                old(self).wf(),
                a < HEAP_SIZE,
                a + count <= 2 * HEAP_SIZE,
                count == vals@.len(),
                k <= count,
                h0 == old(self).heap@,
                self.heap@ == heap_after_write(h0, vals@.take(k as int), a as int),
                self.stack@ == old(self).stack@,
                self.stack_ptr == old(self).stack_ptr,
                self.config == old(self).config,
                self.active == old(self).active,
            decreases count - k,
        {
            let pos = if a + k < HEAP_SIZE {
                a + k
            } else {
                a + k - HEAP_SIZE
            };
            let ghost before = self.heap@;
            self.heap.set(pos, vals[k]);
            proof {
                let nxt = heap_after_write(h0, vals@.take(k + 1), a as int);
                assert forall|i: int| 0 <= i < HEAP_SIZE implies self.heap@[i] == nxt[i] by {
                    let off = forward_offset(a as int, i);
                    if i == pos {
                        assert(off == k || off + HEAP_SIZE == k);
                    } else {
                        assert(off != k && off + HEAP_SIZE != k);
                        assert(before[i] == heap_after_write(h0, vals@.take(k as int), a as int)[i]);
                    }
                }
                assert(self.heap@ =~= nxt);
            }
            k = k + 1;
        }
        assert(vals@.take(count as int) =~= vals@);
    }

    /// The heap address of the font sprite for hexadecimal digit `digit`
    /// (each sprite is five bytes long).
    pub fn get_hex_digit_address(&self, digit: u8) -> (r: u16)
        requires
            self.wf(),
        ensures
            r == self.settings().font_starting_address + 5 * digit,
    {
        self.config.font_starting_address + (digit as u16) * 5
    }

    /// Writes one byte. An address past the heap is refused, or with heap
    /// overflow allowed, taken modulo the heap size.
    pub fn write_byte(&mut self, val: u8, addr: u16) -> (ok: bool)
        requires
            old(self).wf(),
        ensures
            final(self).wf(),
            ok == !access_refused(old(self).settings().allow_heap_overflow, addr, 0),
            ok ==> final(self).heap_bytes() == old(self).heap_bytes().update(start_of(addr), val),
            !ok ==> final(self).heap_bytes() == old(self).heap_bytes(),
            final(self).running() == (old(self).running() && ok),
            final(self).stack_slots() == old(self).stack_slots(),
            final(self).stack_top() == old(self).stack_top(),
            final(self).settings() == old(self).settings(),
    {
        let mut a = addr as usize;
        if a >= HEAP_SIZE {
            if !self.config.allow_heap_overflow {
                self.active = false;
                return false;
            }
            a = a % 0x1000;
        }
        self.heap.set(a, val);
        true
    }

    /// Writes `vals` from `addr`. An address past the heap, or a write that
    /// runs past its end, is refused; with heap overflow allowed the address
    /// is taken modulo the heap size and the write wraps round to address 0.
    pub fn write_bytes(&mut self, vals: &[u8], addr: u16) -> (ok: bool)
        requires
            old(self).wf(),
            access_fits(old(self).settings().allow_heap_overflow, addr, vals@.len() as int),
        ensures
            final(self).wf(),
            ok == !access_refused(
                old(self).settings().allow_heap_overflow,
                addr,
                vals@.len() as int,
            ),
            ok ==> final(self).heap_bytes() == heap_after_write(
                old(self).heap_bytes(),
                vals@,
                start_of(addr),
            ),
            !ok ==> final(self).heap_bytes() == old(self).heap_bytes(),
            final(self).running() == (old(self).running() && ok),
            final(self).stack_slots() == old(self).stack_slots(),
            final(self).stack_top() == old(self).stack_top(),
            final(self).settings() == old(self).settings(),
    {
        let mut a = addr as usize;
        let count = vals.len();
        if a >= HEAP_SIZE {
            if !self.config.allow_heap_overflow {
                self.active = false;
                return false;
            }
            a = a % 0x1000;
        }
        if count > HEAP_SIZE - a {
            if !self.config.allow_heap_overflow {
                self.active = false;
                return false;
            }
        }
        self.copy_into_heap(vals, a);
        true
    }

    /// Reads one byte, on the terms of `write_byte`.
    pub fn read_byte(&mut self, addr: u16) -> (r: Option<u8>)
        requires
            old(self).wf(),
        ensures
            final(self).wf(),
            r.is_some() == !access_refused(old(self).settings().allow_heap_overflow, addr, 0),
            r matches Some(b) ==> b == old(self).heap_bytes()[start_of(addr)],
            final(self).running() == (old(self).running() && r.is_some()),
            final(self).heap_bytes() == old(self).heap_bytes(),
            final(self).stack_slots() == old(self).stack_slots(),
            final(self).stack_top() == old(self).stack_top(),
            final(self).settings() == old(self).settings(),
    {
        let mut a = addr as usize;
        if a >= HEAP_SIZE {
            if !self.config.allow_heap_overflow {
                self.active = false;
                return None;
            }
            a = a % 0x1000;
        }
        Some(self.heap[a])
    }

    /// Reads `count` bytes from `addr`, on the terms of `write_bytes`.
    pub fn read_bytes(&mut self, addr: u16, count: u16) -> (r: Option<Vec<u8>>)
        requires
            old(self).wf(),
            access_fits(old(self).settings().allow_heap_overflow, addr, count as int),
        ensures
            final(self).wf(),
            r.is_some() == !access_refused(
                old(self).settings().allow_heap_overflow,
                addr,
                count as int,
            ),
            r matches Some(bytes) ==> bytes@ == heap_read(
                old(self).heap_bytes(),
                start_of(addr),
                count as int,
            ),
            final(self).running() == (old(self).running() && r.is_some()),
            final(self).heap_bytes() == old(self).heap_bytes(),
            final(self).stack_slots() == old(self).stack_slots(),
            final(self).stack_top() == old(self).stack_top(),
            final(self).settings() == old(self).settings(),
    {
        let mut a = addr as usize;
        let count = count as usize;
        if a >= HEAP_SIZE {
            if !self.config.allow_heap_overflow {
                self.active = false;
                return None;
            }
            a = a % 0x1000;
        }
        if count > HEAP_SIZE - a {
            if !self.config.allow_heap_overflow {
                self.active = false;
                return None;
            }
        }
        let mut bytes: Vec<u8> = Vec::new();
        let mut k: usize = 0;
        while k < count
            invariant
                self.wf(),
                a < HEAP_SIZE,
                a + count <= 2 * HEAP_SIZE,
                k <= count,
                bytes@ == heap_read(self.heap@, a as int, k as int),
            decreases count - k,
        {
            let pos = if a + k < HEAP_SIZE {
                a + k
            } else {
                a + k - HEAP_SIZE
            };
            bytes.push(self.heap[pos]);
            k = k + 1;
            assert(bytes@ =~= heap_read(self.heap@, a as int, k as int));
        }
        Some(bytes)
    }

    /// Pushes a return address. On a full stack the push is refused, or with
    /// stack overflow allowed, goes to the bottom slot and the stack holds one.
    pub fn push_to_stack(&mut self, val: u16) -> (ok: bool)
        requires
            old(self).wf(),
        ensures
            final(self).wf(),
            ok == (old(self).stack_top() < old(self).stack_slots().len()
                || old(self).settings().allow_stack_overflow),
            ok ==> (final(self).stack_slots(), final(self).stack_top()) == stack_after_push(
                old(self).stack_slots(),
                old(self).stack_top(),
                val,
            ),
            !ok ==> final(self).stack_slots() == old(self).stack_slots(),
            !ok ==> final(self).stack_top() == old(self).stack_top(),
            final(self).running() == (old(self).running() && ok),
            final(self).heap_bytes() == old(self).heap_bytes(),
            final(self).settings() == old(self).settings(),
    {
        let sp = self.stack_ptr;
        if sp == self.config.stack_size {
            if !self.config.allow_stack_overflow {
                self.active = false;
                return false;
            }
            self.stack.set(0, val);
            self.stack_ptr = 1;
            return true;
        }
        self.stack.set(sp, val);
        self.stack_ptr = sp + 1;
        true
    }

    /// Pops a return address. On an empty stack the pop is refused, or with
    /// stack overflow allowed, comes from the top slot and leaves the stack
    /// one short of full.
    pub fn pop_from_stack(&mut self) -> (r: Option<u16>)
        requires
            old(self).wf(),
        ensures
            final(self).wf(),
            r.is_some() == (old(self).stack_top() > 0 || old(self).settings().allow_stack_overflow),
            r matches Some(v) ==> {
                let slot = slot_popped(old(self).stack_slots().len(), old(self).stack_top());
                &&& v == old(self).stack_slots()[slot as int]
                &&& final(self).stack_top() == slot
            },
            r is None ==> final(self).stack_top() == old(self).stack_top(),
            final(self).stack_slots() == old(self).stack_slots(),
            final(self).running() == (old(self).running() && r.is_some()),
            final(self).heap_bytes() == old(self).heap_bytes(),
            final(self).settings() == old(self).settings(),
    {
        let sp = self.stack_ptr;
        if sp == 0 {
            if !self.config.allow_stack_overflow {
                self.active = false;
                return None;
            }
            self.stack_ptr = self.config.stack_size - 1;
            return Some(self.stack[self.config.stack_size - 1]);
        }
        self.stack_ptr = sp - 1;
        Some(self.stack[sp - 1])
    }
}

} // verus!
