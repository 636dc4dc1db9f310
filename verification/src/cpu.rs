use vstd::prelude::*;
use crate::config::{CPUConfig, RAMConfig};
use crate::ram::{
    Ram, HEAP_SIZE, PROGRAM_START_ADDRESS, access_refused, access_fits, heap_after_write,
    heap_read, start_of, stack_after_push, slot_popped,
};

verus! {

/// The whole machine as seen by an instruction: registers, program counter,
/// index register, settings, and the memory's heap and stack.
pub ghost struct Machine {
    pub v: Seq<u8>,
    pub pc: u16,
    pub index: u16,
    pub active: bool,
    pub config: CPUConfig,
    pub heap: Seq<u8>,
    pub stack: Seq<u16>,
    pub sp: nat,
    pub ram_active: bool,
    pub ram_config: RAMConfig,
}

/// The machine with register `x` set to `val`.
pub open spec fn set_reg(m: Machine, x: int, val: u8) -> Machine {
    Machine { v: m.v.update(x, val), ..m }
}

/// The machine after the program counter moves on by one instruction (two
/// bytes). Moving past the heap's end goes round to its start where the
/// settings allow it, and otherwise stops the machine.
pub open spec fn pc_step(m: Machine) -> Machine {
    if m.pc + 2 >= HEAP_SIZE {
        if m.config.allow_program_counter_overflow {
            Machine { pc: (m.pc + 2 - HEAP_SIZE) as u16, ..m }
        } else {
            Machine { active: false, ..m }
        }
    } else {
        Machine { pc: (m.pc + 2) as u16, ..m }
    }
}

/// The machine, and whether the index register left the heap, after the
/// index register is moved on by `n`: leaving the heap stops the machine
/// (`None`) unless the settings allow it, when the index goes round.
pub open spec fn index_step(m: Machine, n: u16) -> (Machine, Option<bool>) {
    let next = m.index + n;
    if next >= HEAP_SIZE {
        if m.config.allow_index_register_overflow {
            (Machine { index: (next % (HEAP_SIZE as int)) as u16, ..m }, Some(true))
        } else {
            (Machine { active: false, ..m }, None)
        }
    } else {
        (Machine { index: next as u16, ..m }, Some(false))
    }
}

/// The machine, and whether the write was accepted, after `vals` is
/// written to memory at `addr`.
pub open spec fn ram_write(m: Machine, vals: Seq<u8>, addr: u16) -> (Machine, bool) {
    if access_refused(m.ram_config.allow_heap_overflow, addr, vals.len() as int) {
        (Machine { ram_active: false, ..m }, false)
    } else {
        (Machine { heap: heap_after_write(m.heap, vals, start_of(addr)), ..m }, true)
    }
}

/// The machine, and the bytes read, after `count` bytes are read at `addr`.
pub open spec fn ram_read(m: Machine, addr: u16, count: int) -> (Machine, Option<Seq<u8>>) {
    if access_refused(m.ram_config.allow_heap_overflow, addr, count) {
        (Machine { ram_active: false, ..m }, None)
    } else {
        (m, Some(heap_read(m.heap, start_of(addr), count)))
    }
}

/// The machine, and whether the push was accepted, after `val` is pushed.
pub open spec fn ram_push(m: Machine, val: u16) -> (Machine, bool) {
    if m.sp < m.stack.len() || m.ram_config.allow_stack_overflow {
        let (s, sp) = stack_after_push(m.stack, m.sp, val);
        (Machine { stack: s, sp: sp, ..m }, true)
    } else {
        (Machine { ram_active: false, ..m }, false)
    }
}

/// The machine, and the value popped, after a pop.
pub open spec fn ram_pop(m: Machine) -> (Machine, Option<u16>) {
    if m.sp > 0 || m.ram_config.allow_stack_overflow {
        let slot = slot_popped(m.stack.len(), m.sp);
        (Machine { sp: slot, ..m }, Some(m.stack[slot as int]))
    } else {
        (Machine { ram_active: false, ..m }, None)
    }
}


/// Two values pushed onto a stack with room for both come back in the
/// reverse order, and the stack pointer ends where it began.
pub proof fn lemma_stack_lifo(m: Machine, a: u16, b: u16)
    requires
        m.stack.len() > 0,
        m.sp + 2 <= m.stack.len(),
    ensures
        ({
            let (m1, ok1) = ram_push(m, a);
            let (m2, ok2) = ram_push(m1, b);
            let (m3, r1) = ram_pop(m2);
            let (m4, r2) = ram_pop(m3);
            &&& ok1 && ok2
            &&& r1 == Some(b)
            &&& r2 == Some(a)
            &&& m4.sp == m.sp
            &&& m4.ram_active == m.ram_active
        }),
{
}

/// The processor: sixteen byte registers V0 to VF, the program counter, the
/// index register, and the memory.
pub struct Cpu {
    config: CPUConfig,
    ram: Ram,
    v: Vec<u8>,
    pc: u16,
    index: u16,
    active: bool,
}

impl View for Cpu {
    type V = Machine;

    closed spec fn view(&self) -> Machine {
        Machine {
            v: self.v@,
            pc: self.pc,
            index: self.index,
            active: self.active,
            config: self.config,
            heap: self.ram.heap_bytes(),
            stack: self.ram.stack_slots(),
            sp: self.ram.stack_top(),
            ram_active: self.ram.running(),
            ram_config: self.ram.settings(),
        }
    }
}

impl Cpu {
    /// The processor's invariant.
    pub closed spec fn wf(&self) -> bool {
        &&& self.v@.len() == 16
        &&& self.ram.wf()
    }

    /// What every processor state satisfies.
    pub proof fn lemma_wf_facts(&self)
        requires
            self.wf(),
        ensures
            self@.v.len() == 16,
            self@.heap.len() == HEAP_SIZE,
            self@.stack.len() == self@.ram_config.stack_size,
            self@.stack.len() > 0,
            self@.sp <= self@.stack.len(),
            self@.ram_config.font_starting_address <= 0xFB0,
    {
        self.ram.lemma_wf_facts();
    }

    /// A processor over `ram`, with zeroed registers and the program counter
    /// at `PROGRAM_START_ADDRESS`.
    pub fn new(config: CPUConfig, ram: Ram) -> (r: Cpu)
        requires
            ram.wf(),
        ensures
            r.wf(),
            r@ == (Machine {
                v: Seq::new(16, |i: int| 0u8),
                pc: PROGRAM_START_ADDRESS,
                index: 0,
                active: true,
                config: config,
                heap: ram.heap_bytes(),
                stack: ram.stack_slots(),
                sp: ram.stack_top(),
                ram_active: ram.running(),
                ram_config: ram.settings(),
            }),
    {
        let mut v: Vec<u8> = Vec::new();
        let mut i: usize = 0;
        while i < 16
            invariant
                i <= 16,
                v@.len() == i,
                forall|j: int| 0 <= j < i ==> v@[j] == 0u8,
            decreases 16 - i,
        {
            v.push(0u8);
            i = i + 1;
        }
        assert(v@ =~= Seq::new(16, |i: int| 0u8));
        Cpu { config, ram, v, pc: PROGRAM_START_ADDRESS, index: 0, active: true }
    }

    /// Whether neither the processor nor its memory has stopped the machine.
    pub fn is_active(&self) -> (r: bool)
        ensures
            r == (self@.active && self@.ram_active),
    {
        self.active && self.ram.is_active()
    }

    /// The processor's settings.
    pub fn get_config(&self) -> (r: CPUConfig)
        ensures
            r == self@.config,
    {
        self.config
    }

    /// The memory, to read.
    pub fn get_ram(&self) -> (r: &Ram)
        requires
            self.wf(),
        ensures
            r.wf(),
            r.heap_bytes() == self@.heap,
            r.stack_slots() == self@.stack,
            r.stack_top() == self@.sp,
            r.running() == self@.ram_active,
            r.settings() == self@.ram_config,
    {
        &self.ram
    }

    /// Copies a program into memory; see `Ram::load_program`.
    pub fn load_program(&mut self, program: &[u8]) -> (ok: bool)
        requires
            old(self).wf(),
        ensures
            final(self).wf(),
            ok == (PROGRAM_START_ADDRESS + program@.len() <= HEAP_SIZE),
            final(self)@ == (Machine {
                heap: if ok {
                    heap_after_write(old(self)@.heap, program@, PROGRAM_START_ADDRESS as int)
                } else {
                    old(self)@.heap
                },
                ram_active: old(self)@.ram_active && ok,
                ..old(self)@
            }),
    {
        self.ram.load_program(program)
    }

    /// Register `Vx`.
    pub fn get_v_reg(&self, x: u8) -> (r: u8)
        requires
            self.wf(),
            x < 16,
        ensures
            r == self@.v[x as int],
    {
        self.v[x as usize]
    }

    /// Registers `Vx` and `Vy`.
    pub fn get_v_reg_xy(&self, x: u8, y: u8) -> (r: (u8, u8))
        requires
            self.wf(),
            x < 16,
            y < 16,
        ensures
            r.0 == self@.v[x as int],
            r.1 == self@.v[y as int],
    {
        (self.v[x as usize], self.v[y as usize])
    }

    /// Sets register `Vx`.
    pub fn set_v_reg(&mut self, x: u8, val: u8)
        requires
            old(self).wf(),
            x < 16,
        ensures
            final(self).wf(),
            final(self)@ == set_reg(old(self)@, x as int, val),
    {
        self.v.set(x as usize, val);
    }

    /// Registers `V0` to `Vlast`.
    pub fn get_v_reg_range(&self, last: usize) -> (r: Vec<u8>)
        requires
            self.wf(),
            last < 16,
        ensures
            r@ == self@.v.subrange(0, last + 1),
    {
        let mut r: Vec<u8> = Vec::new();
        let mut i: usize = 0;
        while i <= last
            invariant
                self.wf(),
                last < 16,
                i <= last + 1,
                r@ == self@.v.subrange(0, i as int),
            decreases last + 1 - i,
        {
            r.push(self.v[i]);
            i = i + 1;
            assert(r@ =~= self@.v.subrange(0, i as int));
        }
        r
    }

    /// Copies `bytes` into the registers from `Vstart` on.
    pub fn set_v_reg_range(&mut self, start: usize, bytes: &[u8])
        requires
            old(self).wf(),
            start + bytes@.len() <= 16,
        ensures
            final(self).wf(),
            final(self)@ == (Machine {
                v: Seq::new(
                    16,
                    |i: int|
                        if start <= i < start + bytes@.len() {
                            bytes@[i - start]
                        } else {
                            old(self)@.v[i]
                        },
                ),
                ..old(self)@
            }),
    {
        let mut k: usize = 0;
        assert(self@.v =~= Seq::new(
            16,
            |i: int|
                if start <= i < start + 0 {
                    bytes@[i - start]
                } else {
                    old(self)@.v[i]
                },
        ));
        while k < bytes.len()
            invariant
                self.wf(),
                start + bytes@.len() <= 16,
                k <= bytes@.len(),
                self@ == (Machine {
                    v: Seq::new(
                        16,
                        |i: int|
                            if start <= i < start + k {
                                bytes@[i - start]
                            } else {
                                old(self)@.v[i]
                            },
                    ),
                    ..old(self)@
                }),
            decreases bytes@.len() - k,
        {
            self.v.set(start + k, bytes[k]);
            k = k + 1;
            assert(self@.v =~= Seq::new(
                16,
                |i: int|
                    if start <= i < start + k {
                        bytes@[i - start]
                    } else {
                        old(self)@.v[i]
                    },
            ));
        }
    }

    /// The program counter.
    pub fn get_pc(&self) -> (r: u16)
        ensures
            r == self@.pc,
    {
        self.pc
    }

    /// Sets the program counter.
    pub fn set_pc(&mut self, addr: u16)
        requires
            old(self).wf(),
        ensures
            final(self).wf(),
            final(self)@ == (Machine { pc: addr, ..old(self)@ }),
    {
        self.pc = addr;
    }

    /// Moves the program counter on by one instruction; see `pc_step`.
    pub fn increment_pc(&mut self)
        requires
            old(self).wf(),
        ensures
            final(self).wf(),
            final(self)@ == pc_step(old(self)@),
    {
        let next: u32 = self.pc as u32 + 2;
        if next >= HEAP_SIZE as u32 {
            if self.config.allow_program_counter_overflow {
                self.pc = (next - HEAP_SIZE as u32) as u16;
            } else {
                self.active = false;
            }
        } else {
            self.pc = next as u16;
        }
    }

    /// The index register.
    pub fn get_index_reg(&self) -> (r: u16)
        ensures
            r == self@.index,
    {
        self.index
    }

    /// Sets the index register.
    pub fn set_index_reg(&mut self, addr: u16)
        requires
            old(self).wf(),
        ensures
            final(self).wf(),
            final(self)@ == (Machine { index: addr, ..old(self)@ }),
    {
        self.index = addr;
    }

    /// Moves the index register on by `n`; see `index_step`.
    pub fn increment_index_reg_by(&mut self, n: u16) -> (r: Option<bool>)
        requires
            old(self).wf(),
        ensures
            final(self).wf(),
            (final(self)@, r) == index_step(old(self)@, n),
    {
        let next: u32 = self.index as u32 + n as u32;
        if next >= HEAP_SIZE as u32 {
            if self.config.allow_index_register_overflow {
                self.index = (next % (HEAP_SIZE as u32)) as u16;
                Some(true)
            } else {
                self.active = false;
                None
            }
        } else {
            self.index = next as u16;
            Some(false)
        }
    }

    /// Writes `vals` to memory at `addr`; see `ram_write`.
    pub fn write_ram(&mut self, vals: &[u8], addr: u16) -> (ok: bool)
        requires
            old(self).wf(),
            access_fits(old(self)@.ram_config.allow_heap_overflow, addr, vals@.len() as int),
        ensures
            final(self).wf(),
            (final(self)@, ok) == ram_write(old(self)@, vals@, addr),
    {
        self.ram.write_bytes(vals, addr)
    }

    /// Reads `count` bytes of memory at `addr`; see `ram_read`.
    pub fn read_ram(&mut self, addr: u16, count: u16) -> (r: Option<Vec<u8>>)
        requires
            old(self).wf(),
            access_fits(old(self)@.ram_config.allow_heap_overflow, addr, count as int),
        ensures
            final(self).wf(),
            final(self)@ == ram_read(old(self)@, addr, count as int).0,
            r matches Some(b) ==> ram_read(old(self)@, addr, count as int).1 == Some(b@),
            r is None ==> ram_read(old(self)@, addr, count as int).1 is None,
    {
        self.ram.read_bytes(addr, count)
    }

    /// Pushes a return address; see `ram_push`.
    pub fn push_stack(&mut self, val: u16) -> (ok: bool)
        requires
            old(self).wf(),
        ensures
            final(self).wf(),
            (final(self)@, ok) == ram_push(old(self)@, val),
    {
        self.ram.push_to_stack(val)
    }

    /// Pops a return address; see `ram_pop`.
    pub fn pop_stack(&mut self) -> (r: Option<u16>)
        requires
            old(self).wf(),
        ensures
            final(self).wf(),
            (final(self)@, r) == ram_pop(old(self)@),
    {
        self.ram.pop_from_stack()
    }

    /// The font sprite address of digit `digit`; see `Ram::get_hex_digit_address`.
    pub fn hex_digit_address(&self, digit: u8) -> (r: u16)
        requires
            self.wf(),
        ensures
            r == self@.ram_config.font_starting_address + 5 * digit,
    {
        self.ram.get_hex_digit_address(digit)
    }
}

} // verus!
