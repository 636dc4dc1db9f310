use vstd::prelude::*;
use crate::cpu::{
    Cpu, Machine, set_reg, pc_step, index_step, ram_write, ram_read, ram_push, ram_pop,
};
use crate::input::KeyPad;
use crate::ram::{access_refused, heap_after_write, lemma_read_after_write, start_of, HEAP_SIZE};

verus! {

/// A 16-bit CHIP-8 opcode, read as the nibbles `s x y n`.
pub struct Opcode {
    full: u16,
}

/// The high nibble of a 16-bit word.
pub open spec fn nibble_s(w: u16) -> int {
    w as int / 4096
}

/// The second nibble of a 16-bit word.
pub open spec fn nibble_x(w: u16) -> int {
    (w as int / 256) % 16
}

/// The third nibble of a 16-bit word.
pub open spec fn nibble_y(w: u16) -> int {
    (w as int / 16) % 16
}

/// The low nibble of a 16-bit word.
pub open spec fn nibble_n(w: u16) -> int {
    w as int % 16
}

/// The low byte of a 16-bit word.
pub open spec fn low_byte(w: u16) -> int {
    w as int % 256
}

/// The low twelve bits of a 16-bit word.
pub open spec fn low_addr(w: u16) -> int {
    w as int % 4096
}

impl View for Opcode {
    type V = u16;

    closed spec fn view(&self) -> u16 {
        self.full
    }
}

impl Opcode {
    /// Builds the opcode whose high byte is `high` and low byte is `low`.
    pub fn from_u8s(high: u8, low: u8) -> (r: Self)
        ensures
            r@ == high as int * 256 + low as int,
    {
        let full: u16 = ((high as u16) << 8u16) | (low as u16);
        assert(full == high as int * 256 + low as int) by (bit_vector)
            requires
                full == ((high as u16) << 8u16) | (low as u16),
        ;
        Self { full }
    }

    /// The address `nnn` (low twelve bits).
    pub fn get_addr(&self) -> (r: u16)
        ensures
            r == low_addr(self@),
    {
        let f = self.full;
        assert(f & 0x0FFFu16 == f as int % 4096) by (bit_vector);
        f & 0x0FFF
    }

    /// The byte `kk` (low eight bits).
    pub fn get_kk(&self) -> (r: u8)
        ensures
            r == low_byte(self@),
    {
        let f = self.full;
        assert(f & 0x00FFu16 == f as int % 256) by (bit_vector);
        (f & 0x00FF) as u8
    }

    /// The instruction class `s` (high nibble).
    pub fn get_s(&self) -> (r: u8)
        ensures
            r == nibble_s(self@),
            r < 16,
    {
        let f = self.full;
        assert((f & 0xF000u16) >> 12u16 == f as int / 4096) by (bit_vector);
        ((f & 0xF000) >> 12) as u8
    }

    /// The register index `x` (second nibble).
    pub fn get_x(&self) -> (r: u8)
        ensures
            r == nibble_x(self@),
            r < 16,
    {
        let f = self.full;
        assert((f & 0x0F00u16) >> 8u16 == (f as int / 256) % 16) by (bit_vector);
        ((f & 0x0F00) >> 8) as u8
    }

    /// The register index `x` as a `usize`.
    pub fn get_x_usize(&self) -> (r: usize)
        ensures
            r == nibble_x(self@),
            r < 16,
    {
        self.get_x() as usize
    }

    /// The register index `y` (third nibble).
    pub fn get_y(&self) -> (r: u8)
        ensures
            r == nibble_y(self@),
            r < 16,
    {
        let f = self.full;
        assert((f & 0x00F0u16) >> 4u16 == (f as int / 16) % 16) by (bit_vector);
        ((f & 0x00F0) >> 4) as u8
    }

    /// The register index `y` as a `usize`.
    pub fn get_y_usize(&self) -> (r: usize)
        ensures
            r == nibble_y(self@),
            r < 16,
    {
        self.get_y() as usize
    }

    /// Both register indices `x` and `y`.
    pub fn get_x_and_y_usize(&self) -> (r: (usize, usize))
        ensures
            r.0 == nibble_x(self@),
            r.1 == nibble_y(self@),
            r.0 < 16,
            r.1 < 16,
    {
        (self.get_x_usize(), self.get_y_usize())
    }

    /// The nibble `n` (low four bits).
    pub fn get_n(&self) -> (r: u8)
        ensures
            r == nibble_n(self@),
            r < 16,
    {
        let f = self.full;
        assert(f & 0x000Fu16 == f as int % 16) by (bit_vector);
        (f & 0x000F) as u8
    }
}

/// The instructions of the machine, named by their mnemonic and operands.
#[derive(Debug, Clone, Copy, PartialEq, Eq, Structural)]
pub enum Instruction {
    Cls,
    Ret,
    JpAddr,
    CallAddr,
    SeVxByte,
    SneVxByte,
    SeVxVy,
    LdVxByte,
    AddVxByte,
    LdVxVy,
    OrVxVy,
    AndVxVy,
    XorVxVy,
    AddVxVy,
    SubVxVy,
    ShrVx,
    SubnVxVy,
    ShlVx,
    SneVxVy,
    LdIAddr,
    JpV0Addr,
    RndVxByte,
    DrwVxVyNibble,
    SkpVx,
    SknpVx,
    LdVxDt,
    LdVxK,
    LdDtVx,
    LdStVx,
    AddIVx,
    LdFVx,
    LdBVx,
    LdIVx,
    LdVxI,
}

/// The instruction that a word encodes, if any (`0nnn` machine-code
/// routines other than `00E0` and `00EE` are not supported).
pub open spec fn decode(w: u16) -> Option<Instruction> {
    let s = nibble_s(w);
    let n = nibble_n(w);
    let kk = low_byte(w);
    if s == 0x0 {
        if low_addr(w) == 0x0E0 {
            Some(Instruction::Cls)
        } else if low_addr(w) == 0x0EE {
            Some(Instruction::Ret)
        } else {
            None
        }
    } else if s == 0x1 {
        Some(Instruction::JpAddr)
    } else if s == 0x2 {
        Some(Instruction::CallAddr)
    } else if s == 0x3 {
        Some(Instruction::SeVxByte)
    } else if s == 0x4 {
        Some(Instruction::SneVxByte)
    } else if s == 0x5 {
        if n == 0x0 {
            Some(Instruction::SeVxVy)
        } else {
            None
        }
    } else if s == 0x6 {
        Some(Instruction::LdVxByte)
    } else if s == 0x7 {
        Some(Instruction::AddVxByte)
    } else if s == 0x8 {
        if n == 0x0 {
            Some(Instruction::LdVxVy)
        } else if n == 0x1 {
            Some(Instruction::OrVxVy)
        } else if n == 0x2 {
            Some(Instruction::AndVxVy)
        } else if n == 0x3 {
            Some(Instruction::XorVxVy)
        } else if n == 0x4 {
            Some(Instruction::AddVxVy)
        } else if n == 0x5 {
            Some(Instruction::SubVxVy)
        } else if n == 0x6 {
            Some(Instruction::ShrVx)
        } else if n == 0x7 {
            Some(Instruction::SubnVxVy)
        } else if n == 0xE {
            Some(Instruction::ShlVx)
        } else {
            None
        }
    } else if s == 0x9 {
        if n == 0x0 {
            Some(Instruction::SneVxVy)
        } else {
            None
        }
    } else if s == 0xA {
        Some(Instruction::LdIAddr)
    } else if s == 0xB {
        Some(Instruction::JpV0Addr)
    } else if s == 0xC {
        Some(Instruction::RndVxByte)
    } else if s == 0xD {
        Some(Instruction::DrwVxVyNibble)
    } else if s == 0xE {
        if kk == 0x9E {
            Some(Instruction::SkpVx)
        } else if kk == 0xA1 {
            Some(Instruction::SknpVx)
        } else {
            None
        }
    } else {
        if kk == 0x07 {
            Some(Instruction::LdVxDt)
        } else if kk == 0x0A {
            Some(Instruction::LdVxK)
        } else if kk == 0x15 {
            Some(Instruction::LdDtVx)
        } else if kk == 0x18 {
            Some(Instruction::LdStVx)
        } else if kk == 0x1E {
            Some(Instruction::AddIVx)
        } else if kk == 0x29 {
            Some(Instruction::LdFVx)
        } else if kk == 0x33 {
            Some(Instruction::LdBVx)
        } else if kk == 0x55 {
            Some(Instruction::LdIVx)
        } else if kk == 0x65 {
            Some(Instruction::LdVxI)
        } else {
            None
        }
    }
}

/// The instruction that an opcode encodes, or `None` for a machine-code
/// routine or an invalid opcode.
pub fn get_instruction_function(op: &Opcode) -> (r: Option<Instruction>)
    ensures
        r == decode(op@),
{
    let s = op.get_s();
    if s == 0x0 {
        let a = op.get_addr();
        if a == 0x0E0 {
            Some(Instruction::Cls)
        } else if a == 0x0EE {
            Some(Instruction::Ret)
        } else {
            None
        }
    } else if s == 0x1 {
        Some(Instruction::JpAddr)
    } else if s == 0x2 {
        Some(Instruction::CallAddr)
    } else if s == 0x3 {
        Some(Instruction::SeVxByte)
    } else if s == 0x4 {
        Some(Instruction::SneVxByte)
    } else if s == 0x5 {
        if op.get_n() == 0x0 {
            Some(Instruction::SeVxVy)
        } else {
            None
        }
    } else if s == 0x6 {
        Some(Instruction::LdVxByte)
    } else if s == 0x7 {
        Some(Instruction::AddVxByte)
    } else if s == 0x8 {
        let n = op.get_n();
        if n == 0x0 {
            Some(Instruction::LdVxVy)
        } else if n == 0x1 {
            Some(Instruction::OrVxVy)
        } else if n == 0x2 {
            Some(Instruction::AndVxVy)
        } else if n == 0x3 {
            Some(Instruction::XorVxVy)
        } else if n == 0x4 {
            Some(Instruction::AddVxVy)
        } else if n == 0x5 {
            Some(Instruction::SubVxVy)
        } else if n == 0x6 {
            Some(Instruction::ShrVx)
        } else if n == 0x7 {
            Some(Instruction::SubnVxVy)
        } else if n == 0xE {
            Some(Instruction::ShlVx)
        } else {
            None
        }
    } else if s == 0x9 {
        if op.get_n() == 0x0 {
            Some(Instruction::SneVxVy)
        } else {
            None
        }
    } else if s == 0xA {
        Some(Instruction::LdIAddr)
    } else if s == 0xB {
        Some(Instruction::JpV0Addr)
    } else if s == 0xC {
        Some(Instruction::RndVxByte)
    } else if s == 0xD {
        Some(Instruction::DrwVxVyNibble)
    } else if s == 0xE {
        let kk = op.get_kk();
        if kk == 0x9E {
            Some(Instruction::SkpVx)
        } else if kk == 0xA1 {
            Some(Instruction::SknpVx)
        } else {
            None
        }
    } else {
        let kk = op.get_kk();
        if kk == 0x07 {
            Some(Instruction::LdVxDt)
        } else if kk == 0x0A {
            Some(Instruction::LdVxK)
        } else if kk == 0x15 {
            Some(Instruction::LdDtVx)
        } else if kk == 0x18 {
            Some(Instruction::LdStVx)
        } else if kk == 0x1E {
            Some(Instruction::AddIVx)
        } else if kk == 0x29 {
            Some(Instruction::LdFVx)
        } else if kk == 0x33 {
            Some(Instruction::LdBVx)
        } else if kk == 0x55 {
            Some(Instruction::LdIVx)
        } else if kk == 0x65 {
            Some(Instruction::LdVxI)
        } else {
            None
        }
    }
}

/// What an instruction leaves for the rest of the machine (screen, timers,
/// key pad) to do.
pub enum Action {
    /// Nothing.
    Nothing,
    /// Clear the screen.
    ClearScreen,
    /// Draw `sprite` at (`x`, `y`), then write 1 to VF if a lit pixel was
    /// turned off and 0 otherwise.
    DrawSprite { sprite: Vec<u8>, x: u8, y: u8 },
    /// Wait for the next key press and write the key to `Vregister`.
    AwaitKey { register: u8 },
    /// Set the delay timer.
    SetDelayTimer { value: u8 },
    /// Set the sound timer.
    SetSoundTimer { value: u8 },
}

/// An `Action` as data.
pub ghost enum ActionView {
    Nothing,
    ClearScreen,
    DrawSprite { sprite: Seq<u8>, x: u8, y: u8 },
    AwaitKey { register: u8 },
    SetDelayTimer { value: u8 },
    SetSoundTimer { value: u8 },
}

impl View for Action {
    type V = ActionView;

    open spec fn view(&self) -> ActionView {
        match self {
            Action::Nothing => ActionView::Nothing,
            Action::ClearScreen => ActionView::ClearScreen,
            Action::DrawSprite { sprite, x, y } => ActionView::DrawSprite {
                sprite: sprite@,
                x: *x,
                y: *y,
            },
            Action::AwaitKey { register } => ActionView::AwaitKey { register: *register },
            Action::SetDelayTimer { value } => ActionView::SetDelayTimer { value: *value },
            Action::SetSoundTimer { value } => ActionView::SetSoundTimer { value: *value },
        }
    }
}

/// One random byte from the thread's generator.
///
/// Calls `fastrand::u8(..)`, which for the full range never panics and may
/// return any byte; nothing is stated of the byte.
#[verifier::external_body]
fn random_byte() -> (r: u8) {
    fastrand::u8(..)
}

/// Register `Vx` of the machine for opcode word `w`.
pub open spec fn vx(m: Machine, w: u16) -> u8 {
    m.v[nibble_x(w)]
}

/// Register `Vy` of the machine for opcode word `w`.
pub open spec fn vy(m: Machine, w: u16) -> u8 {
    m.v[nibble_y(w)]
}

/// The machine after a skip: the next instruction is passed over if `cond`.
pub open spec fn skip_if(m: Machine, cond: bool) -> Machine {
    if cond {
        pc_step(m)
    } else {
        m
    }
}

/// The machine after VF is cleared, where the settings ask for it after a
/// bitwise operation.
pub open spec fn reset_flag(m: Machine) -> Machine {
    if m.config.reset_flag_for_bitwise_operations {
        set_reg(m, 15, 0)
    } else {
        m
    }
}

/// The register that a shift reads: `Vx` with the newer shift, else `Vy`.
pub open spec fn shift_source(m: Machine, w: u16) -> u8 {
    if m.config.use_new_shift_instruction {
        vx(m, w)
    } else {
        vy(m, w)
    }
}

/// `00EE`: return to the address popped from the stack.
pub open spec fn sem_ret(m: Machine) -> Machine {
    let (m1, r) = ram_pop(m);
    match r {
        Some(a) => Machine { pc: a, ..m1 },
        None => m1,
    }
}

/// `2nnn`: push the program counter, then jump to `nnn` (the jump is made
/// even where the push is refused).
pub open spec fn sem_call(m: Machine, w: u16) -> Machine {
    Machine { pc: low_addr(w) as u16, ..ram_push(m, m.pc).0 }
}

/// `8xy4`: `Vx` = `Vx + Vy` modulo 256, then VF = the carry.
pub open spec fn sem_add_vx_vy(m: Machine, w: u16) -> Machine {
    let sum = vx(m, w) + vy(m, w);
    set_reg(set_reg(m, nibble_x(w), (sum % 256) as u8), 15, if sum > 255 { 1u8 } else { 0u8 })
}

/// `8xy5`: `Vx` = `Vx - Vy` modulo 256, then VF = 1 unless it borrowed.
pub open spec fn sem_sub_vx_vy(m: Machine, w: u16) -> Machine {
    let d = vx(m, w) - vy(m, w);
    set_reg(
        set_reg(m, nibble_x(w), ((d + 256) % 256) as u8),
        15,
        if vx(m, w) >= vy(m, w) { 1u8 } else { 0u8 },
    )
}

/// `8xy7`: `Vx` = `Vy - Vx` modulo 256, then VF = 1 unless it borrowed.
pub open spec fn sem_subn_vx_vy(m: Machine, w: u16) -> Machine {
    let d = vy(m, w) - vx(m, w);
    set_reg(
        set_reg(m, nibble_x(w), ((d + 256) % 256) as u8),
        15,
        if vy(m, w) >= vx(m, w) { 1u8 } else { 0u8 },
    )
}

/// `8xy6`: `Vx` = source / 2, then VF = the bit shifted out.
pub open spec fn sem_shr(m: Machine, w: u16) -> Machine {
    let src = shift_source(m, w);
    set_reg(set_reg(m, nibble_x(w), (src / 2) as u8), 15, (src % 2) as u8)
}

/// `8xyE`: `Vx` = source * 2 modulo 256, then VF = the bit shifted out.
pub open spec fn sem_shl(m: Machine, w: u16) -> Machine {
    let src = shift_source(m, w);
    set_reg(set_reg(m, nibble_x(w), ((src * 2) % 256) as u8), 15, (src / 128) as u8)
}

/// `Bnnn`: jump to `nnn` plus V0, or plus `Vx` with the newer jump.
pub open spec fn sem_jp_v0(m: Machine, w: u16) -> Machine {
    let base = if m.config.use_new_jump_instruction {
        vx(m, w)
    } else {
        m.v[0]
    };
    Machine { pc: (base + low_addr(w)) as u16, ..m }
}

/// `Dxyn`: read the `n`-byte sprite at the index register; the result is
/// the machine, whether the frame ends here, and the drawing to do.
pub open spec fn sem_drw(m: Machine, w: u16) -> (Machine, bool, ActionView) {
    let (m1, r) = ram_read(m, m.index, nibble_n(w));
    match r {
        Some(sprite) => (
            m1,
            m.config.limit_to_one_draw_per_frame,
            ActionView::DrawSprite { sprite: sprite, x: vx(m, w), y: vy(m, w) },
        ),
        None => (m1, false, ActionView::Nothing),
    }
}

/// `Fx1E`: move the index register on by `Vx`; where it leaves the heap and
/// the settings ask for it, VF = 1.
pub open spec fn sem_add_i(m: Machine, w: u16) -> Machine {
    let (m1, r) = index_step(m, vx(m, w) as u16);
    match r {
        Some(out_of_range) => if out_of_range && m.config.set_flag_for_index_overflow {
            set_reg(m1, 15, 1)
        } else {
            m1
        },
        None => m1,
    }
}

/// The three decimal digits of a byte, most significant first.
pub open spec fn bcd(b: u8) -> Seq<u8> {
    seq![(b / 100) as u8, ((b / 10) % 10) as u8, (b % 10) as u8]
}

/// `Fx33`: write the decimal digits of `Vx` at the index register.
pub open spec fn sem_ld_b(m: Machine, w: u16) -> Machine {
    ram_write(m, bcd(vx(m, w)), m.index).0
}

/// The machine after the index register moves past `x + 1` registers, where
/// the settings ask for it.
pub open spec fn move_index(m: Machine, x: int) -> Machine {
    if m.config.move_index_with_reads {
        index_step(m, (x + 1) as u16).0
    } else {
        m
    }
}

/// `Fx55`: write `V0` to `Vx` at the index register.
pub open spec fn sem_ld_i_vx(m: Machine, w: u16) -> Machine {
    let x = nibble_x(w);
    move_index(ram_write(m, m.v.subrange(0, x + 1), m.index).0, x)
}

/// `Fx65`: read `V0` to `Vx` from the index register.
pub open spec fn sem_ld_vx_i(m: Machine, w: u16) -> Machine {
    let x = nibble_x(w);
    let (m1, r) = ram_read(m, m.index, x + 1);
    match r {
        Some(bytes) => move_index(
            Machine { v: bytes + m1.v.subrange(x + 1, 16), ..m1 },
            x,
        ),
        None => m1,
    }
}

/// The processor once the rest of the machine has finished action `a`:
/// after a drawing VF is 1 if a lit pixel was turned off (`collided`) and 0
/// otherwise; after a key wait the waiting register holds `key`; the other
/// actions leave the processor as it is.
pub open spec fn complete(m: Machine, a: ActionView, collided: bool, key: u8) -> Machine {
    match a {
        ActionView::DrawSprite { .. } => set_reg(m, 15, if collided { 1u8 } else { 0u8 }),
        ActionView::AwaitKey { register } => set_reg(m, register as int, key),
        _ => m,
    }
}

/// A whole instruction, its action finished: the machine after it and
/// whether the frame ends. `collided` is what the drawing reports and `key`
/// the key that the wait gets.
pub open spec fn step_completed(
    ins: Instruction,
    m: Machine,
    w: u16,
    keys: Seq<bool>,
    delay: u8,
    rnd: u8,
    collided: bool,
    key: u8,
) -> (Machine, bool) {
    let (m1, end_frame, a) = semantics(ins, m, w, keys, delay, rnd);
    (complete(m1, a, collided, key), end_frame)
}

/// What executing `ins` with opcode word `w` does: the machine after it,
/// whether the frame ends, and what is left for the rest of the machine.
/// `keys` are the pad's keys, `delay` the delay timer and `rnd` the random
/// byte that `Cxkk` draws.
pub open spec fn semantics(
    ins: Instruction,
    m: Machine,
    w: u16,
    keys: Seq<bool>,
    delay: u8,
    rnd: u8,
) -> (Machine, bool, ActionView) {
    let x = nibble_x(w);
    let kk = low_byte(w) as u8;
    match ins {
        Instruction::Cls => (m, false, ActionView::ClearScreen),
        Instruction::Ret => (sem_ret(m), false, ActionView::Nothing),
        Instruction::JpAddr => (Machine { pc: low_addr(w) as u16, ..m }, false, ActionView::Nothing),
        Instruction::CallAddr => (sem_call(m, w), false, ActionView::Nothing),
        Instruction::SeVxByte => (skip_if(m, vx(m, w) == kk), false, ActionView::Nothing),
        Instruction::SneVxByte => (skip_if(m, vx(m, w) != kk), false, ActionView::Nothing),
        Instruction::SeVxVy => (skip_if(m, vx(m, w) == vy(m, w)), false, ActionView::Nothing),
        Instruction::LdVxByte => (set_reg(m, x, kk), false, ActionView::Nothing),
        Instruction::AddVxByte => (
            set_reg(m, x, ((vx(m, w) + kk) % 256) as u8),
            false,
            ActionView::Nothing,
        ),
        Instruction::LdVxVy => (set_reg(m, x, vy(m, w)), false, ActionView::Nothing),
        Instruction::OrVxVy => (
            reset_flag(set_reg(m, x, vx(m, w) | vy(m, w))),
            false,
            ActionView::Nothing,
        ),
        Instruction::AndVxVy => (
            reset_flag(set_reg(m, x, vx(m, w) & vy(m, w))),
            false,
            ActionView::Nothing,
        ),
        Instruction::XorVxVy => (
            reset_flag(set_reg(m, x, vx(m, w) ^ vy(m, w))),
            false,
            ActionView::Nothing,
        ),
        Instruction::AddVxVy => (sem_add_vx_vy(m, w), false, ActionView::Nothing),
        Instruction::SubVxVy => (sem_sub_vx_vy(m, w), false, ActionView::Nothing),
        Instruction::ShrVx => (sem_shr(m, w), false, ActionView::Nothing),
        Instruction::SubnVxVy => (sem_subn_vx_vy(m, w), false, ActionView::Nothing),
        Instruction::ShlVx => (sem_shl(m, w), false, ActionView::Nothing),
        Instruction::SneVxVy => (skip_if(m, vx(m, w) != vy(m, w)), false, ActionView::Nothing),
        Instruction::LdIAddr => (
            Machine { index: low_addr(w) as u16, ..m },
            false,
            ActionView::Nothing,
        ),
        Instruction::JpV0Addr => (sem_jp_v0(m, w), false, ActionView::Nothing),
        Instruction::RndVxByte => (set_reg(m, x, kk & rnd), false, ActionView::Nothing),
        Instruction::DrwVxVyNibble => sem_drw(m, w),
        Instruction::SkpVx => (skip_if(m, keys[vx(m, w) as int]), false, ActionView::Nothing),
        Instruction::SknpVx => (skip_if(m, !keys[vx(m, w) as int]), false, ActionView::Nothing),
        Instruction::LdVxDt => (set_reg(m, x, delay), false, ActionView::Nothing),
        Instruction::LdVxK => (m, true, ActionView::AwaitKey { register: x as u8 }),
        Instruction::LdDtVx => (m, false, ActionView::SetDelayTimer { value: vx(m, w) }),
        Instruction::LdStVx => (m, false, ActionView::SetSoundTimer { value: vx(m, w) }),
        Instruction::AddIVx => (sem_add_i(m, w), false, ActionView::Nothing),
        Instruction::LdFVx => (
            Machine {
                index: (m.ram_config.font_starting_address + 5 * vx(m, w)) as u16,
                ..m
            },
            false,
            ActionView::Nothing,
        ),
        Instruction::LdBVx => (sem_ld_b(m, w), false, ActionView::Nothing),
        Instruction::LdIVx => (sem_ld_i_vx(m, w), false, ActionView::Nothing),
        Instruction::LdVxI => (sem_ld_vx_i(m, w), false, ActionView::Nothing),
    }
}

/// `00E0`: clear the screen.
#[allow(non_snake_case)]
pub fn i_00E0_CLS(this: &Cpu, op: &Opcode) -> (r: (bool, Action))
    ensures
        !r.0,
        r.1@ == ActionView::ClearScreen,
{
    (false, Action::ClearScreen)
}

/// `00EE`: return from a subroutine; see `sem_ret`.
#[allow(non_snake_case)]
pub fn i_00EE_RET(this: &mut Cpu, op: &Opcode) -> (r: bool)
    requires
        old(this).wf(),
    ensures
        final(this).wf(),
        final(this)@ == sem_ret(old(this)@),
        !r,
{
    let popped = this.pop_stack();
    match popped {
        Some(new_addr) => {
            this.set_pc(new_addr);
            false
        },
        None => false,
    }
}

/// `1nnn`: jump to `nnn`.
#[allow(non_snake_case)]
pub fn i_1nnn_JP_addr(this: &mut Cpu, op: &Opcode) -> (r: bool)
    requires
        old(this).wf(),
    ensures
        final(this).wf(),
        final(this)@ == (Machine { pc: low_addr(op@) as u16, ..old(this)@ }),
        !r,
{
    this.set_pc(op.get_addr());
    false
}

/// `2nnn`: call the subroutine at `nnn`; see `sem_call`.
#[allow(non_snake_case)]
pub fn i_2nnn_CALL_addr(this: &mut Cpu, op: &Opcode) -> (r: bool)
    requires
        old(this).wf(),
    ensures
        final(this).wf(),
        final(this)@ == sem_call(old(this)@, op@),
        !r,
{
    let pc = this.get_pc();
    let _ = this.push_stack(pc);
    this.set_pc(op.get_addr());
    false
}

/// `3xkk`: skip the next instruction if `Vx == kk`.
#[allow(non_snake_case)]
pub fn i_3xkk_SE_Vx_byte(this: &mut Cpu, op: &Opcode) -> (r: bool)
    requires
        old(this).wf(),
    ensures
        final(this).wf(),
        final(this)@ == skip_if(old(this)@, vx(old(this)@, op@) == low_byte(op@)),
        !r,
{
    if this.get_v_reg(op.get_x()) == op.get_kk() {
        this.increment_pc();
    }
    false
}

/// `4xkk`: skip the next instruction if `Vx != kk`.
#[allow(non_snake_case)]
pub fn i_4xkk_SNE_Vx_byte(this: &mut Cpu, op: &Opcode) -> (r: bool)
    requires
        old(this).wf(),
    ensures
        final(this).wf(),
        final(this)@ == skip_if(old(this)@, vx(old(this)@, op@) != low_byte(op@)),
        !r,
{
    if this.get_v_reg(op.get_x()) != op.get_kk() {
        this.increment_pc();
    }
    false
}

/// `5xy0`: skip the next instruction if `Vx == Vy`.
#[allow(non_snake_case)]
pub fn i_5xy0_SE_Vx_Vy(this: &mut Cpu, op: &Opcode) -> (r: bool)
    requires
        old(this).wf(),
    ensures
        final(this).wf(),
        final(this)@ == skip_if(old(this)@, vx(old(this)@, op@) == vy(old(this)@, op@)),
        !r,
{
    let (vx, vy) = this.get_v_reg_xy(op.get_x(), op.get_y());
    if vx == vy {
        this.increment_pc();
    }
    false
}

/// `6xkk`: `Vx = kk`.
#[allow(non_snake_case)]
pub fn i_6xkk_LD_Vx_byte(this: &mut Cpu, op: &Opcode) -> (r: bool)
    requires
        old(this).wf(),
    ensures
        final(this).wf(),
        final(this)@ == set_reg(old(this)@, nibble_x(op@), low_byte(op@) as u8),
        !r,
{
    this.set_v_reg(op.get_x(), op.get_kk());
    false
}

/// `7xkk`: `Vx = Vx + kk` modulo 256; VF is left alone.
#[allow(non_snake_case)]
pub fn i_7xkk_ADD_Vx_byte(this: &mut Cpu, op: &Opcode) -> (r: bool)
    requires
        old(this).wf(),
    ensures
        final(this).wf(),
        final(this)@ == set_reg(
            old(this)@,
            nibble_x(op@),
            ((vx(old(this)@, op@) + low_byte(op@)) % 256) as u8,
        ),
        !r,
{
    let x = op.get_x();
    let v = this.get_v_reg(x);
    this.set_v_reg(x, v.wrapping_add(op.get_kk()));
    false
}

/// `8xy0`: `Vx = Vy`.
#[allow(non_snake_case)]
pub fn i_8xy0_LD_Vx_Vy(this: &mut Cpu, op: &Opcode) -> (r: bool)
    requires
        old(this).wf(),
    ensures
        final(this).wf(),
        final(this)@ == set_reg(old(this)@, nibble_x(op@), vy(old(this)@, op@)),
        !r,
{
    let vy = this.get_v_reg(op.get_y());
    this.set_v_reg(op.get_x(), vy);
    false
}

/// Clears VF where the settings ask for it after a bitwise operation.
fn reset_flag_if_configured(this: &mut Cpu)
    requires
        old(this).wf(),
    ensures
        final(this).wf(),
        final(this)@ == reset_flag(old(this)@),
{
    if this.get_config().reset_flag_for_bitwise_operations {
        this.set_v_reg(0xF, 0);
    }
}

/// `8xy1`: `Vx = Vx | Vy`, then VF = 0 where the settings ask for it.
#[allow(non_snake_case)]
pub fn i_8xy1_OR_Vx_Vy(this: &mut Cpu, op: &Opcode) -> (r: bool)
    requires
        old(this).wf(),
    ensures
        final(this).wf(),
        final(this)@ == reset_flag(
            set_reg(old(this)@, nibble_x(op@), vx(old(this)@, op@) | vy(old(this)@, op@)),
        ),
        !r,
{
    let (x, y) = (op.get_x(), op.get_y());
    let (vx, vy) = this.get_v_reg_xy(x, y);
    this.set_v_reg(x, vx | vy);
    reset_flag_if_configured(this);
    false
}

/// `8xy2`: `Vx = Vx & Vy`, then VF = 0 where the settings ask for it.
#[allow(non_snake_case)]
pub fn i_8xy2_AND_Vx_Vy(this: &mut Cpu, op: &Opcode) -> (r: bool)
    requires
        old(this).wf(),
    ensures
        final(this).wf(),
        final(this)@ == reset_flag(
            set_reg(old(this)@, nibble_x(op@), vx(old(this)@, op@) & vy(old(this)@, op@)),
        ),
        !r,
{
    let (x, y) = (op.get_x(), op.get_y());
    let (vx, vy) = this.get_v_reg_xy(x, y);
    this.set_v_reg(x, vx & vy);
    reset_flag_if_configured(this);
    false
}

/// `8xy3`: `Vx = Vx ^ Vy`, then VF = 0 where the settings ask for it.
#[allow(non_snake_case)]
pub fn i_8xy3_XOR_Vx_Vy(this: &mut Cpu, op: &Opcode) -> (r: bool)
    requires
        old(this).wf(),
    ensures
        final(this).wf(),
        final(this)@ == reset_flag(
            set_reg(old(this)@, nibble_x(op@), vx(old(this)@, op@) ^ vy(old(this)@, op@)),
        ),
        !r,
{
    let (x, y) = (op.get_x(), op.get_y());
    let (vx, vy) = this.get_v_reg_xy(x, y);
    this.set_v_reg(x, vx ^ vy);
    reset_flag_if_configured(this);
    false
}

/// `8xy4`: add with carry; see `sem_add_vx_vy`.
#[allow(non_snake_case)]
pub fn i_8xy4_ADD_Vx_Vy(this: &mut Cpu, op: &Opcode) -> (r: bool)
    requires
        old(this).wf(),
    ensures
        final(this).wf(),
        final(this)@ == sem_add_vx_vy(old(this)@, op@),
        !r,
{
    let (x, y) = (op.get_x(), op.get_y());
    let (vx, vy) = this.get_v_reg_xy(x, y);
    let sum: u16 = vx as u16 + vy as u16;
    let carried = sum > 255;
    this.set_v_reg(x, (sum % 256) as u8);
    this.set_v_reg(0xF, if carried { 1 } else { 0 });
    false
}

/// `8xy5`: subtract with borrow; see `sem_sub_vx_vy`.
#[allow(non_snake_case)]
pub fn i_8xy5_SUB_Vx_Vy(this: &mut Cpu, op: &Opcode) -> (r: bool)
    requires
        old(this).wf(),
    ensures
        final(this).wf(),
        final(this)@ == sem_sub_vx_vy(old(this)@, op@),
        !r,
{
    let (x, y) = (op.get_x(), op.get_y());
    let (vx, vy) = this.get_v_reg_xy(x, y);
    let no_borrow = vx >= vy;
    this.set_v_reg(x, vx.wrapping_sub(vy));
    this.set_v_reg(0xF, if no_borrow { 1 } else { 0 });
    false
}

/// `8xy6`: shift right; see `sem_shr`.
#[allow(non_snake_case)]
pub fn i_8xy6_SHR_Vx(this: &mut Cpu, op: &Opcode) -> (r: bool)
    requires
        old(this).wf(),
    ensures
        final(this).wf(),
        final(this)@ == sem_shr(old(this)@, op@),
        !r,
{
    let (x, y) = (op.get_x(), op.get_y());
    let (vx, vy) = this.get_v_reg_xy(x, y);
    let v_used = if this.get_config().use_new_shift_instruction {
        vx
    } else {
        vy
    };
    assert(v_used >> 1u8 == v_used / 2) by (bit_vector);
    assert(v_used & 1u8 == v_used % 2) by (bit_vector);
    this.set_v_reg(x, v_used >> 1);
    this.set_v_reg(0xF, v_used & 1);
    false
}

/// `8xy7`: reverse subtract with borrow; see `sem_subn_vx_vy`.
#[allow(non_snake_case)]
pub fn i_8xy7_SUBN_Vx_Vy(this: &mut Cpu, op: &Opcode) -> (r: bool)
    requires
        old(this).wf(),
    ensures
        final(this).wf(),
        final(this)@ == sem_subn_vx_vy(old(this)@, op@),
        !r,
{
    let (x, y) = (op.get_x(), op.get_y());
    let (vx, vy) = this.get_v_reg_xy(x, y);
    let no_borrow = vy >= vx;
    this.set_v_reg(x, vy.wrapping_sub(vx));
    this.set_v_reg(0xF, if no_borrow { 1 } else { 0 });
    false
}

/// `8xyE`: shift left; see `sem_shl`.
#[allow(non_snake_case)]
pub fn i_8xyE_SHL_Vx(this: &mut Cpu, op: &Opcode) -> (r: bool)
    requires
        old(this).wf(),
    ensures
        final(this).wf(),
        final(this)@ == sem_shl(old(this)@, op@),
        !r,
{
    let (x, y) = (op.get_x(), op.get_y());
    let (vx, vy) = this.get_v_reg_xy(x, y);
    let v_used = if this.get_config().use_new_shift_instruction {
        vx
    } else {
        vy
    };
    assert(v_used << 1u8 == (v_used * 2) % 256) by (bit_vector);
    assert((v_used & 0x80u8) >> 7u8 == v_used / 128) by (bit_vector);
    this.set_v_reg(x, v_used << 1);
    this.set_v_reg(0xF, (v_used & 0x80) >> 7);
    false
}

/// `9xy0`: skip the next instruction if `Vx != Vy`.
#[allow(non_snake_case)]
pub fn i_9xy0_SNE_Vx_Vy(this: &mut Cpu, op: &Opcode) -> (r: bool)
    requires
        old(this).wf(),
    ensures
        final(this).wf(),
        final(this)@ == skip_if(old(this)@, vx(old(this)@, op@) != vy(old(this)@, op@)),
        !r,
{
    let (vx, vy) = this.get_v_reg_xy(op.get_x(), op.get_y());
    if vx != vy {
        this.increment_pc();
    }
    false
}

/// `Annn`: index register = `nnn`.
#[allow(non_snake_case)]
pub fn i_Annn_LD_I_addr(this: &mut Cpu, op: &Opcode) -> (r: bool)
    requires
        old(this).wf(),
    ensures
        final(this).wf(),
        final(this)@ == (Machine { index: low_addr(op@) as u16, ..old(this)@ }),
        !r,
{
    this.set_index_reg(op.get_addr());
    false
}

/// `Bnnn`: jump with offset; see `sem_jp_v0`.
#[allow(non_snake_case)]
pub fn i_Bnnn_JP_V0_addr(this: &mut Cpu, op: &Opcode) -> (r: bool)
    requires
        old(this).wf(),
    ensures
        final(this).wf(),
        final(this)@ == sem_jp_v0(old(this)@, op@),
        !r,
{
    let base = if this.get_config().use_new_jump_instruction {
        this.get_v_reg(op.get_x())
    } else {
        this.get_v_reg(0)
    };
    this.set_pc(base as u16 + op.get_addr());
    false
}

/// `Cxkk` with the random byte `rnd` given: `Vx = kk & rnd`.
pub fn apply_random_byte(this: &mut Cpu, op: &Opcode, rnd: u8)
    requires
        old(this).wf(),
    ensures
        final(this).wf(),
        final(this)@ == set_reg(old(this)@, nibble_x(op@), (low_byte(op@) as u8) & rnd),
{
    this.set_v_reg(op.get_x(), op.get_kk() & rnd);
}

/// `Cxkk`: `Vx = kk & r` for a random byte `r`, so that `Vx` has no bit
/// that `kk` lacks.
#[allow(non_snake_case)]
pub fn i_Cxkk_RND_Vx_byte(this: &mut Cpu, op: &Opcode) -> (r: bool)
    requires
        old(this).wf(),
    ensures
        final(this).wf(),
        exists|rnd: u8|
            final(this)@ == #[trigger] set_reg(
                old(this)@,
                nibble_x(op@),
                (low_byte(op@) as u8) & rnd,
            ),
        final(this)@.v[nibble_x(op@)] & (low_byte(op@) as u8) == final(this)@.v[nibble_x(op@)],
        !r,
{
    proof {
        old(this).lemma_wf_facts();
    }
    let rnd = random_byte();
    apply_random_byte(this, op, rnd);
    let ghost kk = low_byte(op@) as u8;
    assert((kk & rnd) & kk == kk & rnd) by (bit_vector);
    false
}

/// `Dxyn`: read the sprite to draw; see `sem_drw`. The caller draws it and
/// writes the collision flag to VF.
#[allow(non_snake_case)]
pub fn i_Dxyn_DRW_Vx_Vy_nibble(this: &mut Cpu, op: &Opcode) -> (r: (bool, Action))
    requires
        old(this).wf(),
    ensures
        final(this).wf(),
        (final(this)@, r.0, r.1@) == sem_drw(old(this)@, op@),
{
    proof {
        old(this).lemma_wf_facts();
    }
    let index = this.get_index_reg();
    let n = op.get_n();
    let sprite = this.read_ram(index, n as u16);
    match sprite {
        Some(sprite) => {
            let (x, y) = (op.get_x(), op.get_y());
            let (vx, vy) = this.get_v_reg_xy(x, y);
            let end_frame = this.get_config().limit_to_one_draw_per_frame;
            (end_frame, Action::DrawSprite { sprite, x: vx, y: vy })
        },
        None => (false, Action::Nothing),
    }
}

/// `Ex9E`: skip the next instruction if key `Vx` is down.
#[allow(non_snake_case)]
pub fn i_Ex9E_SKP_Vx(this: &mut Cpu, op: &Opcode, keys: &KeyPad) -> (r: bool)
    requires
        old(this).wf(),
        keys.wf(),
        vx(old(this)@, op@) < 16,
    ensures
        final(this).wf(),
        final(this)@ == skip_if(old(this)@, keys@.keys[vx(old(this)@, op@) as int]),
        !r,
{
    if keys.get_key_state(this.get_v_reg(op.get_x())) {
        this.increment_pc();
    }
    false
}

/// `ExA1`: skip the next instruction if key `Vx` is up.
#[allow(non_snake_case)]
pub fn i_ExA1_SKNP_Vx(this: &mut Cpu, op: &Opcode, keys: &KeyPad) -> (r: bool)
    requires
        old(this).wf(),
        keys.wf(),
        vx(old(this)@, op@) < 16,
    ensures
        final(this).wf(),
        final(this)@ == skip_if(old(this)@, !keys@.keys[vx(old(this)@, op@) as int]),
        !r,
{
    if !keys.get_key_state(this.get_v_reg(op.get_x())) {
        this.increment_pc();
    }
    false
}

/// `Fx07`: `Vx` = the delay timer's value.
#[allow(non_snake_case)]
pub fn i_Fx07_LD_Vx_DT(this: &mut Cpu, op: &Opcode, delay: u8) -> (r: bool)
    requires
        old(this).wf(),
    ensures
        final(this).wf(),
        final(this)@ == set_reg(old(this)@, nibble_x(op@), delay),
        !r,
{
    this.set_v_reg(op.get_x(), delay);
    false
}

/// `Fx0A`: wait for a key press and store it in `Vx`; the frame ends here.
#[allow(non_snake_case)]
pub fn i_Fx0A_LD_Vx_K(this: &Cpu, op: &Opcode) -> (r: (bool, Action))
    ensures
        r.0,
        r.1@ == (ActionView::AwaitKey { register: nibble_x(op@) as u8 }),
{
    (true, Action::AwaitKey { register: op.get_x() })
}

/// Finishes `Dxyn` once the sprite is drawn: VF = 1 if a lit pixel was
/// turned off, else 0; see `complete`.
pub fn complete_draw(this: &mut Cpu, collided: bool)
    requires
        old(this).wf(),
    ensures
        final(this).wf(),
        final(this)@ == set_reg(old(this)@, 15, if collided { 1u8 } else { 0u8 }),
{
    this.set_v_reg(0xF, if collided { 1 } else { 0 });
}

/// Finishes `Fx0A` once a key is pressed: `Vregister` = the key; see
/// `complete`.
pub fn complete_key_wait(this: &mut Cpu, register: u8, key: u8)
    requires
        old(this).wf(),
        register < 16,
    ensures
        final(this).wf(),
        final(this)@ == set_reg(old(this)@, register as int, key),
{
    this.set_v_reg(register, key);
}

/// `Fx15`: delay timer = `Vx`.
#[allow(non_snake_case)]
pub fn i_Fx15_LD_DT_Vx(this: &Cpu, op: &Opcode) -> (r: (bool, Action))
    requires
        this.wf(),
    ensures
        !r.0,
        r.1@ == (ActionView::SetDelayTimer { value: vx(this@, op@) }),
{
    (false, Action::SetDelayTimer { value: this.get_v_reg(op.get_x()) })
}

/// `Fx18`: sound timer = `Vx`.
#[allow(non_snake_case)]
pub fn i_Fx18_LD_ST_Vx(this: &Cpu, op: &Opcode) -> (r: (bool, Action))
    requires
        this.wf(),
    ensures
        !r.0,
        r.1@ == (ActionView::SetSoundTimer { value: vx(this@, op@) }),
{
    (false, Action::SetSoundTimer { value: this.get_v_reg(op.get_x()) })
}

/// `Fx1E`: index register += `Vx`; see `sem_add_i`.
#[allow(non_snake_case)]
pub fn i_Fx1E_ADD_I_Vx(this: &mut Cpu, op: &Opcode) -> (r: bool)
    requires
        old(this).wf(),
    ensures
        final(this).wf(),
        final(this)@ == sem_add_i(old(this)@, op@),
        !r,
{
    let vx = this.get_v_reg(op.get_x());
    let set_flag = this.get_config().set_flag_for_index_overflow;
    let out = this.increment_index_reg_by(vx as u16);
    match out {
        Some(index_out_of_range) => {
            if index_out_of_range && set_flag {
                this.set_v_reg(0xF, 1);
            }
            false
        },
        None => false,
    }
}

/// `Fx29`: index register = the address of the font sprite for digit `Vx`.
#[allow(non_snake_case)]
pub fn i_Fx29_LD_F_Vx(this: &mut Cpu, op: &Opcode) -> (r: bool)
    requires
        old(this).wf(),
    ensures
        final(this).wf(),
        final(this)@ == (Machine {
            index: (old(this)@.ram_config.font_starting_address + 5 * vx(old(this)@, op@)) as u16,
            ..old(this)@
        }),
        !r,
{
    let addr = this.hex_digit_address(this.get_v_reg(op.get_x()));
    this.set_index_reg(addr);
    false
}

/// `Fx33`: write the decimal digits of `Vx` at the index register.
#[allow(non_snake_case)]
pub fn i_Fx33_LD_B_Vx(this: &mut Cpu, op: &Opcode) -> (r: bool)
    requires
        old(this).wf(),
    ensures
        final(this).wf(),
        final(this)@ == sem_ld_b(old(this)@, op@),
        !r,
{
    proof {
        old(this).lemma_wf_facts();
    }
    let vx = this.get_v_reg(op.get_x());
    let digits: Vec<u8> = vec![vx / 100, (vx / 10) % 10, vx % 10];
    assert(digits@ =~= bcd(vx));
    let index = this.get_index_reg();
    let _ = this.write_ram(digits.as_slice(), index);
    false
}

/// Moves the index register past `x + 1` registers where the settings ask.
fn move_index_if_configured(this: &mut Cpu, x: u8)
    requires
        old(this).wf(),
        x < 16,
    ensures
        final(this).wf(),
        final(this)@ == move_index(old(this)@, x as int),
{
    if this.get_config().move_index_with_reads {
        let _ = this.increment_index_reg_by(x as u16 + 1);
    }
}

/// `Fx55`: write `V0` to `Vx` at the index register; see `sem_ld_i_vx`.
#[allow(non_snake_case)]
pub fn i_Fx55_LD_I_Vx(this: &mut Cpu, op: &Opcode) -> (r: bool)
    requires
        old(this).wf(),
    ensures
        final(this).wf(),
        final(this)@ == sem_ld_i_vx(old(this)@, op@),
        !r,
{
    proof {
        old(this).lemma_wf_facts();
    }
    let x = op.get_x();
    let regs = this.get_v_reg_range(x as usize);
    let index = this.get_index_reg();
    let _ = this.write_ram(regs.as_slice(), index);
    move_index_if_configured(this, x);
    false
}

/// `Fx65`: read `V0` to `Vx` from the index register; see `sem_ld_vx_i`.
#[allow(non_snake_case)]
pub fn i_Fx65_LD_Vx_I(this: &mut Cpu, op: &Opcode) -> (r: bool)
    requires
        old(this).wf(),
    ensures
        final(this).wf(),
        final(this)@ == sem_ld_vx_i(old(this)@, op@),
        !r,
{
    proof {
        old(this).lemma_wf_facts();
    }
    let x = op.get_x();
    let index = this.get_index_reg();
    let bytes = this.read_ram(index, x as u16 + 1);
    match bytes {
        Some(bytes) => {
            let ghost mid = this@;
            this.set_v_reg_range(0, bytes.as_slice());
            assert(this@.v =~= bytes@ + mid.v.subrange(x + 1, 16));
            move_index_if_configured(this, x);
            false
        },
        None => false,
    }
}

/// Whether the machine may execute `ins`: the key instructions index the
/// pad by `Vx`, which must name one of its sixteen keys.
pub open spec fn can_execute(ins: Instruction, m: Machine, w: u16) -> bool {
    (ins == Instruction::SkpVx || ins == Instruction::SknpVx) ==> vx(m, w) < 16
}

/// The nibbles and byte fields of `from_u8s(high, low)`: `s` and `x` are the
/// high byte's nibbles, `y` and `n` the low byte's, `kk` is the low byte and
/// `nnn` the low twelve bits; the four nibbles make up the word again.
pub proof fn lemma_opcode_fields(high: u8, low: u8)
    ensures
        ({
            let w = (high as int * 256 + low as int) as u16;
            &&& nibble_s(w) == high as int / 16
            &&& nibble_x(w) == high as int % 16
            &&& nibble_y(w) == low as int / 16
            &&& nibble_n(w) == low as int % 16
            &&& low_byte(w) == low as int
            &&& low_addr(w) == (high as int % 16) * 256 + low as int
            &&& w == nibble_s(w) * 4096 + nibble_x(w) * 256 + nibble_y(w) * 16 + nibble_n(w)
        }),
{
    let h = high as int;
    let l = low as int;
    let w = h * 256 + l;
    assert(0 <= w < 65536);
    assert(w / 4096 == h / 16) by (nonlinear_arith)
        requires
            w == h * 256 + l,
            0 <= h < 256,
            0 <= l < 256,
    ;
    assert((w / 256) % 16 == h % 16) by (nonlinear_arith)
        requires
            w == h * 256 + l,
            0 <= h < 256,
            0 <= l < 256,
    ;
    assert((w / 16) % 16 == l / 16) by (nonlinear_arith)
        requires
            w == h * 256 + l,
            0 <= h < 256,
            0 <= l < 256,
    ;
    assert(w % 16 == l % 16) by (nonlinear_arith)
        requires
            w == h * 256 + l,
            0 <= h < 256,
            0 <= l < 256,
    ;
    assert(w % 256 == l) by (nonlinear_arith)
        requires
            w == h * 256 + l,
            0 <= h < 256,
            0 <= l < 256,
    ;
    assert(w % 4096 == (h % 16) * 256 + l) by (nonlinear_arith)
        requires
            w == h * 256 + l,
            0 <= h < 256,
            0 <= l < 256,
    ;
    assert(w == (w / 4096) * 4096 + ((w / 256) % 16) * 256 + ((w / 16) % 16) * 16 + w % 16)
        by (nonlinear_arith)
        requires
            0 <= w < 65536,
    ;
}

/// `8xy4` leaves the carry in VF and the sum's low byte in `Vx`: together
/// they make the full sum (where `x` is not F).
pub proof fn lemma_add_carry(m: Machine, w: u16)
    requires
        m.v.len() == 16,
        nibble_x(w) != 15,
    ensures
        ({
            let m2 = sem_add_vx_vy(m, w);
            m2.v[15] * 256 + m2.v[nibble_x(w)] == vx(m, w) + vy(m, w)
        }),
{
}

/// `8xy5` after `8xy4` with the same registers gives back `Vx` (where
/// neither register is VF and they differ).
pub proof fn lemma_sub_undoes_add(m: Machine, w_add: u16, w_sub: u16)
    requires
        m.v.len() == 16,
        nibble_x(w_add) == nibble_x(w_sub),
        nibble_y(w_add) == nibble_y(w_sub),
        nibble_x(w_add) != nibble_y(w_add),
        nibble_x(w_add) != 15,
        nibble_y(w_add) != 15,
    ensures
        sem_sub_vx_vy(sem_add_vx_vy(m, w_add), w_sub).v[nibble_x(w_add)] == vx(m, w_add),
{
}

/// The decimal digits of a byte are digits, and make up the byte again.
pub proof fn lemma_bcd(b: u8)
    ensures
        bcd(b).len() == 3,
        bcd(b)[0] < 10 && bcd(b)[1] < 10 && bcd(b)[2] < 10,
        bcd(b)[0] * 100 + bcd(b)[1] * 10 + bcd(b)[2] == b,
{
}

/// `Fx65` right after `Fx55` with the same `x` gives back the registers, where
/// the write is accepted and the index register is not moved by reads.
pub proof fn lemma_load_after_store(m: Machine, w: u16)
    requires
        m.v.len() == 16,
        m.heap.len() == HEAP_SIZE,
        !m.config.move_index_with_reads,
        !access_refused_at_index(m, nibble_x(w) + 1),
    ensures
        sem_ld_vx_i(sem_ld_i_vx(m, w), w).v == m.v,
{
    let x = nibble_x(w);
    let vals = m.v.subrange(0, x + 1);
    let a = start_of(m.index);
    lemma_read_after_write(m.heap, vals, a);
    let m1 = sem_ld_i_vx(m, w);
    assert(m1.heap == heap_after_write(m.heap, vals, a));
    assert(m1.index == m.index);
    let m2 = sem_ld_vx_i(m1, w);
    assert(m2.v =~= m.v);
}

/// Whether an access of `count` bytes at the index register is refused.
pub open spec fn access_refused_at_index(m: Machine, count: int) -> bool {
    access_refused(m.ram_config.allow_heap_overflow, m.index, count)
}


/// `Dxyn`, finished: where the sprite is read, VF holds the collision flag
/// and the frame ends exactly where the settings limit drawing to one per
/// frame; where the read is refused, the registers are as they were and the
/// frame goes on.
pub proof fn lemma_draw_completes(m: Machine, w: u16, keys: Seq<bool>, delay: u8, rnd: u8, collided: bool, key: u8)
    requires
        m.v.len() == 16,
    ensures
        ({
            let (m2, end_frame) = step_completed(
                Instruction::DrwVxVyNibble,
                m,
                w,
                keys,
                delay,
                rnd,
                collided,
                key,
            );
            if access_refused_at_index(m, nibble_n(w)) {
                &&& m2.v == m.v
                &&& !end_frame
            } else {
                &&& m2.v == m.v.update(15, if collided { 1u8 } else { 0u8 })
                &&& end_frame == m.config.limit_to_one_draw_per_frame
            }
        }),
{
}

/// `Fx0A`, finished: `Vx` holds the key, and the frame ends.
pub proof fn lemma_key_wait_completes(m: Machine, w: u16, keys: Seq<bool>, delay: u8, rnd: u8, collided: bool, key: u8)
    ensures
        ({
            let (m2, end_frame) = step_completed(
                Instruction::LdVxK,
                m,
                w,
                keys,
                delay,
                rnd,
                collided,
                key,
            );
            &&& m2 == set_reg(m, nibble_x(w), key)
            &&& end_frame
        }),
{
}

/// No instruction restarts a stopped machine: once the processor or the
/// memory has stopped it, it stays stopped. No instruction changes the
/// settings either.
#[verifier::rlimit(40)]
pub proof fn lemma_stopped_stays_stopped(
    ins: Instruction,
    m: Machine,
    w: u16,
    keys: Seq<bool>,
    delay: u8,
    rnd: u8,
)
    ensures
        !m.active ==> !semantics(ins, m, w, keys, delay, rnd).0.active,
        !m.ram_active ==> !semantics(ins, m, w, keys, delay, rnd).0.ram_active,
        semantics(ins, m, w, keys, delay, rnd).0.config == m.config,
        semantics(ins, m, w, keys, delay, rnd).0.ram_config == m.ram_config,
{
}

/// The instructions that change the program counter or the stack, or test
/// registers and keys.
pub open spec fn is_flow(ins: Instruction) -> bool {
    ins == Instruction::Cls || ins == Instruction::Ret || ins == Instruction::JpAddr
        || ins == Instruction::CallAddr || ins == Instruction::SeVxByte
        || ins == Instruction::SneVxByte || ins == Instruction::SeVxVy
        || ins == Instruction::SneVxVy || ins == Instruction::JpV0Addr
        || ins == Instruction::SkpVx || ins == Instruction::SknpVx
}

/// The instructions that compute on registers.
pub open spec fn is_arith(ins: Instruction) -> bool {
    ins == Instruction::LdVxByte || ins == Instruction::AddVxByte || ins == Instruction::LdVxVy
        || ins == Instruction::OrVxVy || ins == Instruction::AndVxVy
        || ins == Instruction::XorVxVy || ins == Instruction::AddVxVy
        || ins == Instruction::SubVxVy || ins == Instruction::ShrVx
        || ins == Instruction::SubnVxVy || ins == Instruction::ShlVx
}

fn execute_flow(this: &mut Cpu, ins: Instruction, op: &Opcode, keys: &KeyPad, delay: u8) -> (r: (
    bool,
    Action,
))
    requires
        old(this).wf(),
        keys.wf(),
        can_execute(ins, old(this)@, op@),
        is_flow(ins),
    ensures
        final(this).wf(),
        (final(this)@, r.0, r.1@) == semantics(ins, old(this)@, op@, keys@.keys, delay, 0),
{
    match ins {
        Instruction::Cls => i_00E0_CLS(this, op),
        Instruction::Ret => (i_00EE_RET(this, op), Action::Nothing),
        Instruction::JpAddr => (i_1nnn_JP_addr(this, op), Action::Nothing),
        Instruction::CallAddr => (i_2nnn_CALL_addr(this, op), Action::Nothing),
        Instruction::SeVxByte => (i_3xkk_SE_Vx_byte(this, op), Action::Nothing),
        Instruction::SneVxByte => (i_4xkk_SNE_Vx_byte(this, op), Action::Nothing),
        Instruction::SeVxVy => (i_5xy0_SE_Vx_Vy(this, op), Action::Nothing),
        Instruction::SneVxVy => (i_9xy0_SNE_Vx_Vy(this, op), Action::Nothing),
        Instruction::JpV0Addr => (i_Bnnn_JP_V0_addr(this, op), Action::Nothing),
        Instruction::SkpVx => (i_Ex9E_SKP_Vx(this, op, keys), Action::Nothing),
        _ => (i_ExA1_SKNP_Vx(this, op, keys), Action::Nothing),
    }
}

fn execute_arith(this: &mut Cpu, ins: Instruction, op: &Opcode, keys: &KeyPad, delay: u8) -> (r: (
    bool,
    Action,
))
    requires
        old(this).wf(),
        is_arith(ins),
    ensures
        final(this).wf(),
        (final(this)@, r.0, r.1@) == semantics(ins, old(this)@, op@, keys@.keys, delay, 0),
{
    let b = match ins {
        Instruction::LdVxByte => i_6xkk_LD_Vx_byte(this, op),
        Instruction::AddVxByte => i_7xkk_ADD_Vx_byte(this, op),
        Instruction::LdVxVy => i_8xy0_LD_Vx_Vy(this, op),
        Instruction::OrVxVy => i_8xy1_OR_Vx_Vy(this, op),
        Instruction::AndVxVy => i_8xy2_AND_Vx_Vy(this, op),
        Instruction::XorVxVy => i_8xy3_XOR_Vx_Vy(this, op),
        Instruction::AddVxVy => i_8xy4_ADD_Vx_Vy(this, op),
        Instruction::SubVxVy => i_8xy5_SUB_Vx_Vy(this, op),
        Instruction::ShrVx => i_8xy6_SHR_Vx(this, op),
        Instruction::SubnVxVy => i_8xy7_SUBN_Vx_Vy(this, op),
        _ => i_8xyE_SHL_Vx(this, op),
    };
    (b, Action::Nothing)
}

fn execute_memory(this: &mut Cpu, ins: Instruction, op: &Opcode, keys: &KeyPad, delay: u8) -> (r: (
    bool,
    Action,
))
    requires
        old(this).wf(),
        !is_flow(ins),
        !is_arith(ins),
        ins != Instruction::RndVxByte,
    ensures
        final(this).wf(),
        (final(this)@, r.0, r.1@) == semantics(ins, old(this)@, op@, keys@.keys, delay, 0),
{
    match ins {
        Instruction::LdIAddr => (i_Annn_LD_I_addr(this, op), Action::Nothing),
        Instruction::DrwVxVyNibble => i_Dxyn_DRW_Vx_Vy_nibble(this, op),
        Instruction::LdVxDt => (i_Fx07_LD_Vx_DT(this, op, delay), Action::Nothing),
        Instruction::LdVxK => i_Fx0A_LD_Vx_K(this, op),
        Instruction::LdDtVx => i_Fx15_LD_DT_Vx(this, op),
        Instruction::LdStVx => i_Fx18_LD_ST_Vx(this, op),
        Instruction::AddIVx => (i_Fx1E_ADD_I_Vx(this, op), Action::Nothing),
        Instruction::LdFVx => (i_Fx29_LD_F_Vx(this, op), Action::Nothing),
        Instruction::LdBVx => (i_Fx33_LD_B_Vx(this, op), Action::Nothing),
        Instruction::LdIVx => (i_Fx55_LD_I_Vx(this, op), Action::Nothing),
        _ => (i_Fx65_LD_Vx_I(this, op), Action::Nothing),
    }
}

/// Executes `ins` with the operands of `op`; see `semantics`. `delay` is the
/// delay timer's value. Only `Cxkk` draws a random byte, which may be any.
pub fn execute(this: &mut Cpu, ins: Instruction, op: &Opcode, keys: &KeyPad, delay: u8) -> (r: (
    bool,
    Action,
))
    requires
        old(this).wf(),
        keys.wf(),
        can_execute(ins, old(this)@, op@),
    ensures
        final(this).wf(),
        exists|rnd: u8|
            (final(this)@, r.0, r.1@) == #[trigger] semantics(
                ins,
                old(this)@,
                op@,
                keys@.keys,
                delay,
                rnd,
            ),
{
    let ghost m = this@;
    let ghost w = op@;
    let ghost ks = keys@.keys;
    if ins == Instruction::RndVxByte {
        let b = i_Cxkk_RND_Vx_byte(this, op);
        let r = (b, Action::Nothing);
        proof {
            let rnd = choose|rnd: u8|
                this@ == #[trigger] set_reg(m, nibble_x(w), (low_byte(w) as u8) & rnd);
            assert((this@, r.0, r.1@) == semantics(ins, m, w, ks, delay, rnd));
        }
        r
    } else {
        let r = if is_flow_ins(ins) {
            execute_flow(this, ins, op, keys, delay)
        } else if is_arith_ins(ins) {
            execute_arith(this, ins, op, keys, delay)
        } else {
            execute_memory(this, ins, op, keys, delay)
        };
        proof {
            assert((this@, r.0, r.1@) == semantics(ins, m, w, ks, delay, 0));
        }
        r
    }
}

fn is_flow_ins(ins: Instruction) -> (r: bool)
    ensures
        r == is_flow(ins),
{
    match ins {
        Instruction::Cls | Instruction::Ret | Instruction::JpAddr | Instruction::CallAddr
        | Instruction::SeVxByte | Instruction::SneVxByte | Instruction::SeVxVy
        | Instruction::SneVxVy | Instruction::JpV0Addr | Instruction::SkpVx
        | Instruction::SknpVx => true,
        _ => false,
    }
}

fn is_arith_ins(ins: Instruction) -> (r: bool)
    ensures
        r == is_arith(ins),
{
    match ins {
        Instruction::LdVxByte | Instruction::AddVxByte | Instruction::LdVxVy
        | Instruction::OrVxVy | Instruction::AndVxVy | Instruction::XorVxVy
        | Instruction::AddVxVy | Instruction::SubVxVy | Instruction::ShrVx
        | Instruction::SubnVxVy | Instruction::ShlVx => true,
        _ => false,
    }
}

} // verus!
