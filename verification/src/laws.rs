use vstd::prelude::*;
use crate::cpu::Machine;
use crate::instructions::{
    decode, nibble_s, semantics, nibble_x, nibble_y, nibble_n, low_byte, low_addr, Instruction, ActionView,
};
use crate::ram::{heap_read, heap_after_write, access_refused, start_of, HEAP_SIZE};

verus! {

/// The register `Vi` of a machine, as an integer.
pub open spec fn reg(m: Machine, i: int) -> int {
    m.v[i] as int
}

/// Reading `count` bytes from heap position `a` gives, as byte `k`, the heap
/// byte `k` places further on, going round the heap.
pub proof fn lemma_heap_read_meaning(heap: Seq<u8>, a: int, count: int, k: int)
    requires
        0 <= a < HEAP_SIZE,
        0 <= k < count <= HEAP_SIZE,
    ensures
        heap_read(heap, a, count).len() == count,
        heap_read(heap, a, count)[k] == heap[(a + k) % (HEAP_SIZE as int)],
{
}

/// After writing `vals` (at most a heap's worth) from heap position `a`, the
/// byte `k` places on holds `vals[k]`.
pub proof fn lemma_heap_write_meaning(heap: Seq<u8>, vals: Seq<u8>, a: int, k: int)
    requires
        heap.len() == HEAP_SIZE,
        0 <= a < HEAP_SIZE,
        vals.len() <= HEAP_SIZE,
        0 <= k < vals.len(),
    ensures
        heap_after_write(heap, vals, a).len() == HEAP_SIZE,
        heap_after_write(heap, vals, a)[(a + k) % (HEAP_SIZE as int)] == vals[k],
{
    let i = (a + k) % (HEAP_SIZE as int);
    assert(i == if a + k < HEAP_SIZE { a + k } else { a + k - HEAP_SIZE });
}

/// The opcode table: which words encode which instruction, by the word's
/// high nibble `s`, low nibble `n`, low byte `kk` and low twelve bits `nnn`.
/// Every other word encodes none.
pub proof fn lemma_decode_table(w: u16)
    ensures
        ({
            let s = nibble_s(w);
            let n = nibble_n(w);
            let kk = low_byte(w);
            let nnn = low_addr(w);
            &&& (decode(w) == Some(Instruction::Cls)) == (s == 0 && nnn == 0x0E0)
            &&& (decode(w) == Some(Instruction::Ret)) == (s == 0 && nnn == 0x0EE)
            &&& (decode(w) == Some(Instruction::JpAddr)) == (s == 1)
            &&& (decode(w) == Some(Instruction::CallAddr)) == (s == 2)
            &&& (decode(w) == Some(Instruction::SeVxByte)) == (s == 3)
            &&& (decode(w) == Some(Instruction::SneVxByte)) == (s == 4)
            &&& (decode(w) == Some(Instruction::SeVxVy)) == (s == 5 && n == 0)
            &&& (decode(w) == Some(Instruction::LdVxByte)) == (s == 6)
            &&& (decode(w) == Some(Instruction::AddVxByte)) == (s == 7)
            &&& (decode(w) == Some(Instruction::LdVxVy)) == (s == 8 && n == 0)
            &&& (decode(w) == Some(Instruction::OrVxVy)) == (s == 8 && n == 1)
            &&& (decode(w) == Some(Instruction::AndVxVy)) == (s == 8 && n == 2)
            &&& (decode(w) == Some(Instruction::XorVxVy)) == (s == 8 && n == 3)
            &&& (decode(w) == Some(Instruction::AddVxVy)) == (s == 8 && n == 4)
            &&& (decode(w) == Some(Instruction::SubVxVy)) == (s == 8 && n == 5)
            &&& (decode(w) == Some(Instruction::ShrVx)) == (s == 8 && n == 6)
            &&& (decode(w) == Some(Instruction::SubnVxVy)) == (s == 8 && n == 7)
            &&& (decode(w) == Some(Instruction::ShlVx)) == (s == 8 && n == 0xE)
            &&& (decode(w) == Some(Instruction::SneVxVy)) == (s == 9 && n == 0)
            &&& (decode(w) == Some(Instruction::LdIAddr)) == (s == 0xA)
            &&& (decode(w) == Some(Instruction::JpV0Addr)) == (s == 0xB)
            &&& (decode(w) == Some(Instruction::RndVxByte)) == (s == 0xC)
            &&& (decode(w) == Some(Instruction::DrwVxVyNibble)) == (s == 0xD)
            &&& (decode(w) == Some(Instruction::SkpVx)) == (s == 0xE && kk == 0x9E)
            &&& (decode(w) == Some(Instruction::SknpVx)) == (s == 0xE && kk == 0xA1)
            &&& (decode(w) == Some(Instruction::LdVxDt)) == (s == 0xF && kk == 0x07)
            &&& (decode(w) == Some(Instruction::LdVxK)) == (s == 0xF && kk == 0x0A)
            &&& (decode(w) == Some(Instruction::LdDtVx)) == (s == 0xF && kk == 0x15)
            &&& (decode(w) == Some(Instruction::LdStVx)) == (s == 0xF && kk == 0x18)
            &&& (decode(w) == Some(Instruction::AddIVx)) == (s == 0xF && kk == 0x1E)
            &&& (decode(w) == Some(Instruction::LdFVx)) == (s == 0xF && kk == 0x29)
            &&& (decode(w) == Some(Instruction::LdBVx)) == (s == 0xF && kk == 0x33)
            &&& (decode(w) == Some(Instruction::LdIVx)) == (s == 0xF && kk == 0x55)
            &&& (decode(w) == Some(Instruction::LdVxI)) == (s == 0xF && kk == 0x65)
        }),
{
}

/// The skip instructions move the program counter on by one instruction
/// (two bytes) exactly when their condition holds, and change nothing else:
/// `3xkk` when `Vx == kk`, `4xkk` when `Vx != kk`, `5xy0` when `Vx == Vy`,
/// `9xy0` when `Vx != Vy`, `Ex9E` when key `Vx` is down, `ExA1` when it is up.
pub proof fn lemma_skip_meaning(m: Machine, w: u16, keys: Seq<bool>, delay: u8, rnd: u8)
    requires
        m.v.len() == 16,
        m.pc + 2 < HEAP_SIZE,
    ensures
        ({
            let x = nibble_x(w);
            let y = nibble_y(w);
            let kk = low_byte(w);
            let next = (m.pc + 2) as u16;
            &&& semantics(Instruction::SeVxByte, m, w, keys, delay, rnd) == (
                Machine { pc: if reg(m, x) == kk { next } else { m.pc }, ..m },
                false,
                ActionView::Nothing,
            )
            &&& semantics(Instruction::SneVxByte, m, w, keys, delay, rnd) == (
                Machine { pc: if reg(m, x) != kk { next } else { m.pc }, ..m },
                false,
                ActionView::Nothing,
            )
            &&& semantics(Instruction::SeVxVy, m, w, keys, delay, rnd) == (
                Machine { pc: if reg(m, x) == reg(m, y) { next } else { m.pc }, ..m },
                false,
                ActionView::Nothing,
            )
            &&& semantics(Instruction::SneVxVy, m, w, keys, delay, rnd) == (
                Machine { pc: if reg(m, x) != reg(m, y) { next } else { m.pc }, ..m },
                false,
                ActionView::Nothing,
            )
            &&& semantics(Instruction::SkpVx, m, w, keys, delay, rnd) == (
                Machine { pc: if keys[reg(m, x)] { next } else { m.pc }, ..m },
                false,
                ActionView::Nothing,
            )
            &&& semantics(Instruction::SknpVx, m, w, keys, delay, rnd) == (
                Machine { pc: if !keys[reg(m, x)] { next } else { m.pc }, ..m },
                false,
                ActionView::Nothing,
            )
        }),
{
}

/// The jumps, calls and returns: `1nnn` jumps to `nnn`; `Bnnn` to `nnn`
/// plus V0 (or plus `Vx` with the newer jump); `2nnn` with room on the stack
/// stores the program counter on top of it and jumps to `nnn`; `00EE` on a
/// stack that is not empty jumps to the address on top of it and removes it.
pub proof fn lemma_flow_meaning(m: Machine, w: u16, keys: Seq<bool>, delay: u8, rnd: u8)
    requires
        m.v.len() == 16,
        m.sp <= m.stack.len(),
    ensures
        ({
            let x = nibble_x(w);
            let nnn = low_addr(w);
            let jp = semantics(Instruction::JpAddr, m, w, keys, delay, rnd);
            let jv = semantics(Instruction::JpV0Addr, m, w, keys, delay, rnd);
            let call = semantics(Instruction::CallAddr, m, w, keys, delay, rnd);
            let ret = semantics(Instruction::Ret, m, w, keys, delay, rnd);
            &&& jp.0 == Machine { pc: nnn as u16, ..m }
            &&& jv.0 == Machine {
                pc: (nnn + if m.config.use_new_jump_instruction {
                    reg(m, x)
                } else {
                    reg(m, 0)
                }) as u16,
                ..m
            }
            &&& jv.0.pc == nnn + if m.config.use_new_jump_instruction {
                reg(m, x)
            } else {
                reg(m, 0)
            }
            &&& m.sp < m.stack.len() ==> {
                &&& call.0.pc == nnn
                &&& call.0.stack == m.stack.update(m.sp as int, m.pc)
                &&& call.0.sp == m.sp + 1
                &&& call.0.v == m.v
                &&& call.0.ram_active == m.ram_active
            }
            &&& m.sp > 0 ==> {
                &&& ret.0.pc == m.stack[m.sp - 1]
                &&& ret.0.sp == m.sp - 1
                &&& ret.0.stack == m.stack
                &&& ret.0.v == m.v
                &&& ret.0.ram_active == m.ram_active
            }
            &&& !jp.1 && !jv.1 && !call.1 && !ret.1
        }),
{
}

/// Loads and logic: `6xkk` puts `kk` in `Vx`; `7xkk` adds `kk` to `Vx`
/// modulo 256; `8xy0` copies `Vy`; `8xy1`, `8xy2`, `8xy3` put `Vx | Vy`,
/// `Vx & Vy`, `Vx ^ Vy` in `Vx` and then clear VF where the settings ask
/// for it; every other register keeps its value.
pub proof fn lemma_load_logic_meaning(
    m: Machine,
    w: u16,
    keys: Seq<bool>,
    delay: u8,
    rnd: u8,
    i: int,
)
    requires
        m.v.len() == 16,
        0 <= i < 16,
    ensures
        ({
            let x = nibble_x(w);
            let y = nibble_y(w);
            let kk = low_byte(w);
            let ld = semantics(Instruction::LdVxByte, m, w, keys, delay, rnd).0;
            let add = semantics(Instruction::AddVxByte, m, w, keys, delay, rnd).0;
            let mv = semantics(Instruction::LdVxVy, m, w, keys, delay, rnd).0;
            let or = semantics(Instruction::OrVxVy, m, w, keys, delay, rnd).0;
            let and = semantics(Instruction::AndVxVy, m, w, keys, delay, rnd).0;
            let xor = semantics(Instruction::XorVxVy, m, w, keys, delay, rnd).0;
            let reset = m.config.reset_flag_for_bitwise_operations;
            &&& reg(ld, i) == if i == x { kk } else { reg(m, i) }
            &&& reg(add, i) == if i == x { (reg(m, x) + kk) % 256 } else { reg(m, i) }
            &&& reg(mv, i) == if i == x { reg(m, y) } else { reg(m, i) }
            &&& or.v[i] == if i == 15 && reset {
                0u8
            } else if i == x {
                m.v[x] | m.v[y]
            } else {
                m.v[i]
            }
            &&& and.v[i] == if i == 15 && reset {
                0u8
            } else if i == x {
                m.v[x] & m.v[y]
            } else {
                m.v[i]
            }
            &&& xor.v[i] == if i == 15 && reset {
                0u8
            } else if i == x {
                m.v[x] ^ m.v[y]
            } else {
                m.v[i]
            }
            &&& ld.pc == m.pc && add.pc == m.pc && mv.pc == m.pc && or.pc == m.pc
            &&& ld.v.len() == 16 && add.v.len() == 16 && mv.v.len() == 16 && or.v.len() == 16
                && and.v.len() == 16 && xor.v.len() == 16
        }),
{
}

/// What `semantics` gives for the arithmetic instructions with flags.
proof fn lemma_semantics_of_flag_ops(m: Machine, w: u16, keys: Seq<bool>, delay: u8, rnd: u8)
    ensures
        semantics(Instruction::AddVxVy, m, w, keys, delay, rnd).0
            == crate::instructions::sem_add_vx_vy(m, w),
        semantics(Instruction::SubVxVy, m, w, keys, delay, rnd).0
            == crate::instructions::sem_sub_vx_vy(m, w),
        semantics(Instruction::SubnVxVy, m, w, keys, delay, rnd).0
            == crate::instructions::sem_subn_vx_vy(m, w),
        semantics(Instruction::ShrVx, m, w, keys, delay, rnd).0 == crate::instructions::sem_shr(m, w),
        semantics(Instruction::ShlVx, m, w, keys, delay, rnd).0 == crate::instructions::sem_shl(m, w),
{
}

/// `8xy4` leaves the carry in VF, so that for `x` other than F, VF and `Vx`
/// together hold the exact sum; with `x` = F, VF ends as the carry. The
/// other registers keep their values.
pub proof fn lemma_add_meaning(m: Machine, w: u16, keys: Seq<bool>, delay: u8, rnd: u8, i: int)
    requires
        m.v.len() == 16,
        0 <= i < 15,
        i != nibble_x(w),
    ensures
        ({
            let x = nibble_x(w);
            let y = nibble_y(w);
            let r = semantics(Instruction::AddVxVy, m, w, keys, delay, rnd).0;
            &&& reg(r, 15) <= 1
            &&& x != 15 ==> reg(r, 15) * 256 + reg(r, x) == reg(m, x) + reg(m, y)
            &&& x == 15 ==> reg(r, 15) == if reg(m, x) + reg(m, y) > 255 { 1int } else { 0 }
            &&& reg(r, i) == reg(m, i)
        }),
{
    lemma_semantics_of_flag_ops(m, w, keys, delay, rnd);
    lemma_add_arith(m, w, i);
}

proof fn lemma_add_arith(m: Machine, w: u16, i: int)
    requires
        m.v.len() == 16,
        0 <= i < 15,
        i != nibble_x(w),
    ensures
        ({
            let x = nibble_x(w);
            let y = nibble_y(w);
            let r = crate::instructions::sem_add_vx_vy(m, w);
            &&& reg(r, 15) <= 1
            &&& x != 15 ==> reg(r, 15) * 256 + reg(r, x) == reg(m, x) + reg(m, y)
            &&& x == 15 ==> reg(r, 15) == if reg(m, x) + reg(m, y) > 255 { 1int } else { 0 }
            &&& reg(r, i) == reg(m, i)
        }),
{
    let sum = reg(m, nibble_x(w)) + reg(m, nibble_y(w));
    assert(0 <= sum < 512);
    assert(sum < 256 ==> sum % 256 == sum);
    assert(sum >= 256 ==> sum % 256 == sum - 256);
}

/// `8xy5` leaves 1 in VF unless it borrowed, so that for `x` other than F,
/// VF and `Vx` together hold `Vx - Vy + 256`; with `x` = F, VF ends as the
/// no-borrow flag. The other registers keep their values.
pub proof fn lemma_sub_meaning(m: Machine, w: u16, keys: Seq<bool>, delay: u8, rnd: u8, i: int)
    requires
        m.v.len() == 16,
        0 <= i < 15,
        i != nibble_x(w),
    ensures
        ({
            let x = nibble_x(w);
            let y = nibble_y(w);
            let r = semantics(Instruction::SubVxVy, m, w, keys, delay, rnd).0;
            &&& reg(r, 15) <= 1
            &&& x != 15 ==> reg(r, 15) * 256 + reg(r, x) == reg(m, x) - reg(m, y) + 256
            &&& x == 15 ==> reg(r, 15) == if reg(m, x) >= reg(m, y) { 1int } else { 0 }
            &&& reg(r, i) == reg(m, i)
        }),
{
    lemma_semantics_of_flag_ops(m, w, keys, delay, rnd);
    lemma_sub_arith(m, w, i);
}

proof fn lemma_sub_arith(m: Machine, w: u16, i: int)
    requires
        m.v.len() == 16,
        0 <= i < 15,
        i != nibble_x(w),
    ensures
        ({
            let x = nibble_x(w);
            let y = nibble_y(w);
            let r = crate::instructions::sem_sub_vx_vy(m, w);
            &&& reg(r, 15) <= 1
            &&& x != 15 ==> reg(r, 15) * 256 + reg(r, x) == reg(m, x) - reg(m, y) + 256
            &&& x == 15 ==> reg(r, 15) == if reg(m, x) >= reg(m, y) { 1int } else { 0 }
            &&& reg(r, i) == reg(m, i)
        }),
{
    let x = nibble_x(w);
    let y = nibble_y(w);
    let d = reg(m, x) - reg(m, y);
    assert(-256 < d < 256);
    assert(d >= 0 ==> (d + 256) % 256 == d);
    assert(d < 0 ==> (d + 256) % 256 == d + 256);
}

/// `8xy7` leaves 1 in VF unless it borrowed, so that for `x` other than F,
/// VF and `Vx` together hold `Vy - Vx + 256`; with `x` = F, VF ends as the
/// no-borrow flag. The other registers keep their values.
pub proof fn lemma_subn_meaning(m: Machine, w: u16, keys: Seq<bool>, delay: u8, rnd: u8, i: int)
    requires
        m.v.len() == 16,
        0 <= i < 15,
        i != nibble_x(w),
    ensures
        ({
            let x = nibble_x(w);
            let y = nibble_y(w);
            let r = semantics(Instruction::SubnVxVy, m, w, keys, delay, rnd).0;
            &&& reg(r, 15) <= 1
            &&& x != 15 ==> reg(r, 15) * 256 + reg(r, x) == reg(m, y) - reg(m, x) + 256
            &&& x == 15 ==> reg(r, 15) == if reg(m, y) >= reg(m, x) { 1int } else { 0 }
            &&& reg(r, i) == reg(m, i)
        }),
{
    lemma_semantics_of_flag_ops(m, w, keys, delay, rnd);
    lemma_subn_arith(m, w, i);
}

proof fn lemma_subn_arith(m: Machine, w: u16, i: int)
    requires
        m.v.len() == 16,
        0 <= i < 15,
        i != nibble_x(w),
    ensures
        ({
            let x = nibble_x(w);
            let y = nibble_y(w);
            let r = crate::instructions::sem_subn_vx_vy(m, w);
            &&& reg(r, 15) <= 1
            &&& x != 15 ==> reg(r, 15) * 256 + reg(r, x) == reg(m, y) - reg(m, x) + 256
            &&& x == 15 ==> reg(r, 15) == if reg(m, y) >= reg(m, x) { 1int } else { 0 }
            &&& reg(r, i) == reg(m, i)
        }),
{
    let d = reg(m, nibble_y(w)) - reg(m, nibble_x(w));
    assert(-256 < d < 256);
    assert(d >= 0 ==> (d + 256) % 256 == d);
    assert(d < 0 ==> (d + 256) % 256 == d + 256);
}

/// `8xy6`, for `x` other than F, halves the source (`Vx` with the newer
/// shift, else `Vy`) into `Vx` and leaves the bit shifted out in VF.
pub proof fn lemma_shr_meaning(m: Machine, w: u16, keys: Seq<bool>, delay: u8, rnd: u8, i: int)
    requires
        m.v.len() == 16,
        0 <= i < 15,
        i != nibble_x(w),
        nibble_x(w) != 15,
    ensures
        ({
            let x = nibble_x(w);
            let src = if m.config.use_new_shift_instruction {
                reg(m, x)
            } else {
                reg(m, nibble_y(w))
            };
            let r = semantics(Instruction::ShrVx, m, w, keys, delay, rnd).0;
            &&& reg(r, 15) <= 1
            &&& 2 * reg(r, x) + reg(r, 15) == src
            &&& reg(r, i) == reg(m, i)
        }),
{
    lemma_semantics_of_flag_ops(m, w, keys, delay, rnd);
    lemma_shr_arith(m, w, i);
}

proof fn lemma_shr_arith(m: Machine, w: u16, i: int)
    requires
        m.v.len() == 16,
        0 <= i < 15,
        i != nibble_x(w),
        nibble_x(w) != 15,
    ensures
        ({
            let x = nibble_x(w);
            let src = if m.config.use_new_shift_instruction {
                reg(m, x)
            } else {
                reg(m, nibble_y(w))
            };
            let r = crate::instructions::sem_shr(m, w);
            &&& reg(r, 15) <= 1
            &&& 2 * reg(r, x) + reg(r, 15) == src
            &&& reg(r, i) == reg(m, i)
        }),
{
    let src = crate::instructions::shift_source(m, w) as int;
    assert(0 <= src < 256);
    assert(src == 2 * (src / 2) + src % 2);
}

/// `8xyE`, for `x` other than F, doubles the source (`Vx` with the newer
/// shift, else `Vy`) modulo 256 into `Vx` and leaves the bit shifted out in
/// VF.
pub proof fn lemma_shl_meaning(m: Machine, w: u16, keys: Seq<bool>, delay: u8, rnd: u8, i: int)
    requires
        m.v.len() == 16,
        0 <= i < 15,
        i != nibble_x(w),
        nibble_x(w) != 15,
    ensures
        ({
            let x = nibble_x(w);
            let src = if m.config.use_new_shift_instruction {
                reg(m, x)
            } else {
                reg(m, nibble_y(w))
            };
            let r = semantics(Instruction::ShlVx, m, w, keys, delay, rnd).0;
            &&& reg(r, 15) <= 1
            &&& reg(r, x) + 256 * reg(r, 15) == 2 * src
            &&& reg(r, i) == reg(m, i)
        }),
{
    lemma_semantics_of_flag_ops(m, w, keys, delay, rnd);
    lemma_shl_arith(m, w, i);
}

proof fn lemma_shl_arith(m: Machine, w: u16, i: int)
    requires
        m.v.len() == 16,
        0 <= i < 15,
        i != nibble_x(w),
        nibble_x(w) != 15,
    ensures
        ({
            let x = nibble_x(w);
            let src = if m.config.use_new_shift_instruction {
                reg(m, x)
            } else {
                reg(m, nibble_y(w))
            };
            let r = crate::instructions::sem_shl(m, w);
            &&& reg(r, 15) <= 1
            &&& reg(r, x) + 256 * reg(r, 15) == 2 * src
            &&& reg(r, i) == reg(m, i)
        }),
{
    let x = nibble_x(w);
    let src = crate::instructions::shift_source(m, w) as int;
    assert(0 <= src < 256);
    assert(src < 128 ==> (src * 2) % 256 == src * 2 && src / 128 == 0);
    assert(src >= 128 ==> (src * 2) % 256 == src * 2 - 256 && src / 128 == 1);
}

/// `Dxyn` hands over the `n` bytes of memory at the index register, in order
/// and going round the heap, to be drawn at (`Vx`, `Vy`), and changes no
/// register; where that read is refused it hands over nothing and the memory
/// stops the machine.
pub proof fn lemma_draw_meaning(m: Machine, w: u16, keys: Seq<bool>, delay: u8, rnd: u8, k: int)
    requires
        m.v.len() == 16,
        0 <= k < nibble_n(w),
    ensures
        ({
            let r = semantics(Instruction::DrwVxVyNibble, m, w, keys, delay, rnd);
            if access_refused(m.ram_config.allow_heap_overflow, m.index, nibble_n(w)) {
                &&& r.2 == ActionView::Nothing
                &&& !r.1
                &&& r.0 == Machine { ram_active: false, ..m }
            } else {
                &&& r.2 is DrawSprite
                &&& r.2->sprite.len() == nibble_n(w)
                &&& r.2->sprite[k] == m.heap[(start_of(m.index) + k) % (HEAP_SIZE as int)]
                &&& r.2->x == m.v[nibble_x(w)]
                &&& r.2->y == m.v[nibble_y(w)]
                &&& r.1 == m.config.limit_to_one_draw_per_frame
                &&& r.0 == m
            }
        }),
{
    let r = semantics(Instruction::DrwVxVyNibble, m, w, keys, delay, rnd);
    assert(r == crate::instructions::sem_drw(m, w));
    let a = start_of(m.index);
    assert(0 <= a < HEAP_SIZE);
    assert(nibble_n(w) < 16);
    if !access_refused(m.ram_config.allow_heap_overflow, m.index, nibble_n(w)) {
        lemma_heap_read_meaning(m.heap, a, nibble_n(w), k);
    }
}

/// `Annn` sets the index register to `nnn` and `Fx29` to the font sprite
/// of digit `Vx`, five bytes each; neither changes a register.
pub proof fn lemma_index_meaning(m: Machine, w: u16, keys: Seq<bool>, delay: u8, rnd: u8)
    requires
        m.v.len() == 16,
        m.ram_config.font_starting_address <= 0xFB0,
    ensures
        ({
            let ld_i = semantics(Instruction::LdIAddr, m, w, keys, delay, rnd).0;
            let ld_f = semantics(Instruction::LdFVx, m, w, keys, delay, rnd).0;
            &&& ld_i.index == low_addr(w) && ld_i.v == m.v
            &&& ld_f.index == m.ram_config.font_starting_address + 5 * reg(m, nibble_x(w))
            &&& ld_f.v == m.v
        }),
{
    let x = nibble_x(w);
    assert(0 <= reg(m, x) < 256);
    assert(low_addr(w) < 4096);
}

/// `Fx1E`, staying inside the heap, moves the index register on by `Vx`
/// and changes no register.
pub proof fn lemma_add_index_meaning(m: Machine, w: u16, keys: Seq<bool>, delay: u8, rnd: u8)
    requires
        m.v.len() == 16,
        m.index + reg(m, nibble_x(w)) < HEAP_SIZE,
    ensures
        ({
            let r = semantics(Instruction::AddIVx, m, w, keys, delay, rnd).0;
            r.index == m.index + reg(m, nibble_x(w)) && r.v == m.v
        }),
{
    let r = semantics(Instruction::AddIVx, m, w, keys, delay, rnd).0;
    assert(r == crate::instructions::sem_add_i(m, w));
}

/// `Fx33`, where the write is accepted, writes the hundreds, tens and units
/// of `Vx` at the index register and changes no register.
pub proof fn lemma_bcd_store_meaning(m: Machine, w: u16, keys: Seq<bool>, delay: u8, rnd: u8)
    requires
        m.v.len() == 16,
        m.heap.len() == HEAP_SIZE,
        !access_refused(m.ram_config.allow_heap_overflow, m.index, 3),
    ensures
        ({
            let x = nibble_x(w);
            let a = start_of(m.index);
            let r = semantics(Instruction::LdBVx, m, w, keys, delay, rnd).0;
            &&& r.heap[a] == reg(m, x) / 100
            &&& r.heap[(a + 1) % (HEAP_SIZE as int)] == (reg(m, x) / 10) % 10
            &&& r.heap[(a + 2) % (HEAP_SIZE as int)] == reg(m, x) % 10
            &&& r.v == m.v
        }),
{
    let x = nibble_x(w);
    let a = start_of(m.index);
    let r = semantics(Instruction::LdBVx, m, w, keys, delay, rnd).0;
    let d = crate::instructions::bcd(m.v[x]);
    assert(r == crate::instructions::sem_ld_b(m, w));
    assert(r.heap == heap_after_write(m.heap, d, a));
    assert(0 <= a < HEAP_SIZE);
    lemma_heap_write_meaning(m.heap, d, a, 0);
    lemma_heap_write_meaning(m.heap, d, a, 1);
    lemma_heap_write_meaning(m.heap, d, a, 2);
    assert(a % (HEAP_SIZE as int) == a);
}

/// `Fx55`, where the write is accepted, writes `V0` to `Vx` at the index
/// register, in order and going round the heap, and changes no register.
pub proof fn lemma_store_regs_meaning(m: Machine, w: u16, keys: Seq<bool>, delay: u8, rnd: u8, k: int)
    requires
        m.v.len() == 16,
        m.heap.len() == HEAP_SIZE,
        !access_refused(m.ram_config.allow_heap_overflow, m.index, nibble_x(w) + 1),
        0 <= k <= nibble_x(w),
    ensures
        ({
            let r = semantics(Instruction::LdIVx, m, w, keys, delay, rnd).0;
            &&& r.heap[(start_of(m.index) + k) % (HEAP_SIZE as int)] == m.v[k]
            &&& r.v == m.v
        }),
{
    let x = nibble_x(w);
    let a = start_of(m.index);
    let r = semantics(Instruction::LdIVx, m, w, keys, delay, rnd).0;
    assert(r == crate::instructions::sem_ld_i_vx(m, w));
    assert(0 <= a < HEAP_SIZE);
    lemma_heap_write_meaning(m.heap, m.v.subrange(0, x + 1), a, k);
}

/// `Fx65`, where the read is accepted, loads `V0` to `Vx` from the index
/// register, in order and going round the heap, and keeps the higher
/// registers.
pub proof fn lemma_load_regs_meaning(m: Machine, w: u16, keys: Seq<bool>, delay: u8, rnd: u8, k: int)
    requires
        m.v.len() == 16,
        m.heap.len() == HEAP_SIZE,
        !access_refused(m.ram_config.allow_heap_overflow, m.index, nibble_x(w) + 1),
        0 <= k < 16,
    ensures
        ({
            let r = semantics(Instruction::LdVxI, m, w, keys, delay, rnd).0;
            r.v[k] == if k <= nibble_x(w) {
                m.heap[(start_of(m.index) + k) % (HEAP_SIZE as int)]
            } else {
                m.v[k]
            }
        }),
{
    let x = nibble_x(w);
    let a = start_of(m.index);
    let r = semantics(Instruction::LdVxI, m, w, keys, delay, rnd).0;
    assert(r == crate::instructions::sem_ld_vx_i(m, w));
    assert(0 <= a < HEAP_SIZE);
    if k <= x {
        lemma_heap_read_meaning(m.heap, a, x + 1, k);
    }
}

/// The actions and the rest: `00E0` asks for the screen to be cleared;
/// `Fx15` and `Fx18` ask for the delay and sound timers to be set to `Vx`;
/// `Fx0A` asks for a key for `Vx` and ends the frame; `Fx07` loads the delay
/// timer into `Vx`; `Cxkk` puts `kk & rnd` in `Vx`. None of them changes the
/// program counter.
pub proof fn lemma_action_meaning(m: Machine, w: u16, keys: Seq<bool>, delay: u8, rnd: u8)
    requires
        m.v.len() == 16,
    ensures
        ({
            let x = nibble_x(w);
            let kk = low_byte(w) as u8;
            &&& semantics(Instruction::Cls, m, w, keys, delay, rnd) == (
                m,
                false,
                ActionView::ClearScreen,
            )
            &&& semantics(Instruction::LdDtVx, m, w, keys, delay, rnd) == (
                m,
                false,
                ActionView::SetDelayTimer { value: m.v[x] },
            )
            &&& semantics(Instruction::LdStVx, m, w, keys, delay, rnd) == (
                m,
                false,
                ActionView::SetSoundTimer { value: m.v[x] },
            )
            &&& semantics(Instruction::LdVxK, m, w, keys, delay, rnd) == (
                m,
                true,
                ActionView::AwaitKey { register: x as u8 },
            )
            &&& semantics(Instruction::LdVxDt, m, w, keys, delay, rnd).0 == Machine {
                v: m.v.update(x, delay),
                ..m
            }
            &&& semantics(Instruction::RndVxByte, m, w, keys, delay, rnd).0 == Machine {
                v: m.v.update(x, kk & rnd),
                ..m
            }
        }),
{
}

} // verus!
