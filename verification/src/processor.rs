//! The processor: memory, registers, call stack, timers, canvas and
//! program counter, with the fetch-decode-execute cycle.
//!
//! Every public operation is specified against `ProcState`, the
//! mathematical state of the machine.  Out-of-range memory accesses that
//! the instruction set leaves open (addresses derived from the index
//! register) are resolved once, here: reads outside the 4096 bytes yield
//! 0 and writes outside them are dropped, so no access wraps silently or
//! aborts the machine.

use vstd::prelude::*;

use crate::canvas::{
    any_pixel_on, blank_grid, draw_erases, draw_grid, grid_wf, sprite_any_bit, Canvas,
};
use crate::font::{FONT, FONT_BYTES, FONT_DIGIT_BYTES};
use crate::pc::{next_address, skip_address, ProgramCounter, ADDRESS_SPACE, OPCODE_SIZE};
use crate::output::Output;

verus! {

/// Relies on rand::random: it returns some value of the type, drawn from
/// the thread-local generator.  Nothing is promised about which value;
/// every caller must hold for all of them.
pub assume_specification<T>[ rand::random::<T> ]() -> (r: T)
    where
        rand::distributions::Standard: rand::distributions::Distribution<T>,
;

/// Bytes of addressable memory.
pub const RAM_BYTES: usize = 4096;

/// Number of general-purpose registers.
pub const V_SIZE: usize = 16;

/// Capacity of the call stack.
pub const STACK_SIZE: usize = 16;

/// Address programs are loaded at; everything below is interpreter area.
pub const PROGRAM_ADDRESS_START: usize = 0x200;

/// The mathematical state of the machine.
pub struct ProcState {
    pub memory: Seq<u8>,
    pub v: Seq<u8>,
    pub i: int,
    pub pc: int,
    pub sp: int,
    pub stack: Seq<usize>,
    pub delay_timer: u8,
    pub sound_timer: u8,
    pub waiting_for_keypad: bool,
    pub keycode_register: int,
    pub pixels: Seq<Seq<bool>>,
    pub have_pixels_changed: bool,
}

/// A well-formed machine state.
pub open spec fn state_wf(s: ProcState) -> bool {
    &&& s.memory.len() == RAM_BYTES
    &&& s.v.len() == V_SIZE
    &&& s.stack.len() == STACK_SIZE
    &&& (forall|k: int| 0 <= k < STACK_SIZE ==> (#[trigger] s.stack[k]) < ADDRESS_SPACE)
    &&& 0 <= s.sp <= STACK_SIZE
    &&& 0 <= s.i < ADDRESS_SPACE
    &&& 0 <= s.pc < ADDRESS_SPACE
    &&& 0 <= s.keycode_register < V_SIZE
    &&& grid_wf(s.pixels)
}

/// The byte at a memory address; reads outside memory yield 0.
pub open spec fn mem_byte(mem: Seq<u8>, addr: int) -> u8 {
    if 0 <= addr < RAM_BYTES {
        mem[addr]
    } else {
        0u8
    }
}

/// Memory after a one-byte store; writes outside memory are dropped.
pub open spec fn mem_store(mem: Seq<u8>, addr: int, val: u8) -> Seq<u8> {
    if 0 <= addr < RAM_BYTES {
        mem.update(addr, val)
    } else {
        mem
    }
}

/// Memory after a buffer is copied in starting at `address`; bytes that
/// would land outside memory are dropped.
pub open spec fn mem_load(mem: Seq<u8>, address: int, data: Seq<u8>) -> Seq<u8> {
    Seq::new(
        mem.len(),
        |a: int|
            if address <= a < address + data.len() {
                data[a - address]
            } else {
                mem[a]
            },
    )
}

/// The machine state at construction: font in low memory, everything else
/// zeroed, program counter at the program start address.
pub open spec fn initial_state() -> ProcState {
    ProcState {
        memory: Seq::new(
            RAM_BYTES as nat,
            |a: int|
                if a < FONT_BYTES {
                    FONT@[a]
                } else {
                    0u8
                },
        ),
        v: Seq::new(V_SIZE as nat, |k: int| 0u8),
        i: 0,
        pc: PROGRAM_ADDRESS_START as int,
        sp: 0,
        stack: Seq::new(STACK_SIZE as nat, |k: int| 0usize),
        delay_timer: 0,
        sound_timer: 0,
        waiting_for_keypad: false,
        keycode_register: 0,
        pixels: blank_grid(),
        have_pixels_changed: false,
    }
}

/// A timer tick: decrement by exactly one, saturating at zero.
pub open spec fn timer_dec(t: u8) -> u8 {
    if t > 0 {
        (t - 1) as u8
    } else {
        0u8
    }
}

/// What `update_timers` does: while waiting for the keypad nothing moves;
/// otherwise both timers decrement by exactly one, never below zero.
pub open spec fn spec_update_timers(s: ProcState) -> ProcState {
    if s.waiting_for_keypad {
        s
    } else {
        ProcState { delay_timer: timer_dec(s.delay_timer), sound_timer: timer_dec(s.sound_timer), ..s }
    }
}

/// 8-bit subtraction, wrapping below zero.
pub open spec fn byte_sub(a: u8, b: u8) -> u8 {
    if a >= b {
        (a - b) as u8
    } else {
        (a - b + 0x100) as u8
    }
}

/// A skip instruction's only effect: skip the next instruction when the
/// condition holds, else advance to it.
pub open spec fn spec_skip_if(s: ProcState, cond: bool) -> ProcState {
    ProcState {
        pc: if cond {
            skip_address(s.pc)
        } else {
            next_address(s.pc)
        },
        ..s
    }
}

/// 00E0: clear the screen.
pub open spec fn spec_op_00E0(s: ProcState) -> ProcState {
    ProcState {
        pixels: blank_grid(),
        have_pixels_changed: s.have_pixels_changed || any_pixel_on(s.pixels),
        pc: next_address(s.pc),
        ..s
    }
}

/// 00EE: return from a subroutine.  With an empty stack there is no
/// return address; the instruction is then a no-op that advances.
pub open spec fn spec_op_00EE(s: ProcState) -> ProcState {
    if s.sp > 0 {
        ProcState { sp: s.sp - 1, pc: s.stack[s.sp - 1] as int, ..s }
    } else {
        ProcState { pc: next_address(s.pc), ..s }
    }
}

/// 1nnn: jump to nnn.
pub open spec fn spec_op_1nnn(s: ProcState, nnn: int) -> ProcState {
    ProcState { pc: nnn, ..s }
}

/// 2nnn: call the subroutine at nnn, pushing the address of the next
/// instruction.  With a full stack the return address is dropped and only
/// the jump happens.
pub open spec fn spec_op_2nnn(s: ProcState, nnn: int) -> ProcState {
    if s.sp < STACK_SIZE {
        ProcState {
            stack: s.stack.update(s.sp, next_address(s.pc) as usize),
            sp: s.sp + 1,
            pc: nnn,
            ..s
        }
    } else {
        ProcState { pc: nnn, ..s }
    }
}

/// 3xkk: skip if Vx == kk.
pub open spec fn spec_op_3xkk(s: ProcState, x: int, kk: u8) -> ProcState {
    spec_skip_if(s, s.v[x] == kk)
}

/// 4xkk: skip if Vx != kk.
pub open spec fn spec_op_4xkk(s: ProcState, x: int, kk: u8) -> ProcState {
    spec_skip_if(s, s.v[x] != kk)
}

/// 5xy0: skip if Vx == Vy.
pub open spec fn spec_op_5xy0(s: ProcState, x: int, y: int) -> ProcState {
    spec_skip_if(s, s.v[x] == s.v[y])
}

/// 6xkk: Vx = kk.
pub open spec fn spec_op_6xkk(s: ProcState, x: int, kk: u8) -> ProcState {
    ProcState { v: s.v.update(x, kk), pc: next_address(s.pc), ..s }
}

/// 7xkk: Vx = Vx + kk, wrapping modulo 256, no flag.
pub open spec fn spec_op_7xkk(s: ProcState, x: int, kk: u8) -> ProcState {
    ProcState { v: s.v.update(x, ((s.v[x] + kk) % 0x100) as u8), pc: next_address(s.pc), ..s }
}

/// 8xy0: Vx = Vy.
pub open spec fn spec_op_8xy0(s: ProcState, x: int, y: int) -> ProcState {
    ProcState { v: s.v.update(x, s.v[y]), pc: next_address(s.pc), ..s }
}

/// 8xy1: Vx = Vx | Vy.
pub open spec fn spec_op_8xy1(s: ProcState, x: int, y: int) -> ProcState {
    ProcState { v: s.v.update(x, s.v[x] | s.v[y]), pc: next_address(s.pc), ..s }
}

/// 8xy2: Vx = Vx & Vy.
pub open spec fn spec_op_8xy2(s: ProcState, x: int, y: int) -> ProcState {
    ProcState { v: s.v.update(x, s.v[x] & s.v[y]), pc: next_address(s.pc), ..s }
}

/// 8xy3: Vx = Vx ^ Vy.
pub open spec fn spec_op_8xy3(s: ProcState, x: int, y: int) -> ProcState {
    ProcState { v: s.v.update(x, s.v[x] ^ s.v[y]), pc: next_address(s.pc), ..s }
}

/// 8xy4: Vx = Vx + Vy wrapping modulo 256; VF = 1 exactly when the
/// unclamped sum exceeds 255.  VF is written after Vx, as the hardware
/// convention has it, which matters when x is F.
pub open spec fn spec_op_8xy4(s: ProcState, x: int, y: int) -> ProcState {
    let sum = s.v[x] + s.v[y];
    let v1 = s.v.update(x, (sum % 0x100) as u8);
    let v2 = v1.update(
        0xF,
        if sum > 0xFF {
            1u8
        } else {
            0u8
        },
    );
    ProcState { v: v2, pc: next_address(s.pc), ..s }
}

/// 8xy5: VF = 1 exactly when Vx > Vy (not-borrow), then Vx = Vx - Vy
/// wrapping.  The flag is written first, so when x or y is F the
/// subtraction sees the flag value.
pub open spec fn spec_op_8xy5(s: ProcState, x: int, y: int) -> ProcState {
    let v1 = s.v.update(
        0xF,
        if s.v[x] > s.v[y] {
            1u8
        } else {
            0u8
        },
    );
    let v2 = v1.update(x, byte_sub(v1[x], v1[y]));
    ProcState { v: v2, pc: next_address(s.pc), ..s }
}

/// 8xy6: VF = least significant bit of Vx before the shift, then
/// Vx >>= 1.  The flag is written first, so when x is F the shift sees
/// the flag value.
pub open spec fn spec_op_8xy6(s: ProcState, x: int) -> ProcState {
    let v1 = s.v.update(0xF, s.v[x] & 1);
    let v2 = v1.update(x, v1[x] >> 1u8);
    ProcState { v: v2, pc: next_address(s.pc), ..s }
}

/// 8xy7: VF = 1 exactly when Vy > Vx (not-borrow), then Vx = Vy - Vx
/// wrapping, with the flag written first.
pub open spec fn spec_op_8xy7(s: ProcState, x: int, y: int) -> ProcState {
    let v1 = s.v.update(
        0xF,
        if s.v[y] > s.v[x] {
            1u8
        } else {
            0u8
        },
    );
    let v2 = v1.update(x, byte_sub(v1[y], v1[x]));
    ProcState { v: v2, pc: next_address(s.pc), ..s }
}

/// 8xyE: VF = most significant bit of Vx before the shift, then
/// Vx <<= 1, discarding the bit shifted out; the flag is written first.
pub open spec fn spec_op_8xyE(s: ProcState, x: int) -> ProcState {
    let v1 = s.v.update(0xF, (s.v[x] & 0x80) >> 7u8);
    let v2 = v1.update(x, v1[x] << 1u8);
    ProcState { v: v2, pc: next_address(s.pc), ..s }
}

/// 9xy0: skip if Vx != Vy.
pub open spec fn spec_op_9xy0(s: ProcState, x: int, y: int) -> ProcState {
    spec_skip_if(s, s.v[x] != s.v[y])
}

/// Annn: I = nnn.
pub open spec fn spec_op_Annn(s: ProcState, nnn: int) -> ProcState {
    ProcState { i: nnn, pc: next_address(s.pc), ..s }
}

/// Bnnn: jump to nnn + V0.
pub open spec fn spec_op_Bnnn(s: ProcState, nnn: int) -> ProcState {
    ProcState { pc: s.v[0] + nnn, ..s }
}

/// Cxkk: Vx = random byte AND kk.  The random byte is this function's
/// oracle argument: the machine promises nothing about which byte it is.
pub open spec fn spec_op_Cxkk(s: ProcState, x: int, kk: u8, rnd: u8) -> ProcState {
    ProcState { v: s.v.update(x, rnd & kk), pc: next_address(s.pc), ..s }
}

/// The n sprite bytes a draw instruction reads from memory at I.
pub open spec fn sprite_at(s: ProcState, n: int) -> Seq<u8> {
    Seq::new(n as nat, |j: int| mem_byte(s.memory, s.i + j))
}

/// Dxyn: XOR-draw the n-byte sprite at memory address I with its top-left
/// corner at (Vx, Vy), wrapping; VF = 1 exactly when a lit pixel was
/// erased.
pub open spec fn spec_op_Dxyn(s: ProcState, x: int, y: int, n: int) -> ProcState {
    let sprite = sprite_at(s, n);
    let erased = draw_erases(s.pixels, s.v[x] as int, s.v[y] as int, sprite);
    ProcState {
        pixels: draw_grid(s.pixels, s.v[x] as int, s.v[y] as int, sprite),
        have_pixels_changed: s.have_pixels_changed || sprite_any_bit(sprite),
        v: s.v.update(
            0xF,
            if erased {
                1u8
            } else {
                0u8
            },
        ),
        pc: next_address(s.pc),
        ..s
    }
}

/// Ex9E: skip if the key with Vx's value is pressed.
pub open spec fn spec_op_Ex9E(s: ProcState, x: int, keys: Seq<u8>) -> ProcState {
    spec_skip_if(s, keys.contains(s.v[x]))
}

/// ExA1: skip if the key with Vx's value is not pressed.
pub open spec fn spec_op_ExA1(s: ProcState, x: int, keys: Seq<u8>) -> ProcState {
    spec_skip_if(s, !keys.contains(s.v[x]))
}

/// Fx07: Vx = delay timer.
pub open spec fn spec_op_Fx07(s: ProcState, x: int) -> ProcState {
    ProcState { v: s.v.update(x, s.delay_timer), pc: next_address(s.pc), ..s }
}

/// Fx0A: start waiting for a key press, to be stored in Vx.  The program
/// counter still advances; the next fetch is what stalls.
pub open spec fn spec_op_Fx0A(s: ProcState, x: int) -> ProcState {
    ProcState { waiting_for_keypad: true, keycode_register: x, pc: next_address(s.pc), ..s }
}

/// Fx15: delay timer = Vx.
pub open spec fn spec_op_Fx15(s: ProcState, x: int) -> ProcState {
    ProcState { delay_timer: s.v[x], pc: next_address(s.pc), ..s }
}

/// Fx18: sound timer = Vx.
pub open spec fn spec_op_Fx18(s: ProcState, x: int) -> ProcState {
    ProcState { sound_timer: s.v[x], pc: next_address(s.pc), ..s }
}

/// Fx1E: I = I + Vx, wrapping in the 16-bit address space, no flag.
pub open spec fn spec_op_Fx1E(s: ProcState, x: int) -> ProcState {
    ProcState { i: (s.i + s.v[x]) % (ADDRESS_SPACE as int), pc: next_address(s.pc), ..s }
}

/// Fx29: I = address of the font sprite for digit Vx (five bytes per
/// digit, font at address 0).
pub open spec fn spec_op_Fx29(s: ProcState, x: int) -> ProcState {
    ProcState { i: s.v[x] * FONT_DIGIT_BYTES, pc: next_address(s.pc), ..s }
}

/// Fx33: write Vx's hundreds, tens and ones digits to memory at I, I+1,
/// I+2.
pub open spec fn spec_op_Fx33(s: ProcState, x: int) -> ProcState {
    let m1 = mem_store(s.memory, s.i, s.v[x] / 100);
    let m2 = mem_store(m1, s.i + 1, (s.v[x] / 10) % 10);
    let m3 = mem_store(m2, s.i + 2, s.v[x] % 10);
    ProcState { memory: m3, pc: next_address(s.pc), ..s }
}

/// Fx55: store V0 through Vx to memory starting at I; I itself does not
/// change.
pub open spec fn spec_op_Fx55(s: ProcState, x: int) -> ProcState {
    ProcState { memory: mem_load(s.memory, s.i, s.v.take(x + 1)), pc: next_address(s.pc), ..s }
}

/// Fx65: load V0 through Vx from memory starting at I; I itself does not
/// change.
pub open spec fn spec_op_Fx65(s: ProcState, x: int) -> ProcState {
    ProcState {
        v: Seq::new(
            s.v.len(),
            |k: int|
                if 0 <= k <= x {
                    mem_byte(s.memory, s.i + k)
                } else {
                    s.v[k]
                },
        ),
        pc: next_address(s.pc),
        ..s
    }
}

/// An unrecognized opcode: a no-op that still advances the program
/// counter by one instruction.
pub open spec fn spec_op_unknown(s: ProcState) -> ProcState {
    ProcState { pc: next_address(s.pc), ..s }
}

/// The 16-bit instruction word at the program counter, big-endian.
pub open spec fn fetch_opcode(s: ProcState) -> u16 {
    ((mem_byte(s.memory, s.pc) as int) * 0x100 + (mem_byte(s.memory, s.pc + 1) as int)) as u16
}

/// Whether the dispatch table recognizes the opcode.
pub open spec fn recognized_opcode(op: u16) -> bool {
    let family = op / 0x1000;
    let n = op % 0x10;
    let tail = op % 0x100;
    ||| op == 0x00E0
    ||| op == 0x00EE
    ||| family == 0x1
    ||| family == 0x2
    ||| family == 0x3
    ||| family == 0x4
    ||| (family == 0x5 && n == 0x0)
    ||| family == 0x6
    ||| family == 0x7
    ||| (family == 0x8 && (n == 0x0 || n == 0x1 || n == 0x2 || n == 0x3 || n == 0x4 || n == 0x5
        || n == 0x6 || n == 0x7 || n == 0xE))
    ||| (family == 0x9 && n == 0x0)
    ||| family == 0xA
    ||| family == 0xB
    ||| family == 0xC
    ||| family == 0xD
    ||| (family == 0xE && (tail == 0x9E || tail == 0xA1))
    ||| (family == 0xF && (tail == 0x07 || tail == 0x0A || tail == 0x15 || tail == 0x18 || tail
        == 0x1E || tail == 0x29 || tail == 0x33 || tail == 0x55 || tail == 0x65))
}

/// Decode an opcode by nibble pattern and apply the matching handler's
/// transition; unrecognized opcodes advance and do nothing else.  `rnd`
/// is the oracle byte a Cxkk instruction masks.
pub open spec fn spec_exec_opcode(s: ProcState, op: u16, keys: Seq<u8>, rnd: u8) -> ProcState {
    let family = op / 0x1000;
    let x = ((op / 0x100) % 0x10) as int;
    let y = ((op / 0x10) % 0x10) as int;
    let n = (op % 0x10) as int;
    let nnn = (op % 0x1000) as int;
    let kk = (op % 0x100) as u8;
    let tail = op % 0x100;
    if op == 0x00E0 {
        spec_op_00E0(s)
    } else if op == 0x00EE {
        spec_op_00EE(s)
    } else if family == 0x1 {
        spec_op_1nnn(s, nnn)
    } else if family == 0x2 {
        spec_op_2nnn(s, nnn)
    } else if family == 0x3 {
        spec_op_3xkk(s, x, kk)
    } else if family == 0x4 {
        spec_op_4xkk(s, x, kk)
    } else if family == 0x5 && n == 0x0 {
        spec_op_5xy0(s, x, y)
    } else if family == 0x6 {
        spec_op_6xkk(s, x, kk)
    } else if family == 0x7 {
        spec_op_7xkk(s, x, kk)
    } else if family == 0x8 && n == 0x0 {
        spec_op_8xy0(s, x, y)
    } else if family == 0x8 && n == 0x1 {
        spec_op_8xy1(s, x, y)
    } else if family == 0x8 && n == 0x2 {
        spec_op_8xy2(s, x, y)
    } else if family == 0x8 && n == 0x3 {
        spec_op_8xy3(s, x, y)
    } else if family == 0x8 && n == 0x4 {
        spec_op_8xy4(s, x, y)
    } else if family == 0x8 && n == 0x5 {
        spec_op_8xy5(s, x, y)
    } else if family == 0x8 && n == 0x6 {
        spec_op_8xy6(s, x)
    } else if family == 0x8 && n == 0x7 {
        spec_op_8xy7(s, x, y)
    } else if family == 0x8 && n == 0xE {
        spec_op_8xyE(s, x)
    } else if family == 0x9 && n == 0x0 {
        spec_op_9xy0(s, x, y)
    } else if family == 0xA {
        spec_op_Annn(s, nnn)
    } else if family == 0xB {
        spec_op_Bnnn(s, nnn)
    } else if family == 0xC {
        spec_op_Cxkk(s, x, kk, rnd)
    } else if family == 0xD {
        spec_op_Dxyn(s, x, y, n)
    } else if family == 0xE && tail == 0x9E {
        spec_op_Ex9E(s, x, keys)
    } else if family == 0xE && tail == 0xA1 {
        spec_op_ExA1(s, x, keys)
    } else if family == 0xF && tail == 0x07 {
        spec_op_Fx07(s, x)
    } else if family == 0xF && tail == 0x0A {
        spec_op_Fx0A(s, x)
    } else if family == 0xF && tail == 0x15 {
        spec_op_Fx15(s, x)
    } else if family == 0xF && tail == 0x18 {
        spec_op_Fx18(s, x)
    } else if family == 0xF && tail == 0x1E {
        spec_op_Fx1E(s, x)
    } else if family == 0xF && tail == 0x29 {
        spec_op_Fx29(s, x)
    } else if family == 0xF && tail == 0x33 {
        spec_op_Fx33(s, x)
    } else if family == 0xF && tail == 0x55 {
        spec_op_Fx55(s, x)
    } else if family == 0xF && tail == 0x65 {
        spec_op_Fx65(s, x)
    } else {
        spec_op_unknown(s)
    }
}

/// While waiting for a key press: when some key is pressed, store the
/// lowest pressed key code in the recorded register and stop waiting;
/// otherwise nothing happens and the instruction stream stays put.
pub open spec fn spec_wait_for_keypad(s: ProcState, keys: Seq<u8>) -> ProcState {
    if keys.len() > 0 {
        ProcState {
            v: s.v.update(s.keycode_register, crate::keypad::lowest_key(keys)),
            waiting_for_keypad: false,
            ..s
        }
    } else {
        s
    }
}

/// One externally driven step: the dirty flag is reset; then either the
/// pending key wait is serviced, or the instruction at the program
/// counter is fetched, decoded and executed.
pub open spec fn spec_step(s: ProcState, keys: Seq<u8>, rnd: u8) -> ProcState {
    let s0 = ProcState { have_pixels_changed: false, ..s };
    if s.waiting_for_keypad {
        spec_wait_for_keypad(s0, keys)
    } else {
        spec_exec_opcode(s0, fetch_opcode(s0), keys, rnd)
    }
}

/// Law: a subroutine call followed by a return restores the program
/// counter to the address immediately after the call instruction.  Holds
/// for every call opcode 2nnn executed when the stack has room.
pub proof fn lemma_call_return_round_trip(
    s: ProcState,
    op_call: u16,
    keys: Seq<u8>,
    rnd1: u8,
    rnd2: u8,
)
    requires
        state_wf(s),
        s.sp < STACK_SIZE,
        op_call / 0x1000 == 0x2,
    ensures
        spec_exec_opcode(spec_exec_opcode(s, op_call, keys, rnd1), 0x00EE, keys, rnd2).pc
            == next_address(s.pc),
{
    let s1 = spec_exec_opcode(s, op_call, keys, rnd1);
    assert(s1 == spec_op_2nnn(s, (op_call % 0x1000) as int));
    assert(s1.stack[s.sp] == next_address(s.pc) as usize);
    vstd::arithmetic::div_mod::lemma_mod_bound(s.pc + OPCODE_SIZE, ADDRESS_SPACE as int);
    assert(spec_exec_opcode(s1, 0x00EE, keys, rnd2) == spec_op_00EE(s1));
}

/// Law: an unrecognized opcode leaves registers, memory, timers, stack
/// and pixels unchanged and advances the program counter by exactly one
/// instruction.
pub proof fn lemma_unknown_opcode_is_noop(s: ProcState, op: u16, keys: Seq<u8>, rnd: u8)
    requires
        !recognized_opcode(op),
    ensures
        spec_exec_opcode(s, op, keys, rnd) == (ProcState { pc: next_address(s.pc), ..s }),
{
}

/// Law: a whole step on an unrecognized opcode changes nothing but the
/// program counter, which advances by one instruction, and the dirty
/// flag, which ends the step lowered.
pub proof fn lemma_unknown_opcode_step(s: ProcState, keys: Seq<u8>, rnd: u8)
    requires
        !s.waiting_for_keypad,
        !recognized_opcode(fetch_opcode(s)),
    ensures
        spec_step(s, keys, rnd) == (ProcState {
            pc: next_address(s.pc),
            have_pixels_changed: false,
            ..s
        }),
        0 <= s.pc && s.pc + OPCODE_SIZE < ADDRESS_SPACE ==> spec_step(s, keys, rnd).pc == s.pc
            + OPCODE_SIZE,
{
    let s0 = ProcState { have_pixels_changed: false, ..s };
    assert(fetch_opcode(s0) == fetch_opcode(s));
    lemma_unknown_opcode_is_noop(s0, fetch_opcode(s0), keys, rnd);
    if 0 <= s.pc && s.pc + OPCODE_SIZE < ADDRESS_SPACE {
        vstd::arithmetic::div_mod::lemma_small_mod(
            (s.pc + OPCODE_SIZE) as nat,
            ADDRESS_SPACE as nat,
        );
    }
}

/// Owns all machine state and executes instructions.
pub struct Processor {
    memory: Vec<u8>,
    v: Vec<u8>,
    i: usize,
    pc: ProgramCounter,
    sp: usize,
    stack: Vec<usize>,
    delay_timer: u8,
    sound_timer: u8,
    waiting_for_keypad: bool,
    keycode_register: usize,
    canvas: Canvas,
}

impl View for Processor {
    type V = ProcState;

    closed spec fn view(&self) -> ProcState {
        ProcState {
            memory: self.memory@,
            v: self.v@,
            i: self.i as int,
            pc: self.pc@,
            sp: self.sp as int,
            stack: self.stack@,
            delay_timer: self.delay_timer,
            sound_timer: self.sound_timer,
            waiting_for_keypad: self.waiting_for_keypad,
            keycode_register: self.keycode_register as int,
            pixels: self.canvas.grid(),
            have_pixels_changed: self.canvas.have_pixels_changed,
        }
    }
}

impl Processor {
    pub open spec fn wf(&self) -> bool {
        state_wf(self@)
    }

    pub fn new() -> (r: Self)
        ensures
            r.wf(),
            r@ == initial_state(),
    {
        let mut memory: Vec<u8> = Vec::new();
        let mut a: usize = 0;
        while a < RAM_BYTES
            invariant
                a <= RAM_BYTES,
                memory@.len() == a,
                forall|k: int| 0 <= k < a ==> (#[trigger] memory@[k]) == 0u8,
            decreases RAM_BYTES - a,
        {
            memory.push(0);
            a = a + 1;
        }
        let mut v: Vec<u8> = Vec::new();
        let mut k: usize = 0;
        while k < V_SIZE
            invariant
                k <= V_SIZE,
                v@.len() == k,
                forall|m: int| 0 <= m < k ==> (#[trigger] v@[m]) == 0u8,
            decreases V_SIZE - k,
        {
            v.push(0);
            k = k + 1;
        }
        let mut stack: Vec<usize> = Vec::new();
        let mut s: usize = 0;
        while s < STACK_SIZE
            invariant
                s <= STACK_SIZE,
                stack@.len() == s,
                forall|m: int| 0 <= m < s ==> (#[trigger] stack@[m]) == 0usize,
            decreases STACK_SIZE - s,
        {
            stack.push(0);
            s = s + 1;
        }
        let mut cpu = Processor {
            memory,
            v,
            i: 0,
            pc: ProgramCounter::new(PROGRAM_ADDRESS_START),
            sp: 0,
            stack,
            delay_timer: 0,
            sound_timer: 0,
            waiting_for_keypad: false,
            keycode_register: 0,
            canvas: Canvas::new(),
        };
        cpu.load(0x0, FONT.as_slice());
        proof {
            assert(cpu@.memory =~= initial_state().memory);
            assert(cpu@.v =~= initial_state().v);
            assert(cpu@.stack =~= initial_state().stack);
            assert(cpu@ == initial_state());
        }
        cpu
    }

    /// Copy a program image into memory from the program start address;
    /// bytes beyond the memory capacity are silently dropped.
    pub fn load_program(&mut self, data: &[u8])
        requires
            old(self).wf(),
        ensures
            final(self).wf(),
            final(self)@ == (ProcState {
                memory: mem_load(old(self)@.memory, PROGRAM_ADDRESS_START as int, data@),
                ..old(self)@
            }),
    {
        self.load(PROGRAM_ADDRESS_START, data);
    }

    /// Copy a buffer into memory starting at `address`, truncating at the
    /// memory bound.
    fn load(&mut self, address: usize, data: &[u8])
        requires
            old(self).wf(),
            address <= RAM_BYTES,
        ensures
            final(self).wf(),
            final(self)@ == (ProcState {
                memory: mem_load(old(self)@.memory, address as int, data@),
                ..old(self)@
            }),
    {
        let ghost mem0 = self.memory@;
        let mut k: usize = 0;
        while k < data.len() && address + k < RAM_BYTES
            invariant
                self.wf(),
                address <= RAM_BYTES,
                k <= data@.len(),
                address + k <= RAM_BYTES || k == data@.len(),
                self.memory@.len() == RAM_BYTES,
                mem0.len() == RAM_BYTES,
                forall|a: int|
                    0 <= a < RAM_BYTES ==> (#[trigger] self.memory@[a]) == (if address <= a
                        < address + k {
                        data@[a - address]
                    } else {
                        mem0[a]
                    }),
                self.v == old(self).v,
                self.i == old(self).i,
                self.pc == old(self).pc,
                self.sp == old(self).sp,
                self.stack == old(self).stack,
                self.delay_timer == old(self).delay_timer,
                self.sound_timer == old(self).sound_timer,
                self.waiting_for_keypad == old(self).waiting_for_keypad,
                self.keycode_register == old(self).keycode_register,
                self.canvas == old(self).canvas,
            decreases data@.len() - k,
        {
            self.memory[address + k] = data[k];
            k = k + 1;
        }
        proof {
            assert(self.memory@ =~= mem_load(mem0, address as int, data@));
        }
    }

    /// The byte at `addr`; reads outside memory yield 0.
    pub fn memory_at(&self, addr: usize) -> (r: u8)
        requires
            self.wf(),
        ensures
            r == mem_byte(self@.memory, addr as int),
    {
        if addr < RAM_BYTES {
            self.memory[addr]
        } else {
            0
        }
    }

    /// Store one byte at `addr`; writes outside memory are dropped.
    fn mem_write(&mut self, addr: usize, val: u8)
        requires
            old(self).wf(),
        ensures
            final(self).wf(),
            final(self)@ == (ProcState {
                memory: mem_store(old(self)@.memory, addr as int, val),
                ..old(self)@
            }),
    {
        if addr < RAM_BYTES {
            self.memory[addr] = val;
        }
        proof {
            assert(self@.memory =~= mem_store(old(self)@.memory, addr as int, val));
        }
    }

    /// While not waiting for a keypad press, decrement both timers by
    /// exactly one, saturating at zero; while waiting, change nothing.
    pub fn update_timers(&mut self)
        requires
            old(self).wf(),
        ensures
            final(self).wf(),
            final(self)@ == spec_update_timers(old(self)@),
    {
        if !self.waiting_for_keypad {
            self.delay_timer = self.delay_timer.saturating_sub(1);
            self.sound_timer = self.sound_timer.saturating_sub(1);
        }
    }

    // Clear the screen.
    fn op_00E0(&mut self)
        requires
            old(self).wf(),
        ensures
            final(self).wf(),
            final(self)@ == spec_op_00E0(old(self)@),
    {
        self.canvas.clean();
        self.pc.goto_next();
    }

    // Return from a subroutine.
    fn op_00EE(&mut self)
        requires
            old(self).wf(),
        ensures
            final(self).wf(),
            final(self)@ == spec_op_00EE(old(self)@),
    {
        if self.sp > 0 {
            self.sp = self.sp - 1;
            let target = self.stack[self.sp];
            self.pc.jump(target);
        } else {
            self.pc.goto_next();
        }
    }

    // Jump to address `nnn`.
    fn op_1nnn(&mut self, nnn: usize)
        requires
            old(self).wf(),
            nnn < ADDRESS_SPACE,
        ensures
            final(self).wf(),
            final(self)@ == spec_op_1nnn(old(self)@, nnn as int),
    {
        self.pc.jump(nnn);
    }

    // Call subroutine at `nnn`.
    fn op_2nnn(&mut self, nnn: usize)
        requires
            old(self).wf(),
            nnn < ADDRESS_SPACE,
        ensures
            final(self).wf(),
            final(self)@ == spec_op_2nnn(old(self)@, nnn as int),
    {
        if self.sp < STACK_SIZE {
            let ret = self.pc.get_next();
            self.stack[self.sp] = ret;
            self.sp = self.sp + 1;
        }
        self.pc.jump(nnn);
    }

    // Skip next instruction if Vx == kk.
    fn op_3xkk(&mut self, x: usize, kk: u8)
        requires
            old(self).wf(),
            x < V_SIZE,
        ensures
            final(self).wf(),
            final(self)@ == spec_op_3xkk(old(self)@, x as int, kk),
    {
        if self.v[x] == kk {
            self.pc.skip_next();
        } else {
            self.pc.goto_next();
        }
    }

    // Skip next instruction if Vx != kk.
    fn op_4xkk(&mut self, x: usize, kk: u8)
        requires
            old(self).wf(),
            x < V_SIZE,
        ensures
            final(self).wf(),
            final(self)@ == spec_op_4xkk(old(self)@, x as int, kk),
    {
        if self.v[x] != kk {
            self.pc.skip_next();
        } else {
            self.pc.goto_next();
        }
    }

    // Skip next instruction if Vx == Vy.
    fn op_5xy0(&mut self, x: usize, y: usize)
        requires
            old(self).wf(),
            x < V_SIZE,
            y < V_SIZE,
        ensures
            final(self).wf(),
            final(self)@ == spec_op_5xy0(old(self)@, x as int, y as int),
    {
        if self.v[x] == self.v[y] {
            self.pc.skip_next();
        } else {
            self.pc.goto_next();
        }
    }

    // Set Vx = kk.
    fn op_6xkk(&mut self, x: usize, kk: u8)
        requires
            old(self).wf(),
            x < V_SIZE,
        ensures
            final(self).wf(),
            final(self)@ == spec_op_6xkk(old(self)@, x as int, kk),
    {
        self.v[x] = kk;
        self.pc.goto_next();
    }

    // Set Vx = Vx + kk, wrapping modulo 256.
    fn op_7xkk(&mut self, x: usize, kk: u8)
        requires
            old(self).wf(),
            x < V_SIZE,
        ensures
            final(self).wf(),
            final(self)@ == spec_op_7xkk(old(self)@, x as int, kk),
    {
        let a = self.v[x] as u16;
        let b = kk as u16;
        self.v[x] = ((a + b) % 0x100) as u8;
        self.pc.goto_next();
    }

    // Set Vx = Vy.
    fn op_8xy0(&mut self, x: usize, y: usize)
        requires
            old(self).wf(),
            x < V_SIZE,
            y < V_SIZE,
        ensures
            final(self).wf(),
            final(self)@ == spec_op_8xy0(old(self)@, x as int, y as int),
    {
        self.v[x] = self.v[y];
        self.pc.goto_next();
    }

    // Set Vx = Vx | Vy.
    fn op_8xy1(&mut self, x: usize, y: usize)
        requires
            old(self).wf(),
            x < V_SIZE,
            y < V_SIZE,
        ensures
            final(self).wf(),
            final(self)@ == spec_op_8xy1(old(self)@, x as int, y as int),
    {
        self.v[x] = self.v[x] | self.v[y];
        self.pc.goto_next();
    }

    // Set Vx = Vx & Vy.
    fn op_8xy2(&mut self, x: usize, y: usize)
        requires
            old(self).wf(),
            x < V_SIZE,
            y < V_SIZE,
        ensures
            final(self).wf(),
            final(self)@ == spec_op_8xy2(old(self)@, x as int, y as int),
    {
        self.v[x] = self.v[x] & self.v[y];
        self.pc.goto_next();
    }

    // Set Vx = Vx ^ Vy.
    fn op_8xy3(&mut self, x: usize, y: usize)
        requires
            old(self).wf(),
            x < V_SIZE,
            y < V_SIZE,
        ensures
            final(self).wf(),
            final(self)@ == spec_op_8xy3(old(self)@, x as int, y as int),
    {
        self.v[x] = self.v[x] ^ self.v[y];
        self.pc.goto_next();
    }

    // Set Vx = Vx + Vy, wrapping; VF = carry.
    fn op_8xy4(&mut self, x: usize, y: usize)
        requires
            old(self).wf(),
            x < V_SIZE,
            y < V_SIZE,
        ensures
            final(self).wf(),
            final(self)@ == spec_op_8xy4(old(self)@, x as int, y as int),
    {
        let a = self.v[x] as u16;
        let b = self.v[y] as u16;
        let res = a + b;
        self.v[x] = (res % 0x100) as u8;
        self.v[0xF] = if res > 0xFF {
            1
        } else {
            0
        };
        self.pc.goto_next();
    }

    // Set Vx = Vx - Vy, wrapping; VF = 1 if Vx > Vy, else 0.
    fn op_8xy5(&mut self, x: usize, y: usize)
        requires
            old(self).wf(),
            x < V_SIZE,
            y < V_SIZE,
        ensures
            final(self).wf(),
            final(self)@ == spec_op_8xy5(old(self)@, x as int, y as int),
    {
        self.v[0xF] = if self.v[x] > self.v[y] {
            1
        } else {
            0
        };
        self.v[x] = self.v[x].wrapping_sub(self.v[y]);
        self.pc.goto_next();
    }

    // Set VF to the least significant bit of Vx, then divide Vx by 2.
    fn op_8xy6(&mut self, x: usize)
        requires
            old(self).wf(),
            x < V_SIZE,
        ensures
            final(self).wf(),
            final(self)@ == spec_op_8xy6(old(self)@, x as int),
    {
        self.v[0xF] = self.v[x] & 1;
        self.v[x] = self.v[x] >> 1u8;
        self.pc.goto_next();
    }

    // Set Vx = Vy - Vx, wrapping; VF = 1 if Vy > Vx, else 0.
    fn op_8xy7(&mut self, x: usize, y: usize)
        requires
            old(self).wf(),
            x < V_SIZE,
            y < V_SIZE,
        ensures
            final(self).wf(),
            final(self)@ == spec_op_8xy7(old(self)@, x as int, y as int),
    {
        self.v[0xF] = if self.v[y] > self.v[x] {
            1
        } else {
            0
        };
        self.v[x] = self.v[y].wrapping_sub(self.v[x]);
        self.pc.goto_next();
    }

    // Set VF to the most significant bit of Vx, then multiply Vx by 2,
    // discarding the overflow bit.
    fn op_8xyE(&mut self, x: usize)
        requires
            old(self).wf(),
            x < V_SIZE,
        ensures
            final(self).wf(),
            final(self)@ == spec_op_8xyE(old(self)@, x as int),
    {
        self.v[0xF] = (self.v[x] & 0x80) >> 7u8;
        self.v[x] = self.v[x] << 1u8;
        self.pc.goto_next();
    }

    // Skip next instruction if Vx != Vy.
    fn op_9xy0(&mut self, x: usize, y: usize)
        requires
            old(self).wf(),
            x < V_SIZE,
            y < V_SIZE,
        ensures
            final(self).wf(),
            final(self)@ == spec_op_9xy0(old(self)@, x as int, y as int),
    {
        if self.v[x] != self.v[y] {
            self.pc.skip_next();
        } else {
            self.pc.goto_next();
        }
    }

    // Set register I = nnn.
    fn op_Annn(&mut self, nnn: usize)
        requires
            old(self).wf(),
            nnn < ADDRESS_SPACE,
        ensures
            final(self).wf(),
            final(self)@ == spec_op_Annn(old(self)@, nnn as int),
    {
        self.i = nnn;
        self.pc.goto_next();
    }

    // Jump to address nnn + V0.
    fn op_Bnnn(&mut self, nnn: usize)
        requires
            old(self).wf(),
            nnn < 0x1000,
        ensures
            final(self).wf(),
            final(self)@ == spec_op_Bnnn(old(self)@, nnn as int),
    {
        self.pc.jump((self.v[0x0] as usize) + nnn);
    }

    // Set Vx = random byte & kk.
    fn op_Cxkk(&mut self, x: usize, kk: u8)
        requires
            old(self).wf(),
            x < V_SIZE,
        ensures
            final(self).wf(),
            exists|rnd: u8| final(self)@ == #[trigger] spec_op_Cxkk(old(self)@, x as int, kk, rnd),
    {
        let rand_byte = rand::random::<u8>();
        self.v[x] = rand_byte & kk;
        self.pc.goto_next();
        proof {
            assert(self@ == spec_op_Cxkk(old(self)@, x as int, kk, rand_byte));
        }
    }

    // Read n bytes from memory starting at the address in register I and
    // XOR-draw them as a sprite at (Vx, Vy), wrapping at the display
    // edges; VF reports whether a lit pixel was erased.
    fn op_Dxyn(&mut self, x: usize, y: usize, n: usize)
        requires
            old(self).wf(),
            x < V_SIZE,
            y < V_SIZE,
            n < 0x10,
        ensures
            final(self).wf(),
            final(self)@ == spec_op_Dxyn(old(self)@, x as int, y as int, n as int),
    {
        let x_left = self.v[x] as usize;
        let y_top = self.v[y] as usize;

        let mut sprite: Vec<u8> = Vec::new();
        let mut j: usize = 0;
        while j < n
            invariant
                j <= n,
                n < 0x10,
                self.wf(),
                self == old(self),
                sprite@.len() == j,
                forall|m: int|
                    0 <= m < j ==> (#[trigger] sprite@[m]) == mem_byte(self@.memory, self@.i + m),
            decreases n - j,
        {
            let byte = self.memory_at(self.i + j);
            sprite.push(byte);
            j = j + 1;
        }
        proof {
            assert(sprite@ =~= sprite_at(self@, n as int));
        }

        let any_pixel_erased = self.canvas.draw_sprite(x_left, y_top, sprite.as_slice());
        self.v[0xF] = if any_pixel_erased {
            1
        } else {
            0
        };
        self.pc.goto_next();
    }

    // Skip next instruction if the key with Vx's value is pressed.
    fn op_Ex9E(&mut self, x: usize, pressed_keycodes: &Vec<u8>)
        requires
            old(self).wf(),
            x < V_SIZE,
        ensures
            final(self).wf(),
            final(self)@ == spec_op_Ex9E(old(self)@, x as int, pressed_keycodes@),
    {
        if crate::keypad::key_pressed(pressed_keycodes, self.v[x]) {
            self.pc.skip_next();
        } else {
            self.pc.goto_next();
        }
    }

    // Skip next instruction if the key with Vx's value is not pressed.
    fn op_ExA1(&mut self, x: usize, pressed_keycodes: &Vec<u8>)
        requires
            old(self).wf(),
            x < V_SIZE,
        ensures
            final(self).wf(),
            final(self)@ == spec_op_ExA1(old(self)@, x as int, pressed_keycodes@),
    {
        if crate::keypad::key_pressed(pressed_keycodes, self.v[x]) {
            self.pc.goto_next();
        } else {
            self.pc.skip_next();
        }
    }

    // Set Vx = delay timer.
    fn op_Fx07(&mut self, x: usize)
        requires
            old(self).wf(),
            x < V_SIZE,
        ensures
            final(self).wf(),
            final(self)@ == spec_op_Fx07(old(self)@, x as int),
    {
        self.v[x] = self.delay_timer;
        self.pc.goto_next();
    }

    // Wait for a key press, to be stored into register Vx.
    fn op_Fx0A(&mut self, x: usize)
        requires
            old(self).wf(),
            x < V_SIZE,
        ensures
            final(self).wf(),
            final(self)@ == spec_op_Fx0A(old(self)@, x as int),
    {
        self.waiting_for_keypad = true;
        self.keycode_register = x;
        self.pc.goto_next();
    }

    // Set delay timer = Vx.
    fn op_Fx15(&mut self, x: usize)
        requires
            old(self).wf(),
            x < V_SIZE,
        ensures
            final(self).wf(),
            final(self)@ == spec_op_Fx15(old(self)@, x as int),
    {
        self.delay_timer = self.v[x];
        self.pc.goto_next();
    }

    // Set sound timer = Vx.
    fn op_Fx18(&mut self, x: usize)
        requires
            old(self).wf(),
            x < V_SIZE,
        ensures
            final(self).wf(),
            final(self)@ == spec_op_Fx18(old(self)@, x as int),
    {
        self.sound_timer = self.v[x];
        self.pc.goto_next();
    }

    // Set I = I + Vx, wrapping in the address space; no flag is set:
    // most interpreters do not report an overflow here.
    fn op_Fx1E(&mut self, x: usize)
        requires
            old(self).wf(),
            x < V_SIZE,
        ensures
            final(self).wf(),
            final(self)@ == spec_op_Fx1E(old(self)@, x as int),
    {
        self.i = (self.i + self.v[x] as usize) % ADDRESS_SPACE;
        self.pc.goto_next();
    }

    // Set I to the address of the font sprite for digit Vx: digit
    // sprites start at address 0 and are five bytes each.
    fn op_Fx29(&mut self, x: usize)
        requires
            old(self).wf(),
            x < V_SIZE,
        ensures
            final(self).wf(),
            final(self)@ == spec_op_Fx29(old(self)@, x as int),
    {
        self.i = (self.v[x] as usize) * FONT_DIGIT_BYTES;
        self.pc.goto_next();
    }

    // Write the decimal digits of Vx to memory: hundreds at I, tens at
    // I + 1, ones at I + 2.
    fn op_Fx33(&mut self, x: usize)
        requires
            old(self).wf(),
            x < V_SIZE,
        ensures
            final(self).wf(),
            final(self)@ == spec_op_Fx33(old(self)@, x as int),
    {
        let vx = self.v[x];
        let i = self.i;
        self.mem_write(i, vx / 100);
        self.mem_write(i + 1, (vx / 10) % 10);
        self.mem_write(i + 2, vx % 10);
        self.pc.goto_next();
    }

    // Store registers V0 through Vx in memory starting at address I.
    fn op_Fx55(&mut self, x: usize)
        requires
            old(self).wf(),
            x < V_SIZE,
        ensures
            final(self).wf(),
            final(self)@ == spec_op_Fx55(old(self)@, x as int),
    {
        let ghost s0 = self@;
        proof {
            assert(mem_load(s0.memory, s0.i, s0.v.take(0)) =~= s0.memory);
        }
        let mut offset: usize = 0;
        while offset <= x
            invariant
                offset <= x + 1,
                x < V_SIZE,
                self.wf(),
                state_wf(s0),
                self@ == (ProcState {
                    memory: mem_load(s0.memory, s0.i, s0.v.take(offset as int)),
                    ..s0
                }),
            decreases x + 1 - offset,
        {
            let val = self.v[offset];
            let addr = self.i + offset;
            self.mem_write(addr, val);
            proof {
                assert(self@.memory =~= mem_load(s0.memory, s0.i, s0.v.take(offset + 1)));
            }
            offset = offset + 1;
        }
        self.pc.goto_next();
    }

    // Read registers V0 through Vx from memory starting at address I.
    fn op_Fx65(&mut self, x: usize)
        requires
            old(self).wf(),
            x < V_SIZE,
        ensures
            final(self).wf(),
            final(self)@ == spec_op_Fx65(old(self)@, x as int),
    {
        let ghost s0 = self@;
        let mut offset: usize = 0;
        while offset <= x
            invariant
                offset <= x + 1,
                x < V_SIZE,
                self.wf(),
                state_wf(s0),
                self@.v.len() == V_SIZE,
                forall|k: int|
                    0 <= k < V_SIZE ==> (#[trigger] self@.v[k]) == (if 0 <= k < offset {
                        mem_byte(s0.memory, s0.i + k)
                    } else {
                        s0.v[k]
                    }),
                self@ == (ProcState { v: self@.v, ..s0 }),
            decreases x + 1 - offset,
        {
            let addr = self.i + offset;
            let val = self.memory_at(addr);
            self.v[offset] = val;
            offset = offset + 1;
        }
        self.pc.goto_next();
        proof {
            assert(self@.v =~= spec_op_Fx65(s0, x as int).v);
        }
    }

    /// One externally driven step: reset the dirty flag; then either
    /// service a pending key wait (the instruction stream does not
    /// advance while no key is pressed) or fetch, decode and execute the
    /// instruction at the program counter.  Returns a snapshot of the
    /// sound state, the pixel grid and the dirty flag.
    pub fn execute_instruction(&mut self, pressed_keycodes: &Vec<u8>) -> (r: Output)
        requires
            old(self).wf(),
        ensures
            final(self).wf(),
            exists|rnd: u8| final(self)@ == #[trigger] spec_step(old(self)@, pressed_keycodes@, rnd),
            r.is_sound_on == (final(self)@.sound_timer > 0),
            r.grid() == final(self)@.pixels,
            r.have_pixels_changed == final(self)@.have_pixels_changed,
    {
        self.canvas.reset_pixels_changed();
        let ghost s0 = self@;

        if self.waiting_for_keypad {
            self.wait_for_keypad(pressed_keycodes);
            proof {
                assert(self@ == spec_step(old(self)@, pressed_keycodes@, 0u8));
            }
        } else {
            let opcode = self.get_opcode();
            self.execute_opcode(opcode, pressed_keycodes);
            proof {
                let rnd = choose|rnd: u8|
                    self@ == #[trigger] spec_exec_opcode(s0, opcode, pressed_keycodes@, rnd);
                assert(self@ == spec_step(old(self)@, pressed_keycodes@, rnd));
            }
        }

        let pixels = self.canvas.pixels_snapshot();
        let r = Output {
            is_sound_on: self.sound_timer > 0,
            pixels,
            have_pixels_changed: self.canvas.have_pixels_changed,
        };
        proof {
            assert(r.grid() =~~= self@.pixels);
        }
        r
    }

    /// Service a pending key wait: when some key is pressed, store the
    /// lowest pressed key code in the recorded register and stop waiting.
    fn wait_for_keypad(&mut self, pressed_keycodes: &Vec<u8>)
        requires
            old(self).wf(),
            old(self)@.waiting_for_keypad,
        ensures
            final(self).wf(),
            final(self)@ == spec_wait_for_keypad(old(self)@, pressed_keycodes@),
    {
        if pressed_keycodes.len() > 0 {
            let keycode = crate::keypad::min_key(pressed_keycodes);
            self.v[self.keycode_register] = keycode;
            self.waiting_for_keypad = false;
        }
    }

    /// Fetch the big-endian 16-bit instruction word at the program
    /// counter.
    fn get_opcode(&self) -> (r: u16)
        requires
            self.wf(),
        ensures
            r == fetch_opcode(self@),
    {
        let pc = self.pc.get_current();

        let msb = self.memory_at(pc) as u16;
        let lsb = self.memory_at(pc + 1) as u16;

        msb * 0x100 + lsb
    }

    /// Decode the opcode by nibble pattern and dispatch to the matching
    /// handler; unrecognized opcodes advance and do nothing else.
    fn execute_opcode(&mut self, opcode: u16, pressed_keycodes: &Vec<u8>)
        requires
            old(self).wf(),
        ensures
            final(self).wf(),
            exists|rnd: u8| final(self)@ == #[trigger] spec_exec_opcode(
                old(self)@,
                opcode,
                pressed_keycodes@,
                rnd,
            ),
    {
        let family = opcode / 0x1000;
        let x = ((opcode / 0x100) % 0x10) as usize;
        let y = ((opcode / 0x10) % 0x10) as usize;
        let n = (opcode % 0x10) as usize;
        let nnn = (opcode % 0x1000) as usize;
        let kk = (opcode % 0x100) as u8;
        let tail = opcode % 0x100;

        if opcode == 0x00E0 {
            self.op_00E0();
        } else if opcode == 0x00EE {
            self.op_00EE();
        } else if family == 0x1 {
            self.op_1nnn(nnn);
        } else if family == 0x2 {
            self.op_2nnn(nnn);
        } else if family == 0x3 {
            self.op_3xkk(x, kk);
        } else if family == 0x4 {
            self.op_4xkk(x, kk);
        } else if family == 0x5 && n == 0x0 {
            self.op_5xy0(x, y);
        } else if family == 0x6 {
            self.op_6xkk(x, kk);
        } else if family == 0x7 {
            self.op_7xkk(x, kk);
        } else if family == 0x8 && n == 0x0 {
            self.op_8xy0(x, y);
        } else if family == 0x8 && n == 0x1 {
            self.op_8xy1(x, y);
        } else if family == 0x8 && n == 0x2 {
            self.op_8xy2(x, y);
        } else if family == 0x8 && n == 0x3 {
            self.op_8xy3(x, y);
        } else if family == 0x8 && n == 0x4 {
            self.op_8xy4(x, y);
        } else if family == 0x8 && n == 0x5 {
            self.op_8xy5(x, y);
        } else if family == 0x8 && n == 0x6 {
            self.op_8xy6(x);
        } else if family == 0x8 && n == 0x7 {
            self.op_8xy7(x, y);
        } else if family == 0x8 && n == 0xE {
            self.op_8xyE(x);
        } else if family == 0x9 && n == 0x0 {
            self.op_9xy0(x, y);
        } else if family == 0xA {
            self.op_Annn(nnn);
        } else if family == 0xB {
            self.op_Bnnn(nnn);
        } else if family == 0xC {
            self.op_Cxkk(x, kk);
        } else if family == 0xD {
            self.op_Dxyn(x, y, n);
        } else if family == 0xE && tail == 0x9E {
            self.op_Ex9E(x, pressed_keycodes);
        } else if family == 0xE && tail == 0xA1 {
            self.op_ExA1(x, pressed_keycodes);
        } else if family == 0xF && tail == 0x07 {
            self.op_Fx07(x);
        } else if family == 0xF && tail == 0x0A {
            self.op_Fx0A(x);
        } else if family == 0xF && tail == 0x15 {
            self.op_Fx15(x);
        } else if family == 0xF && tail == 0x18 {
            self.op_Fx18(x);
        } else if family == 0xF && tail == 0x1E {
            self.op_Fx1E(x);
        } else if family == 0xF && tail == 0x29 {
            self.op_Fx29(x);
        } else if family == 0xF && tail == 0x33 {
            self.op_Fx33(x);
        } else if family == 0xF && tail == 0x55 {
            self.op_Fx55(x);
        } else if family == 0xF && tail == 0x65 {
            self.op_Fx65(x);
        } else {
            self.pc.goto_next();
        }
        proof {
            let s1 = old(self)@;
            if family == 0xC {
                let rnd = choose|rnd: u8|
                    self@ == #[trigger] spec_op_Cxkk(s1, x as int, kk, rnd);
                assert(self@ == spec_exec_opcode(s1, opcode, pressed_keycodes@, rnd));
            } else {
                assert(self@ == spec_exec_opcode(s1, opcode, pressed_keycodes@, 0u8));
            }
        }
    }

    /// The value of register `x`.
    pub fn register(&self, x: usize) -> (r: u8)
        requires
            self.wf(),
            x < V_SIZE,
        ensures
            r == self@.v[x as int],
    {
        self.v[x]
    }

    /// The current program counter value.
    pub fn program_counter(&self) -> (r: usize)
        ensures
            r == self@.pc,
    {
        self.pc.get_current()
    }

    /// The current index register value.
    pub fn index_register(&self) -> (r: usize)
        ensures
            r == self@.i,
    {
        self.i
    }

    /// The current stack pointer.
    pub fn stack_pointer(&self) -> (r: usize)
        ensures
            r == self@.sp,
    {
        self.sp
    }

    /// The delay timer's value.
    pub fn delay_timer(&self) -> (r: u8)
        ensures
            r == self@.delay_timer,
    {
        self.delay_timer
    }

    /// The sound timer's value.
    pub fn sound_timer(&self) -> (r: u8)
        ensures
            r == self@.sound_timer,
    {
        self.sound_timer
    }

    /// Whether the machine is stalled waiting for a keypad press.
    pub fn is_waiting_for_keypad(&self) -> (r: bool)
        ensures
            r == self@.waiting_for_keypad,
    {
        self.waiting_for_keypad
    }
}

} // verus!
