use vstd::prelude::*;
use crate::display::state_after_draw;
use crate::input::{key_of_code, InputEvent, InputHandler};
use crate::machine::{blank_display, memory_with, MachineState};
use crate::opcodes::OpCode;

verus! {

/// Why an instruction could not be executed. The machine is left as it was.
#[derive(Copy, Clone, Debug, PartialEq, Eq, Structural)]
pub enum ExecError {
    /// A return with no call to return from.
    StackUnderflow,
    /// The instruction reads or writes memory beyond its last byte.
    MemoryOutOfBounds,
    /// The register that names a keypad button holds more than 15.
    InvalidKey,
    /// The program counter or the index register would leave its 16 bits.
    AddressOverflow,
}

/// `s` with register `x` set to `value`.
pub open spec fn with_reg(s: MachineState, x: int, value: u8) -> MachineState {
    MachineState { v: s.v.update(x, value), ..s }
}

/// `s` with the flag register VF set to `value`.
pub open spec fn with_flag(s: MachineState, value: u8) -> MachineState {
    with_reg(s, 15, value)
}

/// `s` with the program counter moved past one more instruction.
pub open spec fn skip_next(s: MachineState) -> MachineState {
    MachineState { pc: (s.pc + 2) as u16, ..s }
}

/// The value that a flag takes: 1 if `raised`, else 0.
pub open spec fn flag_of(raised: bool) -> u8 {
    if raised {
        1
    } else {
        0
    }
}

/// The registers after V0 to V`x` are read from memory at the index
/// register; the registers above V`x` keep their values.
pub open spec fn regs_loaded(s: MachineState, x: int) -> Seq<u8> {
    Seq::new(
        16,
        |r: int|
            if r <= x {
                s.memory[s.i + r]
            } else {
                s.v[r]
            },
    )
}

/// True if the last input event is a stroke of the host key that stands for
/// keypad button `code`.
pub open spec fn key_is_down(input: InputHandler, code: u8) -> bool {
    code < 16 && input.last_input == Some(InputEvent::Key(key_of_code(code).unwrap()))
}

/// True if `op` is a conditional instruction whose condition holds, so that
/// the next instruction is skipped.
pub open spec fn takes_skip(s: MachineState, op: OpCode, input: InputHandler) -> bool {
    match op {
        OpCode::CondEq(x, nn) => s.v[x as int] == nn,
        OpCode::CondNEq(x, nn) => s.v[x as int] != nn,
        OpCode::CondEqReg(x, y) => s.v[x as int] == s.v[y as int],
        OpCode::CondNEqReg(x, y) => s.v[x as int] != s.v[y as int],
        OpCode::IsKeyPressed(x) => key_is_down(input, s.v[x as int]),
        OpCode::IsKeyNPressed(x) => !key_is_down(input, s.v[x as int]),
        _ => false,
    }
}

/// The error that executing `op` in state `s` ends in, if it ends in one.
pub open spec fn execute_fault(s: MachineState, op: OpCode, input: InputHandler) -> Option<
    ExecError,
> {
    match op {
        OpCode::Return() => if s.stack.len() == 0 {
            Some(ExecError::StackUnderflow)
        } else {
            None
        },
        OpCode::CondEq(_, _) | OpCode::CondNEq(_, _) | OpCode::CondEqReg(_, _) | OpCode::CondNEqReg(
            _,
            _,
        ) => if takes_skip(s, op, input) && s.pc + 2 > 0xFFFF {
            Some(ExecError::AddressOverflow)
        } else {
            None
        },
        OpCode::IsKeyPressed(x) | OpCode::IsKeyNPressed(x) => if s.v[x as int] >= 16 {
            Some(ExecError::InvalidKey)
        } else if takes_skip(s, op, input) && s.pc + 2 > 0xFFFF {
            Some(ExecError::AddressOverflow)
        } else {
            None
        },
        OpCode::JumpToV0Plus(nnn) => if s.v[0] + nnn > 0xFFFF {
            Some(ExecError::AddressOverflow)
        } else {
            None
        },
        OpCode::DrawSprite(_, _, n) => if n > 0 && s.i + n > 4096 {
            Some(ExecError::MemoryOutOfBounds)
        } else {
            None
        },
        OpCode::AwaitKey(_) => if input.pressed_code() is None && s.pc < 2 {
            Some(ExecError::AddressOverflow)
        } else {
            None
        },
        OpCode::AddRegToI(x) => if s.i + s.v[x as int] > 0xFFFF {
            Some(ExecError::AddressOverflow)
        } else {
            None
        },
        OpCode::SetIToSprite(x) => if s.font_location + 5 * (s.v[x as int] % 16) > 0xFFFF {
            Some(ExecError::AddressOverflow)
        } else {
            None
        },
        OpCode::ToDecimal(_) => if s.i + 2 >= 4096 {
            Some(ExecError::MemoryOutOfBounds)
        } else {
            None
        },
        OpCode::DumpRegs(x) | OpCode::LoadRegs(x) => if s.i + x >= 4096 {
            Some(ExecError::MemoryOutOfBounds)
        } else {
            None
        },
        _ => None,
    }
}

/// The state that executing `op` in state `s` leads to when it ends in no
/// error. `random` is the byte that the random source delivers; only the
/// random instruction reads it.
pub open spec fn execute_effect(s: MachineState, op: OpCode, input: InputHandler, random: u8) -> MachineState {
    match op {
        OpCode::ClearScreen() => MachineState { display: blank_display(), draw_flag: true, ..s },
        OpCode::Return() => MachineState { pc: s.stack.last(), stack: s.stack.drop_last(), ..s },
        OpCode::Jump(nnn) => MachineState { pc: nnn, ..s },
        OpCode::CallSubroutine(nnn) => MachineState { pc: nnn, stack: s.stack.push(s.pc), ..s },
        OpCode::CondEq(_, _) | OpCode::CondNEq(_, _) | OpCode::CondEqReg(_, _) | OpCode::CondNEqReg(
            _,
            _,
        ) | OpCode::IsKeyPressed(_) | OpCode::IsKeyNPressed(_) => if takes_skip(s, op, input) {
            skip_next(s)
        } else {
            s
        },
        OpCode::SetReg(x, nn) => with_reg(s, x as int, nn),
        OpCode::AddToReg(x, nn) => with_reg(s, x as int, ((s.v[x as int] + nn) % 256) as u8),
        OpCode::AssignRegToReg(x, y) => with_reg(s, x as int, s.v[y as int]),
        OpCode::BitwiseOr(x, y) => with_reg(s, x as int, s.v[x as int] | s.v[y as int]),
        OpCode::BitwiseAnd(x, y) => with_reg(s, x as int, s.v[x as int] & s.v[y as int]),
        OpCode::BitwiseXor(x, y) => with_reg(s, x as int, s.v[x as int] ^ s.v[y as int]),
        OpCode::AddRegToReg(x, y) => {
            let sum = s.v[x as int] + s.v[y as int];
            with_flag(with_reg(s, x as int, (sum % 256) as u8), flag_of(sum > 255))
        },
        OpCode::SubRegToReg(x, y) => {
            let difference = s.v[x as int] - s.v[y as int];
            with_flag(with_reg(s, x as int, (difference % 256) as u8), flag_of(difference >= 0))
        },
        OpCode::SubRegFromReg(x, y) => {
            let difference = s.v[y as int] - s.v[x as int];
            with_flag(with_reg(s, x as int, (difference % 256) as u8), flag_of(difference >= 0))
        },
        OpCode::StoreLSBWithShift(x) => {
            let flagged = with_flag(s, s.v[x as int] % 2);
            with_reg(flagged, x as int, flagged.v[x as int] / 2)
        },
        OpCode::StoreMSBWithShift(x) => {
            let flagged = with_flag(s, s.v[x as int] / 128);
            with_reg(flagged, x as int, ((flagged.v[x as int] * 2) % 256) as u8)
        },
        OpCode::SetI(nnn) => MachineState { i: nnn, ..s },
        OpCode::JumpToV0Plus(nnn) => MachineState { pc: (s.v[0] + nnn) as u16, ..s },
        OpCode::RegRandBitwiseAnd(x, nn) => with_reg(s, x as int, random & nn),
        OpCode::DrawSprite(x, y, n) => MachineState {
            draw_flag: true,
            ..state_after_draw(s, s.v[x as int], s.v[y as int], n)
        },
        OpCode::SetRegToTimer(x) => with_reg(s, x as int, (s.delay_timer % 256) as u8),
        OpCode::AwaitKey(x) => match input.pressed_code() {
            Some(code) => with_reg(s, x as int, code),
            None => MachineState { pc: (s.pc - 2) as u16, ..s },
        },
        OpCode::SetDelayTimer(x) => MachineState { delay_timer: s.v[x as int] as u32, ..s },
        OpCode::SetSoundTimer(x) => MachineState { sound_timer: s.v[x as int] as u32, ..s },
        OpCode::AddRegToI(x) => MachineState { i: (s.i + s.v[x as int]) as u16, ..s },
        OpCode::SetIToSprite(x) => MachineState {
            i: (s.font_location + 5 * (s.v[x as int] % 16)) as u16,
            ..s
        },
        OpCode::ToDecimal(x) => {
            let value = s.v[x as int];
            MachineState {
                memory: memory_with(
                    s.memory,
                    s.i as int,
                    seq![value / 100, (value / 10) % 10, value % 10],
                ),
                ..s
            }
        },
        OpCode::DumpRegs(x) => MachineState {
            memory: memory_with(s.memory, s.i as int, s.v.take(x + 1)),
            ..s
        },
        OpCode::LoadRegs(x) => MachineState { v: regs_loaded(s, x as int), ..s },
    }
}

/// Adding an immediate to a register other than VF leaves VF as it was,
/// and never fails.
pub proof fn lemma_add_immediate_keeps_flag(
    s: MachineState,
    x: usize,
    nn: u8,
    input: InputHandler,
    random: u8,
)
    requires
        s.wf(),
        x < 15,
    ensures
        execute_fault(s, OpCode::AddToReg(x, nn), input) is None,
        execute_effect(s, OpCode::AddToReg(x, nn), input, random).v[15] == s.v[15],
        execute_effect(s, OpCode::AddToReg(x, nn), input, random).v[x as int] == (s.v[x as int]
            + nn) % 256,
{
}

/// The three arithmetic instructions on two registers never fail, write
/// exactly 0 or 1 to VF (1 on a carry for the addition, 1 on no borrow for
/// the subtractions), and leave every register but the target and VF, and
/// everything outside the registers, as it was.
pub proof fn lemma_arithmetic_writes_flag(
    s: MachineState,
    op: OpCode,
    input: InputHandler,
    random: u8,
)
    requires
        s.wf(),
        op.wf(),
        op is AddRegToReg || op is SubRegToReg || op is SubRegFromReg,
    ensures
        execute_fault(s, op, input) is None,
        ({
            let t = execute_effect(s, op, input, random);
            &&& t.v[15] == 0 || t.v[15] == 1
            &&& op matches OpCode::AddRegToReg(x, y) ==> t.v[15] == flag_of(
                s.v[x as int] + s.v[y as int] > 255,
            )
            &&& op matches OpCode::SubRegToReg(x, y) ==> t.v[15] == flag_of(
                s.v[x as int] >= s.v[y as int],
            )
            &&& op matches OpCode::SubRegFromReg(x, y) ==> t.v[15] == flag_of(
                s.v[y as int] >= s.v[x as int],
            )
            &&& t.v.len() == 16
            &&& forall|r: int|
                0 <= r < 15 && r != target_of(op) ==> #[trigger] t.v[r] == s.v[r]
            &&& t == (MachineState { v: t.v, ..s })
        }),
{
}

/// The register that an instruction on two registers writes its result to.
pub open spec fn target_of(op: OpCode) -> int {
    match op {
        OpCode::AssignRegToReg(x, _) | OpCode::BitwiseOr(x, _) | OpCode::BitwiseAnd(x, _)
        | OpCode::BitwiseXor(x, _) | OpCode::AddRegToReg(x, _) | OpCode::SubRegToReg(x, _)
        | OpCode::SubRegFromReg(x, _) => x as int,
        _ => -1,
    }
}

/// After a shift of a register other than VF, VF holds the bit that was
/// shifted out: the lowest bit for a right shift, the highest for a left
/// shift. The register holds what is left of its old value.
pub proof fn lemma_shift_flag_is_lost_bit(s: MachineState, x: usize, input: InputHandler, random: u8)
    requires
        s.wf(),
        x < 15,
    ensures
        execute_fault(s, OpCode::StoreLSBWithShift(x), input) is None,
        execute_fault(s, OpCode::StoreMSBWithShift(x), input) is None,
        ({
            let right = execute_effect(s, OpCode::StoreLSBWithShift(x), input, random);
            let left = execute_effect(s, OpCode::StoreMSBWithShift(x), input, random);
            let value = s.v[x as int] as int;
            &&& right.v[15] == value % 2
            &&& right.v[x as int] == value / 2
            &&& value == 2 * right.v[x as int] + right.v[15]
            &&& left.v[15] == value / 128
            &&& left.v[x as int] == (value * 2) % 256
            &&& 2 * value == 256 * left.v[15] + left.v[x as int]
        }),
{
}

/// Pointing the index register at the glyph of a register's value, for a
/// glyph table that lies within the 16-bit address space, never fails and
/// gives the address of one of the 16 glyphs: the table's start plus five
/// times the low four bits of the value.
pub proof fn lemma_glyph_index_in_table(s: MachineState, x: usize, input: InputHandler, random: u8)
    requires
        s.wf(),
        x < 16,
        s.font_location + 80 <= 0x10000,
    ensures
        execute_fault(s, OpCode::SetIToSprite(x), input) is None,
        ({
            let t = execute_effect(s, OpCode::SetIToSprite(x), input, random);
            &&& t.i == s.font_location + 5 * (s.v[x as int] % 16)
            &&& s.font_location <= t.i
            &&& t.i + 5 <= s.font_location + 80
            &&& s.v[x as int] < 16 ==> t.i == s.font_location + 5 * s.v[x as int]
            &&& t == (MachineState { i: t.i, ..s })
        }),
{
}

/// A return with nothing on the stack is a stack underflow, whatever else
/// the machine holds; with something on the stack it never fails, and
/// continues at the most recent return address.
pub proof fn lemma_return_needs_a_call(s: MachineState, input: InputHandler, random: u8)
    ensures
        s.stack.len() == 0 ==> execute_fault(s, OpCode::Return(), input) == Some(
            ExecError::StackUnderflow,
        ),
        s.stack.len() > 0 ==> execute_fault(s, OpCode::Return(), input) is None
            && execute_effect(s, OpCode::Return(), input, random).pc == s.stack.last(),
{
}

/// A call followed at once by a return brings the machine back to where it
/// was before the call.
pub proof fn lemma_call_then_return(s: MachineState, nnn: u16, input: InputHandler, random: u8)
    ensures
        execute_fault(s, OpCode::CallSubroutine(nnn), input) is None,
        ({
            let called = execute_effect(s, OpCode::CallSubroutine(nnn), input, random);
            &&& execute_fault(called, OpCode::Return(), input) is None
            &&& execute_effect(called, OpCode::Return(), input, random) == s
        }),
{
    let called = execute_effect(s, OpCode::CallSubroutine(nnn), input, random);
    assert(called.stack.drop_last() =~= s.stack);
}

} // verus!
