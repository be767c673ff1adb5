use vstd::prelude::*;
use rand::Rng;
use crate::input::InputHandler;
use crate::machine::{memory_with, Chip8, MachineState};
use crate::opcodes::{decode_result, word_at, DecodeError, OpCode};
use crate::semantics::{
    execute_effect,
    execute_fault,
    regs_loaded,
    skip_next,
    with_reg,
    ExecError,
};

verus! {

/// Draws one byte from the thread-local generator of the `rand` crate, by
/// `Rng::gen_range` over all 256 values. Nothing is claimed of the byte.
#[verifier::external_body]
fn random_byte() -> (byte: u8) {
    rand::thread_rng().gen_range(0..=255)
}

/// Why an instruction cycle stopped.
#[derive(Copy, Clone, Debug, PartialEq, Eq, Structural)]
pub enum CycleError {
    /// No instruction could be fetched.
    Decode(DecodeError),
    /// The instruction was fetched and could not be executed.
    Exec(ExecError),
}

/// What one instruction cycle returns when it starts in state `s`, for the
/// cycles that end in an error.
pub open spec fn cycle_fault(s: MachineState, input: InputHandler) -> Option<CycleError> {
    if s.pc >= 4095 {
        Some(CycleError::Decode(DecodeError::PcOutOfBounds(s.pc)))
    } else {
        match decode_result(word_at(s.memory, s.pc as int)) {
            Err(e) => Some(CycleError::Decode(e)),
            Ok(op) => match execute_fault(skip_next(s), op, input) {
                Some(e) => Some(CycleError::Exec(e)),
                None => None,
            },
        }
    }
}

/// The state that one instruction cycle leads to from state `s`. A cycle
/// that cannot fetch leaves the machine as it was; one that fetches and
/// then fails leaves the program counter behind the fetched word.
pub open spec fn cycle_effect(s: MachineState, input: InputHandler, random: u8) -> MachineState {
    if s.pc >= 4095 {
        s
    } else {
        match decode_result(word_at(s.memory, s.pc as int)) {
            Err(_) => skip_next(s),
            Ok(op) => if execute_fault(skip_next(s), op, input) is Some {
                skip_next(s)
            } else {
                execute_effect(skip_next(s), op, input, random)
            },
        }
    }
}

impl ExecError {
    /// The sentence that describes the error.
    pub open spec fn message_text(self) -> Seq<char> {
        match self {
            ExecError::StackUnderflow => "Tried to return from subroutine with empty stack"@,
            ExecError::MemoryOutOfBounds => "Tried to access memory beyond its last byte"@,
            ExecError::InvalidKey => "Tried to read a key that the keypad does not have"@,
            ExecError::AddressOverflow => "Tried to move an address register out of its range"@,
        }
    }

    /// A sentence for the host's diagnostic.
    pub fn message(&self) -> (text: &'static str)
        ensures
            text@ == self.message_text(),
    {
        match self {
            ExecError::StackUnderflow => "Tried to return from subroutine with empty stack",
            ExecError::MemoryOutOfBounds => "Tried to access memory beyond its last byte",
            ExecError::InvalidKey => "Tried to read a key that the keypad does not have",
            ExecError::AddressOverflow => "Tried to move an address register out of its range",
        }
    }
}

impl Chip8 {
    /// Stores `value` in register `x`.
    fn set_reg(&mut self, x: usize, value: u8)
        requires
            x < 16,
        ensures
            final(self)@ == with_reg(old(self)@, x as int, value),
    {
        self.v[x] = value;
    }

    /// Moves the program counter past the next instruction if `taken`.
    fn skip_if(&mut self, taken: bool) -> (res: Result<(), ExecError>)
        ensures
            taken && old(self).pc + 2 > 0xFFFF ==> res == Err::<(), ExecError>(
                ExecError::AddressOverflow,
            ) && *final(self) == *old(self),
            taken && old(self).pc + 2 <= 0xFFFF ==> res == Ok::<(), ExecError>(())
                && final(self)@ == skip_next(old(self)@),
            !taken ==> res == Ok::<(), ExecError>(()) && *final(self) == *old(self),
    {
        if taken {
            if self.pc > 0xFFFD {
                return Err(ExecError::AddressOverflow);
            }
            self.pc += 2;
        }
        Ok(())
    }

    /// Copies the registers V0 to V`x` into memory from the index register
    /// on.
    fn dump_regs(&mut self, x: usize)
        requires
            x < 16,
            old(self).i + x < 4096,
        ensures
            final(self)@ == (MachineState {
                memory: memory_with(
                    old(self)@.memory,
                    old(self).i as int,
                    old(self)@.v.take(x + 1),
                ),
                ..old(self)@
            }),
    {
        let mut r: usize = 0;
        assert(self@.memory =~= memory_with(self@.memory, self.i as int, self@.v.take(0)));
        while r <= x
            invariant
                x < 16,
                r <= x + 1,
                self.i + x < 4096,
                self@ == (MachineState {
                    memory: memory_with(
                        old(self)@.memory,
                        old(self).i as int,
                        old(self)@.v.take(r as int),
                    ),
                    ..old(self)@
                }),
            decreases x + 1 - r,
        {
            self.memory[self.i as usize + r] = self.v[r];
            r += 1;
            assert(self@.memory =~= memory_with(
                old(self)@.memory,
                old(self).i as int,
                old(self)@.v.take(r as int),
            ));
        }
    }

    /// Copies memory from the index register on into the registers V0 to
    /// V`x`.
    fn load_regs(&mut self, x: usize)
        requires
            x < 16,
            old(self).i + x < 4096,
        ensures
            final(self)@ == (MachineState { v: regs_loaded(old(self)@, x as int), ..old(self)@ }),
    {
        let mut r: usize = 0;
        while r <= x
            invariant
                x < 16,
                r <= x + 1,
                self.i + x < 4096,
                self.v@ =~= Seq::new(
                    16,
                    |q: int|
                        if q < r {
                            old(self)@.memory[old(self).i + q]
                        } else {
                            old(self)@.v[q]
                        },
                ),
                self@ == (MachineState { v: self@.v, ..old(self)@ }),
            decreases x + 1 - r,
        {
            self.v[r] = self.memory[self.i as usize + r];
            r += 1;
        }
        assert(self@.v =~= regs_loaded(old(self)@, x as int));
    }

    /// Executes one instruction, with `random` as the byte that the random
    /// source delivers. On an error the machine is left untouched.
    pub fn execute_opcode_with(
        &mut self,
        opcode: OpCode,
        input_handler: &InputHandler,
        random: u8,
    ) -> (res: Result<(), ExecError>)
        requires
            opcode.wf(),
        ensures
            match execute_fault(old(self)@, opcode, *input_handler) {
                Some(fault) => res == Err::<(), ExecError>(fault) && *final(self) == *old(self),
                None => res == Ok::<(), ExecError>(()) && final(self)@ == execute_effect(
                    old(self)@,
                    opcode,
                    *input_handler,
                    random,
                ),
            },
    {
        match opcode {
            OpCode::ClearScreen() => {
                self.buf_clear_screen();
                self.draw_flag = true;
            },
            OpCode::Return() => {
                if self.stack.len() == 0 {
                    return Err(ExecError::StackUnderflow);
                }
                match self.stack.pop() {
                    Some(elt) => self.pc = elt,
                    None => {},
                }
                assert(self@.stack =~= old(self)@.stack.drop_last());
            },
            OpCode::Jump(nnn) => {
                self.pc = nnn
            },
            OpCode::CallSubroutine(nnn) => {
                self.stack.push(self.pc);
                self.pc = nnn;
            },
            OpCode::CondEq(x, nn) => {
                return self.skip_if(self.v[x] == nn);
            },
            OpCode::CondNEq(x, nn) => {
                return self.skip_if(self.v[x] != nn);
            },
            OpCode::CondEqReg(x, y) => {
                return self.skip_if(self.v[x] == self.v[y]);
            },
            OpCode::SetReg(x, nn) => {
                self.set_reg(x, nn);
            },
            OpCode::AddToReg(x, nn) => {
                self.set_reg(x, self.v[x].wrapping_add(nn));
            },
            OpCode::AssignRegToReg(x, y) => {
                self.set_reg(x, self.v[y]);
            },
            OpCode::BitwiseOr(x, y) => {
                self.set_reg(x, self.v[x] | self.v[y]);
            },
            OpCode::BitwiseAnd(x, y) => {
                self.set_reg(x, self.v[x] & self.v[y]);
            },
            OpCode::BitwiseXor(x, y) => {
                self.set_reg(x, self.v[x] ^ self.v[y]);
            },
            OpCode::AddRegToReg(x, y) => {
                let res: u8 = self.v[x].wrapping_add(self.v[y]);
                let carry: bool = self.v[x] as u16 + self.v[y] as u16 > 255;
                self.set_reg(x, res);
                self.set_reg(0xF, if carry { 1 } else { 0 });
            },
            OpCode::SubRegToReg(x, y) => {
                let res: u8 = self.v[x].wrapping_sub(self.v[y]);
                let borrow: bool = self.v[x] < self.v[y];
                self.set_reg(x, res);
                self.set_reg(0xF, if borrow { 0 } else { 1 });
            },
            OpCode::StoreLSBWithShift(x) => {
                let value: u8 = self.v[x];
                let low: u8 = value & 1;
                assert(low == value % 2) by (bit_vector)
                    requires
                        low == value & 1,
                ;
                self.set_reg(0xF, low);
                let value: u8 = self.v[x];
                let half: u8 = value >> 1;
                assert(half == value / 2) by (bit_vector)
                    requires
                        half == value >> 1,
                ;
                self.set_reg(x, half);
            },
            OpCode::SubRegFromReg(x, y) => {
                let res: u8 = self.v[y].wrapping_sub(self.v[x]);
                let borrow: bool = self.v[y] < self.v[x];
                self.set_reg(x, res);
                self.set_reg(0xF, if borrow { 0 } else { 1 });
            },
            OpCode::StoreMSBWithShift(x) => {
                let value: u8 = self.v[x];
                let high: u8 = value >> 7;
                assert(high == value / 128) by (bit_vector)
                    requires
                        high == value >> 7,
                ;
                self.set_reg(0xF, high);
                let value: u8 = self.v[x];
                let double: u8 = value << 1;
                assert(double == (value * 2) % 256) by (bit_vector)
                    requires
                        double == value << 1,
                ;
                self.set_reg(x, double);
            },
            OpCode::CondNEqReg(x, y) => {
                return self.skip_if(self.v[x] != self.v[y]);
            },
            OpCode::SetI(nnn) => {
                self.i = nnn;
            },
            OpCode::JumpToV0Plus(nnn) => {
                if nnn > 0xFFFF - self.v[0] as u16 {
                    return Err(ExecError::AddressOverflow);
                }
                self.pc = self.v[0] as u16 + nnn;
            },
            OpCode::RegRandBitwiseAnd(x, nn) => {
                self.set_reg(x, random & nn);
            },
            OpCode::DrawSprite(x, y, n) => {
                if n > 0 && self.i as usize + n as usize > 4096 {
                    return Err(ExecError::MemoryOutOfBounds);
                }
                self.buf_draw_sprite(self.v[x], self.v[y], n);
                self.draw_flag = true;
            },
            OpCode::IsKeyPressed(x) => {
                match Chip8::kkey_from_code(self.v[x]) {
                    Some(key) => {
                        return self.skip_if(input_handler.is_key_down(key));
                    },
                    None => {
                        return Err(ExecError::InvalidKey);
                    },
                }
            },
            OpCode::IsKeyNPressed(x) => {
                match Chip8::kkey_from_code(self.v[x]) {
                    Some(key) => {
                        return self.skip_if(input_handler.is_key_up(key));
                    },
                    None => {
                        return Err(ExecError::InvalidKey);
                    },
                }
            },
            OpCode::SetRegToTimer(x) => {
                self.set_reg(x, (self.delay_timer % 256) as u8);
            },
            OpCode::AwaitKey(x) => {
                match input_handler.any_key_pressed() {
                    Some(key_as_hex) => self.set_reg(x, key_as_hex),
                    None => {
                        if self.pc < 2 {
                            return Err(ExecError::AddressOverflow);
                        }
                        self.pc -= 2;
                    },
                }
            },
            OpCode::SetDelayTimer(x) => {
                self.delay_timer = self.v[x] as u32;
            },
            OpCode::SetSoundTimer(x) => {
                self.sound_timer = self.v[x] as u32;
            },
            OpCode::AddRegToI(x) => {
                if self.i > 0xFFFF - self.v[x] as u16 {
                    return Err(ExecError::AddressOverflow);
                }
                self.i += self.v[x] as u16;
            },
            OpCode::SetIToSprite(x) => {
                let offset: u16 = 5 * ((self.v[x] % 16) as u16);
                if self.font_location > 0xFFFF - offset {
                    return Err(ExecError::AddressOverflow);
                }
                self.i = self.font_location + offset;
            },
            OpCode::ToDecimal(x) => {
                if self.i as usize + 2 >= 4096 {
                    return Err(ExecError::MemoryOutOfBounds);
                }
                self.memory[self.i as usize] = self.v[x] / 100;
                self.memory[self.i as usize + 1] = (self.v[x] % 100) / 10;
                self.memory[self.i as usize + 2] = self.v[x] % 10;
                assert(self@.memory =~= execute_effect(
                    old(self)@,
                    opcode,
                    *input_handler,
                    random,
                ).memory);
            },
            OpCode::DumpRegs(x) => {
                if self.i as usize + x >= 4096 {
                    return Err(ExecError::MemoryOutOfBounds);
                }
                self.dump_regs(x);
            },
            OpCode::LoadRegs(x) => {
                if self.i as usize + x >= 4096 {
                    return Err(ExecError::MemoryOutOfBounds);
                }
                self.load_regs(x);
            },
        }
        Ok(())
    }

    /// Executes one instruction, drawing a fresh random byte for the random
    /// instruction. On an error the machine is left untouched.
    pub fn execute_opcode(&mut self, opcode: OpCode, input_handler: &InputHandler) -> (res: Result<
        (),
        ExecError,
    >)
        requires
            opcode.wf(),
        ensures
            match execute_fault(old(self)@, opcode, *input_handler) {
                Some(fault) => res == Err::<(), ExecError>(fault) && *final(self) == *old(self),
                None => res == Ok::<(), ExecError>(()) && exists|random: u8|
                    final(self)@ == #[trigger] execute_effect(
                        old(self)@,
                        opcode,
                        *input_handler,
                        random,
                    ),
            },
            !(opcode is RegRandBitwiseAnd) && res is Ok ==> final(self)@ == execute_effect(
                old(self)@,
                opcode,
                *input_handler,
                0,
            ),
    {
        let random: u8 = match opcode {
            OpCode::RegRandBitwiseAnd(_, _) => random_byte(),
            _ => 0,
        };
        self.execute_opcode_with(opcode, input_handler, random)
    }

    /// Runs one instruction cycle: fetches the instruction at the program
    /// counter and executes it.
    pub fn cycle(&mut self, input_handler: &InputHandler) -> (res: Result<(), CycleError>)
        ensures
            match cycle_fault(old(self)@, *input_handler) {
                Some(fault) => res == Err::<(), CycleError>(fault),
                None => res == Ok::<(), CycleError>(()),
            },
            exists|random: u8|
                final(self)@ == #[trigger] cycle_effect(old(self)@, *input_handler, random),
    {
        let fetched = self.fetch_opcode();
        match fetched {
            Err(e) => {
                assert(self@ == cycle_effect(old(self)@, *input_handler, 0));
                Err(CycleError::Decode(e))
            },
            Ok(opcode) => {
                let ghost fetched_state = self@;
                match self.execute_opcode(opcode, input_handler) {
                    Err(e) => {
                        assert(self@ == cycle_effect(old(self)@, *input_handler, 0));
                        Err(CycleError::Exec(e))
                    },
                    Ok(()) => {
                        let ghost random = choose|random: u8|
                            self@ == #[trigger] execute_effect(
                                fetched_state,
                                opcode,
                                *input_handler,
                                random,
                            );
                        assert(self@ == cycle_effect(old(self)@, *input_handler, random));
                        Ok(())
                    },
                }
            },
        }
    }
}

} // verus!
