use vstd::prelude::*;
use crate::machine::{Chip8, MachineState};

verus! {

/// One decoded instruction. Register operands are indices into V0..VF.
#[derive(Copy, Clone, Debug, PartialEq, Eq, Structural)]
pub enum OpCode {
    ClearScreen(),
    Return(),
    Jump(u16),
    CallSubroutine(u16),
    CondEq(usize, u8),
    CondNEq(usize, u8),
    CondEqReg(usize, usize),
    SetReg(usize, u8),
    /// Adds without touching the carry flag.
    AddToReg(usize, u8),
    AssignRegToReg(usize, usize),
    BitwiseOr(usize, usize),
    BitwiseAnd(usize, usize),
    BitwiseXor(usize, usize),
    /// Adds with carry.
    AddRegToReg(usize, usize),
    /// `Vx = Vx - Vy`, with the borrow flag.
    SubRegToReg(usize, usize),
    StoreLSBWithShift(usize),
    /// `Vx = Vy - Vx`, with the borrow flag.
    SubRegFromReg(usize, usize),
    StoreMSBWithShift(usize),
    CondNEqReg(usize, usize),
    SetI(u16),
    JumpToV0Plus(u16),
    RegRandBitwiseAnd(usize, u8),
    DrawSprite(usize, usize, u8),
    IsKeyPressed(usize),
    IsKeyNPressed(usize),
    SetRegToTimer(usize),
    AwaitKey(usize),
    SetDelayTimer(usize),
    SetSoundTimer(usize),
    AddRegToI(usize),
    SetIToSprite(usize),
    ToDecimal(usize),
    DumpRegs(usize),
    LoadRegs(usize),
}

impl OpCode {
    /// True if every register operand names one of the 16 registers.
    pub open spec fn wf(self) -> bool {
        match self {
            OpCode::ClearScreen() | OpCode::Return() => true,
            OpCode::Jump(_) | OpCode::CallSubroutine(_) | OpCode::SetI(_) | OpCode::JumpToV0Plus(
                _,
            ) => true,
            OpCode::CondEq(x, _) | OpCode::CondNEq(x, _) | OpCode::SetReg(x, _) | OpCode::AddToReg(
                x,
                _,
            ) | OpCode::RegRandBitwiseAnd(x, _) => x < 16,
            OpCode::CondEqReg(x, y) | OpCode::AssignRegToReg(x, y) | OpCode::BitwiseOr(x, y)
            | OpCode::BitwiseAnd(x, y) | OpCode::BitwiseXor(x, y) | OpCode::AddRegToReg(x, y)
            | OpCode::SubRegToReg(x, y) | OpCode::SubRegFromReg(x, y) | OpCode::CondNEqReg(x, y)
            | OpCode::DrawSprite(x, y, _) => x < 16 && y < 16,
            OpCode::StoreLSBWithShift(x) | OpCode::StoreMSBWithShift(x) | OpCode::IsKeyPressed(x)
            | OpCode::IsKeyNPressed(x) | OpCode::SetRegToTimer(x) | OpCode::AwaitKey(x)
            | OpCode::SetDelayTimer(x) | OpCode::SetSoundTimer(x) | OpCode::AddRegToI(x)
            | OpCode::SetIToSprite(x) | OpCode::ToDecimal(x) | OpCode::DumpRegs(x)
            | OpCode::LoadRegs(x) => x < 16,
        }
    }
}

/// Why no instruction could be fetched.
#[derive(Copy, Clone, Debug, PartialEq, Eq, Structural)]
pub enum DecodeError {
    /// The word is not the encoding of any instruction.
    UnknownInstruction(u16),
    /// The program counter, given here, does not leave room in memory for
    /// an instruction word.
    PcOutOfBounds(u16),
}

/// The `n`-th 4-bit digit of `word`, counted from the most significant one;
/// zero when `n` is not a digit position.
pub open spec fn nibble_at(n: int, word: u16) -> int {
    if n == 0 {
        word as int / 0x1000
    } else if n == 1 {
        (word as int / 0x100) % 16
    } else if n == 2 {
        (word as int / 0x10) % 16
    } else if n == 3 {
        word as int % 16
    } else {
        0
    }
}

/// Sixteen to the power `k`; one when `k` is not positive.
pub open spec fn pow16(k: int) -> int
    decreases k,
{
    if k <= 0 {
        1
    } else {
        16 * pow16(k - 1)
    }
}

/// The number written by the 4-bit digits of `word` at positions `start`
/// (included) to `end` (excluded), counted from the most significant one;
/// zero when the range is empty.
pub open spec fn nibble_range(start: int, end: int, word: u16) -> int {
    if start < end {
        (word as int % pow16(4 - start)) / pow16(4 - end)
    } else {
        0
    }
}

/// The instruction that `word` encodes, if it encodes one. With the digits
/// of `word` written `F X Y N` from the most significant one, `NN` is the
/// low byte and `NNN` the low twelve bits.
pub open spec fn decoded(word: u16) -> Option<OpCode> {
    let family = nibble_at(0, word);
    let x = nibble_at(1, word) as usize;
    let y = nibble_at(2, word) as usize;
    let n = nibble_at(3, word) as u8;
    let nn = nibble_range(2, 4, word) as u8;
    let nnn = nibble_range(1, 4, word) as u16;
    if family == 0x0 {
        if word == 0x00E0 {
            Some(OpCode::ClearScreen())
        } else if word == 0x00EE {
            Some(OpCode::Return())
        } else {
            None
        }
    } else if family == 0x1 {
        Some(OpCode::Jump(nnn))
    } else if family == 0x2 {
        Some(OpCode::CallSubroutine(nnn))
    } else if family == 0x3 {
        Some(OpCode::CondEq(x, nn))
    } else if family == 0x4 {
        Some(OpCode::CondNEq(x, nn))
    } else if family == 0x5 {
        if n == 0 {
            Some(OpCode::CondEqReg(x, y))
        } else {
            None
        }
    } else if family == 0x6 {
        Some(OpCode::SetReg(x, nn))
    } else if family == 0x7 {
        Some(OpCode::AddToReg(x, nn))
    } else if family == 0x8 {
        if n == 0x0 {
            Some(OpCode::AssignRegToReg(x, y))
        } else if n == 0x1 {
            Some(OpCode::BitwiseOr(x, y))
        } else if n == 0x2 {
            Some(OpCode::BitwiseAnd(x, y))
        } else if n == 0x3 {
            Some(OpCode::BitwiseXor(x, y))
        } else if n == 0x4 {
            Some(OpCode::AddRegToReg(x, y))
        } else if n == 0x5 {
            Some(OpCode::SubRegToReg(x, y))
        } else if n == 0x6 {
            Some(OpCode::StoreLSBWithShift(x))
        } else if n == 0x7 {
            Some(OpCode::SubRegFromReg(x, y))
        } else if n == 0xE {
            Some(OpCode::StoreMSBWithShift(x))
        } else {
            None
        }
    } else if family == 0x9 {
        if n == 0 {
            Some(OpCode::CondNEqReg(x, y))
        } else {
            None
        }
    } else if family == 0xA {
        Some(OpCode::SetI(nnn))
    } else if family == 0xB {
        Some(OpCode::JumpToV0Plus(nnn))
    } else if family == 0xC {
        Some(OpCode::RegRandBitwiseAnd(x, nn))
    } else if family == 0xD {
        Some(OpCode::DrawSprite(x, y, n))
    } else if family == 0xE {
        if nn == 0x9E {
            Some(OpCode::IsKeyPressed(x))
        } else if nn == 0xA1 {
            Some(OpCode::IsKeyNPressed(x))
        } else {
            None
        }
    } else {
        if nn == 0x07 {
            Some(OpCode::SetRegToTimer(x))
        } else if nn == 0x0A {
            Some(OpCode::AwaitKey(x))
        } else if nn == 0x15 {
            Some(OpCode::SetDelayTimer(x))
        } else if nn == 0x18 {
            Some(OpCode::SetSoundTimer(x))
        } else if nn == 0x1E {
            Some(OpCode::AddRegToI(x))
        } else if nn == 0x29 {
            Some(OpCode::SetIToSprite(x))
        } else if nn == 0x33 {
            Some(OpCode::ToDecimal(x))
        } else if nn == 0x55 {
            Some(OpCode::DumpRegs(x))
        } else if nn == 0x65 {
            Some(OpCode::LoadRegs(x))
        } else {
            None
        }
    }
}

/// What decoding `word` returns: its instruction, or the word itself as
/// unknown.
pub open spec fn decode_result(word: u16) -> Result<OpCode, DecodeError> {
    match decoded(word) {
        Some(op) => Ok(op),
        None => Err(DecodeError::UnknownInstruction(word)),
    }
}

/// The big-endian 16-bit word that memory holds at `addr`.
pub open spec fn word_at(memory: Seq<u8>, addr: int) -> u16 {
    (memory[addr] as int * 256 + memory[addr + 1] as int) as u16
}

/// Every 16-bit word decodes to an instruction whose register operands are
/// all in range and whose address operand fits in twelve bits, or to none.
pub proof fn lemma_decoded_is_well_formed(word: u16)
    ensures
        decoded(word) matches Some(op) ==> op.wf(),
        decoded(word) matches Some(OpCode::Jump(nnn)) ==> nnn < 0x1000,
        decoded(word) matches Some(OpCode::CallSubroutine(nnn)) ==> nnn < 0x1000,
        decoded(word) matches Some(OpCode::SetI(nnn)) ==> nnn < 0x1000,
        decoded(word) matches Some(OpCode::JumpToV0Plus(nnn)) ==> nnn < 0x1000,
        decoded(word) matches Some(OpCode::DrawSprite(_, _, n)) ==> n < 16,
        decode_result(word) matches Err(e) ==> e == DecodeError::UnknownInstruction(word),
{
    lemma_pow16_values();
}

/// Decodes one instruction word.
pub fn decode(word: u16) -> (res: Result<OpCode, DecodeError>)
    ensures
        res == decode_result(word),
        res matches Ok(op) ==> op.wf(),
{
    proof {
        lemma_pow16_values();
    }
    let x: usize = Chip8::nth_nibble(1, word) as usize;
    let y: usize = Chip8::nth_nibble(2, word) as usize;
    let n: u8 = Chip8::nth_nibble(3, word) as u8;
    let nn: u8 = Chip8::range_nibble(2, 4, word) as u8;
    let nnn: u16 = Chip8::range_nibble(1, 4, word);
    let found: Option<OpCode> = match Chip8::nth_nibble(0, word) {
        0x0 => {
            match word {
                0x00E0 => Some(OpCode::ClearScreen()),
                0x00EE => Some(OpCode::Return()),
                _ => None,
            }
        },
        0x1 => Some(OpCode::Jump(nnn)),
        0x2 => Some(OpCode::CallSubroutine(nnn)),
        0x3 => Some(OpCode::CondEq(x, nn)),
        0x4 => Some(OpCode::CondNEq(x, nn)),
        0x5 => {
            match n {
                0x0 => Some(OpCode::CondEqReg(x, y)),
                _ => None,
            }
        },
        0x6 => Some(OpCode::SetReg(x, nn)),
        0x7 => Some(OpCode::AddToReg(x, nn)),
        0x8 => {
            match n {
                0 => Some(OpCode::AssignRegToReg(x, y)),
                1 => Some(OpCode::BitwiseOr(x, y)),
                2 => Some(OpCode::BitwiseAnd(x, y)),
                3 => Some(OpCode::BitwiseXor(x, y)),
                4 => Some(OpCode::AddRegToReg(x, y)),
                5 => Some(OpCode::SubRegToReg(x, y)),
                6 => Some(OpCode::StoreLSBWithShift(x)),
                7 => Some(OpCode::SubRegFromReg(x, y)),
                0xE => Some(OpCode::StoreMSBWithShift(x)),
                _ => None,
            }
        },
        0x9 => {
            match n {
                0x0 => Some(OpCode::CondNEqReg(x, y)),
                _ => None,
            }
        },
        0xA => Some(OpCode::SetI(nnn)),
        0xB => Some(OpCode::JumpToV0Plus(nnn)),
        0xC => Some(OpCode::RegRandBitwiseAnd(x, nn)),
        0xD => Some(OpCode::DrawSprite(x, y, n)),
        0xE => {
            match nn {
                0x9E => Some(OpCode::IsKeyPressed(x)),
                0xA1 => Some(OpCode::IsKeyNPressed(x)),
                _ => None,
            }
        },
        0xF => {
            match nn {
                0x07 => Some(OpCode::SetRegToTimer(x)),
                0x0A => Some(OpCode::AwaitKey(x)),
                0x15 => Some(OpCode::SetDelayTimer(x)),
                0x18 => Some(OpCode::SetSoundTimer(x)),
                0x1E => Some(OpCode::AddRegToI(x)),
                0x29 => Some(OpCode::SetIToSprite(x)),
                0x33 => Some(OpCode::ToDecimal(x)),
                0x55 => Some(OpCode::DumpRegs(x)),
                0x65 => Some(OpCode::LoadRegs(x)),
                _ => None,
            }
        },
        _ => None,
    };
    match found {
        Some(op) => Ok(op),
        None => Err(DecodeError::UnknownInstruction(word)),
    }
}

/// The values of `pow16` on the exponents that a 16-bit word can use.
pub proof fn lemma_pow16_values()
    ensures
        pow16(0) == 1,
        pow16(1) == 0x10,
        pow16(2) == 0x100,
        pow16(3) == 0x1000,
        pow16(4) == 0x10000,
{
    reveal_with_fuel(pow16, 5);
}

impl Chip8 {
    /// Extracts one 4-bit digit of an instruction word.
    pub fn nth_nibble(n: u8, opcode: u16) -> (res: u16)
        ensures
            res == nibble_at(n as int, opcode),
    {
        match n {
            0 => {
                assert(opcode >> 12 == opcode / 0x1000) by (bit_vector);
                opcode >> 12
            },
            1 => {
                assert((opcode & 0x0F00) >> 8 == (opcode / 0x100) % 16) by (bit_vector);
                (opcode & 0x0F00) >> 8
            },
            2 => {
                assert((opcode & 0x00F0) >> 4 == (opcode / 0x10) % 16) by (bit_vector);
                (opcode & 0x00F0) >> 4
            },
            3 => {
                assert(opcode & 0x000F == opcode % 16) by (bit_vector);
                opcode & 0x000F
            },
            _ => 0x0,
        }
    }

    /// Reads the instruction word at the program counter, moves the program
    /// counter past it, and decodes the word.
    pub fn fetch_opcode(&mut self) -> (res: Result<OpCode, DecodeError>)
        ensures
            old(self).pc >= 4095 ==> res == Err::<OpCode, DecodeError>(
                DecodeError::PcOutOfBounds(old(self).pc),
            ) && *final(self) == *old(self),
            old(self).pc < 4095 ==> res == decode_result(
                word_at(old(self)@.memory, old(self).pc as int),
            ) && final(self)@ == (MachineState { pc: (old(self).pc + 2) as u16, ..old(self)@ }),
            res matches Ok(op) ==> op.wf(),
    {
        if self.pc >= 4095 {
            return Err(DecodeError::PcOutOfBounds(self.pc));
        }
        let part1: u8 = self.memory[self.pc as usize];
        let part2: u8 = self.memory[(self.pc + 1) as usize];
        let opcode: u16 = ((part1 as u16) << 8) | (part2 as u16);
        assert(opcode == part1 * 256 + part2) by (bit_vector)
            requires
                opcode == ((part1 as u16) << 8) | (part2 as u16),
        ;
        self.pc += 2;
        decode(opcode)
    }

    /// Extracts the 4-bit digits `start..end` of an instruction word as one
    /// number.
    pub fn range_nibble(start: u8, end: u8, opcode: u16) -> (res: u16)
        requires
            1 <= end <= 4,
        ensures
            res == nibble_range(start as int, end as int, opcode),
    {
        let mut mask: u16 = 0;
        let mut i: u8 = start;
        while i < end
            invariant
                1 <= end <= 4,
                start <= i,
                start < end ==> i <= end,
                start < end ==> mask as int == pow16(4 - start) - pow16(4 - i),
                start >= end ==> mask == 0,
            decreases end - i,
        {
            let shift: u16 = (4 * (4 - i - 1)) as u16;
            let digit: u16 = 0xF << shift;
            assert(mask | digit == mask + 15 * pow16(4 - i - 1)) by {
                lemma_pow16_values();
                let lo: u16 = pow16(4 - i - 1) as u16;
                assert(mask as int + 16 * lo <= 0x10000);
                assert(mask | (0xFu16 << shift) == mask + 15 * lo) by (bit_vector)
                    requires
                        shift == 0 && lo == 1 || shift == 4 && lo == 0x10 || shift == 8 && lo
                            == 0x100 || shift == 12 && lo == 0x1000,
                        shift == 12 && mask == 0 || shift < 12 && mask % (16 * lo) as u16 == 0,
                ;
            }
            mask |= digit;
            i += 1;
        }
        let down: u16 = ((4 - end) * 4) as u16;
        assert((opcode & mask) >> down == nibble_range(start as int, end as int, opcode)) by {
            lemma_pow16_values();
            if start < end {
                let top: u32 = pow16(4 - start) as u32;
                let bottom: u32 = pow16(4 - end) as u32;
                assert(((opcode & mask) >> down) as u32 == (opcode as u32 % top) / bottom)
                    by (bit_vector)
                    requires
                        top == 0x10000 || top == 0x1000 || top == 0x100 || top == 0x10,
                        down == 0 && bottom == 1 || down == 4 && bottom == 0x10 || down == 8
                            && bottom == 0x100 || down == 12 && bottom == 0x1000,
                        bottom < top,
                        mask as u32 == top - bottom,
                ;
            } else {
                assert(mask == 0);
                assert((opcode & 0) >> down == 0) by (bit_vector);
            }
        }
        (opcode & mask) >> down
    }
}

} // verus!
