use vstd::prelude::*;

verus! {

/// One instruction word, split into the fields that the instruction set
/// reads from it. Every field is taken from the same two bytes in the same
/// way, whatever the instruction turns out to be.
#[derive(Clone, Copy, Debug, PartialEq, Eq, Structural)]
pub struct Instruction {
    /// The whole word: the first byte is the high half.
    pub opcode: u16,
    /// Bits 12 to 15: selects the group of instructions.
    pub family: u8,
    /// Bits 8 to 11: usually a register number.
    pub x: usize,
    /// Bits 4 to 7: usually a second register number.
    pub y: usize,
    /// Bits 0 to 3.
    pub n: u8,
    /// Bits 0 to 7: an immediate byte.
    pub nn: u8,
    /// Bits 0 to 11: an address.
    pub nnn: u16,
}

impl Instruction {
    /// The instruction held by two consecutive bytes of memory.
    pub open spec fn decoded(hi: u8, lo: u8) -> Instruction {
        Instruction {
            opcode: (hi * 256 + lo) as u16,
            family: (hi / 16) as u8,
            x: (hi % 16) as usize,
            y: (lo / 16) as usize,
            n: (lo % 16) as u8,
            nn: lo,
            nnn: ((hi % 16) * 256 + lo) as u16,
        }
    }

    /// Splits a byte pair into its fields. Defined on every pair, and the
    /// result depends on nothing but the pair.
    pub fn fetch(hi: u8, lo: u8) -> (instruction: Instruction)
        ensures
            instruction == Instruction::decoded(hi, lo),
            instruction.opcode == instruction.family * 4096 + instruction.x * 256 + instruction.y
                * 16 + instruction.n,
            instruction.nn == instruction.y * 16 + instruction.n,
            instruction.nnn == instruction.x * 256 + instruction.nn,
            instruction.family < 16,
            instruction.x < 16,
            instruction.y < 16,
            instruction.n < 16,
            instruction.nnn < 4096,
    {
        let opcode: u16 = ((hi as u16) << 8) | (lo as u16);
        let family: u16 = opcode >> 12;
        let x: u16 = (opcode & 0x0F00) >> 8;
        let y: u16 = (opcode & 0x00F0) >> 4;
        let n: u16 = opcode & 0x000F;
        let nn: u16 = opcode & 0x00FF;
        let nnn: u16 = opcode & 0x0FFF;
        assert(opcode == hi as u16 * 256 + lo as u16 && family == hi as u16 / 16 && x == hi as u16
            % 16 && y == lo as u16 / 16 && n == lo as u16 % 16 && nn == lo as u16 && nnn == (hi as u16
            % 16) * 256 + lo as u16) by (bit_vector)
            requires
                opcode == ((hi as u16) << 8) | (lo as u16),
                family == opcode >> 12,
                x == (opcode & 0x0F00) >> 8,
                y == (opcode & 0x00F0) >> 4,
                n == opcode & 0x000F,
                nn == opcode & 0x00FF,
                nnn == opcode & 0x0FFF,
        ;
        Instruction {
            opcode,
            family: family as u8,
            x: x as usize,
            y: y as usize,
            n: n as u8,
            nn: nn as u8,
            nnn,
        }
    }
}

} // verus!
