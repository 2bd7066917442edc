//! Decoding of the two-byte CHIP-8 instruction format.
//!
//! An instruction is classified by the high nibble of its first byte; some
//! classes need the low nibble or the whole second byte to tell opcodes of
//! the same class apart.  Decoding never fails: an encoding outside the
//! recognized set yields the distinguished key `0xFFFF`, which classifies
//! as [`Opcode::Unknown`].

use vstd::prelude::*;

verus! {

/// The closed set of operation tags the execution engine dispatches on.
///
/// Each recognized tag is produced from exactly one opcode key (the `u16`
/// that [`Instruction::decode`] builds); every other key maps to `Unknown`.
#[derive(Clone, Copy, PartialEq, Eq, Structural, Debug)]
pub enum Opcode {
    /// `00E0`: clear the display buffer.
    ClearScreen,
    /// `00EE`: pop the call stack into the program counter.
    Return,
    /// `1nnn`: jump to address `nnn`.
    Jump,
    /// `2nnn`: push the program counter, jump to `nnn`.
    Call,
    /// `3xkk`: skip the next instruction if register `x` equals `kk`.
    SkipEqImm,
    /// `4xkk`: skip the next instruction if register `x` differs from `kk`.
    SkipNeImm,
    /// `5xy0`: skip the next instruction if registers `x` and `y` are equal.
    SkipEqReg,
    /// `6xkk`: set register `x` to `kk`.
    SetImm,
    /// `7xkk`: add `kk` to register `x`, wrapping modulo 256.
    AddImm,
    /// `8xy0`: copy register `y` into register `x`.
    CopyReg,
    /// `8xy1`: bitwise or of registers `x` and `y` into `x`.
    Or,
    /// `8xy2`: bitwise and of registers `x` and `y` into `x`.
    And,
    /// `8xy3`: bitwise xor of registers `x` and `y` into `x`.
    Xor,
    /// `8xy4`: add registers, carry into the flag register.
    AddReg,
    /// `8xy5`: subtract registers, borrow flag into the flag register.
    SubReg,
    /// `8xy6`: shift register `x` right once, dropped bit into the flag.
    ShiftRight,
    /// `9xy0`: skip the next instruction if registers `x` and `y` differ.
    SkipNeReg,
    /// `Annn`: set the index register to `nnn`.
    SetIndex,
    /// `Bnnn`: jump to `nnn` plus register 0.
    JumpOffset,
    /// `Cxkk`: set register `x` to a random byte masked with `kk`.
    Random,
    /// `Dxyn`: draw an `n`-row sprite at the coordinates in registers `x`, `y`.
    Draw,
    /// `Ex9E`: skip the next instruction if the key in register `x` is pressed.
    SkipKey,
    /// `ExA1`: skip the next instruction if the key in register `x` is released.
    SkipNoKey,
    /// `Fx07`: copy the delay timer into register `x`.
    GetDelay,
    /// `Fx0A`: wait for a key press, store its index in register `x`.
    WaitKey,
    /// `Fx15`: set the delay timer from register `x`.
    SetDelay,
    /// `Fx18`: set the sound timer from register `x`.
    SetSound,
    /// `Fx1E`: add register `x` to the index register in 12-bit space.
    AddIndex,
    /// `Fx29`: point the index register at the font glyph for register `x`.
    FontAddr,
    /// `Fx33`: write the three decimal digits of register `x` to memory.
    StoreBcd,
    /// `Fx55`: copy registers `0..=x` to memory at the index register.
    RegDump,
    /// `Fx65`: load registers `0..=x` from memory at the index register.
    RegLoad,
    /// Any encoding outside the set above.
    Unknown,
}

/// A decoded instruction: the opcode key plus every operand field the
/// instruction's class populates.  Fields a class does not populate keep
/// their previous value; a freshly created instruction holds zeroes.
#[derive(Clone, Copy, PartialEq, Eq, Structural, Debug)]
pub struct Instruction {
    /// Opcode key: high nibble of the first byte shifted into the top
    /// nibble, together with whatever disambiguates the class
    /// (`0xFFFF` when the high nibble matches no class).
    pub opcode: u16,
    /// 12-bit address operand.
    pub nnn: u16,
    /// 8-bit immediate operand.
    pub kk: u8,
    /// First register index operand (a nibble).
    pub x: usize,
    /// Second register index operand (a nibble).
    pub y: usize,
    /// Sprite height operand (a nibble).
    pub n: u8,
}

/// What [`Instruction::decode`] computes from the two raw bytes, starting
/// from the fields of `pre`.
pub open spec fn spec_decode(pre: Instruction, b0: u8, b1: u8) -> Instruction {
    let op = (b0 as u16) >> 4;
    if op == 0x00 {
        Instruction { opcode: (op << 12) | (b1 as u16), ..pre }
    } else if op == 0x01 || op == 0x02 || op == 0x0a || op == 0x0b {
        Instruction {
            opcode: op << 12,
            nnn: (((b0 as u16) & 0x0F) << 8) | (b1 as u16),
            ..pre
        }
    } else if op == 0x03 || op == 0x04 || op == 0x06 || op == 0x07 || op == 0x0c {
        Instruction { opcode: op << 12, x: (b0 & 0x0F) as usize, kk: b1, ..pre }
    } else if op == 0x05 || op == 0x08 || op == 0x09 {
        Instruction {
            opcode: (op << 12) | ((b1 as u16) & 0x0F),
            x: (b0 & 0x0F) as usize,
            y: ((b1 & 0xF0) >> 4) as usize,
            ..pre
        }
    } else if op == 0x0e || op == 0x0f {
        Instruction {
            opcode: (op << 12) | (b1 as u16),
            x: (b0 & 0x0F) as usize,
            ..pre
        }
    } else if op == 0x0d {
        Instruction {
            opcode: op << 12,
            x: (b0 & 0x0F) as usize,
            y: ((b1 & 0xF0) >> 4) as usize,
            n: b1 & 0x0F,
            ..pre
        }
    } else {
        Instruction { opcode: 0xFFFF, ..pre }
    }
}

/// The operation tag an opcode key classifies as.
pub open spec fn spec_opcode_class(code: u16) -> Opcode {
    if code == 0x00E0 {
        Opcode::ClearScreen
    } else if code == 0x00EE {
        Opcode::Return
    } else if code == 0x1000 {
        Opcode::Jump
    } else if code == 0x2000 {
        Opcode::Call
    } else if code == 0x3000 {
        Opcode::SkipEqImm
    } else if code == 0x4000 {
        Opcode::SkipNeImm
    } else if code == 0x5000 {
        Opcode::SkipEqReg
    } else if code == 0x6000 {
        Opcode::SetImm
    } else if code == 0x7000 {
        Opcode::AddImm
    } else if code == 0x8000 {
        Opcode::CopyReg
    } else if code == 0x8001 {
        Opcode::Or
    } else if code == 0x8002 {
        Opcode::And
    } else if code == 0x8003 {
        Opcode::Xor
    } else if code == 0x8004 {
        Opcode::AddReg
    } else if code == 0x8005 {
        Opcode::SubReg
    } else if code == 0x8006 {
        Opcode::ShiftRight
    } else if code == 0x9000 {
        Opcode::SkipNeReg
    } else if code == 0xA000 {
        Opcode::SetIndex
    } else if code == 0xB000 {
        Opcode::JumpOffset
    } else if code == 0xC000 {
        Opcode::Random
    } else if code == 0xD000 {
        Opcode::Draw
    } else if code == 0xE09E {
        Opcode::SkipKey
    } else if code == 0xE0A1 {
        Opcode::SkipNoKey
    } else if code == 0xF007 {
        Opcode::GetDelay
    } else if code == 0xF00A {
        Opcode::WaitKey
    } else if code == 0xF015 {
        Opcode::SetDelay
    } else if code == 0xF018 {
        Opcode::SetSound
    } else if code == 0xF01E {
        Opcode::AddIndex
    } else if code == 0xF029 {
        Opcode::FontAddr
    } else if code == 0xF033 {
        Opcode::StoreBcd
    } else if code == 0xF055 {
        Opcode::RegDump
    } else if code == 0xF065 {
        Opcode::RegLoad
    } else {
        Opcode::Unknown
    }
}

/// Whether an opcode key names an operation the engine implements.
pub open spec fn recognized(code: u16) -> bool {
    spec_opcode_class(code) != Opcode::Unknown
}

/// What [`Instruction::encode`] rebuilds from the decoded fields: the
/// class is taken from the top nibble of the opcode key, and the fields
/// that class populates are packed back into two bytes.
pub open spec fn spec_encode(inst: Instruction) -> (u8, u8) {
    let hi = inst.opcode >> 12;
    if hi == 0x00 {
        (0u8, (inst.opcode & 0x00FF) as u8)
    } else if hi == 0x01 || hi == 0x02 || hi == 0x0a || hi == 0x0b {
        ((((hi << 4) as u8) | ((inst.nnn >> 8) as u8)), (inst.nnn & 0x00FF) as u8)
    } else if hi == 0x03 || hi == 0x04 || hi == 0x06 || hi == 0x07 || hi == 0x0c {
        ((((hi << 4) as u8) | ((inst.x & 0x0F) as u8)), inst.kk)
    } else if hi == 0x05 || hi == 0x08 || hi == 0x09 {
        (
            (((hi << 4) as u8) | ((inst.x & 0x0F) as u8)),
            ((((inst.y & 0x0F) as u8) << 4) | ((inst.opcode & 0x000F) as u8)),
        )
    } else if hi == 0x0e || hi == 0x0f {
        ((((hi << 4) as u8) | ((inst.x & 0x0F) as u8)), (inst.opcode & 0x00FF) as u8)
    } else {
        (
            (((hi << 4) as u8) | ((inst.x & 0x0F) as u8)),
            ((((inst.y & 0x0F) as u8) << 4) | (inst.n & 0x0F)),
        )
    }
}

/// A two-byte encoding that decodes to a recognized operation and wastes
/// no bits: the one class that ignores part of its first byte (`00E0` and
/// `00EE`) must write that part as zero.
pub open spec fn canonical_encoding(b0: u8, b1: u8) -> bool {
    &&& recognized(spec_decode(Instruction::blank(), b0, b1).opcode)
    &&& ((b0 as u16) >> 4 == 0 ==> b0 == 0)
}

impl Opcode {
    /// Classify an opcode key built by [`Instruction::decode`].
    pub fn from_code(code: u16) -> (r: Opcode)
        ensures
            r == spec_opcode_class(code),
    {
        match code {
            0x00E0 => Opcode::ClearScreen,
            0x00EE => Opcode::Return,
            0x1000 => Opcode::Jump,
            0x2000 => Opcode::Call,
            0x3000 => Opcode::SkipEqImm,
            0x4000 => Opcode::SkipNeImm,
            0x5000 => Opcode::SkipEqReg,
            0x6000 => Opcode::SetImm,
            0x7000 => Opcode::AddImm,
            0x8000 => Opcode::CopyReg,
            0x8001 => Opcode::Or,
            0x8002 => Opcode::And,
            0x8003 => Opcode::Xor,
            0x8004 => Opcode::AddReg,
            0x8005 => Opcode::SubReg,
            0x8006 => Opcode::ShiftRight,
            0x9000 => Opcode::SkipNeReg,
            0xA000 => Opcode::SetIndex,
            0xB000 => Opcode::JumpOffset,
            0xC000 => Opcode::Random,
            0xD000 => Opcode::Draw,
            0xE09E => Opcode::SkipKey,
            0xE0A1 => Opcode::SkipNoKey,
            0xF007 => Opcode::GetDelay,
            0xF00A => Opcode::WaitKey,
            0xF015 => Opcode::SetDelay,
            0xF018 => Opcode::SetSound,
            0xF01E => Opcode::AddIndex,
            0xF029 => Opcode::FontAddr,
            0xF033 => Opcode::StoreBcd,
            0xF055 => Opcode::RegDump,
            0xF065 => Opcode::RegLoad,
            _ => Opcode::Unknown,
        }
    }
}

impl Instruction {
    /// The all-zero instruction a fresh decoder starts from.
    pub open spec fn blank() -> Instruction {
        Instruction { opcode: 0, nnn: 0, kk: 0, x: 0, y: 0, n: 0 }
    }

    /// Create an instruction with every field zeroed.
    pub fn new() -> (r: Instruction)
        ensures
            r == Instruction::blank(),
    {
        Instruction { opcode: 0, nnn: 0, kk: 0, x: 0, y: 0, n: 0 }
    }

    /// Decode the two raw bytes of one instruction into this value's
    /// fields, as [`spec_decode`] states.
    pub fn decode(&mut self, data: (u8, u8))
        ensures
            *final(self) == spec_decode(*old(self), data.0, data.1),
    {
        let fstb = data.0;
        let sndb = data.1;

        let op = (fstb as u16) >> 4;

        match op {
            0x00 => {
                self.opcode = (op << 12) | (sndb as u16);
            },
            0x01 | 0x02 | 0x0a | 0x0b => {
                self.opcode = op << 12;
                self.nnn = (((fstb as u16) & 0x0F) << 8) | (sndb as u16);
            },
            0x03 | 0x04 | 0x06 | 0x07 | 0x0c => {
                self.opcode = op << 12;
                self.x = (fstb & 0x0F) as usize;
                self.kk = sndb;
            },
            0x05 | 0x08 | 0x09 => {
                self.opcode = (op << 12) | ((sndb as u16) & 0x0F);
                self.x = (fstb & 0x0F) as usize;
                self.y = ((sndb & 0xF0) >> 4) as usize;
            },
            0x0e | 0x0f => {
                self.opcode = (op << 12) | (sndb as u16);
                self.x = (fstb & 0x0F) as usize;
            },
            0x0d => {
                self.opcode = op << 12;
                self.x = (fstb & 0x0F) as usize;
                self.y = ((sndb & 0xF0) >> 4) as usize;
                self.n = sndb & 0x0F;
            },
            _ => {
                self.opcode = 0xFFFF;
            },
        }
    }

    /// Pack the decoded fields back into the two bytes of the
    /// instruction, as [`spec_encode`] states.
    pub fn encode(&self) -> (r: (u8, u8))
        ensures
            r == spec_encode(*self),
    {
        let hi = self.opcode >> 12;
        match hi {
            0x00 => (0u8, (self.opcode & 0x00FF) as u8),
            0x01 | 0x02 | 0x0a | 0x0b => (
                ((hi << 4) as u8) | ((self.nnn >> 8) as u8),
                (self.nnn & 0x00FF) as u8,
            ),
            0x03 | 0x04 | 0x06 | 0x07 | 0x0c => (
                ((hi << 4) as u8) | ((self.x & 0x0F) as u8),
                self.kk,
            ),
            0x05 | 0x08 | 0x09 => (
                ((hi << 4) as u8) | ((self.x & 0x0F) as u8),
                (((self.y & 0x0F) as u8) << 4) | ((self.opcode & 0x000F) as u8),
            ),
            0x0e | 0x0f => (
                ((hi << 4) as u8) | ((self.x & 0x0F) as u8),
                (self.opcode & 0x00FF) as u8,
            ),
            _ => (
                ((hi << 4) as u8) | ((self.x & 0x0F) as u8),
                (((self.y & 0x0F) as u8) << 4) | (self.n & 0x0F),
            ),
        }
    }

    /// Read the opcode key.
    pub fn get_opcode(&self) -> (r: u16)
        ensures
            r == self.opcode,
    {
        self.opcode
    }

    /// Overwrite the opcode key.
    pub fn set_opcode(&mut self, val: u16)
        ensures
            *final(self) == (Instruction { opcode: val, ..*old(self) }),
    {
        self.opcode = val;
    }
}

/// Decoding from a blank instruction yields nibble-sized register and
/// height operands and a 12-bit address operand.
pub proof fn lemma_decode_bounds(b0: u8, b1: u8)
    ensures
        spec_decode(Instruction::blank(), b0, b1).x < 16,
        spec_decode(Instruction::blank(), b0, b1).y < 16,
        spec_decode(Instruction::blank(), b0, b1).n < 16,
        spec_decode(Instruction::blank(), b0, b1).nnn < 4096,
{
    assert(((b0 & 0x0F) as usize) < 16 && (((b1 & 0xF0) >> 4) as usize) < 16 && (b1 & 0x0F)
        < 16 && ((((b0 as u16) & 0x0F) << 8) | (b1 as u16)) < 4096) by (bit_vector);
}

/// Law: decoding then re-encoding round-trips every canonical two-byte
/// instruction exactly, whatever fields the decoder started from — the
/// address, immediate, register and height operands all survive.
pub proof fn lemma_decode_encode_roundtrip(pre: Instruction, b0: u8, b1: u8)
    requires
        canonical_encoding(b0, b1),
    ensures
        spec_encode(spec_decode(pre, b0, b1)) == (b0, b1),
{
    let op: u16 = (b0 as u16) >> 4;
    let b1w: u16 = b1 as u16;
    let xn: usize = (b0 & 0x0F) as usize;
    let yn: usize = ((b1 & 0xF0) >> 4) as usize;
    // The opcode key always carries the class nibble in its top nibble,
    // so the encoder picks the same class the decoder used.
    assert(((op << 12) | b1w) >> 12 == op && ((op << 12) | (b1w & 0x0F)) >> 12 == op && (op
        << 12) >> 12 == op && op <= 15) by (bit_vector)
        requires
            op == (b0 as u16) >> 4,
            b1w == b1 as u16,
    ;
    // Each class packs its operand fields back into the very bits they
    // were cut from.
    assert(((op << 4) as u8) | ((xn & 0x0F) as u8) == b0 && ((op << 12) | b1w) & 0x00FF
        == b1w && (((op << 12) | b1w) & 0x00FF) as u8 == b1) by (bit_vector)
        requires
            op == (b0 as u16) >> 4,
            b1w == b1 as u16,
            xn == (b0 & 0x0F) as usize,
    ;
    if op == 0x01 || op == 0x02 || op == 0x0a || op == 0x0b {
        let nnn: u16 = ((b0 as u16) & 0x0F) << 8 | b1w;
        assert(((op << 4) as u8) | ((nnn >> 8) as u8) == b0 && (nnn & 0x00FF) as u8
            == b1) by (bit_vector)
            requires
                op == (b0 as u16) >> 4,
                b1w == b1 as u16,
                nnn == ((b0 as u16) & 0x0F) << 8 | b1w,
        ;
    } else if op == 0x05 || op == 0x08 || op == 0x09 {
        let code: u16 = (op << 12) | (b1w & 0x0F);
        assert((((yn & 0x0F) as u8) << 4) | ((code & 0x000F) as u8) == b1) by (bit_vector)
            requires
                op == (b0 as u16) >> 4,
                b1w == b1 as u16,
                yn == ((b1 & 0xF0) >> 4) as usize,
                code == (op << 12) | (b1w & 0x0F),
        ;
    } else if op == 0x0d {
        assert((((yn & 0x0F) as u8) << 4) | ((b1 & 0x0F) & 0x0F) == b1) by (bit_vector)
            requires
                yn == ((b1 & 0xF0) >> 4) as usize,
        ;
    }
}

} // verus!
