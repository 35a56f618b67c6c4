//! CHIP-8 instruction words and their decoder.
//!
//! An instruction word is two bytes; the high nibble of the first byte picks
//! the instruction family, and the remaining nibbles carry either operands or
//! a secondary selector.  `OpCode::from_bytes` is the executable decoder; its
//! behaviour is pinned down, for every input, by the specification function
//! `spec_decode`.

use vstd::prelude::*;

verus! {

/// All instructions of the base CHIP-8 instruction set.
#[derive(Debug)]
pub enum OpCode {
    ClearScreen,
    Return,
    Jump(u16),
    Call(u16),
    SetVx { vx: u8, val: u8 },
    Add { vx: u8, val: u8 },
    SkipIfVxEq { vx: u8, val: u8 },
    SkipIfVxNeq { vx: u8, val: u8 },
    SkipIfVxEqVy { vx: u8, vy: u8 },
    SkipIfVxNeqVy { vx: u8, vy: u8 },
    SetVxToVy { vx: u8, vy: u8 },
    BinaryOr { vx: u8, vy: u8 },
    BinaryAnd { vx: u8, vy: u8 },
    LogicalXor { vx: u8, vy: u8 },
    AddVyToVx { vx: u8, vy: u8 },
    SubVxVyToVx { vx: u8, vy: u8 },
    SubVyVxToVx { vx: u8, vy: u8 },
    Shift { vx: u8, vy: u8, left_shift: bool },
    SetIndex(u16),
    JumpWithOffset { vx: u8, val: u16 },
    Random { vx: u8, val: u8 },
    Display { vx: u8, vy: u8, val: u8 },
    SkipIfKeyPressed { vx: u8 },
    SkipIfKeyNotPressed { vx: u8 },
    SetVxToDelayTimer { vx: u8 },
    SetDelayTimerToVx { vx: u8 },
    SetSoundTimerToVx { vx: u8 },
    AddToIndex { vx: u8 },
    GetKey { vx: u8 },
    FontCharacter { vx: u8 },
    BinaryCodedDecimalConversion { vx: u8 },
    StoreMemory { vx: u8 },
    LoadMemory { vx: u8 },
}

impl OpCode {
    /// Every operand is in range for the fields the decoder extracts it from:
    /// register selectors and sprite heights fit in a nibble, addresses in
    /// twelve bits.  Every instruction the decoder returns satisfies this.
    pub open spec fn wf(self) -> bool {
        match self {
            OpCode::ClearScreen => true,
            OpCode::Return => true,
            OpCode::Jump(addr) => addr <= 0xFFF,
            OpCode::Call(addr) => addr <= 0xFFF,
            OpCode::SetVx { vx, .. } => vx < 16,
            OpCode::Add { vx, .. } => vx < 16,
            OpCode::SkipIfVxEq { vx, .. } => vx < 16,
            OpCode::SkipIfVxNeq { vx, .. } => vx < 16,
            OpCode::SkipIfVxEqVy { vx, vy } => vx < 16 && vy < 16,
            OpCode::SkipIfVxNeqVy { vx, vy } => vx < 16 && vy < 16,
            OpCode::SetVxToVy { vx, vy } => vx < 16 && vy < 16,
            OpCode::BinaryOr { vx, vy } => vx < 16 && vy < 16,
            OpCode::BinaryAnd { vx, vy } => vx < 16 && vy < 16,
            OpCode::LogicalXor { vx, vy } => vx < 16 && vy < 16,
            OpCode::AddVyToVx { vx, vy } => vx < 16 && vy < 16,
            OpCode::SubVxVyToVx { vx, vy } => vx < 16 && vy < 16,
            OpCode::SubVyVxToVx { vx, vy } => vx < 16 && vy < 16,
            OpCode::Shift { vx, vy, .. } => vx < 16 && vy < 16,
            OpCode::SetIndex(addr) => addr <= 0xFFF,
            OpCode::JumpWithOffset { vx, val } => vx < 16 && val <= 0xFFF,
            OpCode::Random { vx, .. } => vx < 16,
            OpCode::Display { vx, vy, val } => vx < 16 && vy < 16 && val < 16,
            OpCode::SkipIfKeyPressed { vx } => vx < 16,
            OpCode::SkipIfKeyNotPressed { vx } => vx < 16,
            OpCode::SetVxToDelayTimer { vx } => vx < 16,
            OpCode::SetDelayTimerToVx { vx } => vx < 16,
            OpCode::SetSoundTimerToVx { vx } => vx < 16,
            OpCode::AddToIndex { vx } => vx < 16,
            OpCode::GetKey { vx } => vx < 16,
            OpCode::FontCharacter { vx } => vx < 16,
            OpCode::BinaryCodedDecimalConversion { vx } => vx < 16,
            OpCode::StoreMemory { vx } => vx < 16,
            OpCode::LoadMemory { vx } => vx < 16,
        }
    }
}

/// What decoding a two-byte instruction word yields, as a function of the two
/// bytes alone.  `None` is an explicit decode failure: the word belongs to no
/// recognized instruction shape.
pub open spec fn spec_decode_word(b0: u8, b1: u8) -> Option<OpCode> {
    let vx: u8 = b0 & 0xF;
    let vy: u8 = (b1 & 0xF0) >> 4;
    let nnn: u16 = ((vx as u16) * 256 + (b1 as u16)) as u16;
    let family: u8 = b0 >> 4;
    if family == 0 {
        if b0 == 0x00 && b1 == 0xE0 {
            Some(OpCode::ClearScreen)
        } else if b0 == 0x00 && b1 == 0xEE {
            Some(OpCode::Return)
        } else {
            None
        }
    } else if family == 1 {
        Some(OpCode::Jump(nnn))
    } else if family == 2 {
        Some(OpCode::Call(nnn))
    } else if family == 3 {
        Some(OpCode::SkipIfVxEq { vx, val: b1 })
    } else if family == 4 {
        Some(OpCode::SkipIfVxNeq { vx, val: b1 })
    } else if family == 5 {
        if b1 & 0xF == 0 {
            Some(OpCode::SkipIfVxEqVy { vx, vy })
        } else {
            None
        }
    } else if family == 6 {
        Some(OpCode::SetVx { vx, val: b1 })
    } else if family == 7 {
        Some(OpCode::Add { vx, val: b1 })
    } else if family == 8 {
        let sub: u8 = b1 & 0xF;
        if sub == 0 {
            Some(OpCode::SetVxToVy { vx, vy })
        } else if sub == 1 {
            Some(OpCode::BinaryOr { vx, vy })
        } else if sub == 2 {
            Some(OpCode::BinaryAnd { vx, vy })
        } else if sub == 3 {
            Some(OpCode::LogicalXor { vx, vy })
        } else if sub == 4 {
            Some(OpCode::AddVyToVx { vx, vy })
        } else if sub == 5 {
            Some(OpCode::SubVxVyToVx { vx, vy })
        } else if sub == 6 {
            Some(OpCode::Shift { vx, vy, left_shift: false })
        } else if sub == 7 {
            Some(OpCode::SubVyVxToVx { vx, vy })
        } else if sub == 0xE {
            Some(OpCode::Shift { vx, vy, left_shift: true })
        } else {
            None
        }
    } else if family == 9 {
        if b1 & 0xF == 0 {
            Some(OpCode::SkipIfVxNeqVy { vx, vy })
        } else {
            None
        }
    } else if family == 0xA {
        Some(OpCode::SetIndex(nnn))
    } else if family == 0xB {
        Some(OpCode::JumpWithOffset { vx, val: nnn })
    } else if family == 0xC {
        Some(OpCode::Random { vx, val: b1 })
    } else if family == 0xD {
        Some(OpCode::Display { vx, vy, val: b1 & 0xF })
    } else if family == 0xE {
        if b1 == 0x9E {
            Some(OpCode::SkipIfKeyPressed { vx })
        } else if b1 == 0xA1 {
            Some(OpCode::SkipIfKeyNotPressed { vx })
        } else {
            None
        }
    } else {
        // family == 0xF
        if b1 == 0x07 {
            Some(OpCode::SetVxToDelayTimer { vx })
        } else if b1 == 0x15 {
            Some(OpCode::SetDelayTimerToVx { vx })
        } else if b1 == 0x18 {
            Some(OpCode::SetSoundTimerToVx { vx })
        } else if b1 == 0x1E {
            Some(OpCode::AddToIndex { vx })
        } else if b1 == 0x0A {
            Some(OpCode::GetKey { vx })
        } else if b1 == 0x29 {
            Some(OpCode::FontCharacter { vx })
        } else if b1 == 0x33 {
            Some(OpCode::BinaryCodedDecimalConversion { vx })
        } else if b1 == 0x55 {
            Some(OpCode::StoreMemory { vx })
        } else if b1 == 0x65 {
            Some(OpCode::LoadMemory { vx })
        } else {
            None
        }
    }
}

/// What decoding a byte sequence yields: a failure when fewer than two bytes
/// are given, otherwise whatever the first two bytes decode to.
pub open spec fn spec_decode(bytes: Seq<u8>) -> Option<OpCode> {
    if bytes.len() < 2 {
        None
    } else {
        spec_decode_word(bytes[0], bytes[1])
    }
}

/// The nibble fields a decoder extracts from a byte are below sixteen.
proof fn lemma_nibble_bounds(b: u8)
    by (bit_vector)
    ensures
        b & 0xF < 16,
        (b & 0xF0) >> 4 < 16,
        b >> 4 < 16,
{
}

impl OpCode {
    /// Decodes the first two bytes of `bytes` into an instruction.  Returns
    /// `None` when fewer than two bytes are given or when the word matches no
    /// recognized instruction shape; decoding never fails in any other way.
    pub fn from_bytes(bytes: &[u8]) -> (r: Option<Self>)
        ensures
            r == spec_decode(bytes@),
            r matches Some(op) ==> op.wf(),
    {
        if bytes.len() < 2 {
            return None;
        }
        Self::from_word(bytes[0], bytes[1])
    }

    /// Decodes one two-byte instruction word.
    pub fn from_word(b0: u8, b1: u8) -> (r: Option<Self>)
        ensures
            r == spec_decode_word(b0, b1),
            r matches Some(op) ==> op.wf(),
    {
        proof {
            lemma_nibble_bounds(b0);
            lemma_nibble_bounds(b1);
        }
        let vx: u8 = b0 & 0xF;
        let vy: u8 = (b1 & 0xF0) >> 4;
        let nnn: u16 = (vx as u16) * 256 + (b1 as u16);
        match b0 >> 4 {
            0 => {
                if b0 == 0x00 && b1 == 0xE0 {
                    Some(Self::ClearScreen)
                } else if b0 == 0x00 && b1 == 0xEE {
                    Some(Self::Return)
                } else {
                    None
                }
            },
            1 => Some(Self::Jump(nnn)),
            2 => Some(Self::Call(nnn)),
            3 => Some(Self::SkipIfVxEq { vx, val: b1 }),
            4 => Some(Self::SkipIfVxNeq { vx, val: b1 }),
            5 => {
                if (b1 & 0xF) == 0 {
                    Some(Self::SkipIfVxEqVy { vx, vy })
                } else {
                    None
                }
            },
            6 => Some(Self::SetVx { vx, val: b1 }),
            7 => Some(Self::Add { vx, val: b1 }),
            8 => {
                match b1 & 0xF {
                    0 => Some(Self::SetVxToVy { vx, vy }),
                    1 => Some(Self::BinaryOr { vx, vy }),
                    2 => Some(Self::BinaryAnd { vx, vy }),
                    3 => Some(Self::LogicalXor { vx, vy }),
                    4 => Some(Self::AddVyToVx { vx, vy }),
                    5 => Some(Self::SubVxVyToVx { vx, vy }),
                    6 => Some(Self::Shift { vx, vy, left_shift: false }),
                    7 => Some(Self::SubVyVxToVx { vx, vy }),
                    0xE => Some(Self::Shift { vx, vy, left_shift: true }),
                    _ => None,
                }
            },
            9 => {
                if (b1 & 0xF) == 0 {
                    Some(Self::SkipIfVxNeqVy { vx, vy })
                } else {
                    None
                }
            },
            0xA => Some(Self::SetIndex(nnn)),
            0xB => Some(Self::JumpWithOffset { vx, val: nnn }),
            0xC => Some(Self::Random { vx, val: b1 }),
            0xD => Some(Self::Display { vx, vy, val: b1 & 0xF }),
            0xE => {
                match b1 {
                    0x9E => Some(Self::SkipIfKeyPressed { vx }),
                    0xA1 => Some(Self::SkipIfKeyNotPressed { vx }),
                    _ => None,
                }
            },
            0xF => {
                match b1 {
                    0x07 => Some(Self::SetVxToDelayTimer { vx }),
                    0x15 => Some(Self::SetDelayTimerToVx { vx }),
                    0x18 => Some(Self::SetSoundTimerToVx { vx }),
                    0x1E => Some(Self::AddToIndex { vx }),
                    0x0A => Some(Self::GetKey { vx }),
                    0x29 => Some(Self::FontCharacter { vx }),
                    0x33 => Some(Self::BinaryCodedDecimalConversion { vx }),
                    0x55 => Some(Self::StoreMemory { vx }),
                    0x65 => Some(Self::LoadMemory { vx }),
                    _ => None,
                }
            },
            _ => None,
        }
    }
}

} // verus!
