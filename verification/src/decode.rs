//! The opcode decoder: a pure, total function from a 16-bit word to one of
//! the 35 instructions, or `None` for every bit pattern the table does not
//! assign.

use vstd::prelude::*;

use crate::instr::Instruction;
use crate::instr::wf_instruction;

verus! {

/// Top nibble of the word: the primary dispatch key.
pub open spec fn spec_nib0(w: u16) -> u8 {
    ((w >> 12) & 0xf) as u8
}

/// Second nibble: the first register operand in most families.
pub open spec fn spec_nib1(w: u16) -> u8 {
    ((w >> 8) & 0xf) as u8
}

/// Third nibble: the second register operand.
pub open spec fn spec_nib2(w: u16) -> u8 {
    ((w >> 4) & 0xf) as u8
}

/// Bottom nibble: the secondary dispatch key in families 5, 8, 9 and 0xd.
pub open spec fn spec_nib3(w: u16) -> u8 {
    (w & 0xf) as u8
}

/// Low byte of the word: an immediate, or the secondary dispatch key in
/// families 0, 0xe and 0xf.
pub open spec fn spec_low(w: u16) -> u8 {
    (w & 0xff) as u8
}

/// Low 12 bits of the word: an address operand.
pub open spec fn spec_nnn(w: u16) -> u16 {
    w & 0xfff
}

/// The opcode table: what `decode` returns for every one of the 65536
/// possible words. Bit patterns outside the 35 assigned shapes map to `None`.
pub open spec fn spec_decode(w: u16) -> Option<Instruction> {
    let nib0 = spec_nib0(w);
    let nib1 = spec_nib1(w);
    let nib2 = spec_nib2(w);
    let nib3 = spec_nib3(w);
    let low = spec_low(w);
    let nnn = spec_nnn(w);
    if nib0 == 0x0 {
        if nib1 == 0x0 {
            if low == 0xe0 {
                Some(Instruction::ClearScreen)
            } else if low == 0xee {
                Some(Instruction::Return)
            } else {
                None
            }
        } else {
            Some(Instruction::SysJmp(nnn))
        }
    } else if nib0 == 0x1 {
        Some(Instruction::Jump(nnn))
    } else if nib0 == 0x2 {
        Some(Instruction::Call(nnn))
    } else if nib0 == 0x3 {
        Some(Instruction::SkipIfEqualImmidiate(nib1, low))
    } else if nib0 == 0x4 {
        Some(Instruction::SkipIfNotEqualImmidiate(nib1, low))
    } else if nib0 == 0x5 {
        if nib3 == 0x0 {
            Some(Instruction::SkipIfEqualRegister(nib1, nib2))
        } else {
            None
        }
    } else if nib0 == 0x6 {
        Some(Instruction::LoadImmidiate(nib1, low))
    } else if nib0 == 0x7 {
        Some(Instruction::AddImmidiate(nib1, low))
    } else if nib0 == 0x8 {
        if nib3 == 0x0 {
            Some(Instruction::LoadRegister(nib1, nib2))
        } else if nib3 == 0x1 {
            Some(Instruction::OrRegister(nib1, nib2))
        } else if nib3 == 0x2 {
            Some(Instruction::AndRegister(nib1, nib2))
        } else if nib3 == 0x3 {
            Some(Instruction::XorRegister(nib1, nib2))
        } else if nib3 == 0x4 {
            Some(Instruction::AddRegister(nib1, nib2))
        } else if nib3 == 0x5 {
            Some(Instruction::SubRegister(nib1, nib2))
        } else if nib3 == 0x6 {
            Some(Instruction::ShrRegister(nib1, nib2))
        } else if nib3 == 0x7 {
            Some(Instruction::SubnRegister(nib1, nib2))
        } else if nib3 == 0xe {
            Some(Instruction::ShlRegister(nib1, nib2))
        } else {
            None
        }
    } else if nib0 == 0x9 {
        if nib3 == 0x0 {
            Some(Instruction::SkipIfNotEqualRegister(nib1, nib2))
        } else {
            None
        }
    } else if nib0 == 0xa {
        Some(Instruction::LoadI(nnn))
    } else if nib0 == 0xb {
        Some(Instruction::JumpV0(nnn))
    } else if nib0 == 0xc {
        Some(Instruction::Random(nib1, low))
    } else if nib0 == 0xd {
        Some(Instruction::DisplaySprite(nib1, nib2, nib3))
    } else if nib0 == 0xe {
        if low == 0x9e {
            Some(Instruction::SkipIfPressed(nib1))
        } else if low == 0xa1 {
            Some(Instruction::SkipIfNotPressed(nib1))
        } else {
            None
        }
    } else {
        // nib0 == 0xf
        if low == 0x07 {
            Some(Instruction::LoadDelayTimer(nib1))
        } else if low == 0x0a {
            Some(Instruction::ReadKey(nib1))
        } else if low == 0x15 {
            Some(Instruction::SetDelayTimer(nib1))
        } else if low == 0x18 {
            Some(Instruction::SetSoundTimer(nib1))
        } else if low == 0x1e {
            Some(Instruction::AddI(nib1))
        } else if low == 0x29 {
            Some(Instruction::LoadSpriteLocationI(nib1))
        } else if low == 0x33 {
            Some(Instruction::StoreDecimalI(nib1))
        } else if low == 0x55 {
            Some(Instruction::RegDumpI(nib1))
        } else if low == 0x65 {
            Some(Instruction::RegLoadI(nib1))
        } else {
            None
        }
    }
}

/// Whatever the table assigns to a word is well formed: register operands
/// are nibbles and addresses fit in 12 bits.
pub proof fn lemma_decode_wf(w: u16)
    ensures
        spec_decode(w) matches Some(ins) ==> wf_instruction(ins),
{
    assert((w >> 8) & 0xf < 16 && (w >> 4) & 0xf < 16 && w & 0xf < 16 && w & 0xfff < 0x1000)
        by (bit_vector);
}

/// Splits the word into its four nibbles, its low byte and its low 12 bits,
/// then dispatches on the top nibble, with a secondary dispatch on the bottom
/// nibble or the low byte where the family needs one.
pub fn decode(raw: u16) -> (r: Option<Instruction>)
    ensures
        r == spec_decode(raw),
{
    let nib0 = ((raw >> 12) & 0xf) as u8;
    let nib1 = ((raw >> 8) & 0xf) as u8;
    let nib2 = ((raw >> 4) & 0xf) as u8;
    let nib3 = (raw & 0xf) as u8;
    let low = (raw & 0xff) as u8;
    let nnn = raw & 0xfff;
    match nib0 {
        0x0 => {
            if nib1 == 0x0 {
                match low {
                    0xe0 => Some(Instruction::ClearScreen),
                    0xee => Some(Instruction::Return),
                    _ => None,
                }
            } else {
                Some(Instruction::SysJmp(nnn))
            }
        },
        0x1 => Some(Instruction::Jump(nnn)),
        0x2 => Some(Instruction::Call(nnn)),
        0x3 => Some(Instruction::SkipIfEqualImmidiate(nib1, low)),
        0x4 => Some(Instruction::SkipIfNotEqualImmidiate(nib1, low)),
        0x5 => match nib3 {
            0x0 => Some(Instruction::SkipIfEqualRegister(nib1, nib2)),
            _ => None,
        },
        0x6 => Some(Instruction::LoadImmidiate(nib1, low)),
        0x7 => Some(Instruction::AddImmidiate(nib1, low)),
        0x8 => match nib3 {
            0x0 => Some(Instruction::LoadRegister(nib1, nib2)),
            0x1 => Some(Instruction::OrRegister(nib1, nib2)),
            0x2 => Some(Instruction::AndRegister(nib1, nib2)),
            0x3 => Some(Instruction::XorRegister(nib1, nib2)),
            0x4 => Some(Instruction::AddRegister(nib1, nib2)),
            0x5 => Some(Instruction::SubRegister(nib1, nib2)),
            0x6 => Some(Instruction::ShrRegister(nib1, nib2)),
            0x7 => Some(Instruction::SubnRegister(nib1, nib2)),
            0xe => Some(Instruction::ShlRegister(nib1, nib2)),
            _ => None,
        },
        0x9 => match nib3 {
            0x0 => Some(Instruction::SkipIfNotEqualRegister(nib1, nib2)),
            _ => None,
        },
        0xa => Some(Instruction::LoadI(nnn)),
        0xb => Some(Instruction::JumpV0(nnn)),
        0xc => Some(Instruction::Random(nib1, low)),
        0xd => Some(Instruction::DisplaySprite(nib1, nib2, nib3)),
        0xe => match low {
            0x9e => Some(Instruction::SkipIfPressed(nib1)),
            0xa1 => Some(Instruction::SkipIfNotPressed(nib1)),
            _ => None,
        },
        0xf => match low {
            0x07 => Some(Instruction::LoadDelayTimer(nib1)),
            0x0a => Some(Instruction::ReadKey(nib1)),
            0x15 => Some(Instruction::SetDelayTimer(nib1)),
            0x18 => Some(Instruction::SetSoundTimer(nib1)),
            0x1e => Some(Instruction::AddI(nib1)),
            0x29 => Some(Instruction::LoadSpriteLocationI(nib1)),
            0x33 => Some(Instruction::StoreDecimalI(nib1)),
            0x55 => Some(Instruction::RegDumpI(nib1)),
            0x65 => Some(Instruction::RegLoadI(nib1)),
            _ => None,
        },
        _ => {
            proof {
                assert((raw >> 12) & 0xf < 16) by (bit_vector);
            }
            None
        },
    }
}

} // verus!
