//! The instruction set: a closed union of the 35 operations a 16-bit opcode
//! word can decode to, each carrying its register indices, immediates or
//! 12-bit addresses.

use vstd::prelude::*;

verus! {

/// One decoded opcode. Register operands are 4-bit indices into the V
/// register file, immediates are the low byte of the word, and addresses are
/// the low 12 bits.
#[derive(Debug, Clone, Copy, PartialEq, Eq, Structural)]
pub enum Instruction {
    /// Jump to a machine routine: a documented no-op on this machine.
    SysJmp(u16),
    ClearScreen,
    Return,
    Jump(u16),
    Call(u16),
    /// Skip the next instruction if `V[x] == kk`; operands `(x, kk)`.
    SkipIfEqualImmidiate(u8, u8),
    /// Skip the next instruction if `V[x] != kk`; operands `(x, kk)`.
    SkipIfNotEqualImmidiate(u8, u8),
    /// Skip the next instruction if `V[x] == V[y]`; operands `(x, y)`.
    SkipIfEqualRegister(u8, u8),
    LoadImmidiate(u8, u8),
    AddImmidiate(u8, u8),
    LoadRegister(u8, u8),
    OrRegister(u8, u8),
    AndRegister(u8, u8),
    XorRegister(u8, u8),
    AddRegister(u8, u8),
    SubRegister(u8, u8),
    ShrRegister(u8, u8),
    SubnRegister(u8, u8),
    ShlRegister(u8, u8),
    /// Skip the next instruction if `V[x] != V[y]`; operands `(x, y)`.
    SkipIfNotEqualRegister(u8, u8),
    LoadI(u16),
    JumpV0(u16),
    Random(u8, u8),
    DisplaySprite(u8, u8, u8),
    SkipIfPressed(u8),
    SkipIfNotPressed(u8),
    LoadDelayTimer(u8),
    ReadKey(u8),
    SetDelayTimer(u8),
    SetSoundTimer(u8),
    AddI(u8),
    LoadSpriteLocationI(u8),
    StoreDecimalI(u8),
    RegDumpI(u8),
    RegLoadI(u8),
}

/// An instruction as the decoder produces it: every register operand and
/// sprite length is a nibble, every address fits in 12 bits. The execution
/// engine relies on this to index the register file without a bounds fault.
pub open spec fn wf_instruction(ins: Instruction) -> bool {
    match ins {
        Instruction::SysJmp(a) => a < 0x1000,
        Instruction::ClearScreen => true,
        Instruction::Return => true,
        Instruction::Jump(a) => a < 0x1000,
        Instruction::Call(a) => a < 0x1000,
        Instruction::SkipIfEqualImmidiate(x, _) => x < 16,
        Instruction::SkipIfNotEqualImmidiate(x, _) => x < 16,
        Instruction::SkipIfEqualRegister(x, y) => x < 16 && y < 16,
        Instruction::LoadImmidiate(x, _) => x < 16,
        Instruction::AddImmidiate(x, _) => x < 16,
        Instruction::LoadRegister(x, y) => x < 16 && y < 16,
        Instruction::OrRegister(x, y) => x < 16 && y < 16,
        Instruction::AndRegister(x, y) => x < 16 && y < 16,
        Instruction::XorRegister(x, y) => x < 16 && y < 16,
        Instruction::AddRegister(x, y) => x < 16 && y < 16,
        Instruction::SubRegister(x, y) => x < 16 && y < 16,
        Instruction::ShrRegister(x, y) => x < 16 && y < 16,
        Instruction::SubnRegister(x, y) => x < 16 && y < 16,
        Instruction::ShlRegister(x, y) => x < 16 && y < 16,
        Instruction::SkipIfNotEqualRegister(x, y) => x < 16 && y < 16,
        Instruction::LoadI(a) => a < 0x1000,
        Instruction::JumpV0(a) => a < 0x1000,
        Instruction::Random(x, _) => x < 16,
        Instruction::DisplaySprite(x, y, n) => x < 16 && y < 16 && n < 16,
        Instruction::SkipIfPressed(x) => x < 16,
        Instruction::SkipIfNotPressed(x) => x < 16,
        Instruction::LoadDelayTimer(x) => x < 16,
        Instruction::ReadKey(x) => x < 16,
        Instruction::SetDelayTimer(x) => x < 16,
        Instruction::SetSoundTimer(x) => x < 16,
        Instruction::AddI(x) => x < 16,
        Instruction::LoadSpriteLocationI(x) => x < 16,
        Instruction::StoreDecimalI(x) => x < 16,
        Instruction::RegDumpI(x) => x < 16,
        Instruction::RegLoadI(x) => x < 16,
    }
}

} // verus!
