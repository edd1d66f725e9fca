use chip8_core::decode::decode;
use chip8_core::instr::Instruction;

#[test]
fn decoding_works() {
    assert_eq!(decode(0x00e0), Some(Instruction::ClearScreen));

    assert_eq!(decode(0x00ee), Some(Instruction::Return));

    assert_eq!(decode(0x000e), Option::None);

    assert_eq!(decode(0x1345), Some(Instruction::Jump(0x345)));
    assert_eq!(decode(0x1432), Some(Instruction::Jump(0x432)));

    assert_eq!(decode(0x2543), Some(Instruction::Call(0x543)));
    assert_eq!(decode(0x2123), Some(Instruction::Call(0x123)));

    assert_eq!(decode(0x3256), Some(Instruction::SkipIfEqualImmidiate(0x2, 0x56)));
    assert_eq!(decode(0x3333), Some(Instruction::SkipIfEqualImmidiate(0x3, 0x33)));

    assert_eq!(decode(0x4987), Some(Instruction::SkipIfNotEqualImmidiate(0x9, 0x87)));
    assert_eq!(decode(0x4312), Some(Instruction::SkipIfNotEqualImmidiate(0x3, 0x12)));

    assert_eq!(decode(0x5120), Some(Instruction::SkipIfEqualRegister(0x1, 0x2)));
    assert_eq!(decode(0x5320), Some(Instruction::SkipIfEqualRegister(0x3, 0x2)));
    assert_eq!(decode(0x5121), Option::None);

    assert_eq!(decode(0x6123), Some(Instruction::LoadImmidiate(0x1, 0x23)));
    assert_eq!(decode(0x6ff3), Some(Instruction::LoadImmidiate(0xf, 0xf3)));

    assert_eq!(decode(0x7123), Some(Instruction::AddImmidiate(0x1, 0x23)));
    assert_eq!(decode(0x7ff3), Some(Instruction::AddImmidiate(0xf, 0xf3)));

    assert_eq!(decode(0x8120), Some(Instruction::LoadRegister(0x1, 0x2)));
    assert_eq!(decode(0x8830), Some(Instruction::LoadRegister(0x8, 0x3)));

    assert_eq!(decode(0x8121), Some(Instruction::OrRegister(0x1, 0x2)));
    assert_eq!(decode(0x8221), Some(Instruction::OrRegister(0x2, 0x2)));

    assert_eq!(decode(0x8122), Some(Instruction::AndRegister(0x1, 0x2)));
    assert_eq!(decode(0x8ff2), Some(Instruction::AndRegister(0xf, 0xf)));

    assert_eq!(decode(0x8123), Some(Instruction::XorRegister(0x1, 0x2)));
    assert_eq!(decode(0x8163), Some(Instruction::XorRegister(0x1, 0x6)));

    assert_eq!(decode(0x8124), Some(Instruction::AddRegister(0x1, 0x2)));
    assert_eq!(decode(0x8ed4), Some(Instruction::AddRegister(0xe, 0xd)));

    assert_eq!(decode(0x8125), Some(Instruction::SubRegister(0x1, 0x2)));
    assert_eq!(decode(0x8aa5), Some(Instruction::SubRegister(0xa, 0xa)));

    assert_eq!(decode(0x8126), Some(Instruction::ShrRegister(0x1, 0x2)));
    assert_eq!(decode(0x8676), Some(Instruction::ShrRegister(0x6, 0x7)));

    assert_eq!(decode(0x8127), Some(Instruction::SubnRegister(0x1, 0x2)));
    assert_eq!(decode(0x8bb7), Some(Instruction::SubnRegister(0xb, 0xb)));

    assert_eq!(decode(0x812e), Some(Instruction::ShlRegister(0x1, 0x2)));
    assert_eq!(decode(0x8eee), Some(Instruction::ShlRegister(0xe, 0xe)));

    assert_eq!(decode(0x8aa9), Option::None);
    assert_eq!(decode(0x8aaa), Option::None);
    assert_eq!(decode(0x8aab), Option::None);
    assert_eq!(decode(0x8aac), Option::None);
    assert_eq!(decode(0x8aad), Option::None);
    assert_eq!(decode(0x8aaf), Option::None);

    assert_eq!(decode(0x9ab0), Some(Instruction::SkipIfNotEqualRegister(0xa, 0xb)));
    assert_eq!(decode(0x94d0), Some(Instruction::SkipIfNotEqualRegister(0x4, 0xd)));
    assert_eq!(decode(0x9ab1), Option::None);

    assert_eq!(decode(0xaaaa), Some(Instruction::LoadI(0xaaa)));
    assert_eq!(decode(0xa123), Some(Instruction::LoadI(0x123)));

    assert_eq!(decode(0xbaaa), Some(Instruction::JumpV0(0xaaa)));
    assert_eq!(decode(0xbabe), Some(Instruction::JumpV0(0xabe)));

    assert_eq!(decode(0xc123), Some(Instruction::Random(0x1, 0x23)));
    assert_eq!(decode(0xcafe), Some(Instruction::Random(0xa, 0xfe)));

    assert_eq!(decode(0xd123), Some(Instruction::DisplaySprite(0x1, 0x2, 0x3)));
    assert_eq!(decode(0xdead), Some(Instruction::DisplaySprite(0xe, 0xa, 0xd)));

    assert_eq!(decode(0xe19e), Some(Instruction::SkipIfPressed(0x1)));
    assert_eq!(decode(0xe39e), Some(Instruction::SkipIfPressed(0x3)));

    assert_eq!(decode(0xe1a1), Some(Instruction::SkipIfNotPressed(0x1)));
    assert_eq!(decode(0xe2a1), Some(Instruction::SkipIfNotPressed(0x2)));
    assert_eq!(decode(0xe1ab), Option::None);

    assert_eq!(decode(0xf107), Some(Instruction::LoadDelayTimer(0x1)));
    assert_eq!(decode(0xff07), Some(Instruction::LoadDelayTimer(0xf)));

    assert_eq!(decode(0xf10a), Some(Instruction::ReadKey(0x1)));
    assert_eq!(decode(0xf30a), Some(Instruction::ReadKey(0x3)));

    assert_eq!(decode(0xf115), Some(Instruction::SetDelayTimer(0x1)));
    assert_eq!(decode(0xfa15), Some(Instruction::SetDelayTimer(0xa)));

    assert_eq!(decode(0xf118), Some(Instruction::SetSoundTimer(0x1)));
    assert_eq!(decode(0xfd18), Some(Instruction::SetSoundTimer(0xd)));

    assert_eq!(decode(0xf11e), Some(Instruction::AddI(0x1)));
    assert_eq!(decode(0xf71e), Some(Instruction::AddI(0x7)));

    assert_eq!(decode(0xf129), Some(Instruction::LoadSpriteLocationI(0x1)));
    assert_eq!(decode(0xfc29), Some(Instruction::LoadSpriteLocationI(0xc)));

    assert_eq!(decode(0xf133), Some(Instruction::StoreDecimalI(0x1)));
    assert_eq!(decode(0xf633), Some(Instruction::StoreDecimalI(0x6)));

    assert_eq!(decode(0xf155), Some(Instruction::RegDumpI(0x1)));
    assert_eq!(decode(0xf955), Some(Instruction::RegDumpI(0x9)));

    assert_eq!(decode(0xf165), Some(Instruction::RegLoadI(0x1)));
    assert_eq!(decode(0xff65), Some(Instruction::RegLoadI(0xf)));

    assert_eq!(decode(0xff11), Option::None);
    assert_eq!(decode(0xff19), Option::None);
    assert_eq!(decode(0xff31), Option::None);
    assert_eq!(decode(0xffff), Option::None);
    assert_eq!(decode(0xff67), Option::None);
}

#[test]
fn decode_sysjmp_and_boundaries() {
    assert_eq!(decode(0x0123), Some(Instruction::SysJmp(0x123)));
    assert_eq!(decode(0x0fff), Some(Instruction::SysJmp(0xfff)));
    assert_eq!(decode(0x00e1), Option::None);
    assert_eq!(decode(0x0000), Option::None);
    assert_eq!(decode(0x8aa8), Option::None);
    assert_eq!(decode(0xe19f), Option::None);
    assert_eq!(decode(0xf000), Option::None);
}
