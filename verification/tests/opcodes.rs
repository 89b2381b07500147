use mcc::isa::Instruction;
use mcc::nibble::u4;

const ALL: [Instruction; 16] = [
    Instruction::Nop,
    Instruction::Psi,
    Instruction::Psd,
    Instruction::Poi,
    Instruction::Pod,
    Instruction::Swp,
    Instruction::Mdp,
    Instruction::Di,
    Instruction::Dd,
    Instruction::Jmp,
    Instruction::Jnz,
    Instruction::Inc,
    Instruction::Dec,
    Instruction::Add,
    Instruction::Sub,
    Instruction::Mul,
];

#[test]
fn opcode_roundtrip_all_16() {
    for (i, op) in ALL.iter().enumerate() {
        let nib = op.into_u4();
        assert_eq!(nib.into_low(), i as u8);
        assert_eq!(Instruction::from_u4(nib), *op);
    }
}

#[test]
fn nibble_values_decode_distinct_opcodes() {
    for v in 0u8..16 {
        for w in 0u8..16 {
            if v != w {
                assert_ne!(
                    Instruction::from_u4(u4::from_low(v)),
                    Instruction::from_u4(u4::from_low(w))
                );
            }
        }
    }
}

#[test]
fn mnemonic_lookup() {
    let names = [
        "nop", "psi", "psd", "poi", "pod", "swp", "mdp", "di", "dd", "jmp", "jnz", "inc",
        "dec", "add", "sub", "mul",
    ];
    for (name, op) in names.iter().zip(ALL.iter()) {
        assert_eq!(Instruction::try_from_str(name), Some(*op));
    }
    assert_eq!(Instruction::try_from_str("NOP"), None);
    assert_eq!(Instruction::try_from_str("xor"), None);
    assert_eq!(Instruction::try_from_str(""), None);
    assert_eq!(Instruction::try_from_str("nopx"), None);
}

#[test]
fn nibble_arithmetic_wraps_modulo_16() {
    assert_eq!(u4::from_low(0xAB).into_low(), 0x0B);
    assert_eq!(u4::from_high(0xAB).into_low(), 0x0A);
    assert_eq!(u4::from_u32(300).into_low(), 12);
    assert_eq!(u4::from_low(5).into_high(), 0x50);
    assert_eq!(u4::from_low(9).into_u32(), 9);
    assert_eq!(u4::from_low(9).into_usize(), 9);
    assert_eq!(u4::from_low(15).overflowing_add(u4::from_low(1)).into_low(), 0);
    assert_eq!(u4::from_low(7).overflowing_add(u4::from_low(5)).into_low(), 12);
    assert_eq!(u4::from_low(0).overflowing_sub(u4::from_low(1)).into_low(), 15);
    assert_eq!(u4::from_low(5).overflowing_sub(u4::from_low(3)).into_low(), 2);
    assert_eq!(u4::from_low(5).overflowing_mul(u4::from_low(5)).into_low(), 9);
    assert_eq!(u4::from_low(3).overflowing_mul(u4::from_low(4)).into_low(), 12);
}
