//! The instruction set: 16 opcodes mapped bijectively onto the 16 nibble
//! values, with mnemonic lookup for the assembler.

use vstd::prelude::*;
use vstd::string::StringSliceAdditionalSpecFns;
use crate::nibble::u4;

verus! {

/// One of the 16 opcodes. The opcode space exactly saturates the 4-bit
/// encoding, so decoding a nibble never fails.
#[derive(Clone, Copy, PartialEq, Eq, Structural, Debug)]
pub enum Instruction {
    Nop,
    Psi,
    Psd,
    Poi,
    Pod,
    Swp,
    Mdp,
    Di,
    Dd,
    Jmp,
    Jnz,
    Inc,
    Dec,
    Add,
    Sub,
    Mul,
}

/// The nibble value that encodes each opcode.
pub open spec fn spec_into_u4(i: Instruction) -> u8 {
    match i {
        Instruction::Nop => 0,
        Instruction::Psi => 1,
        Instruction::Psd => 2,
        Instruction::Poi => 3,
        Instruction::Pod => 4,
        Instruction::Swp => 5,
        Instruction::Mdp => 6,
        Instruction::Di => 7,
        Instruction::Dd => 8,
        Instruction::Jmp => 9,
        Instruction::Jnz => 10,
        Instruction::Inc => 11,
        Instruction::Dec => 12,
        Instruction::Add => 13,
        Instruction::Sub => 14,
        Instruction::Mul => 15,
    }
}

/// The opcode that each nibble value decodes to.
pub open spec fn spec_from_u4(v: u8) -> Instruction {
    if v == 0 {
        Instruction::Nop
    } else if v == 1 {
        Instruction::Psi
    } else if v == 2 {
        Instruction::Psd
    } else if v == 3 {
        Instruction::Poi
    } else if v == 4 {
        Instruction::Pod
    } else if v == 5 {
        Instruction::Swp
    } else if v == 6 {
        Instruction::Mdp
    } else if v == 7 {
        Instruction::Di
    } else if v == 8 {
        Instruction::Dd
    } else if v == 9 {
        Instruction::Jmp
    } else if v == 10 {
        Instruction::Jnz
    } else if v == 11 {
        Instruction::Inc
    } else if v == 12 {
        Instruction::Dec
    } else if v == 13 {
        Instruction::Add
    } else if v == 14 {
        Instruction::Sub
    } else {
        Instruction::Mul
    }
}

/// The byte sequence of a two-letter mnemonic.
pub open spec fn word2(a: char, b: char) -> Seq<u8> {
    seq![a as u8, b as u8]
}

/// The byte sequence of a three-letter mnemonic.
pub open spec fn word3(a: char, b: char, c: char) -> Seq<u8> {
    seq![a as u8, b as u8, c as u8]
}

/// The opcode named by a word of assembler source, if any. Mnemonics are
/// case-sensitive.
pub open spec fn opcode_of_word(w: Seq<u8>) -> Option<Instruction> {
    if w == word3('n', 'o', 'p') {
        Some(Instruction::Nop)
    } else if w == word3('p', 's', 'i') {
        Some(Instruction::Psi)
    } else if w == word3('p', 's', 'd') {
        Some(Instruction::Psd)
    } else if w == word3('p', 'o', 'i') {
        Some(Instruction::Poi)
    } else if w == word3('p', 'o', 'd') {
        Some(Instruction::Pod)
    } else if w == word3('s', 'w', 'p') {
        Some(Instruction::Swp)
    } else if w == word3('m', 'd', 'p') {
        Some(Instruction::Mdp)
    } else if w == word2('d', 'i') {
        Some(Instruction::Di)
    } else if w == word2('d', 'd') {
        Some(Instruction::Dd)
    } else if w == word3('j', 'm', 'p') {
        Some(Instruction::Jmp)
    } else if w == word3('j', 'n', 'z') {
        Some(Instruction::Jnz)
    } else if w == word3('i', 'n', 'c') {
        Some(Instruction::Inc)
    } else if w == word3('d', 'e', 'c') {
        Some(Instruction::Dec)
    } else if w == word3('a', 'd', 'd') {
        Some(Instruction::Add)
    } else if w == word3('s', 'u', 'b') {
        Some(Instruction::Sub)
    } else if w == word3('m', 'u', 'l') {
        Some(Instruction::Mul)
    } else {
        None
    }
}

/// True when a byte slice holds exactly the two given bytes.
fn eq2(w: &[u8], a: u8, b: u8) -> (r: bool)
    ensures
        r == (w@ =~= seq![a, b]),
{
    w.len() == 2 && w[0] == a && w[1] == b
}

/// True when a byte slice holds exactly the three given bytes.
fn eq3(w: &[u8], a: u8, b: u8, c: u8) -> (r: bool)
    ensures
        r == (w@ =~= seq![a, b, c]),
{
    w.len() == 3 && w[0] == a && w[1] == b && w[2] == c
}

impl Instruction {
    /// The opcode's 4-bit encoding.
    pub fn into_u4(self) -> (r: u4)
        ensures
            r.val() == spec_into_u4(self),
    {
        u4::from_low(
            match self {
                Instruction::Nop => 0,
                Instruction::Psi => 1,
                Instruction::Psd => 2,
                Instruction::Poi => 3,
                Instruction::Pod => 4,
                Instruction::Swp => 5,
                Instruction::Mdp => 6,
                Instruction::Di => 7,
                Instruction::Dd => 8,
                Instruction::Jmp => 9,
                Instruction::Jnz => 10,
                Instruction::Inc => 11,
                Instruction::Dec => 12,
                Instruction::Add => 13,
                Instruction::Sub => 14,
                Instruction::Mul => 15,
            },
        )
    }

    /// The opcode a nibble decodes to; total over all 16 nibble values.
    pub fn from_u4(val: u4) -> (r: Self)
        ensures
            r == spec_from_u4(val.val()),
    {
        match val.into_low() {
            0 => Instruction::Nop,
            1 => Instruction::Psi,
            2 => Instruction::Psd,
            3 => Instruction::Poi,
            4 => Instruction::Pod,
            5 => Instruction::Swp,
            6 => Instruction::Mdp,
            7 => Instruction::Di,
            8 => Instruction::Dd,
            9 => Instruction::Jmp,
            10 => Instruction::Jnz,
            11 => Instruction::Inc,
            12 => Instruction::Dec,
            13 => Instruction::Add,
            14 => Instruction::Sub,
            _ => Instruction::Mul,
        }
    }

    /// Mnemonic lookup over the bytes of a word of source text.
    pub fn try_from_bytes(w: &[u8]) -> (r: Option<Self>)
        ensures
            r == opcode_of_word(w@),
    {
        if eq3(w, 'n' as u8, 'o' as u8, 'p' as u8) {
            Some(Instruction::Nop)
        } else if eq3(w, 'p' as u8, 's' as u8, 'i' as u8) {
            Some(Instruction::Psi)
        } else if eq3(w, 'p' as u8, 's' as u8, 'd' as u8) {
            Some(Instruction::Psd)
        } else if eq3(w, 'p' as u8, 'o' as u8, 'i' as u8) {
            Some(Instruction::Poi)
        } else if eq3(w, 'p' as u8, 'o' as u8, 'd' as u8) {
            Some(Instruction::Pod)
        } else if eq3(w, 's' as u8, 'w' as u8, 'p' as u8) {
            Some(Instruction::Swp)
        } else if eq3(w, 'm' as u8, 'd' as u8, 'p' as u8) {
            Some(Instruction::Mdp)
        } else if eq2(w, 'd' as u8, 'i' as u8) {
            Some(Instruction::Di)
        } else if eq2(w, 'd' as u8, 'd' as u8) {
            Some(Instruction::Dd)
        } else if eq3(w, 'j' as u8, 'm' as u8, 'p' as u8) {
            Some(Instruction::Jmp)
        } else if eq3(w, 'j' as u8, 'n' as u8, 'z' as u8) {
            Some(Instruction::Jnz)
        } else if eq3(w, 'i' as u8, 'n' as u8, 'c' as u8) {
            Some(Instruction::Inc)
        } else if eq3(w, 'd' as u8, 'e' as u8, 'c' as u8) {
            Some(Instruction::Dec)
        } else if eq3(w, 'a' as u8, 'd' as u8, 'd' as u8) {
            Some(Instruction::Add)
        } else if eq3(w, 's' as u8, 'u' as u8, 'b' as u8) {
            Some(Instruction::Sub)
        } else if eq3(w, 'm' as u8, 'u' as u8, 'l' as u8) {
            Some(Instruction::Mul)
        } else {
            None
        }
    }

    /// Mnemonic lookup, case-sensitive, over a word of source text.
    pub fn try_from_str(string: &str) -> (r: Option<Self>)
        ensures
            r == opcode_of_word(string.spec_bytes()),
    {
        Self::try_from_bytes(string.as_bytes())
    }
}

/// The 4-bit encoding is a bijection: every opcode decodes back from its
/// encoding, and each of the 16 nibble values encodes a distinct opcode.
pub proof fn lemma_opcode_roundtrip()
    ensures
        forall|i: Instruction| #![auto] spec_from_u4(spec_into_u4(i)) == i,
        forall|v: u8| v < 16 ==> #[trigger] spec_into_u4(spec_from_u4(v)) == v,
{
}

} // verus!
