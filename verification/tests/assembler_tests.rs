use mcc::assembler::assemble;
use mcc::assembler::AsmMessage;
use mcc::assembler::Stage;
use mcc::codegen::gencode;
use mcc::codegen::Org;
use mcc::emit::emit_bin_packed;
use mcc::emit::emit_bin_unpacked;
use mcc::isa::Instruction;
use mcc::lexing::lex;
use mcc::lexing::LexToken;

fn image_nibbles(src: &str) -> Vec<u8> {
    let image = assemble(src.as_bytes()).expect("assembly failed");
    emit_bin_unpacked(image)
}

#[test]
fn lex_classifies_every_token_kind() {
    let src = "start: nop ; trailing comment\n.org 2a # comment\n&&wide &narrow 0xf\n";
    let toks = lex(src.as_bytes()).expect("lex failed");
    assert_eq!(toks.len(), 6);
    assert_eq!(toks[0].linenum, 1);
    assert!(matches!(&toks[0].token, LexToken::LabelDef(n) if n == b"start"));
    assert!(matches!(&toks[1].token, LexToken::Instruction(Instruction::Nop)));
    assert_eq!(toks[2].linenum, 2);
    assert!(matches!(&toks[2].token, LexToken::Org(0x2a)));
    assert_eq!(toks[3].linenum, 3);
    assert!(matches!(&toks[3].token, LexToken::LabelRef { name, wide: true } if name == b"wide"));
    assert!(
        matches!(&toks[4].token, LexToken::LabelRef { name, wide: false } if name == b"narrow")
    );
    assert!(matches!(&toks[5].token, LexToken::HexLiteral(v) if v.into_low() == 0xf));
}

#[test]
fn lex_rejects_bad_org_address() {
    let err = lex(b".org zz\n").unwrap_err();
    assert!(matches!(err.stage, Stage::Lex));
    assert_eq!(err.linenum, Some(1));
    assert_eq!(err.code_snip, b"zz".to_vec());
    assert!(matches!(err.message, AsmMessage::BadHexDigit));
}

#[test]
fn lex_rejects_bad_nibble_literal() {
    let err = lex(b"nop\n0x12\n").unwrap_err();
    assert_eq!(err.linenum, Some(2));
    assert_eq!(err.code_snip, b"0x12".to_vec());
    assert!(matches!(err.message, AsmMessage::BadHexDigit));
}

#[test]
fn lex_rejects_unknown_instruction() {
    let err = lex(b"nop\nbogus\n").unwrap_err();
    assert!(matches!(err.stage, Stage::Lex));
    assert_eq!(err.linenum, Some(2));
    assert_eq!(err.code_snip, b"bogus".to_vec());
    assert!(matches!(err.message, AsmMessage::InvalidInstruction));
}

#[test]
fn lex_accepts_uppercase_hex_digits() {
    let toks = lex(b"0xA\n.org F0\n").expect("lex failed");
    assert!(matches!(&toks[0].token, LexToken::HexLiteral(v) if v.into_low() == 0xA));
    assert!(matches!(&toks[1].token, LexToken::Org(0xF0)));
}

#[test]
fn label_forward_reference_resolves_to_definition_address() {
    // The reference resolves to the nop's address 0, not to address 1.
    let nibs = image_nibbles("jmp_target: nop \n &jmp_target");
    assert_eq!(nibs[0], 0x0); // nop
    assert_eq!(nibs[1], 0x0); // low nibble of address 0
    // A definition at a nonzero address, referenced forward and backward.
    let nibs = image_nibbles("nop\ntarget: psi\n&target\n&target");
    assert_eq!(nibs[1], 0x1); // psi at the label's address
    assert_eq!(nibs[2], 0x1); // patched with address 1
    assert_eq!(nibs[3], 0x1);
}

#[test]
fn wide_reference_patches_high_then_low() {
    let nibs = image_nibbles(".org 2a\ntarget: nop\n.org 00\n&&target");
    assert_eq!(nibs[0], 0x2); // high nibble of 0x2a at the reference address
    assert_eq!(nibs[1], 0xa); // low nibble right after
}

#[test]
fn overlapping_origins_are_rejected() {
    // 0x11 falls inside [0x10, 0x12).
    let err = assemble(b".org 10 \n 0x1 0x2 \n.org 11 \n 0x3").unwrap_err();
    assert!(matches!(err.stage, Stage::CodeGen));
    assert!(matches!(
        err.message,
        AsmMessage::Overlapping { other_start: 0x10, other_size: 2, .. }
    ));
}

#[test]
fn touching_origins_are_accepted() {
    // [0x10, 0x12) and [0x12, 0x13) share no address.
    let nibs = image_nibbles(".org 10\n0x1 0x2\n.org 12\n0x3");
    assert_eq!(&nibs[0x10..0x13], &[1, 2, 3]);
}

#[test]
fn reopened_origin_is_no_conflict() {
    let nibs = image_nibbles(".org 10\n0x1\n.org 20\n0x2\n.org 10\n0x3");
    assert_eq!(nibs[0x10], 3);
    assert_eq!(nibs[0x20], 2);
}

#[test]
fn origin_overflow_is_rejected() {
    let err = assemble(b".org ff\n0x1 0x2").unwrap_err();
    assert!(matches!(err.stage, Stage::CodeGen));
    assert!(matches!(err.message, AsmMessage::OriginOverflow));
}

#[test]
fn undefined_label_is_rejected() {
    let err = assemble(b"nop\n&missing\n").unwrap_err();
    assert!(matches!(err.stage, Stage::CodeGen));
    assert_eq!(err.linenum, Some(2));
    assert_eq!(err.code_snip, b"missing".to_vec());
    assert!(matches!(err.message, AsmMessage::LabelNotDefined));
}

#[test]
fn last_label_definition_wins() {
    let nibs = image_nibbles("t: nop\n.org 05\nt: nop\n.org 10\n&t");
    assert_eq!(nibs[0x10], 0x5);
}

#[test]
fn hex_round_trip_packs_high_nibble_first() {
    // Nibbles [0x1, 0x2, 0x3] at origin 0 pack into 0x12, then 0x30.
    let image = assemble(b"0x1 0x2 0x3").expect("assembly failed");
    let bytes = emit_bin_packed(image);
    assert_eq!(bytes.len(), 128);
    assert_eq!(bytes[0], 0x12);
    assert_eq!(bytes[1], 0x30);
}

#[test]
fn instructions_assemble_to_their_encodings() {
    let nibs = image_nibbles("nop psi psd poi pod swp mdp di dd jmp jnz inc dec add sub mul");
    let expect: Vec<u8> = (0u8..16).collect();
    assert_eq!(&nibs[0..16], &expect[..]);
}

#[test]
fn empty_source_assembles_to_zero_image() {
    let nibs = image_nibbles("");
    assert_eq!(nibs, vec![0u8; 256]);
}

#[test]
fn gencode_of_empty_stream_is_zero_image() {
    let image = gencode(Vec::new()).expect("gencode failed");
    let nibs = emit_bin_unpacked(image);
    assert_eq!(nibs, vec![0u8; 256]);
}

#[test]
fn org_end_addr_and_overlap() {
    let a = Org { start_addr: 0x10, size: 2, linenum: Some(1) };
    let b = Org { start_addr: 0x11, size: 1, linenum: Some(3) };
    let c = Org { start_addr: 0x12, size: 4, linenum: None };
    assert_eq!(a.end_addr(), 0x12);
    assert!(a.overlap(b));
    assert!(b.overlap(a));
    assert!(!a.overlap(c));
    let empty = Org { start_addr: 0x11, size: 0, linenum: None };
    assert!(!a.overlap(empty));
}

#[test]
fn error_messages_read_as_expected() {
    let err = lex(b"0xzz\n").unwrap_err();
    assert_eq!(err.message.text(), "Failed to parse hex digit");
    let err = lex(b"what\n").unwrap_err();
    assert_eq!(err.message.text(), "Invalid instruction");
    let err = assemble(b"&nowhere\n").unwrap_err();
    assert_eq!(err.message.text(), "label not defined");
    let err = assemble(b".org 00\n0x1 0x2\n.org 01\n0x3\n").unwrap_err();
    assert_eq!(err.message.text(), "is overlapping another origin");
    let err = assemble(b".org fe\n0x1 0x2 0x3\n").unwrap_err();
    assert_eq!(err.message.text(), "origin overflow");
}
