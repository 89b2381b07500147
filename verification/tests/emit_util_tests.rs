use mcc::assembler::assemble;
use mcc::emit::emit;
use mcc::emit::emit_bin_packed;
use mcc::emit::emit_bin_unpacked;
use mcc::emit::emit_hex;
use mcc::emit::from_bin_packed;
use mcc::emit::Format;
use mcc::nibble::u4;
use mcc::util::count_nonzero_pages;
use mcc::util::parse_hex4;
use mcc::util::parse_hex8;
use mcc::util::to_hex4;

fn sample_image() -> [u4; 256] {
    assemble(b"0x1 0x2 0x3").expect("assembly failed")
}

#[test]
fn hex_dump_is_one_digit_per_line() {
    let out = emit_hex(sample_image());
    assert_eq!(out.len(), 4 * 256);
    assert_eq!(&out[0..12], b"0x1\n0x2\n0x3\n");
    assert_eq!(&out[12..16], b"0x0\n");
    assert_eq!(&out[4 * 255..], b"0x0\n");
}

#[test]
fn unpacked_binary_is_one_nibble_per_byte() {
    let out = emit_bin_unpacked(sample_image());
    assert_eq!(out.len(), 256);
    assert_eq!(&out[0..4], &[1, 2, 3, 0]);
}

#[test]
fn packed_binary_is_two_nibbles_per_byte() {
    let out = emit_bin_packed(sample_image());
    assert_eq!(out.len(), 128);
    assert_eq!(out[0], 0x12);
    assert_eq!(out[1], 0x30);
}

#[test]
fn emit_dispatches_on_format_and_extension() {
    let image = sample_image();
    assert_eq!(emit(Format::Hex, None, image), emit_hex(image));
    assert_eq!(emit(Format::Bin, Some("hex"), image), emit_bin_packed(image));
    assert_eq!(emit(Format::Ubin, None, image), emit_bin_unpacked(image));
    assert_eq!(emit(Format::Auto, Some("hex"), image), emit_hex(image));
    assert_eq!(emit(Format::Auto, Some("bin"), image), emit_bin_packed(image));
    assert_eq!(emit(Format::Auto, Some("elf"), image), emit_bin_packed(image));
    assert_eq!(emit(Format::Auto, None, image), emit_bin_packed(image));
}

#[test]
fn parse_hex_digits() {
    assert_eq!(parse_hex4("a").map(|v| v.into_low()), Some(10));
    assert_eq!(parse_hex4("F").map(|v| v.into_low()), Some(15));
    assert_eq!(parse_hex4("7").map(|v| v.into_low()), Some(7));
    assert!(parse_hex4("g").is_none());
    assert!(parse_hex4("12").is_none());
    assert!(parse_hex4("").is_none());
    assert_eq!(parse_hex8("2a"), Some(0x2a));
    assert_eq!(parse_hex8("FF"), Some(0xFF));
    assert_eq!(parse_hex8("00"), Some(0));
    assert!(parse_hex8("f").is_none());
    assert!(parse_hex8("123").is_none());
    assert!(parse_hex8("+5").is_none());
}

#[test]
fn to_hex4_prints_prefix_and_digit() {
    assert_eq!(to_hex4(u4::from_low(0)), "0x0");
    assert_eq!(to_hex4(u4::from_low(10)), "0xa");
    assert_eq!(to_hex4(u4::from_low(15)), "0xf");
}

#[test]
fn count_pages_that_hold_only_zeros() {
    let zero = [u4::from_low(0); 256];
    assert_eq!(count_nonzero_pages(&zero), 16);
    let image = sample_image();
    assert_eq!(count_nonzero_pages(&image), 15);
    let mut full = [u4::from_low(0); 256];
    for i in 0..16 {
        full[16 * i] = u4::from_low(1);
    }
    assert_eq!(count_nonzero_pages(&full), 0);
}

#[test]
fn packed_binary_round_trips_through_the_loader() {
    let image = assemble(b".org 10\n0x1 0x2 0x3 0xf\n.org 80\nadd mul").expect("asm");
    let packed = emit_bin_packed(image);
    let reloaded = from_bin_packed(&packed);
    for i in 0..256 {
        assert_eq!(image[i].into_low(), reloaded[i].into_low());
    }
    let short = from_bin_packed(&[0xAB, 0x12]);
    assert_eq!(short[0].into_low(), 0xA);
    assert_eq!(short[1].into_low(), 0xB);
    assert_eq!(short[2].into_low(), 0x1);
    assert_eq!(short[3].into_low(), 0x2);
    assert_eq!(short[4].into_low(), 0);
}
