//! Emitters for the assembled 256-nibble image: human-readable hex (one
//! `0x` digit per line), packed binary (two nibbles per byte, high nibble
//! first), and unpacked binary (one nibble per byte).

use vstd::prelude::*;
use vstd::array::array_fill_for_copy_types;
use vstd::string::StringSliceAdditionalSpecFns;
use crate::emulator::seq_vals;
use crate::emulator::wf_memv;
use crate::nibble::u4;
use crate::util::hex_byte;
use crate::util::hex_byte_of;

verus! {

/// An output format; `Auto` picks by the output file's extension.
#[derive(Clone, Copy, PartialEq, Eq, Structural, Debug)]
pub enum Format {
    Auto,
    Hex,
    Bin,
    Ubin,
}

/// The hex text of an image: for each nibble a line `0x` + digit + newline.
pub open spec fn hex_dump(m: Seq<u8>) -> Seq<u8> {
    Seq::new(
        4 * m.len(),
        |j: int|
            if j % 4 == 0 {
                48u8
            } else if j % 4 == 1 {
                120u8
            } else if j % 4 == 2 {
                hex_byte_of(m[j / 4])
            } else {
                10u8
            },
    )
}

/// The packed binary of an image: each byte holds two nibbles, the earlier
/// one in the high half.
pub open spec fn pack_spec(m: Seq<u8>) -> Seq<u8>
    recommends
        m.len() % 2 == 0,
{
    Seq::new(m.len() / 2, |k: int| (m[2 * k] * 16 + m[2 * k + 1]) as u8)
}

/// Emit the image as text: one `0x`-prefixed hex digit per line.
pub fn emit_hex(data: [u4; 256]) -> (r: Vec<u8>)
    ensures
        r@ == hex_dump(seq_vals(data@)),
{
    let ghost m = seq_vals(data@);
    let mut output: Vec<u8> = Vec::new();
    let mut i: usize = 0;
    proof {
        assert(output@ =~= Seq::new(4 * 0, |j: int| 0u8));
    }
    while i < 256
        invariant
            i <= 256,
            m == seq_vals(data@),
            output@ == hex_dump(m).take(4 * i),
        decreases 256 - i,
    {
        let nib = data[i];
        output.push(48);
        output.push(120);
        output.push(hex_byte(nib));
        output.push(10);
        proof {
            assert(m[i as int] == data@[i as int].val());
            assert(output@ =~= hex_dump(m).take(4 * (i + 1)));
        }
        i += 1;
    }
    proof {
        assert(hex_dump(m).take(1024int) =~= hex_dump(m));
    }
    output
}

/// Emit the image as unpacked binary: one nibble per byte, in the low half.
pub fn emit_bin_unpacked(data: [u4; 256]) -> (r: Vec<u8>)
    ensures
        r@ == seq_vals(data@),
{
    let mut output: Vec<u8> = Vec::new();
    let mut i: usize = 0;
    while i < 256
        invariant
            i <= 256,
            output@ == seq_vals(data@).take(i as int),
        decreases 256 - i,
    {
        output.push(data[i].into_low());
        proof {
            assert(output@ =~= seq_vals(data@).take(i + 1));
        }
        i += 1;
    }
    proof {
        assert(seq_vals(data@).take(256int) =~= seq_vals(data@));
    }
    output
}

/// Emit the image as packed binary: two nibbles per byte, the earlier one
/// in the high half.
pub fn emit_bin_packed(data: [u4; 256]) -> (r: Vec<u8>)
    ensures
        r@ == pack_spec(seq_vals(data@)),
{
    let ghost m = seq_vals(data@);
    let mut output: Vec<u8> = Vec::new();
    let mut k: usize = 0;
    while k < 128
        invariant
            k <= 128,
            m == seq_vals(data@),
            output@ == pack_spec(m).take(k as int),
        decreases 128 - k,
    {
        let hi = data[2 * k].into_high();
        let lo = data[2 * k + 1].into_low();
        output.push(hi + lo);
        proof {
            assert(m[2 * k as int] == data@[2 * k as int].val());
            assert(m[2 * k as int + 1] == data@[2 * k as int + 1].val());
            assert(output@ =~= pack_spec(m).take(k + 1));
        }
        k += 1;
    }
    proof {
        assert(pack_spec(m).take(128int) =~= pack_spec(m));
    }
    output
}

/// The format `Auto` resolves to for an output extension: `hex` means hex
/// text, anything else — `bin`, another extension, or none — means packed
/// binary.
pub open spec fn resolve_format(f: Format, ext: Option<Seq<u8>>) -> Format {
    match f {
        Format::Auto => match ext {
            Some(e) => if e == seq!['h' as u8, 'e' as u8, 'x' as u8] {
                Format::Hex
            } else {
                Format::Bin
            },
            None => Format::Bin,
        },
        other => other,
    }
}

/// What each resolved format emits for an image.
pub open spec fn emit_spec(f: Format, m: Seq<u8>) -> Seq<u8>
    recommends
        f != Format::Auto,
{
    match f {
        Format::Hex => hex_dump(m),
        Format::Ubin => m,
        _ => pack_spec(m),
    }
}

/// True when a string is exactly the three given bytes.
fn str_is3(e: &str, a: u8, b: u8, c: u8) -> (r: bool)
    ensures
        r == (e.spec_bytes() =~= seq![a, b, c]),
{
    let bytes = e.as_bytes();
    bytes.len() == 3 && bytes[0] == a && bytes[1] == b && bytes[2] == c
}

/// Emit the image in the chosen format; `Auto` picks by the output file's
/// extension.
pub fn emit(format: Format, file_ext: Option<&str>, code: [u4; 256]) -> (r: Vec<u8>)
    ensures
        r@ == emit_spec(
            resolve_format(
                format,
                match file_ext {
                    Some(e) => Some(e.spec_bytes()),
                    None => None,
                },
            ),
            seq_vals(code@),
        ),
{
    match format {
        Format::Hex => emit_hex(code),
        Format::Bin => emit_bin_packed(code),
        Format::Ubin => emit_bin_unpacked(code),
        Format::Auto => {
            let hex = match file_ext {
                Some(e) => str_is3(e, 104, 101, 120),
                None => false,
            };
            if hex {
                emit_hex(code)
            } else {
                emit_bin_packed(code)
            }
        },
    }
}

/// The image a packed binary loads to: each byte unpacks to its high
/// nibble then its low nibble; the rest of the image stays zero.
pub open spec fn unpack_spec(data: Seq<u8>) -> Seq<u8>
    recommends
        2 * data.len() <= 256,
{
    Seq::new(
        256,
        |i: int|
            if i / 2 < data.len() {
                if i % 2 == 0 {
                    data[i / 2] / 16
                } else {
                    data[i / 2] % 16
                }
            } else {
                0u8
            },
    )
}

/// Load packed binary into a 256-nibble memory image: the inverse of the
/// packed emitter, high nibble first.
pub fn from_bin_packed(data: &[u8]) -> (r: [u4; 256])
    requires
        data@.len() <= 128,
    ensures
        seq_vals(r@) == unpack_spec(data@),
{
    let mut out: [u4; 256] = array_fill_for_copy_types(u4::from_low(0));
    let n = data.len();
    let mut i: usize = 0;
    proof {
        assert(seq_vals(out@) =~= unpack_spec(data@.take(0)));
    }
    while i < n
        invariant
            n == data@.len() <= 128,
            i <= n,
            out@.len() == 256,
            seq_vals(out@) == unpack_spec(data@.take(i as int)),
        decreases n - i,
    {
        let byte = data[i];
        let ghost prev = seq_vals(out@);
        out[2 * i] = u4::from_high(byte);
        out[2 * i + 1] = u4::from_low(byte);
        proof {
            assert(seq_vals(out@) =~= prev.update(2 * i as int, byte / 16).update(
                2 * i as int + 1,
                byte % 16,
            ));
            assert(seq_vals(out@) =~= unpack_spec(data@.take(i + 1)));
        }
        i += 1;
    }
    proof {
        assert(data@.take(n as int) =~= data@);
    }
    out
}

/// The packed format is lossless: unpacking what the packed emitter
/// produced restores every nibble of a well-formed image.
pub proof fn lemma_pack_unpack(m: Seq<u8>)
    requires
        wf_memv(m),
    ensures
        unpack_spec(pack_spec(m)) == m,
{
    assert forall|i: int| 0 <= i < 256 implies unpack_spec(pack_spec(m))[i] == m[i] by {
        let a = m[2 * (i / 2)];
        let b = m[2 * (i / 2) + 1];
        assert((a * 16 + b) / 16 == a && (a * 16 + b) % 16 == b) by (nonlinear_arith)
            requires
                a < 16 && b < 16,
        ;
    }
    assert(unpack_spec(pack_spec(m)) =~= m);
}

} // verus!
