//! Names and text derived from a patch's metadata.

use vstd::prelude::*;
use vstd::string::StringExecFns;
use crate::scan::PatchInfo;

verus! {

/// The hexadecimal digit for `d`, where `d` is below sixteen; the letters
/// are capitals if `upper` is set.
pub open spec fn hex_digit(d: int, upper: bool) -> char {
    if upper {
        seq!['0', '1', '2', '3', '4', '5', '6', '7', '8', '9', 'A', 'B', 'C', 'D', 'E', 'F'][d]
    } else {
        seq!['0', '1', '2', '3', '4', '5', '6', '7', '8', '9', 'a', 'b', 'c', 'd', 'e', 'f'][d]
    }
}

/// `n` in hexadecimal, without prefix or leading zeros.
pub open spec fn hex_text(n: nat, upper: bool) -> Seq<char>
    decreases n,
{
    if n < 16 {
        seq![hex_digit(n as int, upper)]
    } else {
        hex_text(n / 16, upper).push(hex_digit((n % 16) as int, upper))
    }
}

/// `n` in decimal, without leading zeros.
pub open spec fn decimal_text(n: nat) -> Seq<char>
    decreases n,
{
    if n < 10 {
        seq![hex_digit(n as int, false)]
    } else {
        decimal_text(n / 10).push(hex_digit((n % 10) as int, false))
    }
}

/// `count` zeros.
pub open spec fn zeros(count: nat) -> Seq<char> {
    Seq::new(count, |i: int| '0')
}

/// `n` in capital hexadecimal behind `0x`, with zeros in front of the
/// digits until there are at least `digits` of them.
pub open spec fn padded_hex(n: nat, digits: nat) -> Seq<char> {
    let text = hex_text(n, true);
    let fill: nat = if text.len() < digits {
        (digits - text.len()) as nat
    } else {
        0
    };
    seq!['0', 'x'] + zeros(fill) + text
}

/// The file name for the payload of the patch with this level:
/// `mc_patch_0x`, the level in lower-case hexadecimal, `.bin`.
pub open spec fn file_name_of(level: u32) -> Seq<char> {
    seq!['m', 'c', '_', 'p', 'a', 't', 'c', 'h', '_', '0', 'x'] + hex_text(level as nat, false)
        + seq!['.', 'b', 'i', 'n']
}

/// The line of output for one resolved patch.
pub open spec fn patch_line_of(info: PatchInfo) -> Seq<char> {
    "  Family="@ + padded_hex(info.family as nat, 2) + ", Model="@ + padded_hex(
        info.model as nat,
        2,
    ) + ", Stepping="@ + padded_hex(info.stepping as nat, 2) + ": Patch="@ + padded_hex(
        info.level as nat,
        8,
    ) + " Length="@ + decimal_text(info.length as nat) + " bytes"@
}

/// The diagnostic for a record whose type tag is not a patch's.
pub open spec fn invalid_type_line_of(tag: u32) -> Seq<char> {
    "Invalid patch identifier: "@ + padded_hex(tag as nat, 8)
}

/// The diagnostic for a patch whose equivalence id the table lacks.
pub open spec fn unresolved_line_of(equiv_id: u16) -> Seq<char> {
    "Patch equivalence id not present in equivalence table ("@ + padded_hex(equiv_id as nat, 4)
        + ")"@
}

fn hex_digit_str(d: u32, upper: bool) -> (s: &'static str)
    requires
        d < 16,
    ensures
        s@ == seq![hex_digit(d as int, upper)],
{
    proof {
        reveal_strlit("0");
        reveal_strlit("1");
        reveal_strlit("2");
        reveal_strlit("3");
        reveal_strlit("4");
        reveal_strlit("5");
        reveal_strlit("6");
        reveal_strlit("7");
        reveal_strlit("8");
        reveal_strlit("9");
        reveal_strlit("a");
        reveal_strlit("b");
        reveal_strlit("c");
        reveal_strlit("d");
        reveal_strlit("e");
        reveal_strlit("f");
        reveal_strlit("A");
        reveal_strlit("B");
        reveal_strlit("C");
        reveal_strlit("D");
        reveal_strlit("E");
        reveal_strlit("F");
    }
    let s = if d == 0 {
        "0"
    } else if d == 1 {
        "1"
    } else if d == 2 {
        "2"
    } else if d == 3 {
        "3"
    } else if d == 4 {
        "4"
    } else if d == 5 {
        "5"
    } else if d == 6 {
        "6"
    } else if d == 7 {
        "7"
    } else if d == 8 {
        "8"
    } else if d == 9 {
        "9"
    } else if d == 10 {
        if upper { "A" } else { "a" }
    } else if d == 11 {
        if upper { "B" } else { "b" }
    } else if d == 12 {
        if upper { "C" } else { "c" }
    } else if d == 13 {
        if upper { "D" } else { "d" }
    } else if d == 14 {
        if upper { "E" } else { "e" }
    } else {
        if upper { "F" } else { "f" }
    };
    assert(s@ =~= seq![hex_digit(d as int, upper)]);
    s
}

fn push_hex(out: &mut String, n: u32, upper: bool)
    ensures
        final(out)@ == old(out)@ + hex_text(n as nat, upper),
    decreases n,
{
    if n >= 16 {
        push_hex(out, n / 16, upper);
    }
    out.append(hex_digit_str(n % 16, upper));
    assert(final(out)@ =~= old(out)@ + hex_text(n as nat, upper));
}

fn push_decimal(out: &mut String, n: u32)
    ensures
        final(out)@ == old(out)@ + decimal_text(n as nat),
    decreases n,
{
    if n >= 10 {
        push_decimal(out, n / 10);
    }
    out.append(hex_digit_str(n % 10, false));
    assert(final(out)@ =~= old(out)@ + decimal_text(n as nat));
}

/// The number of digits of `n` in hexadecimal.
fn hex_len(n: u32) -> (len: u32)
    ensures
        len == hex_text(n as nat, true).len(),
        1 <= len <= 8,
{
    proof {
        let n1 = n as nat / 16;
        let n2 = n1 / 16;
        let n3 = n2 / 16;
        let n4 = n3 / 16;
        let n5 = n4 / 16;
        let n6 = n5 / 16;
        let n7 = n6 / 16;
        lemma_hex_text_len(n as nat, true);
        lemma_hex_text_len(n1, true);
        lemma_hex_text_len(n2, true);
        lemma_hex_text_len(n3, true);
        lemma_hex_text_len(n4, true);
        lemma_hex_text_len(n5, true);
        lemma_hex_text_len(n6, true);
        lemma_hex_text_len(n7, true);
    }
    if n < 0x10 {
        1
    } else if n < 0x100 {
        2
    } else if n < 0x1000 {
        3
    } else if n < 0x1_0000 {
        4
    } else if n < 0x10_0000 {
        5
    } else if n < 0x100_0000 {
        6
    } else if n < 0x1000_0000 {
        7
    } else {
        8
    }
}

/// A number below sixteen has one hexadecimal digit; any other has one
/// more than its sixteenth.
pub proof fn lemma_hex_text_len(n: nat, upper: bool)
    ensures
        hex_text(n, upper).len() == (if n < 16 {
            1
        } else {
            hex_text(n / 16, upper).len() + 1
        }),
{
}

fn push_padded_hex(out: &mut String, n: u32, digits: u32)
    ensures
        final(out)@ == old(out)@ + padded_hex(n as nat, digits as nat),
{
    proof {
        reveal_strlit("0x");
    }
    out.append("0x");
    let len = hex_len(n);
    let fill: u32 = if len < digits {
        digits - len
    } else {
        0
    };
    let ghost base = out@;
    let mut done: u32 = 0;
    while done < fill
        invariant
            done <= fill,
            out@ == base + zeros(done as nat),
        decreases fill - done,
    {
        out.append("0");
        done = done + 1;
        proof {
            reveal_strlit("0");
            assert(out@ =~= base + zeros(done as nat));
        }
    }
    push_hex(out, n, true);
    assert(final(out)@ =~= old(out)@ + padded_hex(n as nat, digits as nat));
}

/// The name of the file that receives the payload of the patch with this
/// level.
pub fn patch_file_name(level: u32) -> (name: String)
    ensures
        name@ == file_name_of(level),
{
    proof {
        reveal_strlit("mc_patch_0x");
        reveal_strlit(".bin");
    }
    let mut name = String::from_str("mc_patch_0x");
    push_hex(&mut name, level, false);
    name.append(".bin");
    assert(name@ =~= file_name_of(level));
    name
}

/// The line of output for one resolved patch: family, model and stepping
/// as two hexadecimal digits at least, the level as eight, the payload
/// length in decimal.
pub fn patch_line(info: &PatchInfo) -> (line: String)
    ensures
        line@ == patch_line_of(*info),
{
    let mut line = String::from_str("  Family=");
    push_padded_hex(&mut line, info.family, 2);
    line.append(", Model=");
    push_padded_hex(&mut line, info.model, 2);
    line.append(", Stepping=");
    push_padded_hex(&mut line, info.stepping, 2);
    line.append(": Patch=");
    push_padded_hex(&mut line, info.level, 8);
    line.append(" Length=");
    push_decimal(&mut line, info.length);
    line.append(" bytes");
    line
}

/// The diagnostic for a record whose type tag is not a patch's.
pub fn invalid_type_line(tag: u32) -> (line: String)
    ensures
        line@ == invalid_type_line_of(tag),
{
    let mut line = String::from_str("Invalid patch identifier: ");
    push_padded_hex(&mut line, tag, 8);
    line
}

/// The diagnostic for a patch whose equivalence id the table lacks.
pub fn unresolved_line(equiv_id: u16) -> (line: String)
    ensures
        line@ == unresolved_line_of(equiv_id),
{
    let mut line = String::from_str("Patch equivalence id not present in equivalence table (");
    push_padded_hex(&mut line, equiv_id as u32, 4);
    line.append(")");
    line
}

} // verus!
