//! Instructions written out as assembly text: the way back from the
//! assembler.
//!
//! An address instruction is written `@` and its number. A compute
//! instruction that an assembler can produce is written `dest=comp;jump`,
//! without `dest=` if nothing is stored and without `;jump` if nothing is
//! jumped on. Any other word is written as its sixteen binary digits.

use vstd::prelude::*;
use vstd::string::StringSliceAdditionalSpecFns;
use crate::hardware::alu::Operation;
use crate::hardware::instruction::{decode_word, Decoded, Destinations, Instruction, Jump};
use vstd::utf8::{is_ascii_chars, is_ascii_chars_encode_utf8};
use super::syntax::{
    comp_spec, compute_spec, dest_spec, fields_spec, find_spec, jump_spec, letters_spec,
    Computation, EQUALS, SEMICOLON,
};
use crate::text::{
    decimal_value, is_blank_spec, is_digit_spec, is_number_spec, number_spec, Number, SLASH,
};

verus! {

/// The decimal digits of `value`, without leading zeros.
pub open spec fn decimal_text(value: u16) -> Seq<u8>
    decreases value,
{
    if value < 10 {
        seq![(48 + value) as u8]
    } else {
        decimal_text(value / 10).push((48 + value % 10) as u8)
    }
}

/// The decimal digits of a number read as a number give the number back.
pub proof fn decimal_text_reads_back(value: u16, limit: u16)
    ensures
        is_number_spec(decimal_text(value)),
        decimal_value(decimal_text(value)) == value,
        value <= limit ==> number_spec(decimal_text(value), limit) == Number::Value(value),
        value > limit ==> number_spec(decimal_text(value), limit) == Number::TooLarge,
    decreases value,
{
    if value < 10 {
        assert(decimal_text(value).drop_last() == Seq::<u8>::empty());
        assert(decimal_value(decimal_text(value).drop_last()) == 0);
    } else {
        decimal_text_reads_back(value / 10, limit);
        assert(decimal_text(value).drop_last() == decimal_text(value / 10));
        assert forall|i: int| 0 <= i < decimal_text(value).len() implies is_digit_spec(
            #[trigger] decimal_text(value)[i],
        ) by {
            if i < decimal_text(value / 10).len() {
                assert(decimal_text(value)[i] == decimal_text(value / 10)[i]);
            }
        }
    }
}

/// Puts the decimal digits of `value` behind `out`.
pub fn push_decimal(out: &mut Vec<u8>, value: u16)
    ensures
        final(out)@ == old(out)@ + decimal_text(value),
    decreases value,
{
    if value >= 10 {
        push_decimal(out, value / 10);
    }
    out.push(48 + (value % 10) as u8);
    assert(out@ =~= old(out)@ + decimal_text(value));
}

/// The sixteen binary digits of `raw`, most significant first, from digit
/// number `count` (counted from the least significant one) down.
pub open spec fn binary_text(raw: u16, count: nat) -> Seq<u8>
    decreases count,
{
    if count == 0 {
        Seq::empty()
    } else {
        binary_text(raw / 2, (count - 1) as nat).push((48 + raw % 2) as u8)
    }
}

/// Puts the lowest `count` binary digits of `raw` behind `out`.
pub fn push_binary(out: &mut Vec<u8>, raw: u16, count: u8)
    ensures
        final(out)@ == old(out)@ + binary_text(raw, count as nat),
    decreases count,
{
    if count > 0 {
        push_binary(out, raw / 2, count - 1);
        out.push(48 + (raw % 2) as u8);
    }
    assert(out@ =~= old(out)@ + binary_text(raw, count as nat));
}

/// Puts the bytes of `word` behind `out`.
pub fn push_word(out: &mut Vec<u8>, word: &str)
    ensures
        final(out)@ == old(out)@ + word.spec_bytes(),
{
    let bytes = word.as_bytes();
    let mut i: usize = 0;
    while i < bytes.len()
        invariant
            i <= bytes.len(),
            bytes@ == word.spec_bytes(),
            out@ == old(out)@ + bytes@.take(i as int),
        decreases bytes.len() - i,
    {
        out.push(bytes[i]);
        i += 1;
        assert(out@ =~= old(out)@ + bytes@.take(i as int));
    }
    assert(bytes@.take(bytes.len() as int) == bytes@);
}

/// The mnemonic of `operation` on the address register or, with
/// `use_memory`, on the addressed memory cell.
pub open spec fn comp_text(use_memory: bool, operation: Operation) -> Seq<u8> {
    match operation {
        Operation::Zero => "0".spec_bytes(),
        Operation::One => "1".spec_bytes(),
        Operation::MinusOne => "-1".spec_bytes(),
        Operation::D => "D".spec_bytes(),
        Operation::NotD => "!D".spec_bytes(),
        Operation::NegD => "-D".spec_bytes(),
        Operation::IncD => "D+1".spec_bytes(),
        Operation::DecD => "D-1".spec_bytes(),
        Operation::Y => if use_memory { "M".spec_bytes() } else { "A".spec_bytes() },
        Operation::NotY => if use_memory { "!M".spec_bytes() } else { "!A".spec_bytes() },
        Operation::NegY => if use_memory { "-M".spec_bytes() } else { "-A".spec_bytes() },
        Operation::IncY => if use_memory { "M+1".spec_bytes() } else { "A+1".spec_bytes() },
        Operation::DecY => if use_memory { "M-1".spec_bytes() } else { "A-1".spec_bytes() },
        Operation::DPlusY => if use_memory { "D+M".spec_bytes() } else { "D+A".spec_bytes() },
        Operation::DMinusY => if use_memory { "D-M".spec_bytes() } else { "D-A".spec_bytes() },
        Operation::YMinusD => if use_memory { "M-D".spec_bytes() } else { "A-D".spec_bytes() },
        Operation::DAndY => if use_memory { "D&M".spec_bytes() } else { "D&A".spec_bytes() },
        Operation::DOrY => if use_memory { "D|M".spec_bytes() } else { "D|A".spec_bytes() },
    }
}

fn comp_word(use_memory: bool, operation: Operation) -> (word: &'static str)
    ensures
        word.spec_bytes() == comp_text(use_memory, operation),
{
    match operation {
        Operation::Zero => "0",
        Operation::One => "1",
        Operation::MinusOne => "-1",
        Operation::D => "D",
        Operation::NotD => "!D",
        Operation::NegD => "-D",
        Operation::IncD => "D+1",
        Operation::DecD => "D-1",
        Operation::Y => if use_memory { "M" } else { "A" },
        Operation::NotY => if use_memory { "!M" } else { "!A" },
        Operation::NegY => if use_memory { "-M" } else { "-A" },
        Operation::IncY => if use_memory { "M+1" } else { "A+1" },
        Operation::DecY => if use_memory { "M-1" } else { "A-1" },
        Operation::DPlusY => if use_memory { "D+M" } else { "D+A" },
        Operation::DMinusY => if use_memory { "D-M" } else { "D-A" },
        Operation::YMinusD => if use_memory { "M-D" } else { "A-D" },
        Operation::DAndY => if use_memory { "D&M" } else { "D&A" },
        Operation::DOrY => if use_memory { "D|M" } else { "D|A" },
    }
}

/// The mnemonic of the jump condition `jump`; none for no jump.
pub open spec fn jump_text(jump: Jump) -> Seq<u8> {
    match jump {
        Jump::Never => "".spec_bytes(),
        Jump::Greater => "JGT".spec_bytes(),
        Jump::Equal => "JEQ".spec_bytes(),
        Jump::GreaterEqual => "JGE".spec_bytes(),
        Jump::Less => "JLT".spec_bytes(),
        Jump::NotEqual => "JNE".spec_bytes(),
        Jump::LessEqual => "JLE".spec_bytes(),
        Jump::Always => "JMP".spec_bytes(),
    }
}

fn jump_word(jump: Jump) -> (word: &'static str)
    ensures
        word.spec_bytes() == jump_text(jump),
{
    match jump {
        Jump::Never => "",
        Jump::Greater => "JGT",
        Jump::Equal => "JEQ",
        Jump::GreaterEqual => "JGE",
        Jump::Less => "JLT",
        Jump::NotEqual => "JNE",
        Jump::LessEqual => "JLE",
        Jump::Always => "JMP",
    }
}

/// The letters of the destinations `dest`, in the order `A`, `M`, `D`.
pub open spec fn dest_text(dest: Destinations) -> Seq<u8> {
    (if dest.a { "A".spec_bytes() } else { "".spec_bytes() })
        + (if dest.m { "M".spec_bytes() } else { "".spec_bytes() })
        + (if dest.d { "D".spec_bytes() } else { "".spec_bytes() })
}

/// The mnemonic form of the compute instruction with these fields.
pub open spec fn compute_text(use_memory: bool, operation: Operation, dest: Destinations, jump: Jump) -> Seq<u8> {
    dest_text(dest)
        + (if dest.a || dest.d || dest.m { "=".spec_bytes() } else { "".spec_bytes() })
        + comp_text(use_memory, operation)
        + (if jump != Jump::Never { ";".spec_bytes() } else { "".spec_bytes() })
        + jump_text(jump)
}

/// Whether a compute instruction with these fields can be written in
/// mnemonics without loss: the spare bits are set, the function code has a
/// name, and the operand is only said to be the memory cell where the
/// operation uses it.
pub open spec fn has_mnemonics(spare: u8, use_memory: bool, function: u8) -> bool {
    spare == 3 && Operation::from_code_spec(function) is Some && (!use_memory
        || Operation::from_code_spec(function).unwrap().uses_operand_spec())
}

/// The instruction word `raw` as text.
pub open spec fn instruction_text(raw: u16) -> Seq<u8> {
    match decode_word(raw) {
        Decoded::Address { value } => "@".spec_bytes() + decimal_text(value),
        Decoded::Compute { spare, use_memory, function, dest, jump } => {
            if has_mnemonics(spare, use_memory, function) {
                compute_text(use_memory, Operation::from_code_spec(function).unwrap(), dest, jump)
            } else {
                binary_text(raw, 16)
            }
        },
    }
}

/// The bytes of the mnemonics of the operations on the data register alone.
proof fn fixed_comp_bytes()
    ensures
        "0".spec_bytes() == seq![48u8],
        "1".spec_bytes() == seq![49u8],
        "-1".spec_bytes() == seq![45u8, 49u8],
        "D".spec_bytes() == seq![68u8],
        "!D".spec_bytes() == seq![33u8, 68u8],
        "-D".spec_bytes() == seq![45u8, 68u8],
        "D+1".spec_bytes() == seq![68u8, 43u8, 49u8],
        "D-1".spec_bytes() == seq![68u8, 45u8, 49u8],
{
    reveal_strlit("0");
    assert(is_ascii_chars("0"@));
    is_ascii_chars_encode_utf8("0"@);
    assert("0".spec_bytes() =~= seq![48u8]);
    reveal_strlit("1");
    assert(is_ascii_chars("1"@));
    is_ascii_chars_encode_utf8("1"@);
    assert("1".spec_bytes() =~= seq![49u8]);
    reveal_strlit("-1");
    assert(is_ascii_chars("-1"@));
    is_ascii_chars_encode_utf8("-1"@);
    assert("-1".spec_bytes() =~= seq![45u8, 49u8]);
    reveal_strlit("D");
    assert(is_ascii_chars("D"@));
    is_ascii_chars_encode_utf8("D"@);
    assert("D".spec_bytes() =~= seq![68u8]);
    reveal_strlit("!D");
    assert(is_ascii_chars("!D"@));
    is_ascii_chars_encode_utf8("!D"@);
    assert("!D".spec_bytes() =~= seq![33u8, 68u8]);
    reveal_strlit("-D");
    assert(is_ascii_chars("-D"@));
    is_ascii_chars_encode_utf8("-D"@);
    assert("-D".spec_bytes() =~= seq![45u8, 68u8]);
    reveal_strlit("D+1");
    assert(is_ascii_chars("D+1"@));
    is_ascii_chars_encode_utf8("D+1"@);
    assert("D+1".spec_bytes() =~= seq![68u8, 43u8, 49u8]);
    reveal_strlit("D-1");
    assert(is_ascii_chars("D-1"@));
    is_ascii_chars_encode_utf8("D-1"@);
    assert("D-1".spec_bytes() =~= seq![68u8, 45u8, 49u8]);
}

/// The bytes of the mnemonics of the operations on the address register.
proof fn register_comp_bytes()
    ensures
        "A".spec_bytes() == seq![65u8],
        "!A".spec_bytes() == seq![33u8, 65u8],
        "-A".spec_bytes() == seq![45u8, 65u8],
        "A+1".spec_bytes() == seq![65u8, 43u8, 49u8],
        "A-1".spec_bytes() == seq![65u8, 45u8, 49u8],
        "D+A".spec_bytes() == seq![68u8, 43u8, 65u8],
        "D-A".spec_bytes() == seq![68u8, 45u8, 65u8],
        "A-D".spec_bytes() == seq![65u8, 45u8, 68u8],
        "D&A".spec_bytes() == seq![68u8, 38u8, 65u8],
        "D|A".spec_bytes() == seq![68u8, 124u8, 65u8],
{
    reveal_strlit("A");
    assert(is_ascii_chars("A"@));
    is_ascii_chars_encode_utf8("A"@);
    assert("A".spec_bytes() =~= seq![65u8]);
    reveal_strlit("!A");
    assert(is_ascii_chars("!A"@));
    is_ascii_chars_encode_utf8("!A"@);
    assert("!A".spec_bytes() =~= seq![33u8, 65u8]);
    reveal_strlit("-A");
    assert(is_ascii_chars("-A"@));
    is_ascii_chars_encode_utf8("-A"@);
    assert("-A".spec_bytes() =~= seq![45u8, 65u8]);
    reveal_strlit("A+1");
    assert(is_ascii_chars("A+1"@));
    is_ascii_chars_encode_utf8("A+1"@);
    assert("A+1".spec_bytes() =~= seq![65u8, 43u8, 49u8]);
    reveal_strlit("A-1");
    assert(is_ascii_chars("A-1"@));
    is_ascii_chars_encode_utf8("A-1"@);
    assert("A-1".spec_bytes() =~= seq![65u8, 45u8, 49u8]);
    reveal_strlit("D+A");
    assert(is_ascii_chars("D+A"@));
    is_ascii_chars_encode_utf8("D+A"@);
    assert("D+A".spec_bytes() =~= seq![68u8, 43u8, 65u8]);
    reveal_strlit("D-A");
    assert(is_ascii_chars("D-A"@));
    is_ascii_chars_encode_utf8("D-A"@);
    assert("D-A".spec_bytes() =~= seq![68u8, 45u8, 65u8]);
    reveal_strlit("A-D");
    assert(is_ascii_chars("A-D"@));
    is_ascii_chars_encode_utf8("A-D"@);
    assert("A-D".spec_bytes() =~= seq![65u8, 45u8, 68u8]);
    reveal_strlit("D&A");
    assert(is_ascii_chars("D&A"@));
    is_ascii_chars_encode_utf8("D&A"@);
    assert("D&A".spec_bytes() =~= seq![68u8, 38u8, 65u8]);
    reveal_strlit("D|A");
    assert(is_ascii_chars("D|A"@));
    is_ascii_chars_encode_utf8("D|A"@);
    assert("D|A".spec_bytes() =~= seq![68u8, 124u8, 65u8]);
}

/// The bytes of the mnemonics of the operations on the memory cell.
proof fn memory_comp_bytes()
    ensures
        "M".spec_bytes() == seq![77u8],
        "!M".spec_bytes() == seq![33u8, 77u8],
        "-M".spec_bytes() == seq![45u8, 77u8],
        "M+1".spec_bytes() == seq![77u8, 43u8, 49u8],
        "M-1".spec_bytes() == seq![77u8, 45u8, 49u8],
        "D+M".spec_bytes() == seq![68u8, 43u8, 77u8],
        "D-M".spec_bytes() == seq![68u8, 45u8, 77u8],
        "M-D".spec_bytes() == seq![77u8, 45u8, 68u8],
        "D&M".spec_bytes() == seq![68u8, 38u8, 77u8],
        "D|M".spec_bytes() == seq![68u8, 124u8, 77u8],
{
    reveal_strlit("M");
    assert(is_ascii_chars("M"@));
    is_ascii_chars_encode_utf8("M"@);
    assert("M".spec_bytes() =~= seq![77u8]);
    reveal_strlit("!M");
    assert(is_ascii_chars("!M"@));
    is_ascii_chars_encode_utf8("!M"@);
    assert("!M".spec_bytes() =~= seq![33u8, 77u8]);
    reveal_strlit("-M");
    assert(is_ascii_chars("-M"@));
    is_ascii_chars_encode_utf8("-M"@);
    assert("-M".spec_bytes() =~= seq![45u8, 77u8]);
    reveal_strlit("M+1");
    assert(is_ascii_chars("M+1"@));
    is_ascii_chars_encode_utf8("M+1"@);
    assert("M+1".spec_bytes() =~= seq![77u8, 43u8, 49u8]);
    reveal_strlit("M-1");
    assert(is_ascii_chars("M-1"@));
    is_ascii_chars_encode_utf8("M-1"@);
    assert("M-1".spec_bytes() =~= seq![77u8, 45u8, 49u8]);
    reveal_strlit("D+M");
    assert(is_ascii_chars("D+M"@));
    is_ascii_chars_encode_utf8("D+M"@);
    assert("D+M".spec_bytes() =~= seq![68u8, 43u8, 77u8]);
    reveal_strlit("D-M");
    assert(is_ascii_chars("D-M"@));
    is_ascii_chars_encode_utf8("D-M"@);
    assert("D-M".spec_bytes() =~= seq![68u8, 45u8, 77u8]);
    reveal_strlit("M-D");
    assert(is_ascii_chars("M-D"@));
    is_ascii_chars_encode_utf8("M-D"@);
    assert("M-D".spec_bytes() =~= seq![77u8, 45u8, 68u8]);
    reveal_strlit("D&M");
    assert(is_ascii_chars("D&M"@));
    is_ascii_chars_encode_utf8("D&M"@);
    assert("D&M".spec_bytes() =~= seq![68u8, 38u8, 77u8]);
    reveal_strlit("D|M");
    assert(is_ascii_chars("D|M"@));
    is_ascii_chars_encode_utf8("D|M"@);
    assert("D|M".spec_bytes() =~= seq![68u8, 124u8, 77u8]);
}

/// The bytes of the letters and signs of a compute instruction.
proof fn sign_bytes()
    ensures
        "A".spec_bytes() == seq![65u8],
        "M".spec_bytes() == seq![77u8],
        "D".spec_bytes() == seq![68u8],
        "=".spec_bytes() == seq![61u8],
        ";".spec_bytes() == seq![59u8],
        "".spec_bytes() == Seq::<u8>::empty(),
{
    reveal_strlit("A");
    assert(is_ascii_chars("A"@));
    is_ascii_chars_encode_utf8("A"@);
    assert("A".spec_bytes() =~= seq![65u8]);
    reveal_strlit("M");
    assert(is_ascii_chars("M"@));
    is_ascii_chars_encode_utf8("M"@);
    assert("M".spec_bytes() =~= seq![77u8]);
    reveal_strlit("D");
    assert(is_ascii_chars("D"@));
    is_ascii_chars_encode_utf8("D"@);
    assert("D".spec_bytes() =~= seq![68u8]);
    reveal_strlit("=");
    assert(is_ascii_chars("="@));
    is_ascii_chars_encode_utf8("="@);
    assert("=".spec_bytes() =~= seq![61u8]);
    reveal_strlit(";");
    assert(is_ascii_chars(";"@));
    is_ascii_chars_encode_utf8(";"@);
    assert(";".spec_bytes() =~= seq![59u8]);
    reveal_strlit("");
    assert(is_ascii_chars(""@));
    is_ascii_chars_encode_utf8(""@);
    assert("".spec_bytes() =~= Seq::<u8>::empty());
}

/// Whether `bytes` holds no blank and no `/`: a line of such bytes says
/// what it holds.
pub open spec fn is_plain(bytes: Seq<u8>) -> bool {
    forall|i: int| 0 <= i < bytes.len() ==> !is_blank_spec(#[trigger] bytes[i]) && bytes[i] != SLASH
}

/// Whether `bytes` holds neither `=` nor `;`.
pub open spec fn is_field(bytes: Seq<u8>) -> bool {
    forall|i: int| 0 <= i < bytes.len() ==> #[trigger] bytes[i] != EQUALS && bytes[i] != SEMICOLON
}

/// The mnemonic of a computation reads back as the computation.
pub proof fn comp_reads_back(use_memory: bool, operation: Operation)
    requires
        use_memory ==> operation.uses_operand_spec(),
    ensures
        comp_spec(comp_text(use_memory, operation)) == Some(Computation { use_memory, operation }),
        is_field(comp_text(use_memory, operation)),
        comp_text(use_memory, operation).len() > 0,
        comp_text(use_memory, operation)[0] != 40 && comp_text(use_memory, operation)[0] != 64,
        is_plain(comp_text(use_memory, operation)),
{
    fixed_comp_bytes();
    register_comp_bytes();
    memory_comp_bytes();
    let text = comp_text(use_memory, operation);
    assert(1 <= text.len() <= 3);
    assert(text[0] != EQUALS);
    if text.len() >= 2 {
        assert(text[1] != EQUALS);
    }
    if text.len() >= 3 {
        assert(text[2] != EQUALS);
    }
}

/// The letters of destinations read back as the destinations.
pub proof fn dest_reads_back(dest: Destinations)
    requires
        dest.a || dest.d || dest.m,
    ensures
        dest_spec(dest_text(dest)) == Some(dest),
        is_field(dest_text(dest)),
        dest_text(dest).len() > 0,
        dest_text(dest)[0] != 40 && dest_text(dest)[0] != 64,
        is_plain(dest_text(dest)),
{
    sign_bytes();
    reveal_with_fuel(letters_spec, 4);
    let text = dest_text(dest);
    let a: Seq<u8> = if dest.a { seq![65u8] } else { Seq::empty() };
    let m: Seq<u8> = if dest.m { seq![77u8] } else { Seq::empty() };
    let d: Seq<u8> = if dest.d { seq![68u8] } else { Seq::empty() };
    assert(text == a + m + d);
    if dest.a && dest.m && dest.d {
        assert(text =~= seq![65u8, 77u8, 68u8]);
        assert(text.drop_last() =~= seq![65u8, 77u8]);
        assert(text.drop_last().drop_last() =~= seq![65u8]);
        assert(text.drop_last().drop_last().drop_last() =~= Seq::<u8>::empty());
    } else if dest.a && dest.m {
        assert(text =~= seq![65u8, 77u8]);
        assert(text.drop_last() =~= seq![65u8]);
        assert(text.drop_last().drop_last() =~= Seq::<u8>::empty());
    } else if dest.a && dest.d {
        assert(text =~= seq![65u8, 68u8]);
        assert(text.drop_last() =~= seq![65u8]);
        assert(text.drop_last().drop_last() =~= Seq::<u8>::empty());
    } else if dest.m && dest.d {
        assert(text =~= seq![77u8, 68u8]);
        assert(text.drop_last() =~= seq![77u8]);
        assert(text.drop_last().drop_last() =~= Seq::<u8>::empty());
    } else if dest.a {
        assert(text =~= seq![65u8]);
        assert(text.drop_last() =~= Seq::<u8>::empty());
    } else if dest.m {
        assert(text =~= seq![77u8]);
        assert(text.drop_last() =~= Seq::<u8>::empty());
    } else {
        assert(text =~= seq![68u8]);
        assert(text.drop_last() =~= Seq::<u8>::empty());
    }
}

/// Where a byte is found in bytes that start with a part without it: behind
/// that part.
pub proof fn find_skips(first: Seq<u8>, rest: Seq<u8>, byte: u8, from: int)
    requires
        0 <= from <= first.len(),
        forall|i: int| 0 <= i < first.len() ==> first[i] != byte,
    ensures
        find_spec(first + rest, byte, from) == first.len() + find_spec(rest, byte, 0),
    decreases first.len() - from,
{
    if from < first.len() {
        assert((first + rest)[from] == first[from]);
        find_skips(first, rest, byte, from + 1);
    } else {
        find_shifts(first, rest, byte, 0);
    }
}

proof fn find_shifts(first: Seq<u8>, rest: Seq<u8>, byte: u8, from: int)
    requires
        0 <= from <= rest.len(),
    ensures
        find_spec(first + rest, byte, first.len() + from) == first.len() + find_spec(rest, byte, from),
    decreases rest.len() - from,
{
    if from < rest.len() {
        assert((first + rest)[first.len() + from] == rest[from]);
        find_shifts(first, rest, byte, from + 1);
    }
}

/// The bytes of the jump mnemonics.
proof fn jump_bytes()
    ensures
        "JGT".spec_bytes() == seq![74u8, 71u8, 84u8],
        "JEQ".spec_bytes() == seq![74u8, 69u8, 81u8],
        "JGE".spec_bytes() == seq![74u8, 71u8, 69u8],
        "JLT".spec_bytes() == seq![74u8, 76u8, 84u8],
        "JNE".spec_bytes() == seq![74u8, 78u8, 69u8],
        "JLE".spec_bytes() == seq![74u8, 76u8, 69u8],
        "JMP".spec_bytes() == seq![74u8, 77u8, 80u8],
{
    reveal_strlit("JGT");
    assert(is_ascii_chars("JGT"@));
    is_ascii_chars_encode_utf8("JGT"@);
    assert("JGT".spec_bytes() =~= seq![74u8, 71u8, 84u8]);
    reveal_strlit("JEQ");
    assert(is_ascii_chars("JEQ"@));
    is_ascii_chars_encode_utf8("JEQ"@);
    assert("JEQ".spec_bytes() =~= seq![74u8, 69u8, 81u8]);
    reveal_strlit("JGE");
    assert(is_ascii_chars("JGE"@));
    is_ascii_chars_encode_utf8("JGE"@);
    assert("JGE".spec_bytes() =~= seq![74u8, 71u8, 69u8]);
    reveal_strlit("JLT");
    assert(is_ascii_chars("JLT"@));
    is_ascii_chars_encode_utf8("JLT"@);
    assert("JLT".spec_bytes() =~= seq![74u8, 76u8, 84u8]);
    reveal_strlit("JNE");
    assert(is_ascii_chars("JNE"@));
    is_ascii_chars_encode_utf8("JNE"@);
    assert("JNE".spec_bytes() =~= seq![74u8, 78u8, 69u8]);
    reveal_strlit("JLE");
    assert(is_ascii_chars("JLE"@));
    is_ascii_chars_encode_utf8("JLE"@);
    assert("JLE".spec_bytes() =~= seq![74u8, 76u8, 69u8]);
    reveal_strlit("JMP");
    assert(is_ascii_chars("JMP"@));
    is_ascii_chars_encode_utf8("JMP"@);
    assert("JMP".spec_bytes() =~= seq![74u8, 77u8, 80u8]);
}

/// The mnemonic of a jump condition reads back as the condition.
pub proof fn jump_reads_back(jump: Jump)
    requires
        jump != Jump::Never,
    ensures
        jump_spec(jump_text(jump)) == Some(jump),
        is_field(jump_text(jump)),
        is_plain(jump_text(jump)),
{
    jump_bytes();
    let text = jump_text(jump);
    assert(text.len() == 3);
    assert(text[0] == 74);
    assert(text[1] != EQUALS);
    assert(text[2] != EQUALS);
}

/// The bytes `dest`, `comp` and `jump` joined as the fields of a compute
/// instruction are: with `=` behind `dest` if `stored`, and `;` before
/// `jump` if `jumps`.
pub open spec fn joined(dest: Seq<u8>, stored: bool, comp: Seq<u8>, jumps: bool, jump: Seq<u8>) -> Seq<u8> {
    dest + (if stored { seq![EQUALS] } else { Seq::<u8>::empty() }) + comp + (if jumps {
        seq![SEMICOLON]
    } else {
        Seq::<u8>::empty()
    }) + jump
}

/// Fields that are joined are found again.
pub proof fn joined_fields_are_found(
    dest: Seq<u8>,
    stored: bool,
    comp: Seq<u8>,
    jumps: bool,
    jump: Seq<u8>,
)
    requires
        is_field(dest),
        is_field(comp),
        is_field(jump),
        !stored ==> dest.len() == 0,
        !jumps ==> jump.len() == 0,
    ensures
        fields_spec(joined(dest, stored, comp, jumps, jump)) == (
            if stored {
                Some(dest)
            } else {
                None
            },
            comp,
            if jumps {
                Some(jump)
            } else {
                None
            },
        ),
{
    let equals: Seq<u8> = if stored { seq![EQUALS] } else { Seq::empty() };
    let semicolon: Seq<u8> = if jumps { seq![SEMICOLON] } else { Seq::empty() };
    let text = joined(dest, stored, comp, jumps, jump);
    let tail = comp + semicolon + jump;
    assert(text =~= dest + (equals + tail));
    if stored {
        find_skips(dest, equals + tail, EQUALS, 0);
        assert(find_spec(equals + tail, EQUALS, 0) == 0);
        assert(text.take(dest.len() as int) =~= dest);
        assert(text.skip(dest.len() as int + 1) =~= tail);
    } else {
        assert(text =~= tail);
        assert forall|i: int| 0 <= i < tail.len() implies tail[i] != EQUALS by {
            if i < comp.len() {
                assert(tail[i] == comp[i]);
            } else if i >= comp.len() + semicolon.len() {
                assert(tail[i] == jump[i - comp.len() - semicolon.len()]);
            } else {
                assert(tail[i] == semicolon[i - comp.len()]);
            }
        }
        find_skips(tail, Seq::<u8>::empty(), EQUALS, 0);
        assert(tail + Seq::<u8>::empty() =~= tail);
    }
    find_skips(comp, semicolon + jump, SEMICOLON, 0);
    assert(tail =~= comp + (semicolon + jump));
    if jumps {
        assert(find_spec(semicolon + jump, SEMICOLON, 0) == 0);
        assert(tail.take(comp.len() as int) =~= comp);
        assert(tail.skip(comp.len() as int + 1) =~= jump);
    } else {
        assert(semicolon + jump =~= Seq::<u8>::empty());
        assert(tail.take(comp.len() as int) =~= comp);
    }
}

/// The mnemonic form of a compute instruction reads back as the
/// instruction, where the memory cell is only named as operand if the
/// operation uses its operand.
pub proof fn compute_text_reads_back(
    use_memory: bool,
    operation: Operation,
    dest: Destinations,
    jump: Jump,
)
    requires
        use_memory ==> operation.uses_operand_spec(),
    ensures
        compute_spec(compute_text(use_memory, operation, dest, jump)) == Some(
            Decoded::Compute {
                spare: 3,
                use_memory,
                function: operation.code_spec(),
                dest,
                jump,
            },
        ),
{
    let stored = dest.a || dest.d || dest.m;
    let jumps = jump != Jump::Never;
    let d = dest_text(dest);
    let c = comp_text(use_memory, operation);
    let j = jump_text(jump);
    comp_reads_back(use_memory, operation);
    text_is_joined(use_memory, operation, dest, jump);
    if stored {
        dest_reads_back(dest);
    }
    if jumps {
        jump_reads_back(jump);
    }
    joined_fields_are_found(d, stored, c, jumps, j);
}

/// The mnemonic form of a compute instruction starts neither like a label
/// nor like an address instruction.
pub proof fn compute_text_starts_with_a_field(
    use_memory: bool,
    operation: Operation,
    dest: Destinations,
    jump: Jump,
)
    requires
        use_memory ==> operation.uses_operand_spec(),
    ensures
        compute_text(use_memory, operation, dest, jump).len() > 0,
        compute_text(use_memory, operation, dest, jump)[0] != 40,
        compute_text(use_memory, operation, dest, jump)[0] != 64,
{
    let text = compute_text(use_memory, operation, dest, jump);
    let d = dest_text(dest);
    let c = comp_text(use_memory, operation);
    comp_reads_back(use_memory, operation);
    text_is_joined(use_memory, operation, dest, jump);
    if dest.a || dest.d || dest.m {
        dest_reads_back(dest);
        assert(text[0] == d[0]);
    } else {
        assert(text[0] == c[0]);
    }
}

/// Joined fields without blanks and `/` are without them.
proof fn joined_is_plain(dest: Seq<u8>, stored: bool, comp: Seq<u8>, jumps: bool, jump: Seq<u8>)
    requires
        is_plain(dest),
        is_plain(comp),
        is_plain(jump),
    ensures
        is_plain(joined(dest, stored, comp, jumps, jump)),
{
    let equals: Seq<u8> = if stored { seq![EQUALS] } else { Seq::empty() };
    let semicolon: Seq<u8> = if jumps { seq![SEMICOLON] } else { Seq::empty() };
    let text = joined(dest, stored, comp, jumps, jump);
    assert forall|i: int| 0 <= i < text.len() implies !is_blank_spec(#[trigger] text[i]) && text[i]
        != SLASH by {
        if i < dest.len() {
            assert(text[i] == dest[i]);
        } else if i < dest.len() + equals.len() {
            assert(text[i] == equals[i - dest.len()]);
        } else if i < dest.len() + equals.len() + comp.len() {
            assert(text[i] == comp[i - dest.len() - equals.len()]);
        } else if i < dest.len() + equals.len() + comp.len() + semicolon.len() {
            assert(text[i] == semicolon[i - dest.len() - equals.len() - comp.len()]);
        } else {
            assert(text[i] == jump[i - dest.len() - equals.len() - comp.len() - semicolon.len()]);
        }
    }
}

/// The decimal digits of a number hold no blank and no `/`.
proof fn decimal_text_is_plain(value: u16)
    ensures
        is_plain(decimal_text(value)),
    decreases value,
{
    if value >= 10 {
        decimal_text_is_plain(value / 10);
        assert forall|i: int| 0 <= i < decimal_text(value).len() implies !is_blank_spec(
            #[trigger] decimal_text(value)[i],
        ) && decimal_text(value)[i] != SLASH by {
            if i < decimal_text(value / 10).len() {
                assert(decimal_text(value)[i] == decimal_text(value / 10)[i]);
            }
        }
    }
}

/// The text of an instruction that has one in mnemonics holds no blank and
/// no `/`, and is not empty.
pub proof fn instruction_text_is_plain(raw: u16)
    requires
        decode_word(raw) matches Decoded::Compute { spare, use_memory, function, .. }
            ==> has_mnemonics(spare, use_memory, function),
    ensures
        is_plain(instruction_text(raw)),
        instruction_text(raw).len() > 0,
{
    match decode_word(raw) {
        Decoded::Address { value } => {
            reveal_strlit("@");
            assert(is_ascii_chars("@"@));
            is_ascii_chars_encode_utf8("@"@);
            assert("@".spec_bytes() =~= seq![64u8]);
            decimal_text_is_plain(value);
            let text = instruction_text(raw);
            assert forall|i: int| 0 <= i < text.len() implies !is_blank_spec(#[trigger] text[i])
                && text[i] != SLASH by {
                if i >= 1 {
                    assert(text[i] == decimal_text(value)[i - 1]);
                }
            }
        },
        Decoded::Compute { spare, use_memory, function, dest, jump } => {
            let operation = Operation::from_code_spec(function).unwrap();
            comp_reads_back(use_memory, operation);
            text_is_joined(use_memory, operation, dest, jump);
            if dest.a || dest.d || dest.m {
                dest_reads_back(dest);
            }
            if jump != Jump::Never {
                jump_reads_back(jump);
            }
            joined_is_plain(
                dest_text(dest),
                dest.a || dest.d || dest.m,
                comp_text(use_memory, operation),
                jump != Jump::Never,
                jump_text(jump),
            );
            compute_text_starts_with_a_field(use_memory, operation, dest, jump);
        },
    }
}

/// The mnemonic form of a compute instruction is its fields joined.
proof fn text_is_joined(use_memory: bool, operation: Operation, dest: Destinations, jump: Jump)
    ensures
        compute_text(use_memory, operation, dest, jump) == joined(
            dest_text(dest),
            dest.a || dest.d || dest.m,
            comp_text(use_memory, operation),
            jump != Jump::Never,
            jump_text(jump),
        ),
        !(dest.a || dest.d || dest.m) ==> dest_text(dest).len() == 0,
        jump == Jump::Never ==> jump_text(jump).len() == 0,
{
    sign_bytes();
    assert(dest_text(dest).len() == (if dest.a { 1int } else { 0 }) + (if dest.m { 1int } else { 0 })
        + (if dest.d { 1int } else { 0 }));
}

impl Instruction {
    /// The instruction as text.
    pub fn text(&self) -> (out: Vec<u8>)
        ensures
            out@ == instruction_text(self.raw),
    {
        let mut out: Vec<u8> = Vec::new();
        match self.decode() {
            Decoded::Address { value } => {
                push_word(&mut out, "@");
                push_decimal(&mut out, value);
            },
            Decoded::Compute { spare, use_memory, function, dest, jump } => {
                match Operation::from_code(function) {
                    Some(operation) => {
                        if spare == 3 && (!use_memory || operation.uses_operand()) {
                            push_word(&mut out, if dest.a { "A" } else { "" });
                            push_word(&mut out, if dest.m { "M" } else { "" });
                            push_word(&mut out, if dest.d { "D" } else { "" });
                            push_word(&mut out, if dest.a || dest.d || dest.m { "=" } else { "" });
                            push_word(&mut out, comp_word(use_memory, operation));
                            push_word(&mut out, if jump.code() != 0 { ";" } else { "" });
                            push_word(&mut out, jump_word(jump));
                            assert(out@ =~= compute_text(use_memory, operation, dest, jump));
                        } else {
                            push_binary(&mut out, self.raw, 16);
                        }
                    },
                    None => {
                        push_binary(&mut out, self.raw, 16);
                    },
                }
            },
        }
        out
    }
}

} // verus!
