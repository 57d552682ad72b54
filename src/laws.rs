use vstd::prelude::*;
use vstd::arithmetic::div_mod::lemma_add_mod_noop;
use crate::stats::{Statistics, accumulate, byte_len, wrap32, zero};
use crate::report::{Options, columns_text, line_text, names_shown, sum_all};

verus! {

/// Sum of the raw byte lengths of `lines`.
pub open spec fn total_bytes(lines: Seq<Seq<char>>) -> nat
    decreases lines.len(),
{
    if lines.len() == 0 {
        0
    } else {
        total_bytes(lines.drop_last()) + byte_len(lines.last())
    }
}

/// Sum of the character counts of `lines`.
pub open spec fn total_chars(lines: Seq<Seq<char>>) -> nat
    decreases lines.len(),
{
    if lines.len() == 0 {
        0
    } else {
        total_chars(lines.drop_last()) + lines.last().len()
    }
}

/// Largest raw byte length among `lines`, zero for none.
pub open spec fn longest_line(lines: Seq<Seq<char>>) -> nat
    decreases lines.len(),
{
    if lines.len() == 0 {
        0
    } else {
        let rest = longest_line(lines.drop_last());
        if rest >= byte_len(lines.last()) {
            rest
        } else {
            byte_len(lines.last())
        }
    }
}

/// Reducing a partial sum before adding to it does not change the wrapped
/// result.
proof fn lemma_wrap32_add(x: int, y: int)
    ensures
        wrap32(wrap32(x) + y) == wrap32(x + y),
        wrap32(x + wrap32(y)) == wrap32(x + y),
{
    let m: int = 0x1_0000_0000;
    lemma_add_mod_noop(x, y, m);
    vstd::arithmetic::div_mod::lemma_mod_twice(x, m);
    vstd::arithmetic::div_mod::lemma_mod_twice(y, m);
    vstd::arithmetic::div_mod::lemma_mod_bound(x, m);
    vstd::arithmetic::div_mod::lemma_mod_bound(y, m);
}

/// The byte counter is the sum of the byte lengths of all lines read,
/// terminators included, modulo 2^32; the sum itself while it fits.
pub proof fn lemma_bytes_are_sum_of_line_lengths(lines: Seq<Seq<char>>)
    ensures
        accumulate(lines).bytes == total_bytes(lines) % 0x1_0000_0000,
        total_bytes(lines) < 0x1_0000_0000 ==> accumulate(lines).bytes == total_bytes(lines),
    decreases lines.len(),
{
    if lines.len() > 0 {
        lemma_bytes_are_sum_of_line_lengths(lines.drop_last());
        lemma_add_mod_noop(
            total_bytes(lines.drop_last()) as int,
            byte_len(lines.last()) as int,
            0x1_0000_0000,
        );
        vstd::arithmetic::div_mod::lemma_mod_twice(byte_len(lines.last()) as int, 0x1_0000_0000);
    }
}

/// The line counter is the number of lines read, a last unterminated line
/// included, modulo 2^32.
pub proof fn lemma_lines_are_number_of_reads(lines: Seq<Seq<char>>)
    ensures
        accumulate(lines).lines == lines.len() % 0x1_0000_0000,
        lines.len() < 0x1_0000_0000 ==> accumulate(lines).lines == lines.len(),
    decreases lines.len(),
{
    if lines.len() > 0 {
        lemma_lines_are_number_of_reads(lines.drop_last());
        lemma_add_mod_noop((lines.len() - 1) as int, 1, 0x1_0000_0000);
    }
}

/// The character counter is the number of decoded characters of all lines,
/// modulo 2^32, whatever their byte lengths.
pub proof fn lemma_chars_are_decoded_characters(lines: Seq<Seq<char>>)
    ensures
        accumulate(lines).chars == total_chars(lines) % 0x1_0000_0000,
        total_chars(lines) < 0x1_0000_0000 ==> accumulate(lines).chars == total_chars(lines),
    decreases lines.len(),
{
    if lines.len() > 0 {
        let rest = lines.drop_last();
        lemma_chars_are_decoded_characters(rest);
        let prev = accumulate(rest);
        assert(accumulate(lines).chars == wrap32(prev.chars + lines.last().len()));
        lemma_wrap32_add(total_chars(rest) as int, lines.last().len() as int);
    }
}

/// Where every line is shorter than 2^16 bytes, the longest-line counter is
/// the largest raw byte length among the lines.
pub proof fn lemma_max_line_length_is_longest_line(lines: Seq<Seq<char>>)
    requires
        forall|i: int| 0 <= i < lines.len() ==> byte_len(#[trigger] lines[i]) < 0x1_0000,
    ensures
        accumulate(lines).max_line_length == longest_line(lines),
    decreases lines.len(),
{
    if lines.len() > 0 {
        let rest = lines.drop_last();
        assert forall|i: int| 0 <= i < rest.len() implies byte_len(#[trigger] rest[i]) < 0x1_0000 by {
            assert(rest[i] == lines[i]);
        }
        lemma_max_line_length_is_longest_line(rest);
        assert(byte_len(lines[lines.len() - 1]) < 0x1_0000);
    }
}

/// Reading no line at all leaves every counter at zero.
pub proof fn lemma_empty_input_is_zero()
    ensures
        accumulate(Seq::empty()) == zero(),
{
}

proof fn lemma_wrap32_associative(x: u32, y: u32, z: u32)
    ensures
        wrap32(wrap32(x + y) + z) == wrap32(x + wrap32(y + z)),
{
    lemma_wrap32_add(x + y, z as int);
    lemma_wrap32_add(x as int, y + z);
}

/// Combining is associative.
pub proof fn lemma_combine_associative(a: Statistics, b: Statistics, c: Statistics)
    ensures
        a.combine(b).combine(c) == a.combine(b.combine(c)),
{
    lemma_wrap32_associative(a.bytes, b.bytes, c.bytes);
    lemma_wrap32_associative(a.chars, b.chars, c.chars);
    lemma_wrap32_associative(a.lines, b.lines, c.lines);
    lemma_wrap32_associative(a.words, b.words, c.words);
}

/// Combining is commutative.
pub proof fn lemma_combine_commutative(a: Statistics, b: Statistics)
    ensures
        a.combine(b) == b.combine(a),
{
}

/// Combining a snapshot with itself keeps its longest line.
pub proof fn lemma_combine_max_idempotent(a: Statistics)
    ensures
        a.combine(a).max_line_length == a.max_line_length,
{
}

/// The total of two inputs adds their counters: its byte count is the sum
/// of theirs while that sum fits in 32 bits.
pub proof fn lemma_total_of_two(s1: Statistics, s2: Statistics)
    ensures
        sum_all(seq![s1, s2]) == s1.combine(s2),
        s1.bytes + s2.bytes <= u32::MAX ==> sum_all(seq![s1, s2]).bytes == s1.bytes + s2.bytes,
{
    let s = seq![s1, s2];
    assert(s.drop_last() == seq![s1]);
    assert(seq![s1].drop_last() == Seq::<Statistics>::empty());
    assert(seq![s1].last() == s1);
    assert(sum_all(Seq::<Statistics>::empty()) == zero());
    assert(sum_all(seq![s1]) == zero().combine(s1));
    assert(zero().combine(s1) == s1);
    assert(sum_all(s) == sum_all(seq![s1]).combine(s2));
}

/// With every numeric column off, a report line holds the input's name alone
/// (after the separating space), wherever names are shown.
pub proof fn lemma_names_only(s: Statistics, o: &Options, name: Seq<u8>)
    requires
        !o.bytes,
        !o.chars,
        !o.lines,
        !o.words,
        !o.max_line_length,
    ensures
        columns_text(s, o) == Seq::<u8>::empty(),
        names_shown(o) ==> line_text(s, o, name) == seq![32u8] + name,
{
    assert(columns_text(s, o) =~= Seq::<u8>::empty());
    assert(seq![32u8] + name =~= Seq::<u8>::empty() + seq![32u8] + name);
}

} // verus!
