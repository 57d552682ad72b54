use vstd::prelude::*;
use vstd::string::StringSliceAdditionalSpecFns;
use vstd::utf8::{is_ascii_chars, is_ascii_chars_encode_utf8};
use crate::fixed_string::{FixedString, decimal, padded};
use crate::stats::{Statistics, zero};

verus! {

/// Which columns the report shows, and which inputs it reads. An empty
/// `files` means standard input alone; the name `-` also stands for it.
pub struct Options {
    pub files: Vec<String>,
    pub bytes: bool,
    pub chars: bool,
    pub lines: bool,
    pub words: bool,
    pub max_line_length: bool,
    pub filename: bool,
    pub no_header: bool,
}

/// The bytes of `s` when `on` holds, nothing otherwise.
pub open spec fn when(on: bool, s: Seq<u8>) -> Seq<u8> {
    if on {
        s
    } else {
        Seq::empty()
    }
}

/// The header line: one title per enabled column, in column order, then a
/// newline.
pub open spec fn header_text(o: &Options) -> Seq<u8> {
    when(o.bytes, "   bytes".spec_bytes()) + when(o.chars, "    chars".spec_bytes()) + when(
        o.lines,
        "    lines".spec_bytes(),
    ) + when(o.words, "    words".spec_bytes()) + when(o.max_line_length, "      max".spec_bytes())
        + when(o.filename, " filename".spec_bytes()) + "\n".spec_bytes()
}

/// One numeric column: the value right-justified in eight places, then a
/// space.
pub open spec fn column(v: nat) -> Seq<u8> {
    padded(v, 8) + seq![32u8]
}

/// The numeric columns of one report line, in the order bytes, chars,
/// lines, words, longest line.
pub open spec fn columns_text(s: Statistics, o: &Options) -> Seq<u8> {
    when(o.bytes, column(s.bytes as nat)) + when(o.chars, column(s.chars as nat)) + when(
        o.lines,
        column(s.lines as nat),
    ) + when(o.words, column(s.words as nat)) + when(
        o.max_line_length,
        column(s.max_line_length as nat),
    )
}

/// Whether report lines end with the input's name: always, unless the
/// filename column is off and standard input is read without being named.
pub open spec fn names_shown(o: &Options) -> bool {
    o.filename || o.files.len() > 0
}

/// A full report line, without its newline.
pub open spec fn line_text(s: Statistics, o: &Options, name: Seq<u8>) -> Seq<u8> {
    if names_shown(o) {
        columns_text(s, o) + seq![32u8] + name
    } else {
        columns_text(s, o)
    }
}

/// Snapshots folded together left to right, from all zeros.
pub open spec fn sum_all(s: Seq<Statistics>) -> Statistics
    decreases s.len(),
{
    if s.len() == 0 {
        zero()
    } else {
        sum_all(s.drop_last()).combine(s.last())
    }
}

/// Powers of ten.
pub open spec fn pow10(k: nat) -> nat
    decreases k,
{
    if k == 0 {
        1
    } else {
        10 * pow10((k - 1) as nat)
    }
}

/// A number below 10^k has at most k digits.
pub proof fn lemma_decimal_len(n: nat, k: nat)
    requires
        k >= 1,
        n < pow10(k),
    ensures
        decimal(n).len() <= k,
    decreases n,
{
    if n >= 10 {
        let p = pow10((k - 1) as nat);
        assert(k >= 2) by {
            if k == 1 {
                assert(pow10(0) == 1);
            }
        }
        assert(n / 10 < p) by (nonlinear_arith)
            requires
                n < 10 * p,
        ;
        lemma_decimal_len(n / 10, (k - 1) as nat);
    }
}

proof fn lemma_u32_column_len(v: nat)
    requires
        v <= u32::MAX,
    ensures
        column(v).len() <= 11,
{
    reveal_with_fuel(pow10, 11);
    assert(pow10(10) == 10_000_000_000nat);
    lemma_decimal_len(v, 10);
}

/// Whether names end the report lines.
pub fn shows_names(options: &Options) -> (r: bool)
    ensures
        r == names_shown(options),
{
    options.filename || options.files.len() > 0
}

/// Whether a total line follows the per-input lines: only when more than
/// one input was named.
pub fn has_total(options: &Options) -> (r: bool)
    ensures
        r == (options.files.len() > 1),
{
    options.files.len() > 1
}

/// The grand total of the snapshots of all inputs.
pub fn total(stats: &Vec<Statistics>) -> (r: Statistics)
    ensures
        r == sum_all(stats@),
{
    let mut acc = Statistics::new();
    let mut i: usize = 0;
    while i < stats.len()
        invariant
            i <= stats.len(),
            acc == sum_all(stats@.take(i as int)),
        decreases stats.len() - i,
    {
        acc = acc.add(stats[i]);
        assert(stats@.take(i + 1).drop_last() == stats@.take(i as int));
        i = i + 1;
    }
    assert(stats@.take(stats.len() as int) == stats@);
    acc
}

/// An ASCII text has one byte per character.
proof fn lemma_ascii_len(s: &str)
    requires
        is_ascii_chars(s@),
    ensures
        s.spec_bytes().len() == s@.len(),
        forall|i: int| 0 <= i < s@.len() ==> #[trigger] s.spec_bytes()[i] == s@[i] as u8,
{
    is_ascii_chars_encode_utf8(s@);
}

/// The title line of the report, for the columns that `options` enables.
pub fn header(options: &Options) -> (r: FixedString<54>)
    ensures
        r@ == header_text(options),
{
    proof {
        reveal_strlit("   bytes");
        reveal_strlit("    chars");
        reveal_strlit("    lines");
        reveal_strlit("    words");
        reveal_strlit("      max");
        reveal_strlit(" filename");
        reveal_strlit("\n");
        lemma_ascii_len("   bytes");
        lemma_ascii_len("    chars");
        lemma_ascii_len("    lines");
        lemma_ascii_len("    words");
        lemma_ascii_len("      max");
        lemma_ascii_len(" filename");
        lemma_ascii_len("\n");
    }
    let mut s = FixedString::<54>::new();
    if options.bytes {
        s.write_lit("   bytes");
    }
    if options.chars {
        s.write_lit("    chars");
    }
    if options.lines {
        s.write_lit("    lines");
    }
    if options.words {
        s.write_lit("    words");
    }
    if options.max_line_length {
        s.write_lit("      max");
    }
    if options.filename {
        s.write_lit(" filename");
    }
    s.write_lit("\n");
    assert(s@ =~= header_text(options));
    s
}

fn push_column<const N: usize>(s: &mut FixedString<N>, v: u32)
    requires
        old(s)@.len() + 11 <= N,
    ensures
        final(s)@ == old(s)@ + column(v as nat),
{
    proof {
        lemma_u32_column_len(v as nat);
        reveal_strlit(" ");
        lemma_ascii_len(" ");
        assert(" ".spec_bytes()[0] == ' ' as u8);
        assert(" ".spec_bytes() =~= seq![32u8]);
    }
    s.write_fmt(v, 8);
    s.write_lit(" ");
    assert(s@ =~= old(s)@ + column(v as nat));
}

/// Appends the bytes of `b` to `v`.
fn extend(v: &mut Vec<u8>, b: &[u8])
    ensures
        final(v)@ == old(v)@ + b@,
{
    let mut i: usize = 0;
    while i < b.len()
        invariant
            i <= b@.len(),
            v@ == old(v)@ + b@.take(i as int),
        decreases b@.len() - i,
    {
        v.push(b[i]);
        assert(b@.take(i + 1) == b@.take(i as int).push(b@[i as int]));
        i = i + 1;
    }
    assert(b@.take(b@.len() as int) == b@);
}

impl Statistics {
    /// The numeric columns of this snapshot's report line.
    pub fn columns(&self, options: &Options) -> (r: FixedString<64>)
        ensures
            r@ == columns_text(*self, options),
    {
        let mut s = FixedString::<64>::new();
        proof {
            lemma_u32_column_len(self.bytes as nat);
            lemma_u32_column_len(self.chars as nat);
            lemma_u32_column_len(self.lines as nat);
            lemma_u32_column_len(self.words as nat);
            lemma_u32_column_len(self.max_line_length as nat);
        }
        if options.bytes {
            push_column(&mut s, self.bytes);
        }
        if options.chars {
            push_column(&mut s, self.chars);
        }
        if options.lines {
            push_column(&mut s, self.lines);
        }
        if options.words {
            push_column(&mut s, self.words);
        }
        if options.max_line_length {
            push_column(&mut s, self.max_line_length as u32);
        }
        assert(s@ =~= columns_text(*self, options));
        s
    }

    /// This snapshot's report line for the input called `name`, without the
    /// newline.
    pub fn report_line(&self, options: &Options, name: &str) -> (r: Vec<u8>)
        ensures
            r@ == line_text(*self, options, name.spec_bytes()),
    {
        let cols = self.columns(options);
        let mut out: Vec<u8> = Vec::new();
        extend(&mut out, cols.as_bytes());
        if shows_names(options) {
            out.push(32);
            extend(&mut out, name.as_bytes());
        }
        assert(out@ =~= line_text(*self, options, name.spec_bytes()));
        out
    }
}

} // verus!
