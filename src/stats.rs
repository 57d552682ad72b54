use vstd::prelude::*;
use vstd::std_specs::iter::IteratorSpec;
use vstd::utf8::encode_utf8;

verus! {

/// Whether `c` counts as whitespace when splitting a line into words.
pub uninterp spec fn is_space(c: char) -> bool;

/// Relies on `char::is_whitespace`: whether `c` has Unicode's White_Space
/// property, the same test that `str::split_whitespace` splits on.
#[verifier::external_body]
fn is_whitespace(c: char) -> (r: bool)
    ensures
        r == is_space(c),
{
    c.is_whitespace()
}

/// Number of raw bytes of `s` in UTF-8.
pub open spec fn byte_len(s: Seq<char>) -> nat {
    encode_utf8(s).len()
}

/// Whether a word starts at position `i` of `s`.
pub open spec fn starts_word(s: Seq<char>, i: int) -> bool {
    !is_space(s[i]) && (i == 0 || is_space(s[i - 1]))
}

/// Number of maximal runs of non-whitespace characters in `s`.
pub open spec fn word_count(s: Seq<char>) -> nat
    decreases s.len(),
{
    if s.len() == 0 {
        0
    } else {
        word_count(s.drop_last()) + if starts_word(s, s.len() - 1) {
            1nat
        } else {
            0nat
        }
    }
}

/// `x` reduced into the range of `u32`, as a wrapping counter holds it.
pub open spec fn wrap32(x: int) -> u32 {
    (x % 0x1_0000_0000) as u32
}

/// `x` reduced into the range of `u16`.
pub open spec fn wrap16(x: int) -> u16 {
    (x % 0x1_0000) as u16
}

pub open spec fn max16(a: u16, b: u16) -> u16 {
    if a >= b {
        a
    } else {
        b
    }
}

/// Running totals for one input stream, or for several folded together.
///
/// The counters are fixed-width and wrap on overflow: `bytes`, `chars`,
/// `lines` and `words` modulo 2^32, and each line's length is taken modulo
/// 2^16 before it is compared into `max_line_length`.
#[derive(Clone, Copy, Debug, PartialEq, Eq, Structural)]
pub struct Statistics {
    pub bytes: u32,
    pub chars: u32,
    pub lines: u32,
    pub words: u32,
    pub max_line_length: u16,
}

/// All counters at zero, as before any input is read.
pub open spec fn zero() -> Statistics {
    Statistics { bytes: 0, chars: 0, lines: 0, words: 0, max_line_length: 0 }
}

impl Statistics {
    /// The totals after one more line (terminator included) is read.
    pub open spec fn with_line(self, line: Seq<char>) -> Statistics {
        Statistics {
            bytes: wrap32(self.bytes + byte_len(line)),
            chars: wrap32(self.chars + line.len()),
            lines: wrap32(self.lines + 1),
            words: wrap32(self.words + word_count(line)),
            max_line_length: max16(self.max_line_length, wrap16(byte_len(line) as int)),
        }
    }

    /// Two snapshots folded into one: sums of the counters, maximum of the
    /// longest line.
    pub open spec fn combine(self, other: Statistics) -> Statistics {
        Statistics {
            bytes: wrap32(self.bytes + other.bytes),
            chars: wrap32(self.chars + other.chars),
            lines: wrap32(self.lines + other.lines),
            words: wrap32(self.words + other.words),
            max_line_length: max16(self.max_line_length, other.max_line_length),
        }
    }

    pub fn new() -> (r: Self)
        ensures
            r == zero(),
    {
        Statistics { bytes: 0, chars: 0, lines: 0, words: 0, max_line_length: 0 }
    }

    pub fn add(self, other: Self) -> (r: Self)
        ensures
            r == self.combine(other),
    {
        Statistics {
            bytes: self.bytes.wrapping_add(other.bytes),
            chars: self.chars.wrapping_add(other.chars),
            lines: self.lines.wrapping_add(other.lines),
            words: self.words.wrapping_add(other.words),
            max_line_length: if self.max_line_length >= other.max_line_length {
                self.max_line_length
            } else {
                other.max_line_length
            },
        }
    }

    /// Counts one line read from a stream, terminator bytes included.
    pub fn add_line(&mut self, line: &str)
        requires
            byte_len(line@) <= usize::MAX,
        ensures
            *final(self) == old(self).with_line(line@),
    {
        let ghost s = line@;
        let n = line.len();
        let mut chars: u32 = self.chars;
        let mut words: u32 = self.words;
        let mut prev_space: bool = true;
        for c in it: line.chars()
            invariant
                it.seq() == s,
                chars == wrap32(old(self).chars + it.index()),
                words == wrap32(old(self).words + word_count(s.take(it.index() as int))),
                it.index() > 0 ==> prev_space == is_space(s[it.index() - 1]),
                it.index() == 0 ==> prev_space,
        {
            let ghost i = it.index() as int;
            let space = is_whitespace(c);
            assert(s.take(i + 1).drop_last() == s.take(i));
            if !space && prev_space {
                words = words.wrapping_add(1);
            }
            chars = chars.wrapping_add(1);
            prev_space = space;
        }
        assert(s.take(s.len() as int) == s);
        let n64: u64 = n as u64;
        let n32: u32 = #[verifier::truncate] (n64 as u32);
        let len16: u16 = #[verifier::truncate] (n64 as u16);
        proof {
            assert(n32 == n64 % 0x1_0000_0000) by (bit_vector)
                requires
                    n32 == #[verifier::truncate] (n64 as u32),
            ;
            assert(len16 == n64 % 0x1_0000) by (bit_vector)
                requires
                    len16 == #[verifier::truncate] (n64 as u16),
            ;
            vstd::arithmetic::div_mod::lemma_add_mod_noop(
                old(self).bytes as int,
                n as int,
                0x1_0000_0000,
            );
            vstd::arithmetic::div_mod::lemma_mod_twice(n as int, 0x1_0000_0000);
        }
        self.bytes = self.bytes.wrapping_add(n32);
        self.chars = chars;
        self.lines = self.lines.wrapping_add(1);
        self.words = words;
        if len16 > self.max_line_length {
            self.max_line_length = len16;
        }
    }
}

/// The totals after reading `lines` one by one from an empty start.
pub open spec fn accumulate(lines: Seq<Seq<char>>) -> Statistics
    decreases lines.len(),
{
    if lines.len() == 0 {
        zero()
    } else {
        accumulate(lines.drop_last()).with_line(lines.last())
    }
}

/// The views of a list of lines.
pub open spec fn views(lines: Seq<String>) -> Seq<Seq<char>> {
    lines.map_values(|l: String| l@)
}

/// Counts every line of `lines` in order, each holding its terminator if it
/// had one; the last line may lack it.
pub fn read_file(lines: &Vec<String>) -> (r: Statistics)
    requires
        forall|i: int| 0 <= i < lines.len() ==> byte_len(#[trigger] lines[i]@) <= usize::MAX,
    ensures
        r == accumulate(views(lines@)),
{
    let mut statistics = Statistics::new();
    let mut i: usize = 0;
    while i < lines.len()
        invariant
            i <= lines.len(),
            forall|j: int| 0 <= j < lines.len() ==> byte_len(#[trigger] lines[j]@) <= usize::MAX,
            statistics == accumulate(views(lines@).take(i as int)),
        decreases lines.len() - i,
    {
        let ghost before = statistics;
        statistics.add_line(lines[i].as_str());
        proof {
            let v = views(lines@);
            assert(v.take(i + 1).drop_last() == v.take(i as int));
            assert(v.take(i + 1).last() == lines[i as int]@);
        }
        i = i + 1;
    }
    assert(views(lines@).take(lines.len() as int) == views(lines@));
    statistics
}

} // verus!
