use wordcount::{has_total, header, read_file, shows_names, total, FixedString, Options, Statistics};

fn lines(v: &[&str]) -> Vec<String> {
    v.iter().map(|s| s.to_string()).collect()
}

fn all_on(files: &[&str]) -> Options {
    Options {
        files: lines(files),
        bytes: true,
        chars: true,
        lines: true,
        words: true,
        max_line_length: true,
        filename: true,
        no_header: false,
    }
}

fn stats(bytes: u32, chars: u32, lines: u32, words: u32, max_line_length: u16) -> Statistics {
    Statistics { bytes, chars, lines, words, max_line_length }
}

fn text(b: &[u8]) -> String {
    String::from_utf8(b.to_vec()).unwrap()
}

#[test]
fn hello_world_counts() {
    let s = read_file(&lines(&["hello world\n", "foo\n"]));
    assert_eq!(s, stats(16, 16, 2, 3, 12));
}

#[test]
fn multibyte_chars_differ_from_bytes() {
    let s = read_file(&lines(&["h\u{e9}llo\n"]));
    assert_eq!(s.chars, 6);
    assert_eq!(s.bytes, 7);
    assert_eq!(s.max_line_length, 7);
}

#[test]
fn longest_line_in_bytes() {
    let s = read_file(&lines(&["ab\n", "abcde\n", "a\n"]));
    assert_eq!(s.max_line_length, 6);
}

#[test]
fn empty_input_is_all_zero() {
    let s = read_file(&Vec::new());
    assert_eq!(s, stats(0, 0, 0, 0, 0));
    assert_eq!(Statistics::new(), stats(0, 0, 0, 0, 0));
}

#[test]
fn unterminated_last_line_counts() {
    let s = read_file(&lines(&["a b\n", "c"]));
    assert_eq!(s.lines, 2);
    assert_eq!(s.bytes, 5);
    assert_eq!(s.words, 3);
    assert_eq!(s.chars, 5);
}

#[test]
fn bytes_are_sum_of_line_lengths() {
    let s = read_file(&lines(&["abc\n", "\n", "\u{20ac}\n", "xy"]));
    assert_eq!(s.bytes, 4 + 1 + 4 + 2);
    assert_eq!(s.lines, 4);
    assert_eq!(s.chars, 4 + 1 + 2 + 2);
}

#[test]
fn words_split_on_any_whitespace() {
    let s = read_file(&lines(&["  one\ttwo   three \n", "\u{3000}four\u{3000}five\n", "   \n"]));
    assert_eq!(s.words, 5);
}

#[test]
fn add_line_matches_read_file() {
    let mut s = Statistics::new();
    s.add_line("hello world\n");
    s.add_line("foo\n");
    assert_eq!(s, read_file(&lines(&["hello world\n", "foo\n"])));
}

#[test]
fn combine_is_associative_and_commutative() {
    let a = stats(1, 2, 3, 4, 5);
    let b = stats(10, 20, 30, 40, 2);
    let c = stats(u32::MAX, 7, 8, 9, 9);
    assert_eq!(a.add(b).add(c), a.add(b.add(c)));
    assert_eq!(a.add(b), b.add(a));
    assert_eq!(a.add(a).max_line_length, 5);
    assert_eq!(a.add(b), stats(11, 22, 33, 44, 5));
}

#[test]
fn combine_wraps_on_overflow() {
    let a = stats(u32::MAX, 0, 0, 0, 0);
    let b = stats(1, 0, 0, 0, 0);
    assert_eq!(a.add(b).bytes, 0);
}

#[test]
fn total_of_two_sources() {
    let s1 = stats(10, 9, 2, 3, 4);
    let s2 = stats(5, 5, 1, 1, 6);
    let t = total(&vec![s1, s2]);
    assert_eq!(t.bytes, 15);
    assert_eq!(t, stats(15, 14, 3, 4, 6));
    assert!(has_total(&all_on(&["a", "b"])));
    assert!(!has_total(&all_on(&["a"])));
    assert!(!has_total(&all_on(&[])));
    assert_eq!(total(&Vec::new()), Statistics::new());
}

#[test]
fn names_only_report() {
    let mut o = all_on(&["a.txt"]);
    o.bytes = false;
    o.chars = false;
    o.lines = false;
    o.words = false;
    o.max_line_length = false;
    let s = stats(16, 16, 2, 3, 12);
    assert_eq!(text(&s.report_line(&o, "a.txt")), " a.txt");
    let mut stdin = all_on(&[]);
    stdin.bytes = false;
    stdin.chars = false;
    stdin.lines = false;
    stdin.words = false;
    stdin.max_line_length = false;
    assert_eq!(text(&s.report_line(&stdin, "-")), " -");
}

#[test]
fn name_hidden_for_unnamed_stdin_without_filename_column() {
    let mut o = all_on(&[]);
    o.filename = false;
    assert!(!shows_names(&o));
    let s = stats(1, 1, 1, 0, 1);
    assert_eq!(text(&s.report_line(&o, "-")), "       1        1        1        0        1 ");
    let mut named = all_on(&["f"]);
    named.filename = false;
    assert!(shows_names(&named));
}

#[test]
fn full_report_line() {
    let s = stats(16, 16, 2, 3, 12);
    let o = all_on(&["-"]);
    assert_eq!(
        text(s.columns(&o).as_bytes()),
        "      16       16        2        3       12 "
    );
    assert_eq!(
        text(&s.report_line(&o, "-")),
        "      16       16        2        3       12  -"
    );
}

#[test]
fn wide_numbers_are_not_cut() {
    let s = stats(u32::MAX, u32::MAX, u32::MAX, u32::MAX, u16::MAX);
    let o = all_on(&["x"]);
    assert_eq!(
        text(s.columns(&o).as_bytes()),
        "4294967295 4294967295 4294967295 4294967295    65535 "
    );
}

#[test]
fn header_all_columns() {
    let h = header(&all_on(&[]));
    assert_eq!(text(h.as_bytes()), "   bytes    chars    lines    words      max filename\n");
    assert_eq!(h.as_bytes().len(), 54);
}

#[test]
fn header_some_columns() {
    let mut o = all_on(&[]);
    o.chars = false;
    o.max_line_length = false;
    o.filename = false;
    assert_eq!(text(header(&o).as_bytes()), "   bytes    lines    words\n");
}

#[test]
fn fixed_string_appends() {
    let mut s = FixedString::<16>::new();
    assert_eq!(s.as_bytes(), b"");
    s.write_lit("ab");
    s.push_str_unchecked("\u{e9}");
    s.write_fmt(42, 4);
    s.write_fmt(123456, 2);
    s.write_fmt(0, 1);
    assert_eq!(text(s.as_bytes()), "ab\u{e9}  421234560");
}
