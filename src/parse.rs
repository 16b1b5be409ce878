use vstd::prelude::*;
use crate::region::{all_digits, is_decimal_digit, table_view, Region};

verus! {

/// A white-space character as `char::is_whitespace` has it: the characters of
/// Unicode's `White_Space` property.
pub open spec fn is_white_space(c: char) -> bool {
    ||| '\t' <= c && c <= '\r'
    ||| c == ' '
    ||| c == '\u{85}'
    ||| c == '\u{a0}'
    ||| c == '\u{1680}'
    ||| '\u{2000}' <= c && c <= '\u{200a}'
    ||| c == '\u{2028}'
    ||| c == '\u{2029}'
    ||| c == '\u{202f}'
    ||| c == '\u{205f}'
    ||| c == '\u{3000}'
}

/// The first position at or after `i` that does not hold white space.
pub open spec fn trim_start(s: Seq<char>, i: int) -> int
    decreases s.len() - i,
{
    if 0 <= i < s.len() && is_white_space(s[i]) {
        trim_start(s, i + 1)
    } else {
        i
    }
}

/// The position down to which white space runs back from `j`, not passing `lo`.
pub open spec fn trim_end(s: Seq<char>, lo: int, j: int) -> int
    decreases j - lo,
{
    if lo < j && j <= s.len() && is_white_space(s[j - 1]) {
        trim_end(s, lo, j - 1)
    } else {
        j
    }
}

/// The line without its leading and trailing white space.
pub open spec fn trimmed(s: Seq<char>) -> Seq<char> {
    let lo = trim_start(s, 0);
    s.subrange(lo, trim_end(s, lo, s.len() as int))
}

/// The first position at or after `i` that holds white space, or the end.
pub open spec fn token_end(s: Seq<char>, i: int) -> int
    decreases s.len() - i,
{
    if 0 <= i < s.len() && !is_white_space(s[i]) {
        token_end(s, i + 1)
    } else {
        i
    }
}

/// The first two fields of a line, split on runs of white space after
/// trimming, when the line has at least two.
pub open spec fn two_fields(line: Seq<char>) -> Option<(Seq<char>, Seq<char>)> {
    let t = trimmed(line);
    let a = trim_start(t, 0);
    let b = token_end(t, a);
    let c = trim_start(t, b);
    let d = token_end(t, c);
    if c < t.len() {
        Some((t.subrange(a, b), t.subrange(c, d)))
    } else {
        None
    }
}

/// A line that holds nothing but white space.
pub open spec fn is_blank_line(line: Seq<char>) -> bool {
    trimmed(line).len() == 0
}

/// A line that is not blank but has fewer than two fields.
pub open spec fn is_invalid_line(line: Seq<char>) -> bool {
    !is_blank_line(line) && two_fields(line) is None
}

/// A line with at least two fields whose first field is all decimal digits.
pub open spec fn has_numeric_code(line: Seq<char>) -> bool {
    match two_fields(line) {
        Some(f) => all_digits(f.0),
        None => false,
    }
}

/// The region that a line describes: its first two fields, when it has two
/// and the first is all decimal digits.
pub open spec fn line_region(line: Seq<char>) -> Option<(Seq<char>, Seq<char>)> {
    if has_numeric_code(line) {
        two_fields(line)
    } else {
        None
    }
}

/// The lines as character sequences.
pub open spec fn lines_view(ls: Seq<String>) -> Seq<Seq<char>> {
    ls.map_values(|l: String| l@)
}

/// The regions that the lines describe, in line order.
pub open spec fn retained(ls: Seq<Seq<char>>) -> Seq<(Seq<char>, Seq<char>)> {
    ls.filter_map(|l: Seq<char>| line_region(l))
}

/// The one-based positions of the invalid lines, in order.
pub open spec fn invalid_positions(ls: Seq<Seq<char>>) -> Seq<int>
    decreases ls.len(),
{
    if ls.len() == 0 {
        Seq::empty()
    } else if is_invalid_line(ls.last()) {
        invalid_positions(ls.drop_last()).push(ls.len() as int)
    } else {
        invalid_positions(ls.drop_last())
    }
}

/// What a single input line holds.
#[derive(Debug, Clone)]
pub enum LineKind {
    /// Nothing but white space: skipped.
    Blank,
    /// Fewer than two fields: skipped and reported.
    Invalid,
    /// Two fields, but a first field that is not all decimal digits: dropped
    /// without a report.
    NotRegion,
    /// A region record.
    Entry(Region),
}

/// The outcome of parsing a whole table.
#[derive(Debug, Clone)]
pub struct ParseReport {
    /// The region records, in line order.
    pub regions: Vec<Region>,
    /// The number of lines read, blank ones included.
    pub lines_read: usize,
    /// The one-based positions of the lines that had fewer than two fields.
    pub invalid_lines: Vec<usize>,
}

/// Whether `c` is white space in the sense of `char::is_whitespace`.
pub fn white_space(c: char) -> (r: bool)
    ensures
        r == is_white_space(c),
{
    ('\t' <= c && c <= '\r') || c == ' ' || c == '\u{85}' || c == '\u{a0}' || c == '\u{1680}' || (
    '\u{2000}' <= c && c <= '\u{200a}') || c == '\u{2028}' || c == '\u{2029}' || c == '\u{202f}'
        || c == '\u{205f}' || c == '\u{3000}'
}

fn skip_white_space_from(s: &str, i: usize) -> (r: usize)
    requires
        i <= s@.len(),
    ensures
        r as int == trim_start(s@, i as int),
        i <= r <= s@.len(),
{
    let n = s.unicode_len();
    let mut j = i;
    while j < n && white_space(s.get_char(j))
        invariant
            n == s@.len(),
            i <= j <= n,
            trim_start(s@, i as int) == trim_start(s@, j as int),
        decreases n - j,
    {
        j = j + 1;
    }
    j
}

fn token_end_from(s: &str, i: usize) -> (r: usize)
    requires
        i <= s@.len(),
    ensures
        r as int == token_end(s@, i as int),
        i <= r <= s@.len(),
{
    let n = s.unicode_len();
    let mut j = i;
    while j < n && !white_space(s.get_char(j))
        invariant
            n == s@.len(),
            i <= j <= n,
            token_end(s@, i as int) == token_end(s@, j as int),
        decreases n - j,
    {
        j = j + 1;
    }
    j
}

/// Whether every character of `s` is a decimal digit.
pub fn is_numeric_code(s: &str) -> (r: bool)
    ensures
        r == all_digits(s@),
{
    let n = s.unicode_len();
    let mut i: usize = 0;
    while i < n
        invariant
            n == s@.len(),
            i <= n,
            forall|j: int| 0 <= j < i ==> is_decimal_digit(#[trigger] s@[j]),
        decreases n - i,
    {
        let c = s.get_char(i);
        if !('0' <= c && c <= '9') {
            return false;
        }
        i = i + 1;
    }
    true
}

/// The line without its leading and trailing white space.
pub fn trim_line(text: &str) -> (r: &str)
    ensures
        r@ == trimmed(text@),
{
    let n = text.unicode_len();
    let mut lo: usize = 0;
    while lo < n && white_space(text.get_char(lo))
        invariant
            n == text@.len(),
            lo <= n,
            trim_start(text@, 0) == trim_start(text@, lo as int),
        decreases n - lo,
    {
        lo = lo + 1;
    }
    let mut hi: usize = n;
    while hi > lo && white_space(text.get_char(hi - 1))
        invariant
            n == text@.len(),
            lo <= hi <= n,
            lo as int == trim_start(text@, 0),
            trim_end(text@, lo as int, n as int) == trim_end(text@, lo as int, hi as int),
        decreases hi,
    {
        hi = hi - 1;
    }
    text.substring_char(lo, hi)
}

/// Classifies one input line: blank, invalid (fewer than two fields), not a
/// region (first field not all decimal digits), or a region made of its first
/// two fields.
pub fn parse_line(text: &str) -> (r: LineKind)
    ensures
        match r {
            LineKind::Blank => is_blank_line(text@),
            LineKind::Invalid => is_invalid_line(text@),
            LineKind::NotRegion => two_fields(text@) is Some && line_region(text@) is None,
            LineKind::Entry(reg) => line_region(text@) == Some(reg@),
        },
{
    let t = trim_line(text);
    let n = t.unicode_len();
    if n == 0 {
        return LineKind::Blank;
    }
    let a = skip_white_space_from(t, 0);
    let b = token_end_from(t, a);
    let c = skip_white_space_from(t, b);
    let d = token_end_from(t, c);
    if c >= n {
        return LineKind::Invalid;
    }
    let code = t.substring_char(a, b);
    if !is_numeric_code(code) {
        return LineKind::NotRegion;
    }
    let name = t.substring_char(c, d);
    LineKind::Entry(Region::new(code, name))
}

/// Parses a table given as its lines: keeps the region records in line
/// order, counts the lines read, and notes the position of each line that has
/// fewer than two fields.
pub fn parse_lines(lines: &Vec<String>) -> (r: ParseReport)
    ensures
        r.lines_read == lines@.len(),
        table_view(r.regions@) == retained(lines_view(lines@)),
        r.invalid_lines@.map_values(|p: usize| p as int) == invalid_positions(lines_view(lines@)),
        r.regions@.len() == lines_view(lines@).filter(|l: Seq<char>| has_numeric_code(l)).len(),
{
    let ghost ls = lines_view(lines@);
    let mut regions: Vec<Region> = Vec::new();
    let mut invalid: Vec<usize> = Vec::new();
    let mut i: usize = 0;
    while i < lines.len()
        invariant
            ls == lines_view(lines@),
            i <= lines@.len(),
            table_view(regions@) == retained(ls.subrange(0, i as int)),
            invalid@.map_values(|p: usize| p as int) == invalid_positions(ls.subrange(0, i as int)),
        decreases lines@.len() - i,
    {
        let ghost pre = ls.subrange(0, i as int);
        let ghost next = ls.subrange(0, i + 1);
        assert(next.drop_last() =~= pre);
        assert(next.last() == lines@[i as int]@);
        match parse_line(lines[i].as_str()) {
            LineKind::Entry(reg) => {
                let ghost v = reg@;
                regions.push(reg);
                assert(table_view(regions@) =~= retained(pre) + seq![v]);
            },
            LineKind::Invalid => {
                invalid.push(i + 1);
                assert(invalid@.map_values(|p: usize| p as int) =~= invalid_positions(pre).push(
                    (i + 1) as int,
                ));
                assert(table_view(regions@) =~= retained(next));
            },
            _ => {
                assert(table_view(regions@) =~= retained(next));
            },
        }
        i = i + 1;
    }
    assert(ls.subrange(0, lines@.len() as int) =~= ls);
    proof {
        lemma_retained_count(ls);
    }
    ParseReport { regions, lines_read: lines.len(), invalid_lines: invalid }
}

/// The number of regions kept from a table equals the number of its lines
/// that have at least two fields and a first field made of decimal digits.
pub proof fn lemma_retained_count(ls: Seq<Seq<char>>)
    ensures
        retained(ls).len() == ls.filter(|l: Seq<char>| has_numeric_code(l)).len(),
    decreases ls.len(),
{
    reveal(Seq::filter);
    if ls.len() > 0 {
        lemma_retained_count(ls.drop_last());
    }
}

/// Whether `s` holds no line feed.
pub open spec fn has_no_line_feed(s: Seq<char>) -> bool {
    forall|i: int| 0 <= i < s.len() ==> #[trigger] s[i] != '\n'
}

proof fn lemma_token_end_bounds(s: Seq<char>, i: int)
    requires
        0 <= i <= s.len(),
    ensures
        i <= token_end(s, i) <= s.len(),
        forall|k: int| i <= k < token_end(s, i) ==> !is_white_space(#[trigger] s[k]),
    decreases s.len() - i,
{
    if i < s.len() && !is_white_space(s[i]) {
        lemma_token_end_bounds(s, i + 1);
    }
}

proof fn lemma_trim_start_bounds(s: Seq<char>, i: int)
    requires
        0 <= i <= s.len(),
    ensures
        i <= trim_start(s, i) <= s.len(),
    decreases s.len() - i,
{
    if i < s.len() && is_white_space(s[i]) {
        lemma_trim_start_bounds(s, i + 1);
    }
}

/// The fields of a line hold no line feed: line feeds separate fields.
pub proof fn lemma_fields_have_no_line_feed(line: Seq<char>)
    ensures
        two_fields(line) matches Some(f) ==> has_no_line_feed(f.0) && has_no_line_feed(f.1),
{
    let t = trimmed(line);
    lemma_trim_start_bounds(t, 0);
    let a = trim_start(t, 0);
    lemma_token_end_bounds(t, a);
    let b = token_end(t, a);
    lemma_trim_start_bounds(t, b);
    let c = trim_start(t, b);
    lemma_token_end_bounds(t, c);
    let d = token_end(t, c);
    if let Some(f) = two_fields(line) {
        assert forall|i: int| 0 <= i < f.0.len() implies #[trigger] f.0[i] != '\n' by {
            assert(f.0[i] == t[a + i]);
        }
        assert forall|i: int| 0 <= i < f.1.len() implies #[trigger] f.1[i] != '\n' by {
            assert(f.1[i] == t[c + i]);
        }
    }
}

/// Every region kept from a table has a code and a name without line feeds.
pub proof fn lemma_retained_have_no_line_feed(ls: Seq<Seq<char>>)
    ensures
        forall|i: int|
            0 <= i < retained(ls).len() ==> has_no_line_feed((#[trigger] retained(ls)[i]).0)
                && has_no_line_feed(retained(ls)[i].1),
    decreases ls.len(),
{
    if ls.len() > 0 {
        let rest = retained(ls.drop_last());
        lemma_retained_have_no_line_feed(ls.drop_last());
        lemma_fields_have_no_line_feed(ls.last());
        match line_region(ls.last()) {
            Some(e) => {
                assert(retained(ls) == rest + seq![e]);
                assert forall|i: int| 0 <= i < retained(ls).len() implies has_no_line_feed(
                    (#[trigger] retained(ls)[i]).0,
                ) && has_no_line_feed(retained(ls)[i].1) by {
                    if i < rest.len() {
                        assert(retained(ls)[i] == rest[i]);
                    }
                }
            },
            None => {
                assert(retained(ls) == rest);
            },
        }
    }
}

} // verus!
