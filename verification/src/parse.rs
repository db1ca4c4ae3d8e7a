//! Parsing document text into the value tree.
//!
//! The accepted language is defined exactly by `spec_parse`: a block mapping
//! whose nesting is given by indentation, with flow mappings (`{max: 10}`),
//! flow lists (`[[1, 2], [3, 4]]`) and scalars (booleans, unsigned integers,
//! decimal literals, double-quoted or plain text) on the right-hand sides.
//! Blank lines and lines whose first non-space character is `#` are ignored.
//! Richer forms of general structured text are not part of the language:
//! comments after a value on the same line, block-style sequences, single
//! quotes, escape sequences, anchors and tags are all rejected; a duplicated
//! key is not an error here (lookup takes the first occurrence).
//!
//! Every parsing function returns exactly what its spec-level counterpart
//! (`spec_scalar`, `spec_flow`, `spec_block`, `spec_split_lines`,
//! `spec_parse`) says of the text; the binder (`crate::bind`) then carries
//! the schema contract.

use vstd::prelude::*;
use vstd::string::StrSliceExecFns;
use crate::yaml::{
    DecimalLit, Entry, EntryView, Yaml, YamlView, lemma_list_view, lemma_mapping_view, list_view,
    mapping_view,
};

verus! {

broadcast use vstd::std_specs::vec::group_vec_axioms, vstd::string::group_string_axioms;

/// A decimal digit.
pub open spec fn is_digit(c: char) -> bool {
    48 <= c as u32 <= 57
}

/// The value of one digit.
pub open spec fn digit_val(c: char) -> int {
    c as u32 - 48
}

/// Every character is a digit.
pub open spec fn all_digits(s: Seq<char>) -> bool {
    forall|i: int| 0 <= i < s.len() ==> is_digit(#[trigger] s[i])
}

/// The number a digit string denotes, most significant digit first.
pub open spec fn digits_value(s: Seq<char>) -> int
    decreases s.len(),
{
    if s.len() == 0 {
        0
    } else {
        digits_value(s.drop_last()) * 10 + digit_val(s.last())
    }
}

/// A digit string's value is not negative.
proof fn lemma_digits_nonneg(s: Seq<char>)
    requires
        all_digits(s),
    ensures
        digits_value(s) >= 0,
    decreases s.len(),
{
    if s.len() > 0 {
        assert(all_digits(s.drop_last()));
        lemma_digits_nonneg(s.drop_last());
    }
}

/// A digit string's value dominates the value of any of its prefixes.
proof fn lemma_digits_prefix(s: Seq<char>, k: int)
    requires
        all_digits(s),
        0 <= k <= s.len(),
    ensures
        digits_value(s) >= digits_value(s.take(k)),
    decreases s.len(),
{
    if k < s.len() {
        assert(all_digits(s.drop_last()));
        lemma_digits_prefix(s.drop_last(), k);
        assert(s.drop_last().take(k) =~= s.take(k));
        lemma_digits_nonneg(s.drop_last());
    } else {
        assert(s.take(k) =~= s);
    }
}

/// `i` splits the string into a digit run, a dot, and another digit run.
pub open spec fn is_decimal_at(s: Seq<char>, i: int) -> bool {
    &&& 1 <= i <= s.len() - 2
    &&& s[i] == '.'
    &&& all_digits(s.take(i))
    &&& all_digits(s.skip(i + 1))
}

/// What a scalar token denotes: quoted text, a boolean, an unsigned integer,
/// a decimal literal, or (failing all of those) plain text.  `None` is a
/// malformed token: empty, badly quoted, or a number too large for 64 bits.
pub open spec fn spec_scalar(s: Seq<char>) -> Option<YamlView> {
    if s.len() == 0 {
        None
    } else if s[0] == '"' {
        if s.len() >= 2 && s[s.len() - 1] == '"' && (forall|j: int|
            1 <= j < s.len() - 1 ==> s[j] != '"') {
            Some(YamlView::Text(s.subrange(1, s.len() - 1)))
        } else {
            None
        }
    } else if s == "true"@ {
        Some(YamlView::Boolean(true))
    } else if s == "false"@ {
        Some(YamlView::Boolean(false))
    } else if all_digits(s) {
        if digits_value(s) <= u64::MAX {
            Some(YamlView::Unsigned(digits_value(s) as u64))
        } else {
            None
        }
    } else if exists|i: int| is_decimal_at(s, i) {
        let i = choose|i: int| is_decimal_at(s, i);
        if digits_value(s.take(i)) <= u64::MAX && digits_value(s.skip(i + 1)) <= u64::MAX {
            Some(
                YamlView::Decimal(
                    DecimalLit {
                        whole: digits_value(s.take(i)) as u64,
                        frac: digits_value(s.skip(i + 1)) as u64,
                        frac_digits: (s.len() - i - 1) as u64,
                    },
                ),
            )
        } else {
            None
        }
    } else {
        Some(YamlView::Text(s))
    }
}

/// The end of the digit run starting at `from`.
fn scan_digits(s: &str, n: usize, from: usize) -> (fnd: usize)
    requires
        n == s@.len(),
        from <= n,
    ensures
        from <= fnd <= n,
        forall|k: int| from <= k < fnd ==> is_digit(#[trigger] s@[k]),
        fnd < n ==> !is_digit(s@[fnd as int]),
{
    let mut j = from;
    while j < n
        invariant
            n == s@.len(),
            from <= j <= n,
            forall|k: int| from <= k < j ==> is_digit(#[trigger] s@[k]),
        decreases n - j,
    {
        let c = s.get_char(j);
        let code = c as u32;
        if code < 48 || code > 57 {
            return j;
        }
        j = j + 1;
    }
    j
}

/// Exact string comparison.
pub(crate) fn str_eq(a: &str, b: &str) -> (r: bool)
    ensures
        r == (a@ == b@),
{
    let sa: String = a.to_owned();
    let sb: String = b.to_owned();
    <String as PartialEq>::eq(&sa, &sb)
}

/// Reads the digit run `s[from..to]` as a 64-bit number; fails exactly when
/// the range is empty, holds a non-digit, or the value overflows.
fn parse_digits(s: &str, n: usize, from: usize, to: usize) -> (r: Result<u64, ()>)
    requires
        n == s@.len(),
        from <= to <= n,
    ensures
        match r {
            Ok(v) => {
                &&& to > from
                &&& all_digits(s@.subrange(from as int, to as int))
                &&& digits_value(s@.subrange(from as int, to as int)) == v
            },
            Err(_) => !{
                &&& to > from
                &&& all_digits(s@.subrange(from as int, to as int))
                &&& digits_value(s@.subrange(from as int, to as int)) <= u64::MAX
            },
        },
{
    let ghost whole = s@.subrange(from as int, to as int);
    if from >= to {
        return Err(());
    }
    let mut acc: u64 = 0;
    let mut i = from;
    while i < to
        invariant
            n == s@.len(),
            from <= i <= to <= n,
            whole == s@.subrange(from as int, to as int),
            all_digits(s@.subrange(from as int, i as int)),
            acc == digits_value(s@.subrange(from as int, i as int)),
        decreases to - i,
    {
        let c = s.get_char(i);
        let code = c as u32;
        proof {
            assert(s@.subrange(from as int, i + 1).drop_last() =~= s@.subrange(
                from as int,
                i as int,
            ));
            assert(s@.subrange(from as int, i + 1).last() == s@[i as int]);
        }
        if code < 48 || code > 57 {
            proof {
                assert(whole[i - from] == s@[i as int]);
                assert(!is_digit(whole[i - from]));
            }
            return Err(());
        }
        let d = (code - 48) as u64;
        if acc > u64::MAX / 10 || (acc == u64::MAX / 10 && d > u64::MAX % 10) {
            proof {
                let grown = s@.subrange(from as int, i + 1);
                assert(all_digits(grown));
                assert(digits_value(grown) == acc * 10 + d);
                assert(digits_value(grown) > u64::MAX);
                if all_digits(whole) {
                    lemma_digits_prefix(whole, i + 1 - from);
                    assert(whole.take(i + 1 - from) =~= grown);
                }
            }
            return Err(());
        }
        acc = acc * 10 + d;
        i = i + 1;
    }
    proof {
        assert(s@.subrange(from as int, i as int) =~= whole);
    }
    Ok(acc)
}

/// Classifies one scalar token, exactly as `spec_scalar` says.
fn classify_scalar(tok: &str, tn: usize) -> (r: Result<Yaml, ()>)
    requires
        tn == tok@.len(),
    ensures
        match r {
            Ok(y) => spec_scalar(tok@) == Some(y@),
            Err(_) => spec_scalar(tok@) is None,
        },
{
    if tn == 0 {
        return Err(());
    }
    let c0 = tok.get_char(0);
    if c0 == '"' {
        if tn < 2 {
            return Err(());
        }
        let clast = tok.get_char(tn - 1);
        if clast != '"' {
            return Err(());
        }
        let mut j: usize = 1;
        while j < tn - 1
            invariant
                tn == tok@.len(),
                2 <= tn,
                1 <= j <= tn - 1,
                tok@[0] == '"',
                forall|k: int| 1 <= k < j ==> tok@[k] != '"',
            decreases tn - j,
        {
            if tok.get_char(j) == '"' {
                return Err(());
            }
            j = j + 1;
        }
        let inner = tok.substring_char(1, tn - 1).to_owned();
        return Ok(Yaml::Text(inner));
    }
    if str_eq(tok, "true") {
        return Ok(Yaml::Boolean(true));
    }
    if str_eq(tok, "false") {
        return Ok(Yaml::Boolean(false));
    }
    // First index that does not hold a digit, if any.
    let fnd = scan_digits(tok, tn, 0);
    if fnd == tn {
        // All digits.
        proof {
            assert(tok@.subrange(0, tn as int) =~= tok@);
        }
        return match parse_digits(tok, tn, 0, tn) {
            Ok(v) => Ok(Yaml::Unsigned(v)),
            Err(_) => Err(()),
        };
    }
    let dot = tok.get_char(fnd);
    if dot == '.' && fnd >= 1 && tn - fnd >= 2 {
        // Candidate decimal literal: check the fractional digit run.
        let j = scan_digits(tok, tn, fnd + 1);
        if j < tn {
            proof {
                lemma_no_decimal(tok@, fnd as int, j as int);
            }
            return Ok(Yaml::Text(tok.to_owned()));
        }
        proof {
            assert(all_digits(tok@.take(fnd as int))) by {
                assert(forall|k: int|
                    0 <= k < fnd ==> is_digit(#[trigger] tok@.take(fnd as int)[k]));
            }
            assert(all_digits(tok@.skip(fnd + 1))) by {
                assert(forall|k: int|
                    0 <= k < tok@.skip(fnd + 1).len() ==> is_digit(
                        #[trigger] tok@.skip(fnd + 1)[k],
                    ));
            }
            assert(is_decimal_at(tok@, fnd as int));
            lemma_decimal_unique(tok@, fnd as int);
        }
        let whole = match parse_digits(tok, tn, 0, fnd) {
            Ok(v) => v,
            Err(_) => {
                proof {
                    assert(tok@.subrange(0, fnd as int) =~= tok@.take(fnd as int));
                }
                return Err(());
            },
        };
        let frac = match parse_digits(tok, tn, fnd + 1, tn) {
            Ok(v) => v,
            Err(_) => {
                proof {
                    assert(tok@.subrange(fnd + 1, tn as int) =~= tok@.skip(fnd + 1));
                }
                return Err(());
            },
        };
        proof {
            assert(tok@.subrange(0, fnd as int) =~= tok@.take(fnd as int));
            assert(tok@.subrange(fnd + 1, tn as int) =~= tok@.skip(fnd + 1));
        }
        return Ok(
            Yaml::Decimal(
                DecimalLit { whole, frac, frac_digits: (tn - fnd - 1) as u64 },
            ),
        );
    }
    proof {
        lemma_no_decimal_head(tok@, fnd as int);
    }
    Ok(Yaml::Text(tok.to_owned()))
}

/// One significant line of the document: its indentation depth in spaces and
/// its text with the indentation stripped.
pub struct Line {
    pub indent: usize,
    pub text: String,
    pub start: usize,
}

/// Mathematical model of a `Line`: indentation depth, text, and the
/// character offset of the line's start in the document.
pub struct LineView {
    pub indent: int,
    pub text: Seq<char>,
    pub start: int,
}

impl View for Line {
    type V = LineView;

    open spec fn view(&self) -> LineView {
        LineView { indent: self.indent as int, text: self.text@, start: self.start as int }
    }
}

/// The models of a run of lines.
spec fn lines_view(ls: Seq<Line>) -> Seq<LineView> {
    Seq::new(ls.len(), |i: int| ls[i]@)
}

/// The position of the next line break at or after `pos`, or the end.
pub open spec fn spec_line_end(s: Seq<char>, pos: int) -> int
    decreases s.len() - pos
        when 0 <= pos <= s.len()
{
    if pos >= s.len() || s[pos] == '\n' {
        pos
    } else {
        spec_line_end(s, pos + 1)
    }
}

/// The scanned line stays within bounds.
pub proof fn lemma_line_end_bounds(s: Seq<char>, pos: int)
    requires
        0 <= pos <= s.len(),
    ensures
        pos <= spec_line_end(s, pos) <= s.len(),
    decreases s.len() - pos,
{
    if pos < s.len() && s[pos] != '\n' {
        lemma_line_end_bounds(s, pos + 1);
    }
}

/// The position of the next line break at or after `from`, or the end.
fn line_end(s: &str, n: usize, from: usize) -> (end: usize)
    requires
        n == s@.len(),
        from <= n,
    ensures
        from <= end <= n,
        end == spec_line_end(s@, from as int),
{
    let mut j = from;
    while j < n
        invariant
            n == s@.len(),
            from <= j <= n,
            spec_line_end(s@, from as int) == spec_line_end(s@, j as int),
        decreases n - j,
    {
        if s.get_char(j) == '\n' {
            return j;
        }
        j = j + 1;
    }
    j
}

/// The significant lines of the document from `pos` on: blank and comment
/// lines dropped, each kept line carrying its indentation depth and its
/// text with the indentation stripped.
pub open spec fn spec_split_lines(s: Seq<char>, pos: int) -> Seq<LineView>
    decreases s.len() - pos
        when 0 <= pos <= s.len()
{
    if pos >= s.len() {
        Seq::empty()
    } else {
        let end = spec_line_end(s, pos);
        let ind = spec_skip_spaces(s, pos);
        proof {
            lemma_line_end_bounds(s, pos);
        }
        let next = if end < s.len() {
            end + 1
        } else {
            s.len() as int
        };
        let rest = spec_split_lines(s, next);
        if ind < end && s[ind] != '#' {
            seq![LineView { indent: ind - pos, text: s.subrange(ind, end), start: pos }] + rest
        } else {
            rest
        }
    }
}

/// The first position at or after `from` that holds no space.
pub open spec fn spec_skip_spaces(s: Seq<char>, from: int) -> int
    decreases s.len() - from
        when 0 <= from <= s.len()
{
    if from >= s.len() || s[from] != ' ' {
        from
    } else {
        spec_skip_spaces(s, from + 1)
    }
}

/// The skipped range is within bounds.
pub proof fn lemma_skip_spaces_bounds(s: Seq<char>, from: int)
    requires
        0 <= from <= s.len(),
    ensures
        from <= spec_skip_spaces(s, from) <= s.len(),
    decreases s.len() - from,
{
    if from < s.len() && s[from] == ' ' {
        lemma_skip_spaces_bounds(s, from + 1);
    }
}

/// The first position at or after `from` that holds no space.
fn skip_spaces(s: &str, n: usize, from: usize) -> (p: usize)
    requires
        n == s@.len(),
        from <= n,
    ensures
        from <= p <= n,
        p < n ==> s@[p as int] != ' ',
        forall|k: int| from <= k < p ==> s@[k] == ' ',
        p == spec_skip_spaces(s@, from as int),
{
    let mut j = from;
    while j < n
        invariant
            n == s@.len(),
            from <= j <= n,
            forall|k: int| from <= k < j ==> s@[k] == ' ',
            spec_skip_spaces(s@, from as int) == spec_skip_spaces(s@, j as int),
        decreases n - j,
    {
        if s.get_char(j) != ' ' {
            return j;
        }
        j = j + 1;
    }
    j
}

/// A character that ends a plain token.
pub open spec fn is_delimiter(c: char) -> bool {
    c == ',' || c == '}' || c == ']'
}

/// The end of a plain token: the next `,`, `}` or `]`, or the end.
pub open spec fn spec_token_end(s: Seq<char>, from: int) -> int
    decreases s.len() - from
        when 0 <= from <= s.len()
{
    if from >= s.len() || is_delimiter(s[from]) {
        from
    } else {
        spec_token_end(s, from + 1)
    }
}

/// The scanned token stays within bounds.
pub proof fn lemma_token_end_bounds(s: Seq<char>, from: int)
    requires
        0 <= from <= s.len(),
    ensures
        from <= spec_token_end(s, from) <= s.len(),
    decreases s.len() - from,
{
    if from < s.len() && !is_delimiter(s[from]) {
        lemma_token_end_bounds(s, from + 1);
    }
}

/// The end of a plain token: the next `,`, `}` or `]`, or the end.
fn token_end(s: &str, n: usize, from: usize) -> (end: usize)
    requires
        n == s@.len(),
        from <= n,
    ensures
        from <= end <= n,
        end < n ==> is_delimiter(s@[end as int]),
        forall|k: int| from <= k < end ==> !is_delimiter(#[trigger] s@[k]),
        end == spec_token_end(s@, from as int),
{
    let mut j = from;
    while j < n
        invariant
            n == s@.len(),
            from <= j <= n,
            forall|k: int| from <= k < j ==> !is_delimiter(#[trigger] s@[k]),
            spec_token_end(s@, from as int) == spec_token_end(s@, j as int),
        decreases n - j,
    {
        let c = s.get_char(j);
        if c == ',' || c == '}' || c == ']' {
            return j;
        }
        j = j + 1;
    }
    j
}

/// The end of the range `[from, to)` with trailing spaces dropped.
pub open spec fn spec_trim_trailing(s: Seq<char>, from: int, to: int) -> int
    decreases to
        when 0 <= from <= to <= s.len()
{
    if to <= from || s[to - 1] != ' ' {
        to
    } else {
        spec_trim_trailing(s, from, to - 1)
    }
}

/// Drops trailing spaces from the range `[from, to)`.
fn trim_trailing(s: &str, n: usize, from: usize, to: usize) -> (t: usize)
    requires
        n == s@.len(),
        from <= to <= n,
    ensures
        from <= t <= to,
        t > from ==> s@[t - 1] != ' ',
        forall|k: int| t <= k < to ==> s@[k] == ' ',
        t == spec_trim_trailing(s@, from as int, to as int),
{
    let mut j = to;
    while j > from
        invariant
            n == s@.len(),
            from <= j <= to <= n,
            forall|k: int| j <= k < to ==> s@[k] == ' ',
            spec_trim_trailing(s@, from as int, to as int) == spec_trim_trailing(
                s@,
                from as int,
                j as int,
            ),
        decreases j,
    {
        if s.get_char(j - 1) != ' ' {
            return j;
        }
        j = j - 1;
    }
    j
}

/// A character that cannot stand inside a key.
pub open spec fn is_structural(c: char) -> bool {
    c == ',' || c == '{' || c == '}' || c == '[' || c == ']'
}

/// The position of the next `:` before any structural character, if any.
pub open spec fn spec_find_colon(s: Seq<char>, from: int) -> Option<int>
    decreases s.len() - from
        when 0 <= from <= s.len()
{
    if from >= s.len() {
        None
    } else if s[from] == ':' {
        Some(from)
    } else if is_structural(s[from]) {
        None
    } else {
        spec_find_colon(s, from + 1)
    }
}

/// A found colon lies within bounds.
pub proof fn lemma_find_colon_bounds(s: Seq<char>, from: int)
    requires
        0 <= from <= s.len(),
    ensures
        match spec_find_colon(s, from) {
            Some(k) => from <= k < s.len() && s[k] == ':',
            None => true,
        },
    decreases s.len() - from,
{
    if from < s.len() && s[from] != ':' && !is_structural(s[from]) {
        lemma_find_colon_bounds(s, from + 1);
    }
}

/// The position of the next `:` before any structural character, if any.
fn find_colon(s: &str, n: usize, from: usize) -> (r: Option<usize>)
    requires
        n == s@.len(),
        from <= n,
    ensures
        match r {
            Some(k) => from <= k < n && s@[k as int] == ':' && spec_find_colon(
                s@,
                from as int,
            ) == Some(k as int),
            None => spec_find_colon(s@, from as int) is None,
        },
{
    let mut j = from;
    while j < n
        invariant
            n == s@.len(),
            from <= j <= n,
            spec_find_colon(s@, from as int) == spec_find_colon(s@, j as int),
        decreases n - j,
    {
        let c = s.get_char(j);
        if c == ':' {
            return Some(j);
        }
        if c == ',' || c == '{' || c == '}' || c == '[' || c == ']' {
            return None;
        }
        j = j + 1;
    }
    None
}

/// Splits the document into significant lines, dropping blank and comment
/// lines and measuring each line's indentation, exactly as
/// `spec_split_lines` says.
fn split_lines(s: &str) -> (lines: Vec<Line>)
    ensures
        lines_view(lines@) == spec_split_lines(s@, 0),
{
    let n = s.unicode_len();
    let mut lines: Vec<Line> = Vec::new();
    let mut pos: usize = 0;
    proof {
        assert(lines_view(lines@) + spec_split_lines(s@, 0) =~= spec_split_lines(s@, 0));
    }
    while pos < n
        invariant
            n == s@.len(),
            pos <= n,
            spec_split_lines(s@, 0) == lines_view(lines@) + spec_split_lines(s@, pos as int),
        decreases n - pos,
    {
        let ghost lv0 = lines_view(lines@);
        let end = line_end(s, n, pos);
        let ind = skip_spaces(s, n, pos);
        if ind < end {
            let c = s.get_char(ind);
            if c != '#' {
                let text = s.substring_char(ind, end).to_owned();
                let ghost lw = LineView {
                    indent: ind - pos,
                    text: s@.subrange(ind as int, end as int),
                    start: pos as int,
                };
                lines.push(Line { indent: ind - pos, text, start: pos });
                proof {
                    assert(lines_view(lines@) =~= lv0.push(lw));
                    assert(lv0 + (seq![lw] + spec_split_lines(
                        s@,
                        if end < n {
                            end + 1
                        } else {
                            n as int
                        },
                    )) =~= lv0.push(lw) + spec_split_lines(
                        s@,
                        if end < n {
                            end + 1
                        } else {
                            n as int
                        },
                    ));
                }
            }
        }
        if end < n {
            pos = end + 1;
        } else {
            pos = n;
        }
    }
    proof {
        assert(lines_view(lines@) + spec_split_lines(s@, n as int) =~= lines_view(lines@));
    }
    lines
}

/// The block mapping whose entries sit at exactly `indent`, starting at
/// line `i`: its entries and the first line index past the block.  This is
/// the meaning of `parse_block`.
pub open spec fn spec_block(lines: Seq<LineView>, i: int, indent: int) -> Option<
    (Seq<EntryView>, int),
>
    decreases lines.len() - i, 1int
        when 0 <= i <= lines.len()
{
    spec_block_rest(lines, i, i, indent, Seq::empty())
}

/// The remaining entries of a block mapping, from line `j` on, with `acc`
/// already read; an empty block (`j` still at the start `i0`) is malformed.
/// As in `spec_flow_map_rest`, the guards on the recursive positions only
/// satisfy the termination checker; parsed positions always meet them.
pub open spec fn spec_block_rest(
    lines: Seq<LineView>,
    i0: int,
    j: int,
    indent: int,
    acc: Seq<EntryView>,
) -> Option<(Seq<EntryView>, int)>
    decreases lines.len() - j, 0int
        when 0 <= j <= lines.len()
{
    if j >= lines.len() || lines[j].indent != indent {
        if j == i0 {
            None
        } else {
            Some((acc, j))
        }
    } else {
        let t = lines[j].text;
        match spec_find_colon(t, 0) {
            None => None,
            Some(k) => {
                proof {
                    lemma_find_colon_bounds(t, 0);
                }
                let kt = spec_trim_trailing(t, 0, k);
                if kt == 0 {
                    None
                } else {
                    let key = t.subrange(0, kt);
                    let vstart = spec_skip_spaces(t, k + 1);
                    proof {
                        lemma_skip_spaces_bounds(t, k + 1);
                    }
                    if vstart >= t.len() {
                        if j + 1 >= lines.len() || lines[j + 1].indent <= indent {
                            None
                        } else {
                            match spec_block(lines, j + 1, lines[j + 1].indent) {
                                None => None,
                                Some((ces, j2)) => {
                                    let j2c = if j + 1 < j2 && j2 <= lines.len() {
                                        j2
                                    } else {
                                        lines.len() as int
                                    };
                                    spec_block_rest(
                                        lines,
                                        i0,
                                        j2c,
                                        indent,
                                        acc.push(
                                            EntryView { key, value: YamlView::Mapping(ces) },
                                        ),
                                    )
                                },
                            }
                        }
                    } else {
                        match spec_flow(t, vstart) {
                            None => None,
                            Some((value, p2)) => {
                                let p2c = if vstart < p2 && p2 <= t.len() {
                                    p2
                                } else {
                                    t.len() as int
                                };
                                let after = spec_skip_spaces(t, p2c);
                                proof {
                                    lemma_skip_spaces_bounds(t, p2c);
                                }
                                if after < t.len() {
                                    None
                                } else {
                                    spec_block_rest(
                                        lines,
                                        i0,
                                        j + 1,
                                        indent,
                                        acc.push(EntryView { key, value }),
                                    )
                                }
                            },
                        }
                    }
                }
            }
        }
    }
}

/// One flow value (scalar, flow mapping or flow list) starting at or after
/// `pos`: the parsed node and the position just past it, or nothing where
/// the text is malformed.  This is the meaning of `parse_flow_value`.
pub open spec fn spec_flow(s: Seq<char>, pos: int) -> Option<(YamlView, int)>
    decreases s.len() - pos, 0int
        when 0 <= pos <= s.len()
{
    let start = spec_skip_spaces(s, pos);
    proof {
        lemma_skip_spaces_bounds(s, pos);
    }
    if start >= s.len() {
        None
    } else if s[start] == '{' {
        let cur = spec_skip_spaces(s, start + 1);
        proof {
            lemma_skip_spaces_bounds(s, start + 1);
        }
        if cur < s.len() && s[cur] == '}' {
            Some((YamlView::Mapping(Seq::empty()), cur + 1))
        } else {
            spec_flow_map_rest(s, cur, Seq::empty())
        }
    } else if s[start] == '[' {
        let cur = spec_skip_spaces(s, start + 1);
        proof {
            lemma_skip_spaces_bounds(s, start + 1);
        }
        if cur < s.len() && s[cur] == ']' {
            Some((YamlView::List(Seq::empty()), cur + 1))
        } else {
            spec_flow_list_rest(s, cur, Seq::empty())
        }
    } else {
        let tend0 = spec_token_end(s, start);
        let tend = spec_trim_trailing(s, start, tend0);
        proof {
            lemma_token_end_bounds(s, start);
        }
        if tend == start {
            None
        } else {
            match spec_scalar(s.subrange(start, tend)) {
                Some(v) => Some((v, tend0)),
                None => None,
            }
        }
    }
}

/// The remaining `key: value` entries of a flow mapping, starting at `cur`
/// with `acc` already read.  The guards on the recursive positions only
/// satisfy the termination checker; parsed positions always meet them.
pub open spec fn spec_flow_map_rest(s: Seq<char>, cur: int, acc: Seq<EntryView>) -> Option<
    (YamlView, int),
>
    decreases s.len() - cur, 1int
        when 0 <= cur <= s.len()
{
    let kstart = spec_skip_spaces(s, cur);
    proof {
        lemma_skip_spaces_bounds(s, cur);
    }
    match spec_find_colon(s, kstart) {
        None => None,
        Some(kend) => {
            proof {
                lemma_find_colon_bounds(s, kstart);
            }
            let kt = spec_trim_trailing(s, kstart, kend);
            if kt == kstart {
                None
            } else {
                let key = s.subrange(kstart, kt);
                match spec_flow(s, kend + 1) {
                    None => None,
                    Some((value, p2)) => {
                        let p2c = if kend + 1 < p2 && p2 <= s.len() {
                            p2
                        } else {
                            s.len() as int
                        };
                        let after = spec_skip_spaces(s, p2c);
                        proof {
                            lemma_skip_spaces_bounds(s, p2c);
                        }
                        let grown = acc.push(EntryView { key, value });
                        if after >= s.len() {
                            None
                        } else if s[after] == '}' {
                            Some((YamlView::Mapping(grown), after + 1))
                        } else if s[after] != ',' {
                            None
                        } else {
                            spec_flow_map_rest(s, after + 1, grown)
                        }
                    },
                }
            }
        },
    }
}

/// The remaining items of a flow list, starting at `cur` with `acc` already
/// read.  As in `spec_flow_map_rest`, the guards on the recursive positions
/// only satisfy the termination checker.
pub open spec fn spec_flow_list_rest(s: Seq<char>, cur: int, acc: Seq<YamlView>) -> Option<
    (YamlView, int),
>
    decreases s.len() - cur, 1int
        when 0 <= cur <= s.len()
{
    match spec_flow(s, cur) {
        None => None,
        Some((value, p2)) => {
            let p2c = if cur < p2 && p2 <= s.len() {
                p2
            } else {
                s.len() as int
            };
            let after = spec_skip_spaces(s, p2c);
            proof {
                lemma_skip_spaces_bounds(s, p2c);
            }
            let grown = acc.push(value);
            if after >= s.len() {
                None
            } else if s[after] == ']' {
                Some((YamlView::List(grown), after + 1))
            } else if s[after] != ',' {
                None
            } else {
                spec_flow_list_rest(s, after + 1, grown)
            }
        },
    }
}

/// Parses one flow value (scalar, flow mapping or flow list) starting at or
/// after `pos`, exactly as `spec_flow` says; on success the returned
/// position lies strictly beyond `pos`.
fn parse_flow_value(s: &str, n: usize, pos: usize) -> (r: Result<(Yaml, usize), ()>)
    requires
        n == s@.len(),
        pos <= n,
    ensures
        match r {
            Ok(p) => pos < p.1 <= n && spec_flow(s@, pos as int) == Some((p.0@, p.1 as int)),
            Err(_) => spec_flow(s@, pos as int) is None,
        },
    decreases n - pos,
{
    let start = skip_spaces(s, n, pos);
    if start >= n {
        return Err(());
    }
    let c = s.get_char(start);
    if c == '{' {
        let mut entries: Vec<Entry> = Vec::new();
        let mut cur = skip_spaces(s, n, start + 1);
        proof {
            lemma_mapping_view(entries@);
            assert(mapping_view(entries@) =~= Seq::<EntryView>::empty());
        }
        if cur < n && s.get_char(cur) == '}' {
            return Ok((Yaml::Mapping(entries), cur + 1));
        }
        loop
            invariant
                n == s@.len(),
                pos < cur <= n,
                spec_flow(s@, pos as int) == spec_flow_map_rest(
                    s@,
                    cur as int,
                    mapping_view(entries@),
                ),
            decreases n - cur,
        {
            let ghost acc = mapping_view(entries@);
            proof {
                lemma_mapping_view(entries@);
            }
            let kstart = skip_spaces(s, n, cur);
            let kend = match find_colon(s, n, kstart) {
                Some(k) => k,
                None => {
                    return Err(());
                },
            };
            let kt = trim_trailing(s, n, kstart, kend);
            if kt == kstart {
                return Err(());
            }
            let key = s.substring_char(kstart, kt).to_owned();
            let (value, p2) = match parse_flow_value(s, n, kend + 1) {
                Ok(p) => p,
                Err(e) => {
                    return Err(e);
                },
            };
            let ghost ev = EntryView { key: key@, value: value@ };
            entries.push(Entry { key, value });
            proof {
                lemma_mapping_view(entries@);
                assert(mapping_view(entries@) =~= acc.push(ev));
            }
            let after = skip_spaces(s, n, p2);
            if after >= n {
                return Err(());
            }
            let d = s.get_char(after);
            if d == '}' {
                return Ok((Yaml::Mapping(entries), after + 1));
            }
            if d != ',' {
                return Err(());
            }
            cur = after + 1;
        }
    }
    if c == '[' {
        let mut items: Vec<Yaml> = Vec::new();
        let mut cur = skip_spaces(s, n, start + 1);
        proof {
            lemma_list_view(items@);
            assert(list_view(items@) =~= Seq::<YamlView>::empty());
        }
        if cur < n && s.get_char(cur) == ']' {
            return Ok((Yaml::List(items), cur + 1));
        }
        loop
            invariant
                n == s@.len(),
                pos < cur <= n,
                spec_flow(s@, pos as int) == spec_flow_list_rest(
                    s@,
                    cur as int,
                    list_view(items@),
                ),
            decreases n - cur,
        {
            let ghost acc = list_view(items@);
            proof {
                lemma_list_view(items@);
            }
            let (value, p2) = match parse_flow_value(s, n, cur) {
                Ok(p) => p,
                Err(e) => {
                    return Err(e);
                },
            };
            let ghost vv = value@;
            items.push(value);
            proof {
                lemma_list_view(items@);
                assert(list_view(items@) =~= acc.push(vv));
            }
            let after = skip_spaces(s, n, p2);
            if after >= n {
                return Err(());
            }
            let d = s.get_char(after);
            if d == ']' {
                return Ok((Yaml::List(items), after + 1));
            }
            if d != ',' {
                return Err(());
            }
            cur = after + 1;
        }
    }
    let tend0 = token_end(s, n, start);
    let tend = trim_trailing(s, n, start, tend0);
    if tend == start {
        return Err(());
    }
    let tok = s.substring_char(start, tend);
    match classify_scalar(tok, tend - start) {
        Ok(y) => Ok((y, tend0)),
        Err(_) => Err(()),
    }
}

/// Parses the block mapping whose entries sit at exactly `indent`, starting
/// at line `i`, exactly as `spec_block` says; on success the returned index
/// is the first line that does not belong to the block.
fn parse_block(lines: &Vec<Line>, i: usize, indent: usize) -> (r: Result<
    (Vec<Entry>, usize),
    usize,
>)
    requires
        i <= lines@.len(),
    ensures
        match r {
            Ok(p) => i < p.1 <= lines@.len() && spec_block(
                lines_view(lines@),
                i as int,
                indent as int,
            ) == Some((mapping_view(p.0@), p.1 as int)),
            Err(_) => spec_block(lines_view(lines@), i as int, indent as int) is None,
        },
    decreases lines@.len() - i,
{
    let ghost lv = lines_view(lines@);
    let total = lines.len();
    let mut entries: Vec<Entry> = Vec::new();
    let mut j = i;
    proof {
        lemma_mapping_view(entries@);
        assert(mapping_view(entries@) =~= Seq::<EntryView>::empty());
    }
    loop
        invariant
            total == lines@.len(),
            i <= j <= total,
            lv == lines_view(lines@),
            spec_block(lv, i as int, indent as int) == spec_block_rest(
                lv,
                i as int,
                j as int,
                indent as int,
                mapping_view(entries@),
            ),
        decreases total - j,
    {
        let ghost acc = mapping_view(entries@);
        proof {
            lemma_mapping_view(entries@);
        }
        if j >= total || lines[j].indent != indent {
            if j == i {
                return Err(j);
            }
            return Ok((entries, j));
        }
        let t: &str = lines[j].text.as_str();
        let tn = t.unicode_len();
        proof {
            assert(lv[j as int] == lines@[j as int]@);
            assert(t@ == lv[j as int].text);
        }
        let k = match find_colon(t, tn, 0) {
            Some(k) => k,
            None => {
                return Err(j);
            },
        };
        let kt = trim_trailing(t, tn, 0, k);
        if kt == 0 {
            return Err(j);
        }
        let key = t.substring_char(0, kt).to_owned();
        let vstart = skip_spaces(t, tn, k + 1);
        if vstart >= tn {
            // The value is a nested block on the following, deeper lines.
            if j + 1 >= total || lines[j + 1].indent <= indent {
                return Err(j);
            }
            let child_indent = lines[j + 1].indent;
            proof {
                assert(lv[j + 1] == lines@[j + 1]@);
            }
            match parse_block(lines, j + 1, child_indent) {
                Ok((ces, j2)) => {
                    let ghost ev = EntryView {
                        key: key@,
                        value: YamlView::Mapping(mapping_view(ces@)),
                    };
                    entries.push(Entry { key, value: Yaml::Mapping(ces) });
                    proof {
                        lemma_mapping_view(entries@);
                        assert(mapping_view(entries@) =~= acc.push(ev));
                    }
                    j = j2;
                },
                Err(e) => {
                    return Err(e);
                },
            }
        } else {
            match parse_flow_value(t, tn, vstart) {
                Ok((value, p2)) => {
                    let after = skip_spaces(t, tn, p2);
                    if after < tn {
                        return Err(j);
                    }
                    let ghost ev = EntryView { key: key@, value: value@ };
                    entries.push(Entry { key, value });
                    proof {
                        lemma_mapping_view(entries@);
                        assert(mapping_view(entries@) =~= acc.push(ev));
                    }
                    j = j + 1;
                },
                Err(_) => {
                    return Err(j);
                },
            }
        }
    }
}

/// The whole document: a block mapping at indentation zero covering every
/// significant line, or nothing where the text is malformed.  This is the
/// meaning of `parse_document`.
pub open spec fn spec_parse(s: Seq<char>) -> Option<YamlView> {
    let lines = spec_split_lines(s, 0);
    if lines.len() == 0 {
        None
    } else if lines[0].indent != 0 {
        None
    } else {
        match spec_block(lines, 0, 0) {
            None => None,
            Some((entries, j)) => if j == lines.len() {
                Some(YamlView::Mapping(entries))
            } else {
                None
            },
        }
    }
}

/// Parses a whole document, exactly as `spec_parse` says: a block mapping
/// at indentation zero that covers every significant line.  A successful
/// parse is always a mapping node.
pub fn parse_document(s: &str) -> (r: Result<Yaml, usize>)
    ensures
        match r {
            Ok(y) => spec_parse(s@) == Some(y@) && y@ is Mapping,
            Err(_) => spec_parse(s@) is None,
        },
{
    let n = s.unicode_len();
    let lines = split_lines(s);
    if lines.len() == 0 {
        return Err(1);
    }
    proof {
        assert(lines_view(lines@)[0] == lines@[0]@);
    }
    if lines[0].indent != 0 {
        return Err(line_number_at(s, n, lines[0].start));
    }
    match parse_block(&lines, 0, 0) {
        Ok((entries, j)) => {
            if j == lines.len() {
                Ok(Yaml::Mapping(entries))
            } else {
                Err(line_number_at(s, n, lines[j].start))
            }
        },
        Err(j) => {
            let at = if j < lines.len() {
                lines[j].start
            } else {
                n
            };
            Err(line_number_at(s, n, at))
        },
    }
}

/// The one-based physical line number of the character offset `at` (counted
/// by line breaks before it); diagnostic only.
fn line_number_at(s: &str, n: usize, at: usize) -> (ln: usize)
    requires
        n == s@.len(),
{
    let upto = if at < n {
        at
    } else {
        n
    };
    let mut count: usize = 1;
    let mut i: usize = 0;
    while i < upto
        invariant
            n == s@.len(),
            upto <= n,
            i <= upto,
            count <= 1 + i,
        decreases upto - i,
    {
        if s.get_char(i) == '\n' && count < usize::MAX {
            count = count + 1;
        }
        i = i + 1;
    }
    count
}

/// If the first non-digit is at `fnd` and some later position `bad` inside
/// the fraction run is not a digit either, no split makes a decimal.
proof fn lemma_no_decimal(s: Seq<char>, fnd: int, bad: int)
    requires
        0 <= fnd < bad < s.len(),
        s[fnd] == '.',
        !is_digit(s[bad]),
        forall|k: int| 0 <= k < fnd ==> is_digit(#[trigger] s[k]),
        forall|k: int| fnd + 1 <= k < bad ==> is_digit(#[trigger] s[k]),
    ensures
        !exists|i: int| is_decimal_at(s, i),
{
    assert forall|i: int| !is_decimal_at(s, i) by {
        if is_decimal_at(s, i) {
            if i < fnd {
                assert(is_digit(s[i]));
            } else if i > fnd {
                assert(is_digit(s.take(i)[fnd]));
            } else {
                assert(is_digit(s.skip(i + 1)[bad - i - 1]));
            }
        }
    }
}

/// If the first non-digit is at `fnd` and is not a usable dot, no split
/// makes a decimal.
proof fn lemma_no_decimal_head(s: Seq<char>, fnd: int)
    requires
        0 <= fnd < s.len(),
        !is_digit(s[fnd]),
        forall|k: int| 0 <= k < fnd ==> is_digit(#[trigger] s[k]),
        !(s[fnd] == '.' && 1 <= fnd && fnd + 2 <= s.len()),
    ensures
        !exists|i: int| is_decimal_at(s, i),
{
    assert forall|i: int| !is_decimal_at(s, i) by {
        if is_decimal_at(s, i) {
            if i < fnd {
                assert(is_digit(s[i]));
            } else if i > fnd {
                assert(is_digit(s.take(i)[fnd]));
            }
        }
    }
}

/// A decimal split position is unique.
proof fn lemma_decimal_unique(s: Seq<char>, i: int)
    requires
        is_decimal_at(s, i),
        forall|k: int| 0 <= k < i ==> is_digit(#[trigger] s[k]),
    ensures
        (exists|j: int| is_decimal_at(s, j)),
        (choose|j: int| is_decimal_at(s, j)) == i,
{
    assert(is_decimal_at(s, i));
    let j = choose|j: int| is_decimal_at(s, j);
    if j < i {
        assert(is_digit(s[j]));
    } else if j > i {
        assert(is_digit(s.take(j)[i]));
    }
}

} // verus!
