//! Reading the timings that a benchmark run prints.
//!
//! A run ends its output with a `warmup: <ns>` line and a `benchmark: <ns>`
//! line, in either order. The lines are read from the last one up: blank
//! lines are skipped, any other line must be one of the two, and reading
//! stops once both are known.

use vstd::prelude::*;

use crate::output::Timings;

verus! {

/// Whether `c` has the Unicode `White_Space` property.
pub open spec fn is_white(c: char) -> bool {
    ('\u{9}' <= c && c <= '\u{d}') || c == ' ' || c == '\u{85}' || c == '\u{a0}' || c
        == '\u{1680}' || ('\u{2000}' <= c && c <= '\u{200a}') || c == '\u{2028}' || c
        == '\u{2029}' || c == '\u{202f}' || c == '\u{205f}' || c == '\u{3000}'
}

/// Whether `line` holds nothing but white space.
pub open spec fn blank(line: Seq<char>) -> bool {
    forall|i: int| 0 <= i < line.len() ==> is_white(#[trigger] line[i])
}

/// The pieces of `s` between newline characters; there is always one more
/// piece than there are newlines.
pub open spec fn pieces(s: Seq<char>) -> Seq<Seq<char>>
    decreases s.len(),
{
    if s.len() == 0 {
        seq![Seq::empty()]
    } else {
        let p = pieces(s.drop_last());
        if s.last() == '\n' {
            p.push(Seq::empty())
        } else {
            p.update(p.len() - 1, p.last().push(s.last()))
        }
    }
}

/// `line` without one trailing carriage return.
pub open spec fn without_cr(line: Seq<char>) -> Seq<char> {
    if line.len() > 0 && line.last() == '\r' {
        line.drop_last()
    } else {
        line
    }
}

/// Each of `lines` without one trailing carriage return.
pub open spec fn strip_crs(lines: Seq<Seq<char>>) -> Seq<Seq<char>> {
    lines.map_values(|l: Seq<char>| without_cr(l))
}

/// What each of `lines` holds.
pub open spec fn line_views(lines: Seq<Vec<char>>) -> Seq<Seq<char>> {
    lines.map_values(|l: Vec<char>| l@)
}

/// The lines of `s`: the pieces between newlines, each ended by a newline
/// losing one trailing carriage return, and without the empty piece after
/// a final newline.
pub open spec fn lines(s: Seq<char>) -> Seq<Seq<char>> {
    let p = pieces(s);
    let ended = strip_crs(p.drop_last());
    if p.last().len() == 0 {
        ended
    } else {
        ended.push(p.last())
    }
}

/// Whether `c` is an ASCII digit.
pub open spec fn is_digit(c: char) -> bool {
    '0' <= c && c <= '9'
}

/// The value of the decimal digits `d`.
pub open spec fn decimal(d: Seq<char>) -> nat
    decreases d.len(),
{
    if d.len() == 0 {
        0
    } else {
        decimal(d.drop_last()) * 10 + ((d.last() as int) - ('0' as int)) as nat
    }
}

/// `t` without one leading plus sign.
pub open spec fn digits_part(t: Seq<char>) -> Seq<char> {
    if t.len() > 0 && t[0] == '+' {
        t.drop_first()
    } else {
        t
    }
}

/// Whether every character of `d` is a decimal digit.
pub open spec fn all_digits(d: Seq<char>) -> bool {
    forall|i: int| 0 <= i < d.len() ==> is_digit(#[trigger] d[i])
}

/// The unsigned 128-bit number that `t` spells: an optional `+`, then one
/// or more decimal digits, of a value that fits.
pub open spec fn parsed_u128(t: Seq<char>) -> Option<u128> {
    let d = digits_part(t);
    if d.len() > 0 && all_digits(d) && decimal(d) <= u128::MAX {
        Some(decimal(d) as u128)
    } else {
        None
    }
}

/// What follows `tag` at the start of `line`, if `line` starts with it.
pub open spec fn after_tag(line: Seq<char>, tag: Seq<char>) -> Option<Seq<char>> {
    if tag.len() <= line.len() && line.subrange(0, tag.len() as int) == tag {
        Some(line.subrange(tag.len() as int, line.len() as int))
    } else {
        None
    }
}

/// The tag of the benchmark time line.
pub open spec fn benchmark_tag() -> Seq<char> {
    seq!['b', 'e', 'n', 'c', 'h', 'm', 'a', 'r', 'k', ':', ' ']
}

/// The tag of the warmup time line.
pub open spec fn warmup_tag() -> Seq<char> {
    seq!['w', 'a', 'r', 'm', 'u', 'p', ':', ' ']
}

/// The warmup and benchmark times read from `lines`, last line first,
/// given those already read.
pub open spec fn scan(lines: Seq<Seq<char>>, warmup: Option<u128>, benchmark: Option<u128>) -> Option<
    (u128, u128),
>
    decreases lines.len(),
{
    if warmup is Some && benchmark is Some {
        Some((warmup->0, benchmark->0))
    } else if lines.len() == 0 {
        None
    } else {
        let line = lines.last();
        let rest = lines.drop_last();
        if blank(line) {
            scan(rest, warmup, benchmark)
        } else {
            match after_tag(line, benchmark_tag()) {
                Some(t) => match parsed_u128(t) {
                    Some(v) => scan(rest, warmup, Some(v)),
                    None => None,
                },
                None => match after_tag(line, warmup_tag()) {
                    Some(t) => match parsed_u128(t) {
                        Some(v) => scan(rest, Some(v), benchmark),
                        None => None,
                    },
                    None => None,
                },
            }
        }
    }
}

/// The timings of a run that took `execution` nanoseconds and printed
/// `stdout`.
pub open spec fn timings_of(execution: u128, stdout: Seq<char>) -> Option<Timings> {
    match scan(lines(stdout), None, None) {
        Some((w, b)) => Some(Timings { execution, warmup: w, benchmark: b }),
        None => None,
    }
}

/// The characters of `s`, in order.
pub fn chars_of(s: &str) -> (r: Vec<char>)
    ensures
        r@ == s@,
{
    broadcast use vstd::string::group_string_axioms;

    let mut out: Vec<char> = Vec::new();
    for c in it: s.chars()
        invariant
            out@ == it.seq().subrange(0, it.index() as int),
            it.seq() == s@,
    {
        out.push(c);
    }
    out
}

fn white(c: char) -> (r: bool)
    ensures
        r == is_white(c),
{
    ('\u{9}' <= c && c <= '\u{d}') || c == ' ' || c == '\u{85}' || c == '\u{a0}' || c
        == '\u{1680}' || ('\u{2000}' <= c && c <= '\u{200a}') || c == '\u{2028}' || c
        == '\u{2029}' || c == '\u{202f}' || c == '\u{205f}' || c == '\u{3000}'
}

fn is_blank(line: &Vec<char>) -> (r: bool)
    ensures
        r == blank(line@),
{
    let mut i: usize = 0;
    while i < line.len()
        invariant
            i <= line@.len(),
            forall|k: int| 0 <= k < i ==> is_white(#[trigger] line@[k]),
        decreases line.len() - i,
    {
        if !white(line[i]) {
            return false;
        }
        i = i + 1;
    }
    true
}

proof fn lemma_pieces_nonempty(s: Seq<char>)
    ensures
        pieces(s).len() >= 1,
    decreases s.len(),
{
    if s.len() > 0 {
        lemma_pieces_nonempty(s.drop_last());
    }
}

/// The lines of `s`, as [`lines`] describes them.
pub fn split_lines(s: &Vec<char>) -> (r: Vec<Vec<char>>)
    ensures
        line_views(r@) == lines(s@),
{
    let mut done: Vec<Vec<char>> = Vec::new();
    let mut cur: Vec<char> = Vec::new();
    let mut i: usize = 0;
    while i < s.len()
        invariant
            i <= s@.len(),
            pieces(s@.subrange(0, i as int)).len() >= 1,
            line_views(done@) == strip_crs(pieces(s@.subrange(0, i as int)).drop_last()),
            cur@ == pieces(s@.subrange(0, i as int)).last(),
        decreases s.len() - i,
    {
        let ghost before = s@.subrange(0, i as int);
        let ghost after = s@.subrange(0, i + 1);
        assert(after.drop_last() == before);
        proof {
            lemma_pieces_nonempty(after);
        }
        let c = s[i];
        let ghost old_done = line_views(done@);
        if c == '\n' {
            assert(pieces(after) == pieces(before).push(Seq::empty()));
            assert(pieces(after).drop_last() =~= pieces(before));
            assert(pieces(before) =~= pieces(before).drop_last().push(pieces(before).last()));
            let mut line = cur;
            let n = line.len();
            if n > 0 && line[n - 1] == '\r' {
                line.pop();
            }
            assert(line@ == without_cr(pieces(before).last()));
            done.push(line);
            cur = Vec::new();
            assert(line_views(done@) =~= old_done.push(line@));
            assert(strip_crs(pieces(after).drop_last()) =~= strip_crs(pieces(before).drop_last()).push(
                without_cr(pieces(before).last()),
            ));
        } else {
            cur.push(c);
            assert(pieces(after).drop_last() =~= pieces(before).drop_last());
        }
        i = i + 1;
    }
    assert(s@.subrange(0, s@.len() as int) =~= s@);
    if cur.len() > 0 {
        let ghost before = line_views(done@);
        done.push(cur);
        assert(line_views(done@) =~= before.push(pieces(s@).last()));
    }
    done
}

/// What follows `tag` at the start of `line`, if `line` starts with it.
fn strip_tag(line: &Vec<char>, tag: &Vec<char>) -> (r: Option<Vec<char>>)
    ensures
        r matches Some(t) ==> after_tag(line@, tag@) == Some(t@),
        r is None ==> after_tag(line@, tag@) is None,
{
    if tag.len() > line.len() {
        return None;
    }
    let mut i: usize = 0;
    while i < tag.len()
        invariant
            tag@.len() <= line@.len(),
            i <= tag@.len(),
            line@.subrange(0, i as int) == tag@.subrange(0, i as int),
        decreases tag.len() - i,
    {
        if line[i] != tag[i] {
            assert(line@.subrange(0, tag@.len() as int)[i as int] != tag@[i as int]);
            return None;
        }
        assert(line@.subrange(0, i + 1) =~= line@.subrange(0, i as int).push(line@[i as int]));
        assert(tag@.subrange(0, i + 1) =~= tag@.subrange(0, i as int).push(tag@[i as int]));
        i = i + 1;
    }
    assert(tag@.subrange(0, tag@.len() as int) =~= tag@);
    let mut rest: Vec<char> = Vec::new();
    let mut k: usize = tag.len();
    while k < line.len()
        invariant
            tag@.len() <= k <= line@.len(),
            rest@ == line@.subrange(tag@.len() as int, k as int),
        decreases line.len() - k,
    {
        rest.push(line[k]);
        assert(rest@ =~= line@.subrange(tag@.len() as int, k + 1));
        k = k + 1;
    }
    Some(rest)
}

proof fn lemma_decimal_grows(d: Seq<char>, k: int)
    requires
        0 <= k <= d.len(),
        forall|i: int| 0 <= i < d.len() ==> is_digit(#[trigger] d[i]),
    ensures
        decimal(d.subrange(0, k)) <= decimal(d),
    decreases d.len() - k,
{
    if k < d.len() {
        lemma_decimal_grows(d, k + 1);
        let sub = d.subrange(0, k + 1);
        assert(sub.drop_last() =~= d.subrange(0, k));
        assert(is_digit(d[k]));
        assert(sub.last() == d[k]);
        assert(decimal(sub) == decimal(d.subrange(0, k)) * 10 + ((d[k] as int) - ('0' as int)) as nat);
        assert(decimal(sub) >= decimal(d.subrange(0, k)));
    } else {
        assert(d.subrange(0, k) =~= d);
    }
}

/// The number that `t` spells, as [`parsed_u128`] describes it.
fn parse_u128(t: &Vec<char>) -> (r: Option<u128>)
    ensures
        r == parsed_u128(t@),
{
    let start: usize = if t.len() > 0 && t[0] == '+' {
        1
    } else {
        0
    };
    let ghost d = digits_part(t@);
    assert(d =~= t@.subrange(start as int, t@.len() as int));
    if start == t.len() {
        return None;
    }
    let mut value: u128 = 0;
    let mut i: usize = start;
    while i < t.len()
        invariant
            start <= i <= t@.len(),
            d == digits_part(t@),
            d == t@.subrange(start as int, t@.len() as int),
            forall|k: int| 0 <= k < i - start ==> is_digit(#[trigger] d[k]),
            value == decimal(d.subrange(0, i - start)),
        decreases t.len() - i,
    {
        let c = t[i];
        if !('0' <= c && c <= '9') {
            assert(d[i - start] == c);
            assert(!is_digit(d[i - start]));
            assert(!all_digits(d));
            assert(digits_part(t@) == d);
            assert(parsed_u128(t@) is None);
            return None;
        }
        let digit: u128 = (c as u32 - '0' as u32) as u128;
        assert(d.subrange(0, i + 1 - start).drop_last() =~= d.subrange(0, i - start));
        if value > (u128::MAX - digit) / 10 {
            proof {
                assert(decimal(d.subrange(0, i + 1 - start)) > u128::MAX) by (nonlinear_arith)
                    requires
                        value > (u128::MAX - digit) / 10,
                        decimal(d.subrange(0, i + 1 - start)) == value * 10 + digit,
                        digit <= 9,
                ;
                if all_digits(d) {
                    lemma_decimal_grows(d, i + 1 - start);
                }
            }
            return None;
        }
        proof {
            assert(value * 10 + digit <= u128::MAX) by (nonlinear_arith)
                requires
                    value <= (u128::MAX - digit) / 10,
                    digit <= 9,
            ;
        }
        value = value * 10 + digit;
        i = i + 1;
    }
    assert(d.subrange(0, d.len() as int) =~= d);
    Some(value)
}

/// The timings that a run reported, read from what it printed; `None` when
/// the output does not end with both times or holds another line among
/// them.
pub fn timings(execution: u128, stdout: &str) -> (r: Option<Timings>)
    ensures
        r == timings_of(execution, stdout@),
{
    let chars = chars_of(stdout);
    let all = split_lines(&chars);
    let benchmark_tag_chars = chars_of("benchmark: ");
    let warmup_tag_chars = chars_of("warmup: ");
    proof {
        reveal_strlit("benchmark: ");
        reveal_strlit("warmup: ");
        assert(benchmark_tag_chars@ =~= benchmark_tag());
        assert(warmup_tag_chars@ =~= warmup_tag());
    }
    let ghost ls = lines(stdout@);
    let mut warmup: Option<u128> = None;
    let mut benchmark: Option<u128> = None;
    let mut k: usize = all.len();
    assert(ls.subrange(0, k as int) =~= ls);
    loop
        invariant
            k <= all@.len(),
            line_views(all@) == ls,
            ls == lines(stdout@),
            benchmark_tag_chars@ == benchmark_tag(),
            warmup_tag_chars@ == warmup_tag(),
            scan(ls, None, None) == scan(ls.subrange(0, k as int), warmup, benchmark),
        ensures
            warmup is Some && benchmark is Some,
            scan(ls, None, None) == Some((warmup->0, benchmark->0)),
            ls == lines(stdout@),
        decreases k,
    {
        let ghost sub = ls.subrange(0, k as int);
        if warmup.is_some() && benchmark.is_some() {
            break;
        }
        if k == 0 {
            assert(sub.len() == 0);
            assert(scan(sub, warmup, benchmark) is None);
            return None;
        }
        let line = &all[k - 1];
        assert(sub.last() == line@);
        assert(sub.drop_last() =~= ls.subrange(0, k - 1));
        if !is_blank(line) {
            match strip_tag(line, &benchmark_tag_chars) {
                Some(t) => match parse_u128(&t) {
                    Some(v) => {
                        benchmark = Some(v);
                    },
                    None => {
                        return None;
                    },
                },
                None => match strip_tag(line, &warmup_tag_chars) {
                    Some(t) => match parse_u128(&t) {
                        Some(v) => {
                            warmup = Some(v);
                        },
                        None => {
                            return None;
                        },
                    },
                    None => {
                        return None;
                    },
                },
            }
        }
        k = k - 1;
    }
    match (warmup, benchmark) {
        (Some(w), Some(b)) => Some(Timings { execution, warmup: w, benchmark: b }),
        _ => None,
    }
}

} // verus!
