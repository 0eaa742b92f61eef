//! Identifiers and labels built from free text.

use vstd::prelude::*;

verus! {

/// Whether `c` is an ASCII letter or digit.
pub open spec fn is_ascii_alnum(c: char) -> bool {
    ('0' <= c && c <= '9') || ('a' <= c && c <= 'z') || ('A' <= c && c <= 'Z')
}

/// `c` with an ASCII capital turned into its small letter.
pub open spec fn ascii_lower(c: char) -> char {
    if 'A' <= c && c <= 'Z' {
        ((c as u32) + 32) as char
    } else {
        c
    }
}

/// `c` with an ASCII small letter turned into its capital.
pub open spec fn ascii_upper(c: char) -> char {
    if 'a' <= c && c <= 'z' {
        ((c as u32) - 32) as char
    } else {
        c
    }
}

/// The slug of `s`: its ASCII letters and digits, lower-cased, and its
/// underscores except those that would follow a kept underscore.
pub open spec fn slug(s: Seq<char>) -> Seq<char>
    decreases s.len(),
{
    if s.len() == 0 {
        Seq::empty()
    } else {
        let kept = slug(s.drop_last());
        let c = s.last();
        if is_ascii_alnum(c) || (c == '_' && (kept.len() == 0 || kept.last() != '_')) {
            kept.push(ascii_lower(c))
        } else {
            kept
        }
    }
}

/// The ASCII letters, digits and underscores of `s`, lower-cased.
pub open spec fn id_chars(s: Seq<char>) -> Seq<char>
    decreases s.len(),
{
    if s.len() == 0 {
        Seq::empty()
    } else {
        let kept = id_chars(s.drop_last());
        let c = s.last();
        if is_ascii_alnum(c) || c == '_' {
            kept.push(ascii_lower(c))
        } else {
            kept
        }
    }
}

/// The label that an id gets when none is given: its first character
/// capitalised.
pub open spec fn default_label(id: Seq<char>) -> Seq<char> {
    if id.len() == 0 {
        id
    } else {
        id.update(0, ascii_upper(id[0]))
    }
}

/// Relies on `String::push`: appends one character.
#[verifier::external_body]
pub(crate) fn push_char(s: &mut String, c: char)
    ensures
        final(s)@ == old(s)@.push(c),
{
    s.push(c);
}

/// Relies on `String::push_str`: appends a string.
#[verifier::external_body]
pub(crate) fn push_str(s: &mut String, t: &str)
    ensures
        final(s)@ == old(s)@ + t@,
{
    s.push_str(t);
}

fn lower_char(c: char) -> (r: char)
    ensures
        r == ascii_lower(c),
{
    if 'A' <= c && c <= 'Z' {
        ((c as u8) + 32) as char
    } else {
        c
    }
}

fn upper_char(c: char) -> (r: char)
    ensures
        r == ascii_upper(c),
{
    if 'a' <= c && c <= 'z' {
        ((c as u8) - 32) as char
    } else {
        c
    }
}

/// Cleans an id: keeps ASCII letters and digits, lower-cased, and single
/// underscores. `None` when nothing is left.
pub fn clean_id(id: &str) -> (r: Option<String>)
    ensures
        r matches Some(s) ==> s@ == slug(id@) && s@.len() > 0,
        r is None <==> slug(id@).len() == 0,
{
    let n = id.unicode_len();
    let mut out = String::new();
    let mut i: usize = 0;
    while i < n
        invariant
            n == id@.len(),
            i <= n,
            out@ == slug(id@.subrange(0, i as int)),
        decreases n - i,
    {
        let c = id.get_char(i);
        assert(id@.subrange(0, i + 1).drop_last() == id@.subrange(0, i as int));
        let keep = if c == '_' {
            let l = out.unicode_len();
            l == 0 || out.as_str().get_char(l - 1) != '_'
        } else {
            ('0' <= c && c <= '9') || ('a' <= c && c <= 'z') || ('A' <= c && c <= 'Z')
        };
        if keep {
            push_char(&mut out, lower_char(c));
        }
        i = i + 1;
    }
    assert(id@.subrange(0, n as int) == id@);
    if out.unicode_len() == 0 {
        None
    } else {
        Some(out)
    }
}

/// The ASCII letters, digits and underscores of `id`, lower-cased.
pub fn id_from(id: &str) -> (r: String)
    ensures
        r@ == id_chars(id@),
{
    let n = id.unicode_len();
    let mut out = String::new();
    let mut i: usize = 0;
    while i < n
        invariant
            n == id@.len(),
            i <= n,
            out@ == id_chars(id@.subrange(0, i as int)),
        decreases n - i,
    {
        let c = id.get_char(i);
        assert(id@.subrange(0, i + 1).drop_last() == id@.subrange(0, i as int));
        if c == '_' || ('0' <= c && c <= '9') || ('a' <= c && c <= 'z') || ('A' <= c && c <= 'Z') {
            push_char(&mut out, lower_char(c));
        }
        i = i + 1;
    }
    assert(id@.subrange(0, n as int) == id@);
    out
}

/// `id` with its first character capitalised.
pub fn label_from(id: &str) -> (r: String)
    ensures
        r@ == default_label(id@),
{
    let n = id.unicode_len();
    let mut out = String::new();
    let mut i: usize = 0;
    while i < n
        invariant
            n == id@.len(),
            i <= n,
            out@ == default_label(id@).subrange(0, i as int),
        decreases n - i,
    {
        let c = id.get_char(i);
        let d = if i == 0 {
            upper_char(c)
        } else {
            c
        };
        push_char(&mut out, d);
        assert(out@ =~= default_label(id@).subrange(0, i + 1));
        i = i + 1;
    }
    assert(out@ =~= default_label(id@));
    out
}

} // verus!
