//! Sequences of characters: conversion, search and building of strings.

use vstd::prelude::*;
use vstd::string::StringSliceAdditionalSpecFns;
use crate::syntax::find_run;

verus! {

/// The characters of `s`, in order.
pub fn to_chars(s: &str) -> (v: Vec<char>)
    ensures
        v@ == s@,
{
    let mut v: Vec<char> = Vec::new();
    for c in it: s.chars()
        invariant
            it.seq() == s@,
            v@ == it.seq().take(it.index()),
    {
        v.push(c);
    }
    v
}

/// `String::push`: the character is appended to what the string held.
pub assume_specification[ String::push ](s: &mut String, c: char)
    ensures
        final(s)@ == old(s)@.push(c),
;

/// The string made of the characters of `text` from `from` up to `to`.
pub fn collect(text: &Vec<char>, from: usize, to: usize) -> (s: String)
    requires
        from <= to <= text.len(),
    ensures
        s@ == text@.subrange(from as int, to as int),
{
    let mut s = String::new();
    let mut i: usize = from;
    while i < to
        invariant
            from <= i <= to <= text.len(),
            s@ == text@.subrange(from as int, i as int),
        decreases to - i,
    {
        s.push(text[i]);
        i += 1;
    }
    s
}

/// `s` with every occurrence of `from` replaced by `to`: the occurrences are
/// taken from the left and do not overlap.
pub open spec fn replaced(s: Seq<char>, from: Seq<char>, to: Seq<char>) -> Seq<char>
    decreases s.len(),
{
    if from.len() == 0 || s.len() < from.len() {
        s
    } else if s.subrange(0, from.len() as int) == from {
        to + replaced(s.skip(from.len() as int), from, to)
    } else {
        seq![s[0]] + replaced(s.skip(1), from, to)
    }
}

/// Whether `pattern` stands at `at` in `text`.
fn stands_at(text: &Vec<char>, at: usize, pattern: &Vec<char>) -> (r: bool)
    requires
        at <= text.len(),
    ensures
        r == (at + pattern.len() <= text.len() && text@.subrange(at as int, at + pattern.len())
            == pattern@),
{
    if text.len() - at < pattern.len() {
        return false;
    }
    let mut k: usize = 0;
    while k < pattern.len()
        invariant
            k <= pattern.len(),
            at + pattern.len() <= text.len(),
            forall|j: int| 0 <= j < k ==> text@[at + j] == pattern@[j],
        decreases pattern.len() - k,
    {
        if text[at + k] != pattern[k] {
            return false;
        }
        k += 1;
    }
    assert(text@.subrange(at as int, at + pattern.len()) =~= pattern@);
    true
}

/// `s` with every occurrence of `from`, a string that is not empty, replaced
/// by `to`.
pub fn replace_all(s: &str, from: &str, to: &str) -> (r: String)
    requires
        from@.len() > 0,
    ensures
        r@ == replaced(s@, from@, to@),
{
    let text = to_chars(s);
    let pattern = to_chars(from);
    let mut r = String::new();
    let mut i: usize = 0;
    assert(text@.skip(0) =~= s@);
    while i < text.len()
        invariant
            i <= text.len(),
            text@ == s@,
            pattern@ == from@,
            from@.len() > 0,
            replaced(s@, from@, to@) == r@ + replaced(text@.skip(i as int), from@, to@),
        decreases text.len() - i,
    {
        let ghost rest = text@.skip(i as int);
        assert(i + from@.len() <= text@.len() ==> rest.subrange(0, from@.len() as int)
            =~= text@.subrange(i as int, i + from@.len()));
        if stands_at(&text, i, &pattern) {
            r.append(to);
            assert(rest.skip(from@.len() as int) =~= text@.skip(i + from@.len()));
            i += pattern.len();
        } else {
            r.push(text[i]);
            assert(rest.skip(1) =~= text@.skip(i + 1));
            i += 1;
        }
    }
    r
}

/// What stands for a character in HTML text.
pub open spec fn escaped_char(c: char) -> Seq<char> {
    if c == '&' {
        "&amp;"@
    } else if c == '<' {
        "&lt;"@
    } else if c == '>' {
        "&gt;"@
    } else {
        seq![c]
    }
}

/// `s` as HTML text: `&`, `<` and `>` are written as entities, all else is
/// kept.
pub open spec fn escaped(s: Seq<char>) -> Seq<char>
    decreases s.len(),
{
    if s.len() == 0 {
        Seq::empty()
    } else {
        escaped_char(s[0]) + escaped(s.skip(1))
    }
}

/// `s` as HTML text.
pub fn escape(s: &str) -> (r: String)
    ensures
        r@ == escaped(s@),
{
    let text = to_chars(s);
    let mut r = String::new();
    let mut i: usize = 0;
    assert(text@.skip(0) =~= s@);
    while i < text.len()
        invariant
            i <= text.len(),
            text@ == s@,
            escaped(s@) == r@ + escaped(text@.skip(i as int)),
        decreases text.len() - i,
    {
        let ghost rest = text@.skip(i as int);
        let c = text[i];
        if c == '&' {
            r.append("&amp;");
        } else if c == '<' {
            r.append("&lt;");
        } else if c == '>' {
            r.append("&gt;");
        } else {
            r.push(c);
        }
        assert(rest.skip(1) =~= text@.skip(i + 1));
        i += 1;
    }
    r
}

/// Whether the two hold the same characters. They do where their bytes are the
/// same, since the characters can be read back from the bytes.
pub fn str_eq(a: &str, b: &str) -> (r: bool)
    ensures
        r == (a@ == b@),
{
    broadcast use vstd::utf8::encode_utf8_decode_utf8;

    let x = a.as_bytes();
    let y = b.as_bytes();
    if x.len() != y.len() {
        return false;
    }
    let mut i: usize = 0;
    while i < x.len()
        invariant
            i <= x.len(),
            x@.len() == y@.len(),
            x@ == a.spec_bytes(),
            y@ == b.spec_bytes(),
            forall|j: int| 0 <= j < i ==> x@[j] == y@[j],
        decreases x.len() - i,
    {
        if x[i] != y[i] {
            return false;
        }
        i += 1;
    }
    assert(x@ =~= y@);
    assert(vstd::utf8::decode_utf8(a.spec_bytes()) == a@);
    true
}

/// `open`, `inner` and `close`, one after the other.
pub fn wrap(open: &str, inner: &str, close: &str) -> (r: String)
    ensures
        r@ == open@ + inner@ + close@,
{
    let mut r = String::from_str(open);
    r.append(inner);
    r.append(close);
    r
}

/// The pieces, one after the other.
pub open spec fn concat(pieces: Seq<Seq<char>>) -> Seq<char>
    decreases pieces.len(),
{
    if pieces.len() == 0 {
        Seq::empty()
    } else {
        pieces[0] + concat(pieces.skip(1))
    }
}

/// One piece joined is that piece.
pub proof fn lemma_concat_one(piece: Seq<char>)
    ensures
        concat(seq![piece]) == piece,
{
    let one = seq![piece];
    assert(concat(one.skip(1)) =~= Seq::<char>::empty());
}

/// Joining pieces one after another: the first piece, then the rest.
pub proof fn lemma_concat_add(a: Seq<Seq<char>>, b: Seq<Seq<char>>)
    ensures
        concat(a + b) == concat(a) + concat(b),
    decreases a.len(),
{
    if a.len() > 0 {
        assert((a + b).skip(1) =~= a.skip(1) + b);
        lemma_concat_add(a.skip(1), b);
    }
}

/// Adding a piece at the end adds it at the end of the whole.
pub proof fn lemma_concat_push(pieces: Seq<Seq<char>>, piece: Seq<char>)
    ensures
        concat(pieces.push(piece)) == concat(pieces) + piece,
{
    lemma_concat_one(piece);
    lemma_concat_add(pieces, seq![piece]);
    assert(pieces.push(piece) =~= pieces + seq![piece]);
}

/// The lower-case form of an ASCII capital; any other character is kept.
pub open spec fn lower_char(c: char) -> char {
    if 'A' <= c <= 'Z' {
        ((c as u8) + 32) as char
    } else {
        c
    }
}

/// `s` with its ASCII capitals in lower case.
pub open spec fn lowered(s: Seq<char>) -> Seq<char> {
    Seq::new(s.len(), |i: int| lower_char(s[i]))
}

/// `s` with its ASCII capitals in lower case.
pub fn lower(s: &str) -> (r: String)
    ensures
        r@ == lowered(s@),
{
    let mut r = String::new();
    for c in it: s.chars()
        invariant
            it.seq() == s@,
            r@ == lowered(s@.take(it.index() as int)),
    {
        let l = if 'A' <= c && c <= 'Z' {
            ((c as u8) + 32) as char
        } else {
            c
        };
        r.push(l);
    }
    r
}

/// The digit that stands for a number below ten.
pub open spec fn digit_char(d: nat) -> char {
    (('0' as u8) + d) as char
}

/// `n` in decimal, without sign and without leading zeros.
pub open spec fn decimal_text(n: nat) -> Seq<char>
    decreases n,
{
    if n < 10 {
        seq![digit_char(n)]
    } else {
        decimal_text(n / 10).push(digit_char(n % 10))
    }
}

/// `n` in decimal.
pub fn decimal(n: u64) -> (r: String)
    ensures
        r@ == decimal_text(n as nat),
    decreases n,
{
    if n < 10 {
        let mut r = String::new();
        r.push((48u8 + n as u8) as char);
        r
    } else {
        let mut r = decimal(n / 10);
        r.push((48u8 + (n % 10) as u8) as char);
        r
    }
}

/// A path with another joined to it, with `/` between the two: a child that
/// begins with `/` stands for itself, and no `/` is added behind a base that is
/// empty or ends with one.
pub open spec fn path_join(base: Seq<char>, child: Seq<char>) -> Seq<char> {
    if child.len() > 0 && child[0] == '/' {
        child
    } else if base.len() == 0 || base.last() == '/' {
        base + child
    } else {
        base + "/"@ + child
    }
}

/// A path with another joined to it.
pub fn join_path(base: &str, child: &str) -> (r: String)
    ensures
        r@ == path_join(base@, child@),
{
    let first = to_chars(child);
    if first.len() > 0 && first[0] == '/' {
        return String::from_str(child);
    }
    let last = to_chars(base);
    let mut r = String::from_str(base);
    if last.len() > 0 && last[last.len() - 1] != '/' {
        r.append("/");
    }
    r.append(child);
    r
}

/// The extension of the file that a path names, as `std::path::Path::extension`
/// has it by the path rules of the platform.
pub uninterp spec fn path_extension(path: Seq<char>) -> Option<Seq<char>>;

/// Calls `std::path::Path::extension`, which gives the extension of the file
/// name of a path where it has one, and gives the result as text.
#[verifier::external_body]
pub(crate) fn extension(path: &str) -> (r: Option<String>)
    ensures
        (match r {
            Some(e) => Some(e@),
            None => None,
        }) == path_extension(path@),
{
    std::path::Path::new(path).extension().map(|e| e.to_string_lossy().into_owned())
}

/// The pieces of the window from `lo` to `hi` of `t` between the occurrences
/// of `c`. There is one piece more than there are occurrences; a piece may be
/// empty.
pub open spec fn split_window(t: Seq<char>, lo: int, hi: int, c: char) -> Seq<Seq<char>>
    decreases hi - lo,
{
    match find_run(t, lo, hi, c, 1) {
        Some(at) => if lo <= at < hi {
            seq![t.subrange(lo, at)] + split_window(t, at + 1, hi, c)
        } else {
            Seq::empty()
        },
        None => seq![t.subrange(lo, hi)],
    }
}

/// The pieces of `s` between the occurrences of `c`.
pub open spec fn split(s: Seq<char>, c: char) -> Seq<Seq<char>> {
    split_window(s, 0, s.len() as int, c)
}

/// The texts of a sequence of strings.
pub open spec fn texts(v: Seq<String>) -> Seq<Seq<char>> {
    Seq::new(v.len(), |i: int| v[i]@)
}

/// The pieces of `s` between the occurrences of `c`.
pub fn pieces(s: &str, c: char) -> (r: Vec<String>)
    ensures
        texts(r@) == split(s@, c),
        r@.len() >= 1,
{
    let text = to_chars(s);
    let hi = text.len();
    let mut out: Vec<String> = Vec::new();
    let mut lo: usize = 0;
    let mut i: usize = 0;
    while i < hi
        invariant
            lo <= i <= hi,
            hi == text.len(),
            text@ == s@,
            find_run(text@, lo as int, hi as int, c, 1) == find_run(text@, i as int, hi as int, c, 1),
            split(s@, c) == texts(out@) + split_window(text@, lo as int, hi as int, c),
        decreases hi - i,
    {
        if text[i] == c {
            let ghost before = texts(out@);
            out.push(collect(&text, lo, i));
            lo = i + 1;
        }
        i += 1;
    }
    let ghost before = texts(out@);
    out.push(collect(&text, lo, hi));
    out
}

/// Whether `s` starts with `prefix`.
pub fn has_prefix(s: &str, prefix: &str) -> (r: bool)
    ensures
        r == (prefix@.len() <= s@.len() && s@.subrange(0, prefix@.len() as int) == prefix@),
{
    let text = to_chars(s);
    let wanted = to_chars(prefix);
    if text.len() < wanted.len() {
        return false;
    }
    let mut k: usize = 0;
    while k < wanted.len()
        invariant
            k <= wanted.len() <= text.len(),
            text@ == s@,
            wanted@ == prefix@,
            forall|j: int| 0 <= j < k ==> text@[j] == wanted@[j],
        decreases wanted.len() - k,
    {
        if text[k] != wanted[k] {
            return false;
        }
        k += 1;
    }
    assert(s@.subrange(0, prefix@.len() as int) =~= prefix@);
    true
}

} // verus!
