//! The markup parser: from a text to its syntax tree.

use vstd::prelude::*;
use vstd::string::StringSliceAdditionalSpecFns;
use vstd::utf8::{decode_utf8, valid_utf8};
use crate::charclass::{digit_char, link_inner_char, link_last_char, word_char};
use crate::syntax::{
    blockquote_at, channel_at, delimited_at, digit_run_end, directive_at, emoji_at,
    embed_hyperlink_at, find_run, first_hit, hit_at, hyperlink_at, id_end_at, inline_code_at,
    inner_nodes, italics_at, last_link_end, lemma_blockquote_bounds,
    lemma_delimited_bounds, lemma_find_run_bounds, lemma_first_hit_bounds,
    lemma_hyperlink_bounds, link_at, link_end, link_run_end, parse_nodes, parse_text, role_at,
    run_at, scheme_end, shrug, starts_with, user_at, word_run_end, Body, Match, Node,
};
use crate::text::{collect, to_chars};

verus! {

/// A node of the syntax tree. Text is borrowed from the input.
#[derive(Debug)]
pub enum Expression<'a> {
    Text(&'a str),
    CustomEmoji(&'a str, String),
    User(&'a str),
    Role(&'a str),
    Channel(&'a str),
    Hyperlink(&'a str, &'a str),
    Blockquote(Vec<Expression<'a>>),
    MultilineCode(&'a str),
    InlineCode(&'a str),
    Spoiler(Vec<Expression<'a>>),
    Underline(Vec<Expression<'a>>),
    Strikethrough(Vec<Expression<'a>>),
    Bold(Vec<Expression<'a>>),
    Italics(Vec<Expression<'a>>),
}

/// The mathematical value of a node.
pub open spec fn node_of(e: Expression) -> Node
    decreases e,
{
    match e {
        Expression::Text(s) => Node::Text(s@),
        Expression::CustomEmoji(name, file) => Node::CustomEmoji(name@, file@),
        Expression::User(id) => Node::User(id@),
        Expression::Role(id) => Node::Role(id@),
        Expression::Channel(id) => Node::Channel(id@),
        Expression::Hyperlink(text, href) => Node::Hyperlink(text@, href@),
        Expression::Blockquote(v) => Node::Blockquote(nodes_of(v@)),
        Expression::MultilineCode(s) => Node::MultilineCode(s@),
        Expression::InlineCode(s) => Node::InlineCode(s@),
        Expression::Spoiler(v) => Node::Spoiler(nodes_of(v@)),
        Expression::Underline(v) => Node::Underline(nodes_of(v@)),
        Expression::Strikethrough(v) => Node::Strikethrough(nodes_of(v@)),
        Expression::Bold(v) => Node::Bold(nodes_of(v@)),
        Expression::Italics(v) => Node::Italics(nodes_of(v@)),
    }
}

/// The mathematical values of a sequence of nodes.
pub open spec fn nodes_of(v: Seq<Expression>) -> Seq<Node>
    decreases v,
{
    Seq::new(
        v.len(),
        |i: int|
            if 0 <= i < v.len() {
                node_of(v[i])
            } else {
                Node::Text(Seq::empty())
            },
    )
}

impl<'a> View for Expression<'a> {
    type V = Node;

    open spec fn view(&self) -> Node {
        node_of(*self)
    }
}

/// Why a text could not be parsed.
#[derive(Debug, Clone, Copy, PartialEq, Eq, Structural)]
pub enum ParseError {
    /// The input is not well-formed UTF-8. A `&str` always is, so only bytes
    /// can fail to be parsed.
    Malformed,
}

/// Whether `r` is the position `p`.
spec fn same_position(r: Option<usize>, p: Option<int>) -> bool {
    match p {
        Some(at) => r == Some(at as usize) && 0 <= at <= usize::MAX,
        None => r is None,
    }
}

/// Whether `r` is the body `b`.
spec fn same_body(r: Option<(usize, usize, usize)>, b: Option<Body>) -> bool {
    match b {
        Some(b) => r matches Some(x) && x.0 == b.from && x.1 == b.to && x.2 == b.end,
        None => r is None,
    }
}

/// Whether `r` holds the node and the end of `m`.
spec fn same_match(r: Option<(usize, Expression)>, m: Option<Match>) -> bool {
    match m {
        Some(m) => r matches Some(x) && x.0 == m.end && node_of(x.1) == m.node,
        None => r is None,
    }
}

/// Whether `r` holds the children and the end of the body `b` found in the
/// window from `lo` to `hi`.
spec fn same_children(
    r: Option<(usize, Vec<Expression>)>,
    t: Seq<char>,
    lo: int,
    hi: int,
    b: Option<Body>,
) -> bool {
    match b {
        Some(b) => r matches Some(x) && x.0 == b.end && nodes_of(x.1@) == inner_nodes(t, lo, hi, b),
        None => r is None,
    }
}

/// Whether `r` holds the text and the end of the body `b`.
spec fn same_text(r: Option<(usize, &str)>, t: Seq<char>, b: Option<Body>) -> bool {
    match b {
        Some(b) => r matches Some(x) && x.0 == b.end && x.1@ == t.subrange(b.from, b.to),
        None => r is None,
    }
}

/// Adding a node at the end of a sequence adds its value at the end of the
/// values.
pub proof fn lemma_nodes_of_push(v: Seq<Expression>, e: Expression)
    ensures
        nodes_of(v.push(e)) == nodes_of(v).push(node_of(e)),
{
}

/// The slice of `input` from character `from` up to character `to`.
fn slice<'a>(input: &'a str, from: usize, to: usize) -> (s: &'a str)
    requires
        from <= to <= input@.len(),
    ensures
        s@ == input@.subrange(from as int, to as int),
{
    input.substring_char(from, to)
}

/// Whether the window starts with `pattern`.
fn prefix_is(text: &Vec<char>, lo: usize, hi: usize, pattern: &str) -> (r: bool)
    requires
        lo <= hi <= text.len(),
    ensures
        r == starts_with(text@, lo as int, hi as int, pattern@),
{
    let n = pattern.unicode_len();
    if hi - lo < n {
        return false;
    }
    let mut k: usize = 0;
    while k < n
        invariant
            k <= n,
            n == pattern@.len(),
            lo + n <= hi <= text.len(),
            forall|j: int| 0 <= j < k ==> text@[lo + j] == pattern@[j],
        decreases n - k,
    {
        if text[lo + k] != pattern.get_char(k) {
            return false;
        }
        k += 1;
    }
    assert(text@.subrange(lo as int, lo + n) =~= pattern@);
    true
}

fn word_run(text: &Vec<char>, from: usize, hi: usize) -> (end: usize)
    requires
        from <= hi <= text.len(),
    ensures
        end == word_run_end(text@, from as int, hi as int),
        from <= end <= hi,
{
    let mut i: usize = from;
    while i < hi && word_char(text[i])
        invariant
            from <= i <= hi <= text.len(),
            word_run_end(text@, from as int, hi as int) == word_run_end(text@, i as int, hi as int),
        decreases hi - i,
    {
        i += 1;
    }
    i
}

fn digit_run(text: &Vec<char>, from: usize, hi: usize) -> (end: usize)
    requires
        from <= hi <= text.len(),
    ensures
        end == digit_run_end(text@, from as int, hi as int),
        from <= end <= hi,
{
    let mut i: usize = from;
    while i < hi && digit_char(text[i])
        invariant
            from <= i <= hi <= text.len(),
            digit_run_end(text@, from as int, hi as int) == digit_run_end(
                text@,
                i as int,
                hi as int,
            ),
        decreases hi - i,
    {
        i += 1;
    }
    i
}

fn link_run(text: &Vec<char>, from: usize, hi: usize) -> (end: usize)
    requires
        from <= hi <= text.len(),
    ensures
        end == link_run_end(text@, from as int, hi as int),
        from <= end <= hi,
{
    let mut i: usize = from;
    while i < hi && link_inner_char(text[i])
        invariant
            from <= i <= hi <= text.len(),
            link_run_end(text@, from as int, hi as int) == link_run_end(text@, i as int, hi as int),
        decreases hi - i,
    {
        i += 1;
    }
    i
}

/// Where the identifier that starts at `start` ends, if a `>` follows it.
fn identifier(text: &Vec<char>, start: usize, hi: usize) -> (r: Option<usize>)
    requires
        start <= hi <= text.len(),
    ensures
        same_position(r, id_end_at(text@, start as int, hi as int)),
{
    let id_end = digit_run(text, start, hi);
    if start < id_end && id_end < hi && text[id_end] == '>' {
        Some(id_end)
    } else {
        None
    }
}

/// Parses a custom emoji: gives its name and the name of its file.
fn custom_emoji<'a>(input: &'a str, text: &Vec<char>, lo: usize, hi: usize) -> (r: Option<
    (usize, (&'a str, String)),
>)
    requires
        text@ == input@,
        lo <= hi <= text.len(),
    ensures
        match emoji_at(text@, lo as int, hi as int) {
            Some(m) => r matches Some(x) && x.0 == m.end && Node::CustomEmoji(x.1.0@, x.1.1@)
                == m.node,
            None => r is None,
        },
{
    if !(lo < hi && text[lo] == '<') {
        return None;
    }
    let animated = hi - lo > 1 && text[lo + 1] == 'a';
    let colon = if animated {
        lo + 2
    } else {
        lo + 1
    };
    if !(colon < hi && text[colon] == ':') {
        return None;
    }
    let name_end = word_run(text, colon + 1, hi);
    if !(colon + 1 < name_end && name_end < hi && text[name_end] == ':') {
        return None;
    }
    let id_end = digit_run(text, name_end + 1, hi);
    if !(name_end + 1 < id_end && id_end < hi && text[id_end] == '>') {
        return None;
    }
    let mut file = collect(text, name_end + 1, id_end);
    if animated {
        file.append(".gif");
    } else {
        file.append(".png");
    }
    Some((id_end + 1, (slice(input, colon + 1, name_end), file)))
}

/// Parses a user mention: gives the identifier.
fn user<'a>(input: &'a str, text: &Vec<char>, lo: usize, hi: usize) -> (r: Option<
    (usize, &'a str),
>)
    requires
        text@ == input@,
        lo <= hi <= text.len(),
    ensures
        match user_at(text@, lo as int, hi as int) {
            Some(m) => r matches Some(x) && x.0 == m.end && Node::User(x.1@) == m.node,
            None => r is None,
        },
{
    if !(hi - lo > 1 && text[lo] == '<' && text[lo + 1] == '@') {
        return None;
    }
    let start = if hi - lo > 2 && text[lo + 2] == '!' {
        lo + 3
    } else {
        lo + 2
    };
    match identifier(text, start, hi) {
        Some(id_end) => Some((id_end + 1, slice(input, start, id_end))),
        None => None,
    }
}

/// Parses a role mention: gives the identifier.
fn role<'a>(input: &'a str, text: &Vec<char>, lo: usize, hi: usize) -> (r: Option<
    (usize, &'a str),
>)
    requires
        text@ == input@,
        lo <= hi <= text.len(),
    ensures
        match role_at(text@, lo as int, hi as int) {
            Some(m) => r matches Some(x) && x.0 == m.end && Node::Role(x.1@) == m.node,
            None => r is None,
        },
{
    if !(hi - lo > 2 && text[lo] == '<' && text[lo + 1] == '@' && text[lo + 2] == '&') {
        return None;
    }
    match identifier(text, lo + 3, hi) {
        Some(id_end) => Some((id_end + 1, slice(input, lo + 3, id_end))),
        None => None,
    }
}

/// Parses a channel mention: gives the identifier.
fn channel<'a>(input: &'a str, text: &Vec<char>, lo: usize, hi: usize) -> (r: Option<
    (usize, &'a str),
>)
    requires
        text@ == input@,
        lo <= hi <= text.len(),
    ensures
        match channel_at(text@, lo as int, hi as int) {
            Some(m) => r matches Some(x) && x.0 == m.end && Node::Channel(x.1@) == m.node,
            None => r is None,
        },
{
    if !(hi - lo > 1 && text[lo] == '<' && text[lo + 1] == '#') {
        return None;
    }
    match identifier(text, lo + 2, hi) {
        Some(id_end) => Some((id_end + 1, slice(input, lo + 2, id_end))),
        None => None,
    }
}

/// Where the scheme of a link and its `://` end.
fn scheme(text: &Vec<char>, lo: usize, hi: usize) -> (r: Option<usize>)
    requires
        lo <= hi <= text.len(),
    ensures
        same_position(r, scheme_end(text@, lo as int, hi as int)),
{
    proof {
        reveal_strlit("https://");
        reveal_strlit("http://");
        reveal_strlit("ftp://");
        reveal_strlit("file://");
    }
    if prefix_is(text, lo, hi, "https://") {
        Some(lo + 8)
    } else if prefix_is(text, lo, hi, "http://") {
        Some(lo + 7)
    } else if prefix_is(text, lo, hi, "ftp://") {
        Some(lo + 6)
    } else if prefix_is(text, lo, hi, "file://") {
        Some(lo + 7)
    } else {
        None
    }
}

/// The largest position in `(from, to]` whose preceding character may end an
/// address.
fn last_end(text: &Vec<char>, from: usize, to: usize) -> (r: Option<usize>)
    requires
        from <= to <= text.len(),
    ensures
        same_position(r, last_link_end(text@, from as int, to as int)),
{
    let mut e: usize = to;
    while e > from && !link_last_char(text[e - 1])
        invariant
            from <= e <= to <= text.len(),
            last_link_end(text@, from as int, to as int) == last_link_end(
                text@,
                from as int,
                e as int,
            ),
        decreases e - from,
    {
        e -= 1;
    }
    if e > from {
        Some(e)
    } else {
        None
    }
}

/// Where the bare link that starts at `lo` ends.
fn link(text: &Vec<char>, lo: usize, hi: usize) -> (r: Option<usize>)
    requires
        lo <= hi <= text.len(),
    ensures
        same_position(r, link_end(text@, lo as int, hi as int)),
{
    match scheme(text, lo, hi) {
        Some(start) => {
            proof {
                reveal_strlit("https://");
                reveal_strlit("http://");
                reveal_strlit("ftp://");
                reveal_strlit("file://");
            }
            let run_end = link_run(text, start, hi);
            last_end(text, start, run_end)
        },
        None => None,
    }
}

/// Where the address of the link at `lo` starts and ends, and where the link
/// ends.
fn link_body(text: &Vec<char>, lo: usize, hi: usize) -> (r: Option<(usize, usize, usize)>)
    requires
        lo <= hi <= text.len(),
    ensures
        same_body(r, hyperlink_at(text@, lo as int, hi as int)),
{
    proof {
        lemma_hyperlink_bounds(text@, lo as int, hi as int);
    }
    match link(text, lo, hi) {
        Some(end) => Some((lo, end, end)),
        None => {
            if lo < hi && text[lo] == '<' {
                match link(text, lo + 1, hi) {
                    Some(end) => {
                        if end < hi && text[end] == '>' {
                            Some((lo + 1, end, end + 1))
                        } else {
                            None
                        }
                    },
                    None => None,
                }
            } else {
                None
            }
        },
    }
}

/// Parses a link, bare or in angle brackets: gives its text and its address,
/// which are the same.
fn hyperlink<'a>(input: &'a str, text: &Vec<char>, lo: usize, hi: usize) -> (r: Option<
    (usize, (&'a str, &'a str)),
>)
    requires
        text@ == input@,
        lo <= hi <= text.len(),
    ensures
        match hyperlink_at(text@, lo as int, hi as int) {
            Some(b) => r matches Some(x) && x.0 == b.end && x.1.0@ == text@.subrange(b.from, b.to)
                && x.1.1@ == text@.subrange(b.from, b.to),
            None => r is None,
        },
{
    proof {
        lemma_hyperlink_bounds(text@, lo as int, hi as int);
    }
    match link_body(text, lo, hi) {
        Some((from, to, end)) => {
            let address = slice(input, from, to);
            Some((end, (address, address)))
        },
        None => None,
    }
}

/// Parses a link by the rules of an embed: gives its text and its address.
fn embed_hyperlink<'a>(input: &'a str, text: &Vec<char>, lo: usize, hi: usize) -> (r: Option<
    (usize, (&'a str, &'a str)),
>)
    requires
        text@ == input@,
        lo <= hi <= text.len(),
    ensures
        match embed_hyperlink_at(text@, lo as int, hi as int) {
            Some(m) => r matches Some(x) && x.0 == m.end && Node::Hyperlink(x.1.0@, x.1.1@)
                == m.node,
            None => r is None,
        },
{
    match hyperlink(input, text, lo, hi) {
        Some(found) => Some(found),
        None => {
            if !(lo < hi && text[lo] == '[') {
                return None;
            }
            proof {
                lemma_find_run_bounds(text@, lo + 1, hi as int, ']', 1);
            }
            match find(text, lo + 1, hi, ']', 1) {
                Some(close) => {
                    if !(hi - close > 1 && text[close + 1] == '(') {
                        return None;
                    }
                    proof {
                        lemma_hyperlink_bounds(text@, close + 2, hi as int);
                    }
                    match link_body(text, close + 2, hi) {
                        Some((from, to, end)) => {
                            if end < hi && text[end] == ')' {
                                Some((end + 1, (slice(input, lo + 1, close), slice(input, from, to))))
                            } else {
                                None
                            }
                        },
                        None => None,
                    }
                },
                None => None,
            }
        },
    }
}

/// Whether `n` copies of `c` stand at `i`.
fn run(text: &Vec<char>, i: usize, c: char, n: usize) -> (r: bool)
    requires
        1 <= n <= 3,
        i + n <= text.len(),
    ensures
        r == run_at(text@, i as int, c, n as int),
{
    text[i] == c && (n < 2 || text[i + 1] == c) && (n < 3 || text[i + 2] == c)
}

/// The first position at or after `from` where `n` copies of `c` stand.
fn find(text: &Vec<char>, from: usize, hi: usize, c: char, n: usize) -> (r: Option<usize>)
    requires
        1 <= n <= 3,
        from <= hi <= text.len(),
    ensures
        same_position(r, find_run(text@, from as int, hi as int, c, n as int)),
{
    let mut i: usize = from;
    while hi - i >= n
        invariant
            1 <= n <= 3,
            from <= i <= hi <= text.len(),
            find_run(text@, from as int, hi as int, c, n as int) == find_run(
                text@,
                i as int,
                hi as int,
                c,
                n as int,
            ),
        decreases hi - i,
    {
        if run(text, i, c, n) {
            return Some(i);
        }
        i += 1;
    }
    None
}

/// The body between two delimiters of `n` copies of `c`, the first at `lo`.
fn delimited(text: &Vec<char>, lo: usize, hi: usize, c: char, n: usize) -> (r: Option<
    (usize, usize, usize),
>)
    requires
        1 <= n <= 3,
        lo <= hi <= text.len(),
    ensures
        same_body(r, delimited_at(text@, lo as int, hi as int, c, n as int)),
{
    proof {
        lemma_delimited_bounds(text@, lo as int, hi as int, c, n as int);
    }
    if hi - lo >= n && run(text, lo, c, n) {
        match find(text, lo + n, hi, c, n) {
            Some(close) => Some((lo + n, close, close + n)),
            None => None,
        }
    } else {
        None
    }
}

/// The body of the quotation at `lo`.
fn quoted(text: &Vec<char>, lo: usize, hi: usize) -> (r: Option<(usize, usize, usize)>)
    requires
        lo <= hi <= text.len(),
    ensures
        same_body(r, blockquote_at(text@, lo as int, hi as int)),
{
    proof {
        lemma_blockquote_bounds(text@, lo as int, hi as int);
    }
    if (lo == 0 || text[lo - 1] == '\n') && hi - lo > 1 && text[lo] == '>' && text[lo + 1] == ' ' {
        match find(text, lo + 2, hi, '\n', 1) {
            Some(close) => Some((lo + 2, close, close + 1)),
            None => Some((lo + 2, hi, hi)),
        }
    } else {
        None
    }
}

/// Parses a block of code between triple backticks: gives its text.
fn multiline_code<'a>(input: &'a str, text: &Vec<char>, lo: usize, hi: usize) -> (r: Option<
    (usize, &'a str),
>)
    requires
        text@ == input@,
        lo <= hi <= text.len(),
    ensures
        same_text(r, text@, delimited_at(text@, lo as int, hi as int, '`', 3)),
{
    proof {
        lemma_delimited_bounds(text@, lo as int, hi as int, '`', 3);
    }
    match delimited(text, lo, hi, '`', 3) {
        Some((from, to, end)) => Some((end, slice(input, from, to))),
        None => None,
    }
}

/// Parses inline code: gives its text.
fn inline_code<'a>(input: &'a str, text: &Vec<char>, lo: usize, hi: usize) -> (r: Option<
    (usize, &'a str),
>)
    requires
        text@ == input@,
        lo <= hi <= text.len(),
    ensures
        same_text(r, text@, inline_code_at(text@, lo as int, hi as int)),
{
    proof {
        lemma_delimited_bounds(text@, lo as int, hi as int, '`', 2);
        lemma_delimited_bounds(text@, lo as int, hi as int, '`', 1);
    }
    let body = match delimited(text, lo, hi, '`', 2) {
        Some(body) => Some(body),
        None => delimited(text, lo, hi, '`', 1),
    };
    match body {
        Some((from, to, end)) => Some((end, slice(input, from, to))),
        None => None,
    }
}

/// The children of a body that was found in the window from `lo` to `hi`.
fn children<'a>(
    input: &'a str,
    text: &Vec<char>,
    lo: usize,
    hi: usize,
    body: Option<(usize, usize, usize)>,
) -> (r: Option<(usize, Vec<Expression<'a>>)>)
    requires
        text@ == input@,
        lo <= hi <= text.len(),
        body matches Some(b) ==> lo < b.0 <= b.1 <= b.2 <= hi,
    ensures
        match body {
            Some(b) => r matches Some(x) && x.0 == b.2 && nodes_of(x.1@) == inner_nodes(
                text@,
                lo as int,
                hi as int,
                Body { from: b.0 as int, to: b.1 as int, end: b.2 as int },
            ),
            None => r is None,
        },
    decreases hi - lo, 1int,
{
    match body {
        Some((from, to, end)) => Some((end, parse_inline(input, text, from, to))),
        None => None,
    }
}

/// Parses a quotation: gives its children.
fn blockquote<'a>(input: &'a str, text: &Vec<char>, lo: usize, hi: usize) -> (r: Option<
    (usize, Vec<Expression<'a>>),
>)
    requires
        text@ == input@,
        lo <= hi <= text.len(),
    ensures
        same_children(r, text@, lo as int, hi as int, blockquote_at(text@, lo as int, hi as int)),
    decreases hi - lo, 2int,
{
    proof {
        lemma_blockquote_bounds(text@, lo as int, hi as int);
    }
    children(input, text, lo, hi, quoted(text, lo, hi))
}

/// Parses spoiler text: gives its children.
fn spoiler<'a>(input: &'a str, text: &Vec<char>, lo: usize, hi: usize) -> (r: Option<
    (usize, Vec<Expression<'a>>),
>)
    requires
        text@ == input@,
        lo <= hi <= text.len(),
    ensures
        same_children(
            r,
            text@,
            lo as int,
            hi as int,
            delimited_at(text@, lo as int, hi as int, '|', 2),
        ),
    decreases hi - lo, 2int,
{
    proof {
        lemma_delimited_bounds(text@, lo as int, hi as int, '|', 2);
    }
    children(input, text, lo, hi, delimited(text, lo, hi, '|', 2))
}

/// Parses underlined text: gives its children.
fn underline<'a>(input: &'a str, text: &Vec<char>, lo: usize, hi: usize) -> (r: Option<
    (usize, Vec<Expression<'a>>),
>)
    requires
        text@ == input@,
        lo <= hi <= text.len(),
    ensures
        same_children(
            r,
            text@,
            lo as int,
            hi as int,
            delimited_at(text@, lo as int, hi as int, '_', 2),
        ),
    decreases hi - lo, 2int,
{
    proof {
        lemma_delimited_bounds(text@, lo as int, hi as int, '_', 2);
    }
    children(input, text, lo, hi, delimited(text, lo, hi, '_', 2))
}

/// Parses struck-through text: gives its children.
fn strikethrough<'a>(input: &'a str, text: &Vec<char>, lo: usize, hi: usize) -> (r: Option<
    (usize, Vec<Expression<'a>>),
>)
    requires
        text@ == input@,
        lo <= hi <= text.len(),
    ensures
        same_children(
            r,
            text@,
            lo as int,
            hi as int,
            delimited_at(text@, lo as int, hi as int, '~', 2),
        ),
    decreases hi - lo, 2int,
{
    proof {
        lemma_delimited_bounds(text@, lo as int, hi as int, '~', 2);
    }
    children(input, text, lo, hi, delimited(text, lo, hi, '~', 2))
}

/// Parses bold text: gives its children.
fn bold<'a>(input: &'a str, text: &Vec<char>, lo: usize, hi: usize) -> (r: Option<
    (usize, Vec<Expression<'a>>),
>)
    requires
        text@ == input@,
        lo <= hi <= text.len(),
    ensures
        same_children(
            r,
            text@,
            lo as int,
            hi as int,
            delimited_at(text@, lo as int, hi as int, '*', 2),
        ),
    decreases hi - lo, 2int,
{
    proof {
        lemma_delimited_bounds(text@, lo as int, hi as int, '*', 2);
    }
    children(input, text, lo, hi, delimited(text, lo, hi, '*', 2))
}

/// Parses italic text: gives its children.
fn italics<'a>(input: &'a str, text: &Vec<char>, lo: usize, hi: usize) -> (r: Option<
    (usize, Vec<Expression<'a>>),
>)
    requires
        text@ == input@,
        lo <= hi <= text.len(),
    ensures
        same_children(r, text@, lo as int, hi as int, italics_at(text@, lo as int, hi as int)),
    decreases hi - lo, 2int,
{
    proof {
        lemma_delimited_bounds(text@, lo as int, hi as int, '_', 1);
        lemma_delimited_bounds(text@, lo as int, hi as int, '*', 1);
    }
    let body = match delimited(text, lo, hi, '_', 1) {
        Some(body) => Some(body),
        None => delimited(text, lo, hi, '*', 1),
    };
    children(input, text, lo, hi, body)
}

/// The directives that both modes share and that come before the link.
fn mention<'a>(input: &'a str, text: &Vec<char>, lo: usize, hi: usize) -> (r: Option<
    (usize, Expression<'a>),
>)
    requires
        text@ == input@,
        lo <= hi <= text.len(),
    ensures
        same_match(
            r,
            if let Some(m) = emoji_at(text@, lo as int, hi as int) {
                Some(m)
            } else if let Some(m) = user_at(text@, lo as int, hi as int) {
                Some(m)
            } else if let Some(m) = role_at(text@, lo as int, hi as int) {
                Some(m)
            } else {
                channel_at(text@, lo as int, hi as int)
            },
        ),
{
    if let Some((end, (name, file))) = custom_emoji(input, text, lo, hi) {
        return Some((end, Expression::CustomEmoji(name, file)));
    }
    if let Some((end, id)) = user(input, text, lo, hi) {
        return Some((end, Expression::User(id)));
    }
    if let Some((end, id)) = role(input, text, lo, hi) {
        return Some((end, Expression::Role(id)));
    }
    if let Some((end, id)) = channel(input, text, lo, hi) {
        return Some((end, Expression::Channel(id)));
    }
    None
}

/// The directives that both modes share and that come behind the link.
fn emphasis<'a>(input: &'a str, text: &Vec<char>, lo: usize, hi: usize) -> (r: Option<
    (usize, Expression<'a>),
>)
    requires
        text@ == input@,
        lo <= hi <= text.len(),
    ensures
        forall|embed: bool|
            emoji_at(text@, lo as int, hi as int) is None && user_at(text@, lo as int, hi as int)
                is None && role_at(text@, lo as int, hi as int) is None && channel_at(
                text@,
                lo as int,
                hi as int,
            ) is None && link_at(text@, lo as int, hi as int, embed) is None
                ==> same_match(r, #[trigger] directive_at(text@, lo as int, hi as int, embed)),
    decreases hi - lo, 3int,
{
    if let Some((end, kids)) = blockquote(input, text, lo, hi) {
        return Some((end, Expression::Blockquote(kids)));
    }
    if let Some((end, code)) = multiline_code(input, text, lo, hi) {
        return Some((end, Expression::MultilineCode(code)));
    }
    if let Some((end, code)) = inline_code(input, text, lo, hi) {
        return Some((end, Expression::InlineCode(code)));
    }
    if let Some((end, kids)) = spoiler(input, text, lo, hi) {
        return Some((end, Expression::Spoiler(kids)));
    }
    if let Some((end, kids)) = underline(input, text, lo, hi) {
        return Some((end, Expression::Underline(kids)));
    }
    if let Some((end, kids)) = strikethrough(input, text, lo, hi) {
        return Some((end, Expression::Strikethrough(kids)));
    }
    if let Some((end, kids)) = bold(input, text, lo, hi) {
        return Some((end, Expression::Bold(kids)));
    }
    if let Some((end, kids)) = italics(input, text, lo, hi) {
        return Some((end, Expression::Italics(kids)));
    }
    None
}

/// The directive at `lo`, with links as ordinary text takes them.
fn directive<'a>(input: &'a str, text: &Vec<char>, lo: usize, hi: usize) -> (r: Option<
    (usize, Expression<'a>),
>)
    requires
        text@ == input@,
        lo <= hi <= text.len(),
    ensures
        same_match(r, directive_at(text@, lo as int, hi as int, false)),
    decreases hi - lo, 4int,
{
    if let Some(found) = mention(input, text, lo, hi) {
        return Some(found);
    }
    if let Some((end, (label, address))) = hyperlink(input, text, lo, hi) {
        return Some((end, Expression::Hyperlink(label, address)));
    }
    emphasis(input, text, lo, hi)
}

/// The directive at `lo`, with links as an embed takes them.
fn embed_directive<'a>(input: &'a str, text: &Vec<char>, lo: usize, hi: usize) -> (r: Option<
    (usize, Expression<'a>),
>)
    requires
        text@ == input@,
        lo <= hi <= text.len(),
    ensures
        same_match(r, directive_at(text@, lo as int, hi as int, true)),
    decreases hi - lo, 4int,
{
    if let Some(found) = mention(input, text, lo, hi) {
        return Some(found);
    }
    if let Some((end, (label, address))) = embed_hyperlink(input, text, lo, hi) {
        return Some((end, Expression::Hyperlink(label, address)));
    }
    emphasis(input, text, lo, hi)
}

/// What the scan finds at `lo`.
fn hit<'a>(input: &'a str, text: &Vec<char>, lo: usize, hi: usize, embed: bool) -> (r: Option<
    (usize, Expression<'a>),
>)
    requires
        text@ == input@,
        lo < hi <= text.len(),
    ensures
        same_match(r, hit_at(text@, lo as int, hi as int, embed)),
    decreases hi - lo, 5int,
{
    let c = text[lo];
    if c == '\u{af}' && prefix_is(text, lo, hi, "\u{af}\\_(\u{30c4})_/\u{af}") {
        proof {
            reveal_strlit("\u{af}\\_(\u{30c4})_/\u{af}");
        }
        return Some((lo + 9, Expression::Text("\u{af}\\_(\u{30c4})_/\u{af}")));
    }
    proof {
        reveal_strlit("\u{af}\\_(\u{30c4})_/\u{af}");
        if starts_with(text@, lo as int, hi as int, shrug()) {
            assert(text@.subrange(lo as int, lo + 9)[0] == text@[lo as int]);
        }
    }
    if c == '\\' && hi - lo > 1 {
        assert(input@.subrange(lo + 1, lo + 2) =~= seq![text@[lo + 1]]);
        return Some((lo + 2, Expression::Text(slice(input, lo + 1, lo + 2))));
    }
    if embed {
        embed_directive(input, text, lo, hi)
    } else {
        directive(input, text, lo, hi)
    }
}

/// The first position at or after `from` where the scan finds something.
fn first<'a>(input: &'a str, text: &Vec<char>, from: usize, hi: usize, embed: bool) -> (r: Option<
    (usize, usize, Expression<'a>),
>)
    requires
        text@ == input@,
        from <= hi <= text.len(),
    ensures
        match first_hit(text@, from as int, hi as int, embed) {
            Some(found) => r matches Some(x) && x.0 == found.0 && x.1 == found.1.end && node_of(
                x.2,
            ) == found.1.node,
            None => r is None,
        },
    decreases hi - from, 6int,
{
    let mut at: usize = from;
    while at < hi
        invariant
            text@ == input@,
            from <= at <= hi <= text.len(),
            first_hit(text@, from as int, hi as int, embed) == first_hit(
                text@,
                at as int,
                hi as int,
                embed,
            ),
        decreases hi - at,
    {
        if let Some((end, node)) = hit(input, text, at, hi, embed) {
            return Some((at, end, node));
        }
        at += 1;
    }
    None
}

/// The tree of the window, in either mode.
fn scan<'a>(input: &'a str, text: &Vec<char>, lo: usize, hi: usize, embed: bool) -> (out: Vec<
    Expression<'a>,
>)
    requires
        text@ == input@,
        lo <= hi <= text.len(),
    ensures
        nodes_of(out@) == parse_nodes(text@, lo as int, hi as int, embed),
    decreases hi - lo, 7int,
{
    let mut out: Vec<Expression<'a>> = Vec::new();
    let mut cur: usize = lo;
    while cur < hi
        invariant
            text@ == input@,
            lo <= cur <= hi <= text.len(),
            parse_nodes(text@, lo as int, hi as int, embed) == nodes_of(out@) + parse_nodes(
                text@,
                cur as int,
                hi as int,
                embed,
            ),
        decreases hi - cur,
    {
        proof {
            lemma_first_hit_bounds(text@, cur as int, hi as int, embed);
        }
        let ghost before = nodes_of(out@);
        let ghost rest = parse_nodes(text@, cur as int, hi as int, embed);
        match first(input, text, cur, hi, embed) {
            Some((at, end, node)) => {
                if cur < at {
                    let plain = Expression::Text(slice(input, cur, at));
                    proof {
                        lemma_nodes_of_push(out@, plain);
                    }
                    out.push(plain);
                }
                proof {
                    lemma_nodes_of_push(out@, node);
                }
                out.push(node);
                assert(before + rest =~= nodes_of(out@) + parse_nodes(
                    text@,
                    end as int,
                    hi as int,
                    embed,
                ));
                cur = end;
            },
            None => {
                let plain = Expression::Text(slice(input, cur, hi));
                proof {
                    lemma_nodes_of_push(out@, plain);
                }
                out.push(plain);
                cur = hi;
            },
        }
    }
    out
}

/// Parses the window, counting whatever matches no directive as plain text.
fn parse_inline<'a>(input: &'a str, text: &Vec<char>, lo: usize, hi: usize) -> (out: Vec<
    Expression<'a>,
>)
    requires
        text@ == input@,
        lo <= hi <= text.len(),
    ensures
        nodes_of(out@) == parse_nodes(text@, lo as int, hi as int, false),
    decreases hi - lo, 8int,
{
    scan(input, text, lo, hi, false)
}

/// Parses the window by the rules of an embed, counting whatever matches no
/// directive as plain text.
fn parse_inline_embed<'a>(input: &'a str, text: &Vec<char>, lo: usize, hi: usize) -> (out: Vec<
    Expression<'a>,
>)
    requires
        text@ == input@,
        lo <= hi <= text.len(),
    ensures
        nodes_of(out@) == parse_nodes(text@, lo as int, hi as int, true),
    decreases hi - lo, 8int,
{
    scan(input, text, lo, hi, true)
}

/// Parses a text into its syntax tree. Every text has one: what matches no
/// directive is plain text.
pub fn parse<'a>(input: &'a str) -> (r: Result<Vec<Expression<'a>>, ParseError>)
    ensures
        r matches Ok(tree) && nodes_of(tree@) == parse_text(input@, false),
{
    let text = to_chars(input);
    Ok(parse_inline(input, &text, 0, text.len()))
}

/// Parses the text of an embed into its syntax tree. Every text has one: what
/// matches no directive is plain text.
pub fn parse_embed<'a>(input: &'a str) -> (r: Result<Vec<Expression<'a>>, ParseError>)
    ensures
        r matches Ok(tree) && nodes_of(tree@) == parse_text(input@, true),
{
    let text = to_chars(input);
    Ok(parse_inline_embed(input, &text, 0, text.len()))
}

/// Calls `core::str::from_utf8`, which gives the bytes as a string slice where
/// they are well-formed UTF-8, and an error where they are not.
#[verifier::external_body]
fn utf8<'a>(bytes: &'a [u8]) -> (r: Option<&'a str>)
    ensures
        r is Some <==> valid_utf8(bytes@),
        r matches Some(s) ==> s.spec_bytes() == bytes@,
{
    core::str::from_utf8(bytes).ok()
}

/// The text that the bytes encode, where they are well-formed UTF-8.
pub fn text_of<'a>(bytes: &'a [u8]) -> (r: Result<&'a str, ParseError>)
    ensures
        if valid_utf8(bytes@) {
            r matches Ok(s) && s@ == decode_utf8(bytes@)
        } else {
            r == Err::<&str, ParseError>(ParseError::Malformed)
        },
{
    broadcast use vstd::utf8::encode_utf8_decode_utf8;

    match utf8(bytes) {
        Some(s) => {
            assert(decode_utf8(s.spec_bytes()) == s@);
            Ok(s)
        },
        None => Err(ParseError::Malformed),
    }
}

/// Parses the bytes of a text into its syntax tree. It fails on bytes that are
/// not well-formed UTF-8, and on nothing else.
pub fn parse_bytes<'a>(input: &'a [u8]) -> (r: Result<Vec<Expression<'a>>, ParseError>)
    ensures
        if valid_utf8(input@) {
            r matches Ok(tree) && nodes_of(tree@) == parse_text(decode_utf8(input@), false)
        } else {
            r == Err::<Vec<Expression>, ParseError>(ParseError::Malformed)
        },
{
    match text_of(input) {
        Ok(text) => parse(text),
        Err(e) => Err(e),
    }
}

/// Parses the bytes of the text of an embed into its syntax tree. It fails on
/// bytes that are not well-formed UTF-8, and on nothing else.
pub fn parse_embed_bytes<'a>(input: &'a [u8]) -> (r: Result<Vec<Expression<'a>>, ParseError>)
    ensures
        if valid_utf8(input@) {
            r matches Ok(tree) && nodes_of(tree@) == parse_text(decode_utf8(input@), true)
        } else {
            r == Err::<Vec<Expression>, ParseError>(ParseError::Malformed)
        },
{
    match text_of(input) {
        Ok(text) => parse_embed(text),
        Err(e) => Err(e),
    }
}

} // verus!
