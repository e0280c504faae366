//! The markup grammar, stated over sequences of characters.
//!
//! Every function here looks at a window of a text `t`: the characters from
//! `lo` up to, not including, `hi`. A recognizer is anchored at `lo` and never
//! looks at or beyond `hi`. Of what stands before `lo` only the quotation
//! looks at one character, to see whether a line begins at `lo`.

use vstd::prelude::*;
use crate::charclass::{is_digit, is_link_inner, is_link_last, is_word};
use crate::text::{concat, lemma_concat_add, lemma_concat_one};

verus! {

/// A node of the syntax tree, as a mathematical value.
pub enum Node {
    Text(Seq<char>),
    CustomEmoji(Seq<char>, Seq<char>),
    User(Seq<char>),
    Role(Seq<char>),
    Channel(Seq<char>),
    Hyperlink(Seq<char>, Seq<char>),
    Blockquote(Seq<Node>),
    MultilineCode(Seq<char>),
    InlineCode(Seq<char>),
    Spoiler(Seq<Node>),
    Underline(Seq<Node>),
    Strikethrough(Seq<Node>),
    Bold(Seq<Node>),
    Italics(Seq<Node>),
}

/// What a recognizer found: the node, and the position after the last
/// character that it consumed.
pub struct Match {
    pub node: Node,
    pub end: int,
}

/// A stretch of text between two delimiters: the body runs from `from` up to
/// `to`, and the closing delimiter ends before `end`.
pub struct Body {
    pub from: int,
    pub to: int,
    pub end: int,
}

/// The emoticon that is kept as literal text.
pub open spec fn shrug() -> Seq<char> {
    "\u{af}\\_(\u{30c4})_/\u{af}"@
}

/// Whether the window holds `pattern` at its start.
pub open spec fn starts_with(t: Seq<char>, lo: int, hi: int, pattern: Seq<char>) -> bool {
    lo + pattern.len() <= hi && t.subrange(lo, lo + pattern.len()) == pattern
}

/// The end of the longest run of word characters that starts at `i`.
pub open spec fn word_run_end(t: Seq<char>, i: int, hi: int) -> int
    decreases hi - i,
{
    if i < hi && is_word(t[i]) {
        word_run_end(t, i + 1, hi)
    } else {
        i
    }
}

/// The end of the longest run of digits that starts at `i`.
pub open spec fn digit_run_end(t: Seq<char>, i: int, hi: int) -> int
    decreases hi - i,
{
    if i < hi && is_digit(t[i]) {
        digit_run_end(t, i + 1, hi)
    } else {
        i
    }
}

/// A custom emoji: `<`, an optional `a`, `:`, a name, `:`, an identifier, `>`.
/// The file name is the identifier with `.gif` when the `a` is there and with
/// `.png` when it is not.
pub open spec fn emoji_at(t: Seq<char>, lo: int, hi: int) -> Option<Match> {
    if lo < hi && t[lo] == '<' {
        let animated = lo + 1 < hi && t[lo + 1] == 'a';
        let colon = if animated {
            lo + 2
        } else {
            lo + 1
        };
        let name_end = word_run_end(t, colon + 1, hi);
        let id_end = digit_run_end(t, name_end + 1, hi);
        if colon < hi && t[colon] == ':' && colon + 1 < name_end && name_end < hi && t[name_end]
            == ':' && name_end + 1 < id_end && id_end < hi && t[id_end] == '>' {
            Some(
                Match {
                    node: Node::CustomEmoji(
                        t.subrange(colon + 1, name_end),
                        t.subrange(name_end + 1, id_end) + emoji_extension(animated),
                    ),
                    end: id_end + 1,
                },
            )
        } else {
            None
        }
    } else {
        None
    }
}

/// The extension of the file of a custom emoji.
pub open spec fn emoji_extension(animated: bool) -> Seq<char> {
    if animated {
        ".gif"@
    } else {
        ".png"@
    }
}

/// An identifier in angle brackets behind a prefix: the prefix starts at `lo`
/// and ends before `start`. Gives where the identifier ends.
pub open spec fn id_end_at(t: Seq<char>, start: int, hi: int) -> Option<int> {
    let id_end = digit_run_end(t, start, hi);
    if start < id_end && id_end < hi && t[id_end] == '>' {
        Some(id_end)
    } else {
        None
    }
}

/// A user mention: `<@`, an optional `!`, an identifier, `>`.
pub open spec fn user_at(t: Seq<char>, lo: int, hi: int) -> Option<Match> {
    if lo + 1 < hi && t[lo] == '<' && t[lo + 1] == '@' {
        let start = if lo + 2 < hi && t[lo + 2] == '!' {
            lo + 3
        } else {
            lo + 2
        };
        match id_end_at(t, start, hi) {
            Some(id_end) => Some(
                Match { node: Node::User(t.subrange(start, id_end)), end: id_end + 1 },
            ),
            None => None,
        }
    } else {
        None
    }
}

/// A role mention: `<@&`, an identifier, `>`.
pub open spec fn role_at(t: Seq<char>, lo: int, hi: int) -> Option<Match> {
    if lo + 2 < hi && t[lo] == '<' && t[lo + 1] == '@' && t[lo + 2] == '&' {
        match id_end_at(t, lo + 3, hi) {
            Some(id_end) => Some(
                Match { node: Node::Role(t.subrange(lo + 3, id_end)), end: id_end + 1 },
            ),
            None => None,
        }
    } else {
        None
    }
}

/// A channel mention: `<#`, an identifier, `>`.
pub open spec fn channel_at(t: Seq<char>, lo: int, hi: int) -> Option<Match> {
    if lo + 1 < hi && t[lo] == '<' && t[lo + 1] == '#' {
        match id_end_at(t, lo + 2, hi) {
            Some(id_end) => Some(
                Match { node: Node::Channel(t.subrange(lo + 2, id_end)), end: id_end + 1 },
            ),
            None => None,
        }
    } else {
        None
    }
}

/// Where the scheme of a link and its `://` end, if the window starts with one
/// of `https`, `http`, `ftp` and `file`.
pub open spec fn scheme_end(t: Seq<char>, lo: int, hi: int) -> Option<int> {
    if starts_with(t, lo, hi, "https://"@) {
        Some(lo + "https://"@.len())
    } else if starts_with(t, lo, hi, "http://"@) {
        Some(lo + "http://"@.len())
    } else if starts_with(t, lo, hi, "ftp://"@) {
        Some(lo + "ftp://"@.len())
    } else if starts_with(t, lo, hi, "file://"@) {
        Some(lo + "file://"@.len())
    } else {
        None
    }
}

/// The end of the longest run of address characters that starts at `i`.
pub open spec fn link_run_end(t: Seq<char>, i: int, hi: int) -> int
    decreases hi - i,
{
    if i < hi && is_link_inner(t[i]) {
        link_run_end(t, i + 1, hi)
    } else {
        i
    }
}

/// The largest position in `(from, to]` whose preceding character may end an
/// address.
pub open spec fn last_link_end(t: Seq<char>, from: int, to: int) -> Option<int>
    decreases to - from,
{
    if to <= from {
        None
    } else if is_link_last(t[to - 1]) {
        Some(to)
    } else {
        last_link_end(t, from, to - 1)
    }
}

/// Where a bare link that starts at `lo` ends: a scheme, `://`, and the longest
/// run of address characters that ends in a character that may end an address.
pub open spec fn link_end(t: Seq<char>, lo: int, hi: int) -> Option<int> {
    match scheme_end(t, lo, hi) {
        Some(start) => last_link_end(t, start, link_run_end(t, start, hi)),
        None => None,
    }
}

/// A link, bare or in angle brackets. The body is the address.
pub open spec fn hyperlink_at(t: Seq<char>, lo: int, hi: int) -> Option<Body> {
    match link_end(t, lo, hi) {
        Some(end) => Some(Body { from: lo, to: end, end }),
        None => {
            if lo < hi && t[lo] == '<' {
                match link_end(t, lo + 1, hi) {
                    Some(end) => {
                        if end < hi && t[end] == '>' {
                            Some(Body { from: lo + 1, to: end, end: end + 1 })
                        } else {
                            None
                        }
                    },
                    None => None,
                }
            } else {
                None
            }
        },
    }
}

/// The node of a link whose text is its address.
pub open spec fn link_node(t: Seq<char>, body: Body) -> Match {
    Match {
        node: Node::Hyperlink(t.subrange(body.from, body.to), t.subrange(body.from, body.to)),
        end: body.end,
    }
}

/// A link as an embed takes it: one as `hyperlink_at` takes it, or a label in
/// square brackets followed by such a link in round brackets.
pub open spec fn embed_hyperlink_at(t: Seq<char>, lo: int, hi: int) -> Option<Match> {
    match hyperlink_at(t, lo, hi) {
        Some(body) => Some(link_node(t, body)),
        None => {
            if lo < hi && t[lo] == '[' {
                match find_run(t, lo + 1, hi, ']', 1) {
                    Some(close) => {
                        if close + 1 < hi && t[close + 1] == '(' {
                            match hyperlink_at(t, close + 2, hi) {
                                Some(body) => {
                                    if body.end < hi && t[body.end] == ')' {
                                        Some(
                                            Match {
                                                node: Node::Hyperlink(
                                                    t.subrange(lo + 1, close),
                                                    t.subrange(body.from, body.to),
                                                ),
                                                end: body.end + 1,
                                            },
                                        )
                                    } else {
                                        None
                                    }
                                },
                                None => None,
                            }
                        } else {
                            None
                        }
                    },
                    None => None,
                }
            } else {
                None
            }
        },
    }
}

/// Whether `n` copies of `c` stand at `i`. A delimiter has one, two or three
/// characters.
pub open spec fn run_at(t: Seq<char>, i: int, c: char, n: int) -> bool {
    t[i] == c && (n < 2 || t[i + 1] == c) && (n < 3 || t[i + 2] == c)
}

/// The first position at or after `i` where `n` copies of `c` stand within the
/// window.
pub open spec fn find_run(t: Seq<char>, i: int, hi: int, c: char, n: int) -> Option<int>
    decreases hi - i,
{
    if n < 1 || i + n > hi {
        None
    } else if run_at(t, i, c, n) {
        Some(i)
    } else {
        find_run(t, i + 1, hi, c, n)
    }
}

/// A body between two delimiters of `n` copies of `c`: the opening one stands
/// at `lo`, the closing one is the first that follows it.
pub open spec fn delimited_at(t: Seq<char>, lo: int, hi: int, c: char, n: int) -> Option<Body> {
    if lo + n <= hi && run_at(t, lo, c, n) {
        match find_run(t, lo + n, hi, c, n) {
            Some(close) => Some(Body { from: lo + n, to: close, end: close + n }),
            None => None,
        }
    } else {
        None
    }
}

/// Whether a line begins at `at`: the text begins there, or a line break stands
/// right before.
pub open spec fn line_begins(t: Seq<char>, at: int) -> bool {
    at == 0 || t[at - 1] == '\n'
}

/// A quotation: a line that begins with `> `, then the text up to the end of
/// the line, or up to the end of the window where no line ends. The line break
/// is consumed and is not part of the body.
pub open spec fn blockquote_at(t: Seq<char>, lo: int, hi: int) -> Option<Body> {
    if line_begins(t, lo) && lo + 1 < hi && t[lo] == '>' && t[lo + 1] == ' ' {
        match find_run(t, lo + 2, hi, '\n', 1) {
            Some(close) => Some(Body { from: lo + 2, to: close, end: close + 1 }),
            None => Some(Body { from: lo + 2, to: hi, end: hi }),
        }
    } else {
        None
    }
}

/// Inline code: between two pairs of backticks, or else between two single
/// backticks.
pub open spec fn inline_code_at(t: Seq<char>, lo: int, hi: int) -> Option<Body> {
    match delimited_at(t, lo, hi, '`', 2) {
        Some(body) => Some(body),
        None => delimited_at(t, lo, hi, '`', 1),
    }
}

/// Italics: between two underscores, or else between two asterisks.
pub open spec fn italics_at(t: Seq<char>, lo: int, hi: int) -> Option<Body> {
    match delimited_at(t, lo, hi, '_', 1) {
        Some(body) => Some(body),
        None => delimited_at(t, lo, hi, '*', 1),
    }
}

/// The nodes of a body found in the window from `lo` to `hi`. A body is always
/// parsed without the embed rules.
pub open spec fn inner_nodes(t: Seq<char>, lo: int, hi: int, body: Body) -> Seq<Node>
    decreases hi - lo, 0int,
{
    if lo < body.from <= body.to <= hi {
        parse_nodes(t, body.from, body.to, false)
    } else {
        Seq::empty()
    }
}

/// The directive that stands at `lo`: the first of the recognizers, in their
/// fixed order, that accepts the window.
pub open spec fn directive_at(t: Seq<char>, lo: int, hi: int, embed: bool) -> Option<Match>
    decreases hi - lo, 1int,
{
    if let Some(m) = emoji_at(t, lo, hi) {
        Some(m)
    } else if let Some(m) = user_at(t, lo, hi) {
        Some(m)
    } else if let Some(m) = role_at(t, lo, hi) {
        Some(m)
    } else if let Some(m) = channel_at(t, lo, hi) {
        Some(m)
    } else if let Some(m) = link_at(t, lo, hi, embed) {
        Some(m)
    } else if let Some(b) = blockquote_at(t, lo, hi) {
        Some(Match { node: Node::Blockquote(inner_nodes(t, lo, hi, b)), end: b.end })
    } else if let Some(b) = delimited_at(t, lo, hi, '`', 3) {
        Some(Match { node: Node::MultilineCode(t.subrange(b.from, b.to)), end: b.end })
    } else if let Some(b) = inline_code_at(t, lo, hi) {
        Some(Match { node: Node::InlineCode(t.subrange(b.from, b.to)), end: b.end })
    } else if let Some(b) = delimited_at(t, lo, hi, '|', 2) {
        Some(Match { node: Node::Spoiler(inner_nodes(t, lo, hi, b)), end: b.end })
    } else if let Some(b) = delimited_at(t, lo, hi, '_', 2) {
        Some(Match { node: Node::Underline(inner_nodes(t, lo, hi, b)), end: b.end })
    } else if let Some(b) = delimited_at(t, lo, hi, '~', 2) {
        Some(Match { node: Node::Strikethrough(inner_nodes(t, lo, hi, b)), end: b.end })
    } else if let Some(b) = delimited_at(t, lo, hi, '*', 2) {
        Some(Match { node: Node::Bold(inner_nodes(t, lo, hi, b)), end: b.end })
    } else if let Some(b) = italics_at(t, lo, hi) {
        Some(Match { node: Node::Italics(inner_nodes(t, lo, hi, b)), end: b.end })
    } else {
        None
    }
}

/// The link that stands at `lo`, by the rules of the mode.
pub open spec fn link_at(t: Seq<char>, lo: int, hi: int, embed: bool) -> Option<Match> {
    if embed {
        embed_hyperlink_at(t, lo, hi)
    } else {
        match hyperlink_at(t, lo, hi) {
            Some(body) => Some(link_node(t, body)),
            None => None,
        }
    }
}

/// What the scan finds at `lo`: the emoticon, a backslash with the character it
/// escapes, or a directive.
pub open spec fn hit_at(t: Seq<char>, lo: int, hi: int, embed: bool) -> Option<Match>
    decreases hi - lo, 2int,
{
    if starts_with(t, lo, hi, shrug()) {
        Some(Match { node: Node::Text(shrug()), end: lo + shrug().len() })
    } else if lo + 1 < hi && t[lo] == '\\' {
        Some(Match { node: Node::Text(seq![t[lo + 1]]), end: lo + 2 })
    } else {
        directive_at(t, lo, hi, embed)
    }
}

/// The first position at or after `i` where the scan finds something, with
/// what it finds there.
pub open spec fn first_hit(t: Seq<char>, i: int, hi: int, embed: bool) -> Option<(int, Match)>
    decreases hi - i, 3int,
{
    if i >= hi {
        None
    } else {
        match hit_at(t, i, hi, embed) {
            Some(m) => Some((i, m)),
            None => first_hit(t, i + 1, hi, embed),
        }
    }
}

/// The text before a hit, as a node of its own where there is any.
pub open spec fn leading_text(t: Seq<char>, lo: int, at: int) -> Seq<Node> {
    if lo < at {
        seq![Node::Text(t.subrange(lo, at))]
    } else {
        Seq::empty()
    }
}

/// The syntax tree of the window: the text up to the first hit, the hit, and
/// the tree of what follows it; one text node where nothing is found.
pub open spec fn parse_nodes(t: Seq<char>, lo: int, hi: int, embed: bool) -> Seq<Node>
    decreases hi - lo, 4int,
{
    if lo >= hi {
        Seq::empty()
    } else {
        match first_hit(t, lo, hi, embed) {
            None => seq![Node::Text(t.subrange(lo, hi))],
            Some((at, m)) => {
                let rest = if lo <= at < m.end <= hi {
                    parse_nodes(t, m.end, hi, embed)
                } else {
                    Seq::empty()
                };
                leading_text(t, lo, at).push(m.node) + rest
            },
        }
    }
}

/// The tree of a whole text.
pub open spec fn parse_text(t: Seq<char>, embed: bool) -> Seq<Node> {
    parse_nodes(t, 0, t.len() as int, embed)
}

/// The stretch of the text that each node of `parse_nodes` was read from, in
/// the order of the nodes.
pub open spec fn sources(t: Seq<char>, lo: int, hi: int, embed: bool) -> Seq<Seq<char>>
    decreases hi - lo,
{
    if lo >= hi {
        Seq::empty()
    } else {
        match first_hit(t, lo, hi, embed) {
            None => seq![t.subrange(lo, hi)],
            Some((at, m)) => {
                let rest = if lo <= at < m.end <= hi {
                    sources(t, m.end, hi, embed)
                } else {
                    Seq::empty()
                };
                let lead = if lo < at {
                    seq![t.subrange(lo, at)]
                } else {
                    Seq::empty()
                };
                lead.push(t.subrange(at, m.end)) + rest
            },
        }
    }
}


/// A run of address characters ends inside the window.
pub proof fn lemma_link_run_bounds(t: Seq<char>, i: int, hi: int)
    requires
        i <= hi,
    ensures
        i <= link_run_end(t, i, hi) <= hi,
    decreases hi - i,
{
    if i < hi && is_link_inner(t[i]) {
        lemma_link_run_bounds(t, i + 1, hi);
    }
}

/// The end of an address lies behind its start and within the run.
pub proof fn lemma_last_link_end_bounds(t: Seq<char>, from: int, to: int)
    ensures
        last_link_end(t, from, to) matches Some(end) ==> from < end <= to,
    decreases to - from,
{
    if to > from && !is_link_last(t[to - 1]) {
        lemma_last_link_end_bounds(t, from, to - 1);
    }
}

/// A delimiter that was found stands wholly inside the window.
pub proof fn lemma_find_run_bounds(t: Seq<char>, i: int, hi: int, c: char, n: int)
    ensures
        find_run(t, i, hi, c, n) matches Some(at) ==> i <= at && at + n <= hi && run_at(
            t,
            at,
            c,
            n,
        ),
    decreases hi - i,
{
    if n >= 1 && i + n <= hi && !run_at(t, i, c, n) {
        lemma_find_run_bounds(t, i + 1, hi, c, n);
    }
}

/// A bare link ends behind its scheme and inside the window.
pub proof fn lemma_link_end_bounds(t: Seq<char>, lo: int, hi: int)
    requires
        lo <= hi,
    ensures
        link_end(t, lo, hi) matches Some(end) ==> lo < end <= hi,
{
    if let Some(start) = scheme_end(t, lo, hi) {
        lemma_link_run_bounds(t, start, hi);
        lemma_last_link_end_bounds(t, start, link_run_end(t, start, hi));
    }
}

/// A link lies inside the window, and so does its address.
pub proof fn lemma_hyperlink_bounds(t: Seq<char>, lo: int, hi: int)
    requires
        lo <= hi,
    ensures
        hyperlink_at(t, lo, hi) matches Some(b) ==> lo <= b.from < b.to <= b.end <= hi,
{
    lemma_link_end_bounds(t, lo, hi);
    if lo < hi {
        lemma_link_end_bounds(t, lo + 1, hi);
    }
}

/// A delimited body lies inside the window, behind the opening delimiter.
pub proof fn lemma_delimited_bounds(t: Seq<char>, lo: int, hi: int, c: char, n: int)
    requires
        n >= 1,
    ensures
        delimited_at(t, lo, hi, c, n) matches Some(b) ==> lo < b.from <= b.to < b.end <= hi,
{
    lemma_find_run_bounds(t, lo + n, hi, c, n);
}

/// The body of a quotation lies inside the window, behind the marker.
pub proof fn lemma_blockquote_bounds(t: Seq<char>, lo: int, hi: int)
    ensures
        blockquote_at(t, lo, hi) matches Some(b) ==> lo < b.from <= b.to <= b.end <= hi,
{
    lemma_find_run_bounds(t, lo + 2, hi, '\n', 1);
}

/// A directive consumes at least one character and stays inside the window.
pub proof fn lemma_directive_bounds(t: Seq<char>, lo: int, hi: int, embed: bool)
    requires
        lo <= hi,
    ensures
        directive_at(t, lo, hi, embed) matches Some(m) ==> lo < m.end <= hi,
{
    lemma_hyperlink_bounds(t, lo, hi);
    if embed && hyperlink_at(t, lo, hi) is None && lo < hi {
        lemma_find_run_bounds(t, lo + 1, hi, ']', 1);
        if let Some(close) = find_run(t, lo + 1, hi, ']', 1) {
            if close + 2 <= hi {
                lemma_hyperlink_bounds(t, close + 2, hi);
            }
        }
    }
    lemma_blockquote_bounds(t, lo, hi);
    lemma_delimited_bounds(t, lo, hi, '`', 3);
    lemma_delimited_bounds(t, lo, hi, '`', 2);
    lemma_delimited_bounds(t, lo, hi, '`', 1);
    lemma_delimited_bounds(t, lo, hi, '|', 2);
    lemma_delimited_bounds(t, lo, hi, '_', 2);
    lemma_delimited_bounds(t, lo, hi, '~', 2);
    lemma_delimited_bounds(t, lo, hi, '*', 2);
    lemma_delimited_bounds(t, lo, hi, '_', 1);
    lemma_delimited_bounds(t, lo, hi, '*', 1);
}

/// Whatever the scan finds at a position consumes at least one character and
/// stays inside the window.
pub proof fn lemma_hit_bounds(t: Seq<char>, lo: int, hi: int, embed: bool)
    requires
        lo <= hi,
    ensures
        hit_at(t, lo, hi, embed) matches Some(m) ==> lo < m.end <= hi,
{
    reveal_strlit("\u{af}\\_(\u{30c4})_/\u{af}");
    lemma_directive_bounds(t, lo, hi, embed);
}

/// The first hit lies at or behind the position where the search began.
pub proof fn lemma_first_hit_bounds(t: Seq<char>, i: int, hi: int, embed: bool)
    ensures
        first_hit(t, i, hi, embed) matches Some(found) ==> i <= found.0 < found.1.end <= hi
            && hit_at(t, found.0, hi, embed) == Some(found.1),
    decreases hi - i,
{
    if i < hi {
        lemma_hit_bounds(t, i, hi, embed);
        if hit_at(t, i, hi, embed) is None {
            lemma_first_hit_bounds(t, i + 1, hi, embed);
        }
    }
}

/// The parser loses nothing: the stretches of text that the nodes of a window
/// were read from, one for each node and in the order of the nodes, make up
/// the window when joined, with nothing left out, repeated or moved.
pub proof fn lemma_sources_rebuild_window(t: Seq<char>, lo: int, hi: int, embed: bool)
    requires
        0 <= lo <= hi <= t.len(),
    ensures
        sources(t, lo, hi, embed).len() == parse_nodes(t, lo, hi, embed).len(),
        concat(sources(t, lo, hi, embed)) == t.subrange(lo, hi),
    decreases hi - lo,
{
    if lo < hi {
        lemma_first_hit_bounds(t, lo, hi, embed);
        match first_hit(t, lo, hi, embed) {
            None => {
                lemma_concat_one(t.subrange(lo, hi));
            },
            Some((at, m)) => {
                lemma_sources_rebuild_window(t, m.end, hi, embed);
                let lead: Seq<Seq<char>> = if lo < at {
                    seq![t.subrange(lo, at)]
                } else {
                    Seq::empty()
                };
                let head = lead.push(t.subrange(at, m.end));
                lemma_concat_add(head, sources(t, m.end, hi, embed));
                assert(concat(head) =~= t.subrange(lo, m.end)) by {
                    lemma_concat_one(t.subrange(at, m.end));
                    if lo < at {
                        assert(head.skip(1) =~= seq![t.subrange(at, m.end)]);
                    }
                }
            },
        }
    }
}

/// The parser loses nothing of a whole text: in either mode the stretches that
/// its nodes were read from, joined in order, are the text.
pub proof fn lemma_parse_rebuilds_text(t: Seq<char>, embed: bool)
    ensures
        sources(t, 0, t.len() as int, embed).len() == parse_text(t, embed).len(),
        concat(sources(t, 0, t.len() as int, embed)) == t,
{
    lemma_sources_rebuild_window(t, 0, t.len() as int, embed);
}

} // verus!
