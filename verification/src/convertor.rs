//! The renderer: from a syntax tree to HTML.
//!
//! Names and colours come from four lookups that the caller supplies. A lookup
//! takes an identifier and gives a name and, where there is one, a second
//! attribute. The renderer fixes what each lookup is asked and where its answer
//! goes; what a lookup answers is the caller's matter.

use vstd::prelude::*;
use crate::charclass::{is_whitespace, whitespace_char};
use crate::parser::{node_of, nodes_of, Expression};
use crate::syntax::Node;
use crate::text::{concat, escape, escaped, lemma_concat_push, replace_all, replaced, wrap};

verus! {

/// The four lookups, kept together while the tree is walked.
pub struct Callbacks<A, B, C, D> {
    pub emoji: A,
    pub user: B,
    pub role: C,
    pub channel: D,
}

/// The characters of an optional string.
pub open spec fn option_text(s: Option<String>) -> Option<Seq<char>> {
    match s {
        Some(s) => Some(s@),
        None => None,
    }
}

/// Whether the lookup `f`, asked for `id`, may answer with the name `name` and
/// the second attribute `extra`.
pub open spec fn answers<F: Fn(&str) -> (String, Option<String>)>(
    f: F,
    id: Seq<char>,
    name: Seq<char>,
    extra: Option<Seq<char>>,
) -> bool {
    exists|arg: &str, res: (String, Option<String>)|
        arg@ == id && #[trigger] call_ensures(f, (arg,), res) && res.0@ == name && option_text(
            res.1,
        ) == extra
}

/// Whether the lookup `f` can be asked for every identifier.
pub open spec fn total<F: Fn(&str) -> (String, Option<String>)>(f: F) -> bool {
    forall|arg: &str| call_requires(f, (arg,))
}

/// What a lookup may answer: whether, asked for an identifier, it may give a
/// name and a second attribute.
pub type Answers = spec_fn(Seq<char>, Seq<char>, Option<Seq<char>>) -> bool;

/// What the four lookups may answer.
pub struct Lookups {
    pub emoji: Answers,
    pub user: Answers,
    pub role: Answers,
    pub channel: Answers,
}

/// Whether a lookup that answers as `lookup` says, asked for `id`, may give
/// the name `name` and the second attribute `extra`.
pub open spec fn may_answer(
    lookup: Answers,
    id: Seq<char>,
    name: Seq<char>,
    extra: Option<Seq<char>>,
) -> bool {
    lookup(id, name, extra)
}

/// What the lookup `f` may answer.
pub open spec fn answers_of<F: Fn(&str) -> (String, Option<String>)>(f: F) -> Answers {
    |id: Seq<char>, name: Seq<char>, extra: Option<Seq<char>>| answers(f, id, name, extra)
}

/// What the four lookups of `cb` may answer.
pub open spec fn lookups_of<
    A: Fn(&str) -> (String, Option<String>),
    B: Fn(&str) -> (String, Option<String>),
    C: Fn(&str) -> (String, Option<String>),
    D: Fn(&str) -> (String, Option<String>),
>(cb: &Callbacks<A, B, C, D>) -> Lookups {
    Lookups {
        emoji: answers_of(cb.emoji),
        user: answers_of(cb.user),
        role: answers_of(cb.role),
        channel: answers_of(cb.channel),
    }
}

/// A fragment with its line breaks written as `<br>`.
pub open spec fn line_breaks(s: Seq<char>) -> Seq<char> {
    replaced(s, "\n"@, "<br>"@)
}

/// The fragment of plain text: the text, escaped, in a `span`.
pub open spec fn text_html(text: Seq<char>) -> Seq<char> {
    "<span>"@ + escaped(text) + "</span>"@
}

/// The class modifier of an emoji that is shown enlarged.
pub open spec fn wumboji_class(wumboji: bool) -> Seq<char> {
    if wumboji {
        " wumboji"@
    } else {
        ""@
    }
}

/// The fragment of a custom emoji: an image at `path`, named `name`.
pub open spec fn emoji_html(path: Seq<char>, name: Seq<char>, wumboji: bool) -> Seq<char> {
    "<img src=\""@ + path + "\" alt=\""@ + name + "\" class=\"emoji"@ + wumboji_class(wumboji)
        + "\" title=\""@ + name + "\"></img>"@
}

/// The fragment of the mention of a user.
pub open spec fn user_html(name: Seq<char>) -> Seq<char> {
    "<span class=\"user\">@"@ + name + "</span>"@
}

/// The colour of a role that has none.
pub open spec fn role_color(color: Option<Seq<char>>) -> Seq<char> {
    match color {
        Some(color) => color,
        None => "#afafaf"@,
    }
}

/// The fragment of the mention of a role, in the colour of the role.
pub open spec fn role_html(name: Seq<char>, color: Option<Seq<char>>) -> Seq<char> {
    "<div class=\"role\" style=\"color: "@ + role_color(color) + "\">@"@ + name
        + "<span style=\"background-color: "@ + role_color(color) + "\"></span></div>"@
}

/// The fragment of the mention of a channel.
pub open spec fn channel_html(id: Seq<char>, name: Seq<char>) -> Seq<char> {
    "<span class=\"channel\" data-id=\""@ + id + "\">#"@ + name + "</span>"@
}

/// The fragment of a link, which opens in a new window.
pub open spec fn hyperlink_html(text: Seq<char>, href: Seq<char>) -> Seq<char> {
    "<a href=\""@ + href + "\" target=\"_blank\">"@ + text + "</a>"@
}

/// The fragment of a block of code.
pub open spec fn multiline_code_html(text: Seq<char>) -> Seq<char> {
    "<pre class=\"multiline_code\">"@ + text + "</pre>"@
}

/// The fragment of inline code.
pub open spec fn inline_code_html(text: Seq<char>) -> Seq<char> {
    "<span class=\"inline_code\">"@ + text + "</span>"@
}

/// Whether every character of `text` is white space.
pub open spec fn is_blank(text: Seq<char>) -> bool {
    forall|i: int| 0 <= i < text.len() ==> is_whitespace(#[trigger] text[i])
}

/// Whether a node is a custom emoji or text of white space only.
pub open spec fn is_emoji_or_blank(node: Node) -> bool {
    match node {
        Node::CustomEmoji(_, _) => true,
        Node::Text(text) => is_blank(text),
        _ => false,
    }
}

/// Whether a tree holds custom emoji and white space only. The emoji of such a
/// tree, and of no other, are shown enlarged.
pub open spec fn emoji_only(nodes: Seq<Node>) -> bool {
    forall|i: int| 0 <= i < nodes.len() ==> is_emoji_or_blank(#[trigger] nodes[i])
}

/// Whether `out` is a fragment for a custom emoji, given what the lookup of
/// emoji may answer for the file: the first part of the answer is the path.
pub open spec fn emoji_renders(
    lookup: Answers,
    name: Seq<char>,
    file: Seq<char>,
    wumboji: bool,
    out: Seq<char>,
) -> bool {
    exists|path: Seq<char>, extra: Option<Seq<char>>| #[trigger]
        may_answer(lookup, file, path, extra) && out == line_breaks(
            emoji_html(path, name, wumboji),
        )
}

/// Whether `out` is a fragment for the mention of a user, given what the lookup
/// of users may answer for the identifier.
pub open spec fn user_renders(lookup: Answers, id: Seq<char>, out: Seq<char>) -> bool {
    exists|name: Seq<char>, extra: Option<Seq<char>>| #[trigger]
        may_answer(lookup, id, name, extra) && out == line_breaks(user_html(name))
}

/// Whether `out` is a fragment for the mention of a role, given what the lookup
/// of roles may answer for the identifier: a name and, where it has one, a
/// colour.
pub open spec fn role_renders(lookup: Answers, id: Seq<char>, out: Seq<char>) -> bool {
    exists|name: Seq<char>, color: Option<Seq<char>>| #[trigger]
        may_answer(lookup, id, name, color) && out == line_breaks(role_html(name, color))
}

/// Whether `out` is a fragment for the mention of a channel, given what the
/// lookup of channels may answer for the identifier.
pub open spec fn channel_renders(lookup: Answers, id: Seq<char>, out: Seq<char>) -> bool {
    exists|name: Seq<char>, extra: Option<Seq<char>>| #[trigger]
        may_answer(lookup, id, name, extra) && out == line_breaks(channel_html(id, name))
}

/// Whether `out` is an HTML fragment for `node`, given what the lookups may
/// answer. Emoji inside other nodes are never shown enlarged.
pub open spec fn node_renders(node: Node, wumboji: bool, look: Lookups, out: Seq<char>) -> bool
    decreases node, 0int,
{
    match node {
        Node::Text(text) => out == line_breaks(text_html(text)),
        Node::CustomEmoji(name, file) => emoji_renders(look.emoji, name, file, wumboji, out),
        Node::User(id) => user_renders(look.user, id, out),
        Node::Role(id) => role_renders(look.role, id, out),
        Node::Channel(id) => channel_renders(look.channel, id, out),
        Node::Hyperlink(text, href) => out == line_breaks(hyperlink_html(text, href)),
        Node::MultilineCode(text) => out == line_breaks(multiline_code_html(text)),
        Node::InlineCode(text) => out == line_breaks(inline_code_html(text)),
        Node::Blockquote(children) => container_renders(
            children,
            "<blockquote>"@,
            "</blockquote>"@,
            look,
            out,
        ),
        Node::Spoiler(children) => container_renders(
            children,
            "<span class=\"spoiler\">"@,
            "</span>"@,
            look,
            out,
        ),
        Node::Underline(children) => container_renders(
            children,
            "<span class=\"underline\">"@,
            "</span>"@,
            look,
            out,
        ),
        Node::Strikethrough(children) => container_renders(
            children,
            "<span class=\"strikethrough\">"@,
            "</span>"@,
            look,
            out,
        ),
        Node::Bold(children) => container_renders(children, "<strong>"@, "</strong>"@, look, out),
        Node::Italics(children) => container_renders(children, "<em>"@, "</em>"@, look, out),
    }
}

/// Whether `out` is a fragment for a node that holds `children` between the
/// tags `open` and `close`.
pub open spec fn container_renders(
    children: Seq<Node>,
    open: Seq<char>,
    close: Seq<char>,
    look: Lookups,
    out: Seq<char>,
) -> bool
    decreases children, 3int,
{
    exists|inner: Seq<char>|
        tree_renders(children, false, look, inner) && out == #[trigger] line_breaks(
            open + inner + close,
        )
}

/// Whether `pieces` holds one fragment for each of the nodes, in their order.
pub open spec fn fragments_render(
    nodes: Seq<Node>,
    wumboji: bool,
    look: Lookups,
    pieces: Seq<Seq<char>>,
) -> bool
    decreases nodes, 1int,
{
    pieces.len() == nodes.len() && forall|i: int|
        0 <= i < nodes.len() ==> node_renders(nodes[i], wumboji, look, #[trigger] pieces[i])
}

/// Whether `out` is the HTML of the tree: the fragments of its nodes, one
/// after the other.
pub open spec fn tree_renders(nodes: Seq<Node>, wumboji: bool, look: Lookups, out: Seq<char>) -> bool
    decreases nodes, 2int,
{
    exists|pieces: Seq<Seq<char>>|
        fragments_render(nodes, wumboji, look, pieces) && out == #[trigger] concat(pieces)
}

/// Whether `weak` may answer whatever `strong` may.
pub open spec fn answers_within(strong: Answers, weak: Answers) -> bool {
    forall|id: Seq<char>, name: Seq<char>, extra: Option<Seq<char>>| #[trigger]
        may_answer(strong, id, name, extra) ==> may_answer(weak, id, name, extra)
}

/// Whether each lookup of `weak` may answer whatever that of `strong` may.
pub open spec fn lookups_within(strong: Lookups, weak: Lookups) -> bool {
    answers_within(strong.emoji, weak.emoji) && answers_within(strong.user, weak.user)
        && answers_within(strong.role, weak.role) && answers_within(strong.channel, weak.channel)
}

/// A fragment for a node stays one when the lookups may answer more.
pub proof fn lemma_node_renders_within(
    node: Node,
    wumboji: bool,
    strong: Lookups,
    weak: Lookups,
    out: Seq<char>,
)
    requires
        lookups_within(strong, weak),
        node_renders(node, wumboji, strong, out),
    ensures
        node_renders(node, wumboji, weak, out),
    decreases node, 0int,
{
    match node {
        Node::CustomEmoji(name, file) => {
            let (path, extra) = choose|path: Seq<char>, extra: Option<Seq<char>>| #[trigger]
                may_answer(strong.emoji, file, path, extra) && out == line_breaks(
                    emoji_html(path, name, wumboji),
                );
        },
        Node::User(id) => {
            let (name, extra) = choose|name: Seq<char>, extra: Option<Seq<char>>| #[trigger]
                may_answer(strong.user, id, name, extra) && out == line_breaks(user_html(name));
        },
        Node::Role(id) => {
            let (name, color) = choose|name: Seq<char>, color: Option<Seq<char>>| #[trigger]
                may_answer(strong.role, id, name, color) && out == line_breaks(
                    role_html(name, color),
                );
        },
        Node::Channel(id) => {
            let (name, extra) = choose|name: Seq<char>, extra: Option<Seq<char>>| #[trigger]
                may_answer(strong.channel, id, name, extra) && out == line_breaks(
                    channel_html(id, name),
                );
        },
        Node::Blockquote(children) => {
            lemma_container_renders_within(
                children,
                "<blockquote>"@,
                "</blockquote>"@,
                strong,
                weak,
                out,
            );
        },
        Node::Spoiler(children) => {
            lemma_container_renders_within(
                children,
                "<span class=\"spoiler\">"@,
                "</span>"@,
                strong,
                weak,
                out,
            );
        },
        Node::Underline(children) => {
            lemma_container_renders_within(
                children,
                "<span class=\"underline\">"@,
                "</span>"@,
                strong,
                weak,
                out,
            );
        },
        Node::Strikethrough(children) => {
            lemma_container_renders_within(
                children,
                "<span class=\"strikethrough\">"@,
                "</span>"@,
                strong,
                weak,
                out,
            );
        },
        Node::Bold(children) => {
            lemma_container_renders_within(children, "<strong>"@, "</strong>"@, strong, weak, out);
        },
        Node::Italics(children) => {
            lemma_container_renders_within(children, "<em>"@, "</em>"@, strong, weak, out);
        },
        _ => {},
    }
}

/// A fragment for a node with children stays one when the lookups may answer
/// more.
pub proof fn lemma_container_renders_within(
    children: Seq<Node>,
    open: Seq<char>,
    close: Seq<char>,
    strong: Lookups,
    weak: Lookups,
    out: Seq<char>,
)
    requires
        lookups_within(strong, weak),
        container_renders(children, open, close, strong, out),
    ensures
        container_renders(children, open, close, weak, out),
    decreases children, 3int,
{
    let inner = choose|inner: Seq<char>|
        tree_renders(children, false, strong, inner) && out == #[trigger] line_breaks(
            open + inner + close,
        );
    lemma_tree_renders_within(children, false, strong, weak, inner);
}

/// The HTML of a tree stays one when the lookups may answer more.
pub proof fn lemma_tree_renders_within(
    nodes: Seq<Node>,
    wumboji: bool,
    strong: Lookups,
    weak: Lookups,
    out: Seq<char>,
)
    requires
        lookups_within(strong, weak),
        tree_renders(nodes, wumboji, strong, out),
    ensures
        tree_renders(nodes, wumboji, weak, out),
    decreases nodes, 2int,
{
    let pieces = choose|pieces: Seq<Seq<char>>|
        fragments_render(nodes, wumboji, strong, pieces) && out == #[trigger] concat(pieces);
    assert forall|i: int| 0 <= i < nodes.len() implies node_renders(
        nodes[i],
        wumboji,
        weak,
        #[trigger] pieces[i],
    ) by {
        lemma_node_renders_within(nodes[i], wumboji, strong, weak, pieces[i]);
    }
}

/// Lookups that answer in one way only: for each identifier the name and the
/// second attribute that they give.
pub struct Table {
    pub emoji: spec_fn(Seq<char>) -> (Seq<char>, Option<Seq<char>>),
    pub user: spec_fn(Seq<char>) -> (Seq<char>, Option<Seq<char>>),
    pub role: spec_fn(Seq<char>) -> (Seq<char>, Option<Seq<char>>),
    pub channel: spec_fn(Seq<char>) -> (Seq<char>, Option<Seq<char>>),
}

/// Whether a lookup answers as the entry `entry` of a table says, and in no
/// other way.
pub open spec fn answers_by(
    lookup: Answers,
    entry: spec_fn(Seq<char>) -> (Seq<char>, Option<Seq<char>>),
) -> bool {
    forall|id: Seq<char>, name: Seq<char>, extra: Option<Seq<char>>| #[trigger]
        may_answer(lookup, id, name, extra) ==> (name, extra) == entry(id)
}

/// Whether the lookups answer as the table says, and in no other way.
pub open spec fn follows(look: Lookups, table: Table) -> bool {
    answers_by(look.emoji, table.emoji) && answers_by(look.user, table.user) && answers_by(
        look.role,
        table.role,
    ) && answers_by(look.channel, table.channel)
}

/// The fragment of a node that holds `children` between the tags `open` and
/// `close`, with lookups that answer as the table says.
pub open spec fn render_container(
    children: Seq<Node>,
    open: Seq<char>,
    close: Seq<char>,
    table: Table,
) -> Seq<char>
    decreases children, 2int,
{
    line_breaks(open + render_tree(children, false, table) + close)
}

/// The fragment of a node, with lookups that answer as the table says.
pub open spec fn render_node(node: Node, wumboji: bool, table: Table) -> Seq<char>
    decreases node, 0int,
{
    match node {
        Node::Text(text) => line_breaks(text_html(text)),
        Node::CustomEmoji(name, file) => line_breaks(
            emoji_html((table.emoji)(file).0, name, wumboji),
        ),
        Node::User(id) => line_breaks(user_html((table.user)(id).0)),
        Node::Role(id) => line_breaks(role_html((table.role)(id).0, (table.role)(id).1)),
        Node::Channel(id) => line_breaks(channel_html(id, (table.channel)(id).0)),
        Node::Hyperlink(text, href) => line_breaks(hyperlink_html(text, href)),
        Node::MultilineCode(text) => line_breaks(multiline_code_html(text)),
        Node::InlineCode(text) => line_breaks(inline_code_html(text)),
        Node::Blockquote(children) => render_container(
            children,
            "<blockquote>"@,
            "</blockquote>"@,
            table,
        ),
        Node::Spoiler(children) => render_container(
            children,
            "<span class=\"spoiler\">"@,
            "</span>"@,
            table,
        ),
        Node::Underline(children) => render_container(
            children,
            "<span class=\"underline\">"@,
            "</span>"@,
            table,
        ),
        Node::Strikethrough(children) => render_container(
            children,
            "<span class=\"strikethrough\">"@,
            "</span>"@,
            table,
        ),
        Node::Bold(children) => render_container(children, "<strong>"@, "</strong>"@, table),
        Node::Italics(children) => render_container(children, "<em>"@, "</em>"@, table),
    }
}

/// The fragments of the nodes, with lookups that answer as the table says.
pub open spec fn render_fragments(nodes: Seq<Node>, wumboji: bool, table: Table) -> Seq<Seq<char>>
    decreases nodes, 0int,
{
    Seq::new(
        nodes.len(),
        |i: int|
            if 0 <= i < nodes.len() {
                render_node(nodes[i], wumboji, table)
            } else {
                Seq::empty()
            },
    )
}

/// The HTML of a tree, with lookups that answer as the table says.
pub open spec fn render_tree(nodes: Seq<Node>, wumboji: bool, table: Table) -> Seq<char>
    decreases nodes, 1int,
{
    concat(render_fragments(nodes, wumboji, table))
}

/// The HTML of the tree of a message, with lookups that answer as the table
/// says: the emoji are shown enlarged where the tree holds custom emoji and
/// white space only.
pub open spec fn render_message(nodes: Seq<Node>, table: Table) -> Seq<char> {
    render_tree(nodes, emoji_only(nodes), table)
}

/// With lookups that answer in one way only, a node has one fragment.
pub proof fn lemma_node_is_determined(
    node: Node,
    wumboji: bool,
    look: Lookups,
    table: Table,
    out: Seq<char>,
)
    requires
        follows(look, table),
        node_renders(node, wumboji, look, out),
    ensures
        out == render_node(node, wumboji, table),
    decreases node, 0int,
{
    match node {
        Node::CustomEmoji(name, file) => {
            let (path, extra) = choose|path: Seq<char>, extra: Option<Seq<char>>| #[trigger]
                may_answer(look.emoji, file, path, extra) && out == line_breaks(
                    emoji_html(path, name, wumboji),
                );
        },
        Node::User(id) => {
            let (name, extra) = choose|name: Seq<char>, extra: Option<Seq<char>>| #[trigger]
                may_answer(look.user, id, name, extra) && out == line_breaks(user_html(name));
        },
        Node::Role(id) => {
            let (name, color) = choose|name: Seq<char>, color: Option<Seq<char>>| #[trigger]
                may_answer(look.role, id, name, color) && out == line_breaks(
                    role_html(name, color),
                );
        },
        Node::Channel(id) => {
            let (name, extra) = choose|name: Seq<char>, extra: Option<Seq<char>>| #[trigger]
                may_answer(look.channel, id, name, extra) && out == line_breaks(
                    channel_html(id, name),
                );
        },
        Node::Blockquote(children) => {
            lemma_container_is_determined(
                children,
                "<blockquote>"@,
                "</blockquote>"@,
                look,
                table,
                out,
            );
        },
        Node::Spoiler(children) => {
            lemma_container_is_determined(
                children,
                "<span class=\"spoiler\">"@,
                "</span>"@,
                look,
                table,
                out,
            );
        },
        Node::Underline(children) => {
            lemma_container_is_determined(
                children,
                "<span class=\"underline\">"@,
                "</span>"@,
                look,
                table,
                out,
            );
        },
        Node::Strikethrough(children) => {
            lemma_container_is_determined(
                children,
                "<span class=\"strikethrough\">"@,
                "</span>"@,
                look,
                table,
                out,
            );
        },
        Node::Bold(children) => {
            lemma_container_is_determined(children, "<strong>"@, "</strong>"@, look, table, out);
        },
        Node::Italics(children) => {
            lemma_container_is_determined(children, "<em>"@, "</em>"@, look, table, out);
        },
        _ => {},
    }
}

/// With lookups that answer in one way only, a node with children has one
/// fragment.
pub proof fn lemma_container_is_determined(
    children: Seq<Node>,
    open: Seq<char>,
    close: Seq<char>,
    look: Lookups,
    table: Table,
    out: Seq<char>,
)
    requires
        follows(look, table),
        container_renders(children, open, close, look, out),
    ensures
        out == render_container(children, open, close, table),
    decreases children, 3int,
{
    let inner = choose|inner: Seq<char>|
        tree_renders(children, false, look, inner) && out == #[trigger] line_breaks(
            open + inner + close,
        );
    lemma_tree_is_determined(children, false, look, table, inner);
}

/// The renderer is a function of its inputs: with lookups that answer in one
/// way only, a tree has one HTML, the one that `render_tree` gives.
pub proof fn lemma_tree_is_determined(
    nodes: Seq<Node>,
    wumboji: bool,
    look: Lookups,
    table: Table,
    out: Seq<char>,
)
    requires
        follows(look, table),
        tree_renders(nodes, wumboji, look, out),
    ensures
        out == render_tree(nodes, wumboji, table),
    decreases nodes, 2int,
{
    let pieces = choose|pieces: Seq<Seq<char>>|
        fragments_render(nodes, wumboji, look, pieces) && out == #[trigger] concat(pieces);
    assert forall|i: int| 0 <= i < nodes.len() implies #[trigger] pieces[i] == render_node(
        nodes[i],
        wumboji,
        table,
    ) by {
        lemma_node_is_determined(nodes[i], wumboji, look, table, pieces[i]);
    }
    assert(pieces =~= render_fragments(nodes, wumboji, table));
}

/// Whether every character of `text` is white space.
pub fn blank(text: &str) -> (r: bool)
    ensures
        r == is_blank(text@),
{
    for c in it: text.chars()
        invariant
            it.seq() == text@,
            forall|i: int| 0 <= i < it.index() ==> is_whitespace(#[trigger] text@[i]),
    {
        if !whitespace_char(c) {
            return false;
        }
    }
    true
}

/// Whether the tree holds custom emoji and white space only.
pub fn only_emoji<'a>(ast: &Vec<Expression<'a>>) -> (r: bool)
    ensures
        r == emoji_only(nodes_of(ast@)),
{
    let mut i: usize = 0;
    while i < ast.len()
        invariant
            i <= ast.len(),
            forall|j: int| 0 <= j < i ==> is_emoji_or_blank(#[trigger] nodes_of(ast@)[j]),
        decreases ast.len() - i,
    {
        let fits = match &ast[i] {
            Expression::CustomEmoji(_, _) => true,
            Expression::Text(text) => blank(text),
            _ => false,
        };
        if !fits {
            assert(!is_emoji_or_blank(nodes_of(ast@)[i as int]));
            return false;
        }
        i += 1;
    }
    true
}

/// A fragment with its line breaks written as `<br>`.
fn finish(html: String) -> (out: String)
    ensures
        out@ == line_breaks(html@),
{
    proof {
        reveal_strlit("\n");
    }
    replace_all(html.as_str(), "\n", "<br>")
}

/// The fragment of one node.
fn render<
    'a,
    A: Fn(&str) -> (String, Option<String>),
    B: Fn(&str) -> (String, Option<String>),
    C: Fn(&str) -> (String, Option<String>),
    D: Fn(&str) -> (String, Option<String>),
>(expression: &Expression<'a>, wumboji: bool, cb: &Callbacks<A, B, C, D>) -> (html: String)
    requires
        total(cb.emoji),
        total(cb.user),
        total(cb.role),
        total(cb.channel),
    ensures
        node_renders(node_of(*expression), wumboji, lookups_of(cb), html@),
    decreases expression, 0int,
{
    proof {
        reveal_strlit("");
    }
    match expression {
        Expression::Text(text) => {
            let safe = escape(text);
            finish(wrap("<span>", safe.as_str(), "</span>"))
        },
        Expression::CustomEmoji(name, file) => {
            let answer = (cb.emoji)(file.as_str());
            let mut html = String::from_str("<img src=\"");
            html.append(answer.0.as_str());
            html.append("\" alt=\"");
            html.append(name);
            html.append("\" class=\"emoji");
            if wumboji {
                html.append(" wumboji");
            }
            html.append("\" title=\"");
            html.append(name);
            html.append("\"></img>");
            proof {
                assert(may_answer(lookups_of(cb).emoji, file@, answer.0@, option_text(answer.1)));
            }
            finish(html)
        },
        Expression::User(id) => {
            let answer = (cb.user)(id);
            let html = wrap("<span class=\"user\">@", answer.0.as_str(), "</span>");
            proof {
                assert(may_answer(lookups_of(cb).user, id@, answer.0@, option_text(answer.1)));
            }
            finish(html)
        },
        Expression::Role(id) => {
            let answer = (cb.role)(id);
            let color = match &answer.1 {
                Some(color) => color.as_str(),
                None => "#afafaf",
            };
            let mut html = String::from_str("<div class=\"role\" style=\"color: ");
            html.append(color);
            html.append("\">@");
            html.append(answer.0.as_str());
            html.append("<span style=\"background-color: ");
            html.append(color);
            html.append("\"></span></div>");
            proof {
                assert(may_answer(lookups_of(cb).role, id@, answer.0@, option_text(answer.1)));
            }
            finish(html)
        },
        Expression::Channel(id) => {
            let answer = (cb.channel)(id);
            let mut html = String::from_str("<span class=\"channel\" data-id=\"");
            html.append(id);
            html.append("\">#");
            html.append(answer.0.as_str());
            html.append("</span>");
            proof {
                assert(may_answer(lookups_of(cb).channel, id@, answer.0@, option_text(answer.1)));
            }
            finish(html)
        },
        Expression::Hyperlink(text, href) => {
            let mut html = String::from_str("<a href=\"");
            html.append(href);
            html.append("\" target=\"_blank\">");
            html.append(text);
            html.append("</a>");
            finish(html)
        },
        Expression::MultilineCode(text) => {
            finish(wrap("<pre class=\"multiline_code\">", text, "</pre>"))
        },
        Expression::InlineCode(text) => {
            finish(wrap("<span class=\"inline_code\">", text, "</span>"))
        },
        Expression::Blockquote(a) => {
            let inner = traverse(a, cb, false);
            finish(wrap("<blockquote>", inner.as_str(), "</blockquote>"))
        },
        Expression::Spoiler(a) => {
            let inner = traverse(a, cb, false);
            finish(wrap("<span class=\"spoiler\">", inner.as_str(), "</span>"))
        },
        Expression::Underline(a) => {
            let inner = traverse(a, cb, false);
            finish(wrap("<span class=\"underline\">", inner.as_str(), "</span>"))
        },
        Expression::Strikethrough(a) => {
            let inner = traverse(a, cb, false);
            finish(wrap("<span class=\"strikethrough\">", inner.as_str(), "</span>"))
        },
        Expression::Bold(a) => {
            let inner = traverse(a, cb, false);
            finish(wrap("<strong>", inner.as_str(), "</strong>"))
        },
        Expression::Italics(a) => {
            let inner = traverse(a, cb, false);
            finish(wrap("<em>", inner.as_str(), "</em>"))
        },
    }
}

/// Generates the HTML of a tree. The emoji of the tree are shown enlarged where
/// `first` says that this is the whole tree of a message and the tree holds
/// custom emoji and white space only.
pub(crate) fn traverse<
    'a,
    A: Fn(&str) -> (String, Option<String>),
    B: Fn(&str) -> (String, Option<String>),
    C: Fn(&str) -> (String, Option<String>),
    D: Fn(&str) -> (String, Option<String>),
>(ast: &Vec<Expression<'a>>, cb: &Callbacks<A, B, C, D>, first: bool) -> (html: String)
    requires
        total(cb.emoji),
        total(cb.user),
        total(cb.role),
        total(cb.channel),
    ensures
        tree_renders(
            nodes_of(ast@),
            first && emoji_only(nodes_of(ast@)),
            lookups_of(cb),
            html@,
        ),
    decreases ast, 1int,
{
    let wumboji = first && only_emoji(ast);
    let mut html = String::new();
    let mut i: usize = 0;
    let ghost mut pieces: Seq<Seq<char>> = Seq::empty();
    while i < ast.len()
        invariant
            i <= ast.len(),
            total(cb.emoji),
            total(cb.user),
            total(cb.role),
            total(cb.channel),
            pieces.len() == i,
            forall|j: int|
                0 <= j < i ==> node_renders(
                    nodes_of(ast@)[j],
                    wumboji,
                    lookups_of(cb),
                    #[trigger] pieces[j],
                ),
            html@ == concat(pieces),
        decreases ast.len() - i,
    {
        let piece = render(&ast[i], wumboji, cb);
        proof {
            lemma_concat_push(pieces, piece@);
            pieces = pieces.push(piece@);
        }
        html.append(piece.as_str());
        i += 1;
    }
    html
}

/// Generates the HTML of the tree of a message. Each lookup is asked for the
/// identifier of each node of its kind, as often as the node occurs, and its
/// answer is put into the fragment of that node.
pub fn to_html<'a>(
    ast: Vec<Expression<'a>>,
    emoji: impl Fn(&str) -> (String, Option<String>),
    user: impl Fn(&str) -> (String, Option<String>),
    role: impl Fn(&str) -> (String, Option<String>),
    channel: impl Fn(&str) -> (String, Option<String>),
) -> (html: String)
    requires
        total(emoji),
        total(user),
        total(role),
        total(channel),
    ensures
        tree_renders(
            nodes_of(ast@),
            emoji_only(nodes_of(ast@)),
            lookups_of(&(Callbacks { emoji, user, role, channel })),
            html@,
        ),
{
    let cb = Callbacks { emoji, user, role, channel };
    traverse(&ast, &cb, true)
}

} // verus!
