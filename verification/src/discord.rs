//! The adapter for backups of the rich kind: rows with markup, replies,
//! attachments and reactions, and assets that are kept beside the database or
//! else fetched from the platform.
//!
//! What only the store can tell, the caller supplies as functions: whether an
//! asset is kept beside the database, the message that a reply refers to, and
//! the names of users, roles and channels.

use vstd::prelude::*;
use crate::actions::{messages_view, reference_view, Message, MessageView, RowError};
use crate::convertor::{
    answers_of, answers_within, emoji_only, lemma_tree_renders_within, lookups_of, may_answer,
    option_text, total, traverse, tree_renders, Answers, Callbacks, Lookups,
};
use crate::generic::{color_of, file_type, media_kind};
use crate::parser::{nodes_of, parse, parse_embed};
use crate::syntax::parse_text;
use crate::text::{
    collect, decimal, decimal_text, has_prefix, join_path, path_join, pieces, replace_all,
    replaced, split, str_eq, texts, to_chars,
};
use crate::timeline::{assemble, drafts_view, step, timeline, Draft, DraftView};
use crate::timestamp::Timestamp;

verus! {

/// The kinds of asset that a backup keeps beside its database.
#[derive(Debug, Clone, Copy, PartialEq, Eq, Structural)]
pub enum AssetType {
    Avatar,
    Attachment,
    Emoji,
}

impl AssetType {
    /// The name of the directory where assets of this kind are stored.
    pub open spec fn dir_name(self) -> Seq<char> {
        match self {
            AssetType::Avatar => "avatars"@,
            AssetType::Attachment => "attachments"@,
            AssetType::Emoji => "emoji"@,
        }
    }

    /// The name of the directory on the servers of the platform.
    pub open spec fn remote_dir_name(self) -> Seq<char> {
        match self {
            AssetType::Emoji => "emojis"@,
            _ => self.dir_name(),
        }
    }

    /// The name of the directory where assets of this kind are stored.
    pub fn dir(&self) -> (r: &'static str)
        ensures
            r@ == self.dir_name(),
    {
        match self {
            AssetType::Avatar => "avatars",
            AssetType::Attachment => "attachments",
            AssetType::Emoji => "emoji",
        }
    }

    /// The name of the directory on the servers of the platform.
    pub fn discord_dir(&self) -> (r: &'static str)
        ensures
            r@ == self.remote_dir_name(),
    {
        match self {
            AssetType::Emoji => "emojis",
            _ => self.dir(),
        }
    }
}

/// Where an asset is kept beside the database: the path of the backup, the
/// directory of the kind of asset, and the path of the asset, joined as paths.
pub open spec fn local_path(backup_path: Seq<char>, asset_type: AssetType, asset_path: Seq<char>) -> Seq<
    char,
> {
    path_join(path_join(backup_path, asset_type.dir_name()), asset_path)
}

/// Where the platform serves an asset.
pub open spec fn remote_url(asset_type: AssetType, asset_path: Seq<char>) -> Seq<char> {
    "https://cdn.discordapp.com/"@ + asset_type.remote_dir_name() + "/"@ + asset_path
}

/// The address of an asset: its local path where it is kept beside the
/// database, and else where the platform serves it.
pub open spec fn asset_url(
    backup_path: Seq<char>,
    asset_type: AssetType,
    asset_path: Seq<char>,
    local: bool,
) -> Seq<char> {
    if local {
        local_path(backup_path, asset_type, asset_path)
    } else {
        remote_url(asset_type, asset_path)
    }
}

/// Whether the check `check`, asked for `path`, may answer `found`.
pub open spec fn says<X: Fn(&str) -> bool>(check: X, path: Seq<char>, found: bool) -> bool {
    exists|arg: &str| arg@ == path && #[trigger] call_ensures(check, (arg,), found)
}

/// Whether the check `check` can be asked for every path.
pub open spec fn checks<X: Fn(&str) -> bool>(check: X) -> bool {
    forall|arg: &str| call_requires(check, (arg,))
}

/// Whether `out` is an address of the asset, given what the check may answer
/// for its local path.
pub open spec fn url_resolves<X: Fn(&str) -> bool>(
    check: X,
    backup_path: Seq<char>,
    asset_type: AssetType,
    asset_path: Seq<char>,
    out: Seq<char>,
) -> bool {
    ||| says(check, local_path(backup_path, asset_type, asset_path), true) && out == asset_url(
        backup_path,
        asset_type,
        asset_path,
        true,
    )
    ||| says(check, local_path(backup_path, asset_type, asset_path), false) && out == asset_url(
        backup_path,
        asset_type,
        asset_path,
        false,
    )
}

/// The address of an asset, given whether it is kept beside the database.
pub fn address(backup_path: &str, asset_type: AssetType, asset_path: &str, local: bool) -> (r:
    String)
    ensures
        r@ == asset_url(backup_path@, asset_type, asset_path@, local),
{
    if local {
        let dir = join_path(backup_path, asset_type.dir());
        join_path(dir.as_str(), asset_path)
    } else {
        let mut r = String::from_str("https://cdn.discordapp.com/");
        r.append(asset_type.discord_dir());
        r.append("/");
        r.append(asset_path);
        r
    }
}

/// Converts the path of an asset to its address. The check is asked once, for
/// the local path of the asset.
pub fn url<X: Fn(&str) -> bool>(
    backup_path: &str,
    asset_type: AssetType,
    asset_path: &str,
    check: &X,
) -> (r: String)
    requires
        checks(*check),
    ensures
        url_resolves(*check, backup_path@, asset_type, asset_path@, r@),
{
    let dir = join_path(backup_path, asset_type.dir());
    let local = join_path(dir.as_str(), asset_path);
    let found = check(local.as_str());
    if found {
        local
    } else {
        address(backup_path, asset_type, asset_path, false)
    }
}

/// A reaction as a row holds it.
#[derive(Debug)]
pub struct Reaction {
    pub name: String,
    /// The file of the image of a custom emoji.
    pub file: Option<String>,
    /// How many gave the reaction.
    pub count: usize,
}

/// A reaction as a mathematical value.
pub struct ReactionView {
    pub name: Seq<char>,
    pub file: Option<Seq<char>>,
    pub count: usize,
}

impl View for Reaction {
    type V = ReactionView;

    open spec fn view(&self) -> ReactionView {
        ReactionView { name: self.name@, file: option_text(self.file), count: self.count }
    }
}

/// The values of a sequence of reactions.
pub open spec fn tokens_view(v: Seq<Reaction>) -> Seq<ReactionView> {
    Seq::new(v.len(), |i: int| v[i]@)
}

/// `s` without the character `c` at its start, where it starts with it.
pub open spec fn without_first(s: Seq<char>, c: char) -> Seq<char> {
    if s.len() > 0 && s[0] == c {
        s.skip(1)
    } else {
        s
    }
}

/// `s` without the character `c` at its end, where it ends with it.
pub open spec fn without_last(s: Seq<char>, c: char) -> Seq<char> {
    if s.len() > 0 && s.last() == c {
        s.drop_last()
    } else {
        s
    }
}

/// The file of the image of a custom emoji: its identifier, with `.gif` where
/// the flag says that it is animated and with `.png` where it does not.
pub open spec fn emoji_file(flag: Seq<char>, id: Seq<char>) -> Seq<char> {
    id + (if flag == "a"@ {
        ".gif"@
    } else {
        ".png"@
    })
}

/// The reaction that a token stands for.
///
/// A token is an emoji, a hyphen, and the users who gave the reaction, one
/// after the other with commas between them. An emoji of one segment is a
/// character of its own and has no image. A custom emoji has three segments
/// with colons between them, and may stand in angle brackets: a flag, which is
/// `a` for an animated emoji, the name, and the identifier. A token without a
/// hyphen or with an emoji of two segments stands for nothing.
pub open spec fn reaction_of(token: Seq<char>) -> Result<ReactionView, RowError> {
    let parts = split(token, '-');
    if parts.len() < 2 {
        Err(RowError::Reactions)
    } else {
        let emoji = split(parts[0], ':');
        let count = split(parts[1], ',').len() as usize;
        if emoji.len() == 1 {
            Ok(ReactionView { name: emoji[0], file: None, count })
        } else if emoji.len() < 3 {
            Err(RowError::Reactions)
        } else {
            Ok(
                ReactionView {
                    name: emoji[1],
                    file: Some(
                        emoji_file(without_first(emoji[0], '<'), without_last(emoji[2], '>')),
                    ),
                    count,
                },
            )
        }
    }
}

/// `s` without the character `c` at its start, where it starts with it.
fn strip_first(s: &str, c: char) -> (r: String)
    ensures
        r@ == without_first(s@, c),
{
    let text = to_chars(s);
    if text.len() > 0 && text[0] == c {
        let r = collect(&text, 1, text.len());
        r
    } else {
        let r = collect(&text, 0, text.len());
        r
    }
}

/// `s` without the character `c` at its end, where it ends with it.
fn strip_last(s: &str, c: char) -> (r: String)
    ensures
        r@ == without_last(s@, c),
{
    let text = to_chars(s);
    if text.len() > 0 && text[text.len() - 1] == c {
        let r = collect(&text, 0, text.len() - 1);
        r
    } else {
        let r = collect(&text, 0, text.len());
        r
    }
}

/// Decodes the token of a reaction.
pub fn decode_reaction(token: &str) -> (r: Result<Reaction, RowError>)
    ensures
        match reaction_of(token@) {
            Ok(reaction) => r matches Ok(x) && x@ == reaction,
            Err(e) => r == Err::<Reaction, RowError>(e),
        },
{
    let parts = pieces(token, '-');
    if parts.len() < 2 {
        return Err(RowError::Reactions);
    }
    let emoji = pieces(parts[0].as_str(), ':');
    let users = pieces(parts[1].as_str(), ',');
    let count = users.len();
    if emoji.len() == 1 {
        Ok(Reaction { name: emoji[0].clone(), file: None, count })
    } else if emoji.len() < 3 {
        Err(RowError::Reactions)
    } else {
        let flag = strip_first(emoji[0].as_str(), '<');
        let mut file = strip_last(emoji[2].as_str(), '>');
        if str_eq(flag.as_str(), "a") {
            file.append(".gif");
        } else {
            file.append(".png");
        }
        Ok(Reaction { name: emoji[1].clone(), file: Some(file), count })
    }
}

/// The message that a reply refers to, as the store holds it.
#[derive(Debug)]
pub struct Reply {
    pub sequential_id: u64,
    pub name: String,
    pub avatar: String,
    pub color: Option<String>,
    pub content: Option<String>,
    pub has_attachments: bool,
}

/// What only the store can tell.
pub struct Store<X, P, U, R, C> {
    /// Whether an asset is kept beside the database, by its local path.
    pub asset_exists: X,
    /// The message with a given identifier, where the store holds it.
    pub reply: P,
    /// The name of a user.
    pub user: U,
    /// The name of a role and, where it has one, its colour.
    pub role: R,
    /// The name of a channel.
    pub channel: C,
}

/// What the lookup of emoji may answer: for the file of an emoji an address of
/// the file, and no second attribute.
pub open spec fn emoji_answers<X: Fn(&str) -> bool>(check: X, backup_path: Seq<char>) -> Answers {
    |file: Seq<char>, path: Seq<char>, extra: Option<Seq<char>>|
        extra is None && url_resolves(check, backup_path, AssetType::Emoji, file, path)
}

/// What the lookups of the store may answer.
pub open spec fn store_lookups<
    X: Fn(&str) -> bool,
    P: Fn(u64) -> Option<Reply>,
    U: Fn(&str) -> (String, Option<String>),
    R: Fn(&str) -> (String, Option<String>),
    C: Fn(&str) -> (String, Option<String>),
>(store: &Store<X, P, U, R, C>, backup_path: Seq<char>) -> Lookups {
    Lookups {
        emoji: emoji_answers(store.asset_exists, backup_path),
        user: answers_of(store.user),
        role: answers_of(store.role),
        channel: answers_of(store.channel),
    }
}

/// Whether every function of the store can be asked for every argument.
pub open spec fn ready<
    X: Fn(&str) -> bool,
    P: Fn(u64) -> Option<Reply>,
    U: Fn(&str) -> (String, Option<String>),
    R: Fn(&str) -> (String, Option<String>),
    C: Fn(&str) -> (String, Option<String>),
>(store: &Store<X, P, U, R, C>) -> bool {
    checks(store.asset_exists) && (forall|id: u64| call_requires(store.reply, (id,))) && total(
        store.user,
    ) && total(store.role) && total(store.channel)
}

/// Whether `html` is the content of a message with the text `content`, which
/// is parsed as an embed where `embed` says so.
pub open spec fn content_renders<
    X: Fn(&str) -> bool,
    P: Fn(u64) -> Option<Reply>,
    U: Fn(&str) -> (String, Option<String>),
    R: Fn(&str) -> (String, Option<String>),
    C: Fn(&str) -> (String, Option<String>),
>(
    store: &Store<X, P, U, R, C>,
    backup_path: Seq<char>,
    content: Seq<char>,
    embed: bool,
    html: Seq<char>,
) -> bool {
    tree_renders(
        parse_text(content, embed),
        emoji_only(parse_text(content, embed)),
        store_lookups(store, backup_path),
        html,
    )
}

/// Parses and renders the text of a message.
pub fn render_content<
    X: Fn(&str) -> bool,
    P: Fn(u64) -> Option<Reply>,
    U: Fn(&str) -> (String, Option<String>),
    R: Fn(&str) -> (String, Option<String>),
    C: Fn(&str) -> (String, Option<String>),
>(store: &Store<X, P, U, R, C>, backup_path: &str, content: &str, embed: bool) -> (html: String)
    requires
        ready(store),
    ensures
        content_renders(store, backup_path@, content@, embed, html@),
{
    let parsed = if embed {
        parse_embed(content)
    } else {
        parse(content)
    };
    let tree = match parsed {
        Ok(tree) => tree,
        Err(_) => Vec::new(),
    };
    let emoji = |file: &str| -> (r: (String, Option<String>))
        ensures
            r.1 is None,
            url_resolves(store.asset_exists, backup_path@, AssetType::Emoji, file@, r.0@),
        { (url(backup_path, AssetType::Emoji, file, &store.asset_exists), None) };
    let cb = Callbacks { emoji, user: &store.user, role: &store.role, channel: &store.channel };
    let html = traverse(&tree, &cb, true);
    proof {
        let strong = lookups_of(&cb);
        let weak = store_lookups(store, backup_path@);
        assert(answers_within(strong.emoji, weak.emoji)) by {
            assert forall|id: Seq<char>, name: Seq<char>, extra: Option<Seq<char>>| #[trigger]
                may_answer(strong.emoji, id, name, extra) implies may_answer(
                weak.emoji,
                id,
                name,
                extra,
            ) by {
                let (arg, res) = choose|arg: &str, res: (String, Option<String>)|
                    arg@ == id && #[trigger] call_ensures(cb.emoji, (arg,), res) && res.0@ == name
                        && option_text(res.1) == extra;
            }
        }
        lemma_tree_renders_within(
            nodes_of(tree@),
            emoji_only(nodes_of(tree@)),
            strong,
            weak,
            html@,
        );
    }
    html
}

/// The columns that the adapter reads of each message, with the words that
/// lead up to the condition of a query.
pub open spec fn selection() -> Seq<char> {
    "SELECT ROWID, id, message_type, name, avatar, color, bot, created_timestamp, edited_timestamp, reference, content, attachments, reactions FROM messages WHERE"@
}

/// The query that a template stands for: each `{}` in it is replaced by the
/// selection of the adapter. The template supplies the condition, the order
/// and the limit.
pub fn query(template: &str) -> (r: String)
    ensures
        r@ == replaced(template@, "{}"@, selection()),
{
    proof {
        reveal_strlit("{}");
    }
    replace_all(
        template,
        "{}",
        "SELECT ROWID, id, message_type, name, avatar, color, bot, created_timestamp, edited_timestamp, reference, content, attachments, reactions FROM messages WHERE",
    )
}

/// A message as the database holds it. A column that may hold nothing is an
/// `Option`.
#[derive(Debug)]
pub struct Row {
    pub sequential_id: u64,
    pub message_id: u64,
    pub message_type: String,
    pub name: String,
    pub avatar: String,
    pub color: Option<String>,
    /// What kind of author wrote the message; `2` marks the content of an
    /// embed.
    pub bot: u8,
    pub created: Timestamp,
    pub edited: Option<Timestamp>,
    /// The identifier of the message replied to.
    pub reference: Option<u64>,
    pub content: Option<String>,
    /// The paths of the attached files, with spaces between them.
    pub attachments: Option<String>,
    /// The tokens of the reactions, with spaces between them.
    pub reactions: Option<String>,
}

/// A row as a mathematical value.
pub struct RowView {
    pub sequential_id: u64,
    pub message_id: u64,
    pub message_type: Seq<char>,
    pub name: Seq<char>,
    pub avatar: Seq<char>,
    pub color: Option<Seq<char>>,
    pub bot: u8,
    pub created: Timestamp,
    pub edited: Option<Timestamp>,
    pub reference: Option<u64>,
    pub content: Option<Seq<char>>,
    pub attachments: Option<Seq<char>>,
    pub reactions: Option<Seq<char>>,
}

impl View for Row {
    type V = RowView;

    open spec fn view(&self) -> RowView {
        RowView {
            sequential_id: self.sequential_id,
            message_id: self.message_id,
            message_type: self.message_type@,
            name: self.name@,
            avatar: self.avatar@,
            color: option_text(self.color),
            bot: self.bot,
            created: self.created,
            edited: self.edited,
            reference: self.reference,
            content: option_text(self.content),
            attachments: option_text(self.attachments),
            reactions: option_text(self.reactions),
        }
    }
}

/// The values of a sequence of rows.
pub open spec fn rows_view(v: Seq<Row>) -> Seq<RowView> {
    Seq::new(v.len(), |i: int| v[i]@)
}

/// The text of a column that may hold nothing.
pub open spec fn text_or_empty(s: Option<Seq<char>>) -> Seq<char> {
    match s {
        Some(s) => s,
        None => Seq::empty(),
    }
}

/// Of the pieces those that are not empty, in their order.
pub open spec fn kept(pieces: Seq<Seq<char>>) -> Seq<Seq<char>>
    decreases pieces.len(),
{
    if pieces.len() == 0 {
        Seq::empty()
    } else if pieces.last().len() > 0 {
        kept(pieces.drop_last()).push(pieces.last())
    } else {
        kept(pieces.drop_last())
    }
}

/// The paths of the files attached to a row.
pub open spec fn attached_files(attachments: Option<Seq<char>>) -> Seq<Seq<char>> {
    kept(split(text_or_empty(attachments), ' '))
}

/// Whether an attached file is a spoiler: the last segment of its path starts
/// with the marker.
pub open spec fn is_spoiler(file: Seq<char>) -> bool {
    let name = split(file, '/').last();
    "SPOILER_"@.len() <= name.len() && name.subrange(0, "SPOILER_"@.len() as int) == "SPOILER_"@
}

/// The reactions that the tokens stand for, or why the first token that
/// stands for nothing does.
pub open spec fn reactions_of_tokens(tokens: Seq<Seq<char>>) -> Result<Seq<ReactionView>, RowError>
    decreases tokens.len(),
{
    if tokens.len() == 0 {
        Ok(Seq::empty())
    } else {
        match reactions_of_tokens(tokens.drop_last()) {
            Err(e) => Err(e),
            Ok(reactions) => match reaction_of(tokens.last()) {
                Err(e) => Err(e),
                Ok(reaction) => Ok(reactions.push(reaction)),
            },
        }
    }
}

/// The reactions of a row: none where the column holds nothing.
pub open spec fn reactions_of(reactions: Option<Seq<char>>) -> Result<Seq<ReactionView>, RowError> {
    match reactions {
        None => Ok(Seq::empty()),
        Some(raw) => reactions_of_tokens(split(raw, ' ')),
    }
}

/// Why a row cannot be read, if it cannot: its instant cannot be written, or
/// one of its reactions stands for nothing.
pub open spec fn row_error(row: RowView) -> Option<RowError> {
    if row.created.minute_text() is None || row.created.day_text() is None {
        Some(RowError::Timestamp)
    } else {
        match reactions_of(row.reactions) {
            Err(e) => Some(e),
            Ok(_) => None,
        }
    }
}

/// Why a page cannot be read, if it cannot: why its first row that cannot be
/// read cannot.
pub open spec fn page_error(rows: Seq<RowView>) -> Option<RowError>
    decreases rows.len(),
{
    if rows.len() == 0 {
        None
    } else {
        match page_error(rows.drop_last()) {
            Some(e) => Some(e),
            None => row_error(rows.last()),
        }
    }
}

/// Whether a row is a reply: it refers to another message.
pub open spec fn is_reply(row: RowView) -> bool {
    row.reference is Some
}

/// What the store has told of a row.
pub struct Resolved {
    /// The address of the avatar of the author.
    pub avatar: Seq<char>,
    /// The addresses of the attached files.
    pub attachments: Seq<Seq<char>>,
    /// The message replied to.
    pub reference: Option<(Seq<char>, Seq<char>, Seq<char>, Seq<char>, Seq<char>, bool)>,
    /// The content as HTML.
    pub content: Seq<char>,
    /// The addresses of the images of the reactions.
    pub reactions: Seq<Option<Seq<char>>>,
}

/// Whether `shown` is what is shown of the reply `reply`, given what the check
/// may answer for the avatar of its author.
pub open spec fn reply_shown<X: Fn(&str) -> bool>(
    check: X,
    backup_path: Seq<char>,
    reply: Reply,
    shown: (Seq<char>, Seq<char>, Seq<char>, Seq<char>, Seq<char>, bool),
) -> bool {
    shown.0 == decimal_text(reply.sequential_id as nat) && shown.1 == reply.name@ && url_resolves(
        check,
        backup_path,
        AssetType::Avatar,
        reply.avatar@,
        shown.2,
    ) && shown.3 == color_of(option_text(reply.color)) && shown.4 == text_or_empty(
        option_text(reply.content),
    ) && shown.5 == reply.has_attachments
}

/// Whether `shown` is what is shown of the message with the identifier `id`,
/// given what the store may answer: nothing where the store holds no such
/// message.
pub open spec fn reference_resolves<
    X: Fn(&str) -> bool,
    P: Fn(u64) -> Option<Reply>,
    U: Fn(&str) -> (String, Option<String>),
    R: Fn(&str) -> (String, Option<String>),
    C: Fn(&str) -> (String, Option<String>),
>(
    store: &Store<X, P, U, R, C>,
    backup_path: Seq<char>,
    id: u64,
    shown: Option<(Seq<char>, Seq<char>, Seq<char>, Seq<char>, Seq<char>, bool)>,
) -> bool {
    exists|answer: Option<Reply>| #[trigger]
        call_ensures(store.reply, (id,), answer) && match answer {
            Some(reply) => shown matches Some(s) && reply_shown(
                store.asset_exists,
                backup_path,
                reply,
                s,
            ),
            None => shown is None,
        }
}

/// Whether `address` is the address of the image of a reaction, given what the
/// check may answer: none for a reaction without a file.
pub open spec fn reaction_resolves<X: Fn(&str) -> bool>(
    check: X,
    backup_path: Seq<char>,
    reaction: ReactionView,
    address: Option<Seq<char>>,
) -> bool {
    match reaction.file {
        Some(file) => address matches Some(a) && url_resolves(
            check,
            backup_path,
            AssetType::Emoji,
            file,
            a,
        ),
        None => address is None,
    }
}

/// Whether `resolved` is what the store may tell of a row that can be read.
///
/// The store is asked for the avatar of the author and for each attached
/// file; for the message replied to, where the row is a reply; for each emoji,
/// user, role and channel that the content names; and for the image of each
/// reaction of a custom emoji.
pub open spec fn resolves<
    X: Fn(&str) -> bool,
    P: Fn(u64) -> Option<Reply>,
    U: Fn(&str) -> (String, Option<String>),
    R: Fn(&str) -> (String, Option<String>),
    C: Fn(&str) -> (String, Option<String>),
>(store: &Store<X, P, U, R, C>, row: RowView, backup_path: Seq<char>, resolved: Resolved) -> bool {
    &&& url_resolves(store.asset_exists, backup_path, AssetType::Avatar, row.avatar, resolved.avatar)
    &&& resolved.attachments.len() == attached_files(row.attachments).len()
    &&& forall|k: int|
        0 <= k < resolved.attachments.len() ==> url_resolves(
            store.asset_exists,
            backup_path,
            AssetType::Attachment,
            attached_files(row.attachments)[k],
            #[trigger] resolved.attachments[k],
        )
    &&& if is_reply(row) {
        reference_resolves(store, backup_path, row.reference->0, resolved.reference)
    } else {
        resolved.reference is None
    }
    &&& content_renders(
        store,
        backup_path,
        text_or_empty(row.content),
        row.bot == 2,
        resolved.content,
    )
    &&& reactions_of(row.reactions) matches Ok(reactions) && resolved.reactions.len()
        == reactions.len() && forall|k: int|
        0 <= k < reactions.len() ==> reaction_resolves(
            store.asset_exists,
            backup_path,
            reactions[k],
            #[trigger] resolved.reactions[k],
        )
}

/// The message of a row that can be read, given what the store has told.
///
/// An edit that cannot be written as a date and time does not show. A reply
/// asks for a header of its own.
pub open spec fn message_with(row: RowView, resolved: Resolved) -> MessageView {
    let files = attached_files(row.attachments);
    let reactions = reactions_of(row.reactions)->Ok_0;
    MessageView {
        sequential_id: decimal_text(row.sequential_id as nat),
        message_id: decimal_text(row.message_id as nat),
        message_type: row.message_type,
        name: row.name,
        avatar: resolved.avatar,
        color: color_of(row.color),
        bot: row.bot,
        created_timestamp: row.created.minute_text()->0,
        edited_timestamp: match row.edited {
            Some(edited) => edited.minute_text(),
            None => None,
        },
        separate: is_reply(row),
        reference: resolved.reference,
        content: resolved.content,
        edits_list: Seq::empty(),
        attachments: Seq::new(
            files.len(),
            |k: int| (resolved.attachments[k], media_kind(files[k]), is_spoiler(files[k])),
        ),
        reactions: Seq::new(
            reactions.len(),
            |k: int| (reactions[k].name, resolved.reactions[k], reactions[k].count),
        ),
    }
}

/// The draft of a row that can be read, given what the store has told.
pub open spec fn draft_with(row: RowView, resolved: Resolved) -> DraftView {
    DraftView {
        created: row.created,
        day: row.created.day_text()->0,
        message: Some(message_with(row, resolved)),
    }
}

/// Whether `draft` is the draft of the row, given what the store may tell.
pub open spec fn drafted<
    X: Fn(&str) -> bool,
    P: Fn(u64) -> Option<Reply>,
    U: Fn(&str) -> (String, Option<String>),
    R: Fn(&str) -> (String, Option<String>),
    C: Fn(&str) -> (String, Option<String>),
>(
    draft: DraftView,
    store: &Store<X, P, U, R, C>,
    row: RowView,
    backup_path: Seq<char>,
    resolved: Resolved,
) -> bool {
    resolves(store, row, backup_path, resolved) && draft == draft_with(row, resolved)
}

/// Whether an attached file is a spoiler.
pub fn spoiler(file: &str) -> (r: bool)
    ensures
        r == is_spoiler(file@),
{
    let segments = pieces(file, '/');
    let last = &segments[segments.len() - 1];
    has_prefix(last.as_str(), "SPOILER_")
}

/// Decodes the reactions of a row.
pub fn decode_reactions(reactions: &Option<String>) -> (r: Result<Vec<Reaction>, RowError>)
    ensures
        match reactions_of(option_text(*reactions)) {
            Ok(found) => r matches Ok(v) && tokens_view(v@) == found,
            Err(e) => r == Err::<Vec<Reaction>, RowError>(e),
        },
{
    let mut out: Vec<Reaction> = Vec::new();
    match reactions {
        None => {
            Ok(out)
        },
        Some(raw) => {
            let tokens = pieces(raw.as_str(), ' ');
            let ghost all = texts(tokens@);
            let mut i: usize = 0;
            assert(tokens_view(out@) =~= Seq::<ReactionView>::empty());
            while i < tokens.len()
                invariant
                    i <= tokens.len(),
                    all == texts(tokens@),
                    all == split(raw@, ' '),
                    option_text(*reactions) == Some(raw@),
                    reactions_of_tokens(all.take(i as int)) == Ok::<Seq<ReactionView>, RowError>(
                        tokens_view(out@),
                    ),
                decreases tokens.len() - i,
            {
                proof {
                    assert(all.take(i + 1).drop_last() =~= all.take(i as int));
                    lemma_reactions_failure_stays(all, i + 1);
                }
                match decode_reaction(tokens[i].as_str()) {
                    Ok(reaction) => {
                        let ghost before = tokens_view(out@);
                        let ghost added = reaction@;
                        out.push(reaction);
                        assert(tokens_view(out@) =~= before.push(added));
                    },
                    Err(e) => {
                        return Err(e);
                    },
                }
                i += 1;
            }
            assert(all.take(i as int) =~= all);
            Ok(out)
        },
    }
}

/// Reactions that fail at one of their first tokens fail in the same way as a
/// whole.
pub proof fn lemma_reactions_failure_stays(tokens: Seq<Seq<char>>, n: int)
    requires
        0 <= n <= tokens.len(),
    ensures
        reactions_of_tokens(tokens.take(n)) matches Err(e) ==> reactions_of_tokens(tokens)
            == Err::<Seq<ReactionView>, RowError>(e),
    decreases tokens.len() - n,
{
    if n < tokens.len() {
        assert(tokens.take(n + 1).drop_last() =~= tokens.take(n));
        lemma_reactions_failure_stays(tokens, n + 1);
    } else {
        assert(tokens.take(n) =~= tokens);
    }
}

/// Adding a piece at the end keeps it where it is not empty.
pub proof fn lemma_kept_push(pieces: Seq<Seq<char>>, piece: Seq<char>)
    ensures
        kept(pieces.push(piece)) == if piece.len() > 0 {
            kept(pieces).push(piece)
        } else {
            kept(pieces)
        },
{
    assert(pieces.push(piece).drop_last() =~= pieces);
}

/// The attachments of a row as they are shown: of each attached file an
/// address, its kind of medium, and whether it is a spoiler.
pub fn attach<X: Fn(&str) -> bool>(check: &X, backup_path: &str, attachments: &Option<String>) -> (r:
    Vec<(String, String, bool)>)
    requires
        checks(*check),
    ensures
        r@.len() == attached_files(option_text(*attachments)).len(),
        forall|k: int|
            0 <= k < r@.len() ==> url_resolves(
                *check,
                backup_path@,
                AssetType::Attachment,
                attached_files(option_text(*attachments))[k],
                (#[trigger] r@[k]).0@,
            ) && r@[k].1@ == media_kind(attached_files(option_text(*attachments))[k]) && r@[k].2
                == is_spoiler(attached_files(option_text(*attachments))[k]),
{
    let listed = match attachments {
        Some(raw) => pieces(raw.as_str(), ' '),
        None => pieces("", ' '),
    };
    proof {
        reveal_strlit("");
    }
    let ghost all = texts(listed@);
    assert(all == split(text_or_empty(option_text(*attachments)), ' ')) by {
        if attachments is None {
            assert(""@ =~= Seq::<char>::empty());
        }
    }
    let mut out: Vec<(String, String, bool)> = Vec::new();
    let mut i: usize = 0;
    while i < listed.len()
        invariant
            i <= listed.len(),
            checks(*check),
            all == texts(listed@),
            out@.len() == kept(all.take(i as int)).len(),
            forall|k: int|
                0 <= k < out@.len() ==> url_resolves(
                    *check,
                    backup_path@,
                    AssetType::Attachment,
                    kept(all.take(i as int))[k],
                    (#[trigger] out@[k]).0@,
                ) && out@[k].1@ == media_kind(kept(all.take(i as int))[k]) && out@[k].2
                    == is_spoiler(kept(all.take(i as int))[k]),
        decreases listed.len() - i,
    {
        let file = listed[i].as_str();
        proof {
            lemma_kept_push(all.take(i as int), file@);
            assert(all.take(i as int).push(file@) =~= all.take(i + 1));
        }
        if file.unicode_len() > 0 {
            out.push((url(backup_path, AssetType::Attachment, file, check), file_type(file), spoiler(file)));
        }
        i += 1;
    }
    assert(all.take(i as int) =~= all);
    out
}

/// What is shown of the message with the identifier `id`.
pub fn refer<
    X: Fn(&str) -> bool,
    P: Fn(u64) -> Option<Reply>,
    U: Fn(&str) -> (String, Option<String>),
    R: Fn(&str) -> (String, Option<String>),
    C: Fn(&str) -> (String, Option<String>),
>(store: &Store<X, P, U, R, C>, backup_path: &str, id: u64) -> (r: Option<
    (String, String, String, String, String, bool),
>)
    requires
        ready(store),
    ensures
        reference_resolves(store, backup_path@, id, reference_view(r)),
{
    let answer = (store.reply)(id);
    let r = match answer {
        Some(reply) => {
            let avatar = url(backup_path, AssetType::Avatar, reply.avatar.as_str(), &store.asset_exists);
            let color = match reply.color {
                Some(color) => color,
                None => String::from_str("#afafaf"),
            };
            let content = match reply.content {
                Some(content) => content,
                None => String::new(),
            };
            Some((decimal(reply.sequential_id), reply.name, avatar, color, content, reply.has_attachments))
        },
        None => None,
    };
    r
}

/// The reactions of a row as they are shown: of each its name, an address of
/// its image where it has one, and how many gave it.
pub fn react<X: Fn(&str) -> bool>(check: &X, backup_path: &str, reactions: Vec<Reaction>) -> (r: Vec<
    (String, Option<String>, usize),
>)
    requires
        checks(*check),
    ensures
        r@.len() == reactions@.len(),
        forall|k: int|
            0 <= k < r@.len() ==> (#[trigger] r@[k]).0@ == reactions@[k]@.name && reaction_resolves(
                *check,
                backup_path@,
                reactions@[k]@,
                option_text(r@[k].1),
            ) && r@[k].2 == reactions@[k]@.count,
{
    let mut out: Vec<(String, Option<String>, usize)> = Vec::new();
    for reaction in it: reactions
        invariant
            it.seq() == reactions@,
            checks(*check),
            out@.len() == it.index(),
            forall|k: int|
                0 <= k < out@.len() ==> (#[trigger] out@[k]).0@ == reactions@[k]@.name
                    && reaction_resolves(
                    *check,
                    backup_path@,
                    reactions@[k]@,
                    option_text(out@[k].1),
                ) && out@[k].2 == reactions@[k]@.count,
    {
        let Reaction { name, file, count } = reaction;
        let address = match file {
            Some(file) => Some(url(backup_path, AssetType::Emoji, file.as_str(), check)),
            None => None,
        };
        out.push((name, address, count));
    }
    out
}

/// The draft of a row. The row is read before the store is asked anything:
/// for a row that cannot be read the store is not asked.
pub fn draft<
    X: Fn(&str) -> bool,
    P: Fn(u64) -> Option<Reply>,
    U: Fn(&str) -> (String, Option<String>),
    R: Fn(&str) -> (String, Option<String>),
    C: Fn(&str) -> (String, Option<String>),
>(row: Row, backup_path: &str, store: &Store<X, P, U, R, C>) -> (r: Result<Draft, RowError>)
    requires
        ready(store),
    ensures
        match row_error(row@) {
            Some(e) => r == Err::<Draft, RowError>(e),
            None => r matches Ok(d) && exists|resolved: Resolved| #[trigger]
                drafted(d@, store, row@, backup_path@, resolved),
        },
{
    let ghost view = row@;
    let created = match row.created.format_minute() {
        Some(created) => created,
        None => {
            return Err(RowError::Timestamp);
        },
    };
    let day = match row.created.format_day() {
        Some(day) => day,
        None => {
            return Err(RowError::Timestamp);
        },
    };
    let decoded = match decode_reactions(&row.reactions) {
        Ok(decoded) => decoded,
        Err(e) => {
            return Err(e);
        },
    };
    let avatar = url(backup_path, AssetType::Avatar, row.avatar.as_str(), &store.asset_exists);
    let attachments = attach(&store.asset_exists, backup_path, &row.attachments);
    let reference = match row.reference {
        Some(id) => refer(store, backup_path, id),
        None => None,
    };
    let edited = match row.edited {
        Some(edited) => edited.format_minute(),
        None => None,
    };
    let content = match &row.content {
        Some(content) => render_content(store, backup_path, content.as_str(), row.bot == 2),
        None => {
            proof {
                reveal_strlit("");
            }
            render_content(store, backup_path, "", row.bot == 2)
        },
    };
    let reactions = react(&store.asset_exists, backup_path, decoded);
    let ghost resolved = Resolved {
        avatar: avatar@,
        attachments: Seq::new(attachments@.len(), |k: int| attachments@[k].0@),
        reference: reference_view(reference),
        content: content@,
        reactions: Seq::new(reactions@.len(), |k: int| option_text(reactions@[k].1)),
    };
    let Row {
        sequential_id,
        message_id,
        message_type,
        name,
        avatar: _,
        color,
        bot,
        created: instant,
        edited: _,
        reference: referred,
        content: _,
        attachments: _,
        reactions: _,
    } = row;
    let m = Message {
        sequential_id: decimal(sequential_id),
        message_id: decimal(message_id),
        message_type,
        name,
        avatar,
        color: match color {
            Some(color) => color,
            None => String::from_str("#afafaf"),
        },
        bot,
        created_timestamp: created,
        edited_timestamp: edited,
        separate: referred.is_some(),
        reference,
        content,
        edits_list: String::new(),
        attachments,
        reactions,
    };
    let d = Draft { created: instant, day, message: Some(m) };
    proof {
        assert(m@.attachments =~= message_with(view, resolved).attachments);
        assert(m@.reactions =~= message_with(view, resolved).reactions);
        assert(drafted(d@, store, view, backup_path@, resolved));
    }
    Ok(d)
}

/// The drafts of the rows, given what the store has told of each.
pub open spec fn drafts_with(rows: Seq<RowView>, resolved: Seq<Resolved>) -> Seq<DraftView> {
    Seq::new(rows.len(), |i: int| draft_with(rows[i], resolved[i]))
}

/// Whether `page` holds the messages of the rows, given what the store may
/// tell of each row.
pub open spec fn paged<
    X: Fn(&str) -> bool,
    P: Fn(u64) -> Option<Reply>,
    U: Fn(&str) -> (String, Option<String>),
    R: Fn(&str) -> (String, Option<String>),
    C: Fn(&str) -> (String, Option<String>),
>(
    page: Seq<MessageView>,
    store: &Store<X, P, U, R, C>,
    rows: Seq<RowView>,
    backup_path: Seq<char>,
    resolved: Seq<Resolved>,
) -> bool {
    &&& resolved.len() == rows.len()
    &&& forall|i: int|
        0 <= i < rows.len() ==> resolves(store, rows[i], backup_path, #[trigger] resolved[i])
    &&& page == timeline(drafts_with(rows, resolved))
}

/// Whether `r` is the outcome of a page of rows, given what the store may
/// tell: the failure of the page where a row cannot be read, and else its
/// messages.
pub open spec fn is_page<
    X: Fn(&str) -> bool,
    P: Fn(u64) -> Option<Reply>,
    U: Fn(&str) -> (String, Option<String>),
    R: Fn(&str) -> (String, Option<String>),
    C: Fn(&str) -> (String, Option<String>),
>(
    r: Result<Vec<Message>, RowError>,
    store: &Store<X, P, U, R, C>,
    rows: Seq<RowView>,
    backup_path: Seq<char>,
) -> bool {
    match page_error(rows) {
        Some(e) => r == Err::<Vec<Message>, RowError>(e),
        None => r matches Ok(messages) && exists|resolved: Seq<Resolved>| #[trigger]
            paged(messages_view(messages@), store, rows, backup_path, resolved),
    }
}

/// A page that fails at one of its first rows fails in the same way as a
/// whole.
pub proof fn lemma_failure_stays(rows: Seq<RowView>, n: int)
    requires
        0 <= n <= rows.len(),
    ensures
        page_error(rows.take(n)) matches Some(e) ==> page_error(rows) == Some(e),
    decreases rows.len() - n,
{
    if n < rows.len() {
        assert(rows.take(n + 1).drop_last() =~= rows.take(n));
        lemma_failure_stays(rows, n + 1);
    } else {
        assert(rows.take(n) =~= rows);
    }
}

/// Turns the rows of a page, in the order of the page, into the messages that
/// are shown. Every row is shown. A page with a row that cannot be read fails
/// as a whole.
pub fn populate_messages<
    X: Fn(&str) -> bool,
    P: Fn(u64) -> Option<Reply>,
    U: Fn(&str) -> (String, Option<String>),
    R: Fn(&str) -> (String, Option<String>),
    C: Fn(&str) -> (String, Option<String>),
>(rows: Vec<Row>, backup_path: &str, store: &Store<X, P, U, R, C>) -> (r: Result<
    Vec<Message>,
    RowError,
>)
    requires
        ready(store),
    ensures
        is_page(r, store, rows_view(rows@), backup_path@),
{
    let mut drafts: Vec<Draft> = Vec::new();
    let ghost all = rows_view(rows@);
    let ghost mut resolved: Seq<Resolved> = Seq::empty();
    for row in it: rows
        invariant
            it.seq() == rows@,
            all == rows_view(rows@),
            ready(store),
            page_error(all.take(it.index() as int)) is None,
            resolved.len() == it.index(),
            drafts@.len() == it.index(),
            forall|i: int|
                0 <= i < resolved.len() ==> resolves(
                    store,
                    all[i],
                    backup_path@,
                    #[trigger] resolved[i],
                ),
            forall|i: int|
                0 <= i < drafts@.len() ==> (#[trigger] drafts@[i])@ == draft_with(
                    all[i],
                    resolved[i],
                ),
    {
        let ghost i = it.index() as int;
        let ghost view = row@;
        proof {
            assert(all.take(i + 1).drop_last() =~= all.take(i));
            lemma_failure_stays(all, i + 1);
        }
        match draft(row, backup_path, store) {
            Ok(d) => {
                proof {
                    let one = choose|one: Resolved| #[trigger]
                        drafted(d@, store, view, backup_path@, one);
                    resolved = resolved.push(one);
                }
                drafts.push(d);
            },
            Err(e) => {
                return Err(e);
            },
        }
    }
    assert(all.take(rows@.len() as int) =~= all);
    assert(drafts_view(drafts@) =~= drafts_with(all, resolved));
    let out = assemble(drafts);
    assert(paged(messages_view(out@), store, all, backup_path@, resolved));
    let r = Ok(out);
    assert(r->Ok_0@ == out@);
    r
}

/// A reply asks for a header of its own, so it gets one whatever comes before
/// it and whenever.
pub proof fn lemma_reply_is_separate(
    before: Seq<MessageView>,
    previous: Timestamp,
    row: RowView,
    resolved: Resolved,
)
    requires
        is_reply(row),
    ensures
        step(before, previous, draft_with(row, resolved)).len() > 0,
        step(before, previous, draft_with(row, resolved)).last().separate,
{
}

} // verus!
