//! Messages as they are shown, and the records that surround them.

use vstd::prelude::*;
use crate::convertor::option_text;
use crate::text::{decimal, decimal_text, str_eq, texts};
use crate::timestamp::Timestamp;

verus! {

/// Why the rows of a page could not be turned into messages. A page with such
/// a row fails as a whole: no message of it is shown.
#[derive(Debug, Clone, Copy, PartialEq, Eq, Structural)]
pub enum RowError {
    /// The instant of a row, or of one of its edits, cannot be written as a
    /// date and time.
    Timestamp,
    /// The list of attachments of a row is not a list of file names.
    Attachments,
    /// The list of edits of a row is not a list of edits.
    Edits,
    /// A reaction of a row lacks its users, or its emoji lacks its identifier.
    Reactions,
    /// A row that shows a file does not name the file.
    Content,
}

/// A message as it is shown.
#[derive(Debug)]
pub struct Message {
    /// The position of the message in its chat. It grows with every message
    /// and serves as the cursor of a page; the platform's own identifier may
    /// not grow, or may be missing.
    pub sequential_id: String,
    pub message_id: String,
    pub message_type: String,
    pub name: String,
    pub avatar: String,
    pub color: String,
    pub bot: u8,
    pub created_timestamp: String,
    pub edited_timestamp: Option<String>,
    /// Whether the message is shown with the header of its author.
    pub separate: bool,
    /// The message replied to: its position, the name, avatar and colour of
    /// its author, its content, and whether it has attachments.
    pub reference: Option<(String, String, String, String, String, bool)>,
    pub content: String,
    pub edits_list: String,
    /// Of each attachment its source, its kind of medium, and whether it is a
    /// spoiler.
    pub attachments: Vec<(String, String, bool)>,
    /// Of each reaction its name, the source of its image where it has one,
    /// and the number of those who gave it.
    pub reactions: Vec<(String, Option<String>, usize)>,
}

/// A message as a mathematical value.
pub struct MessageView {
    pub sequential_id: Seq<char>,
    pub message_id: Seq<char>,
    pub message_type: Seq<char>,
    pub name: Seq<char>,
    pub avatar: Seq<char>,
    pub color: Seq<char>,
    pub bot: u8,
    pub created_timestamp: Seq<char>,
    pub edited_timestamp: Option<Seq<char>>,
    pub separate: bool,
    pub reference: Option<(Seq<char>, Seq<char>, Seq<char>, Seq<char>, Seq<char>, bool)>,
    pub content: Seq<char>,
    pub edits_list: Seq<char>,
    pub attachments: Seq<(Seq<char>, Seq<char>, bool)>,
    pub reactions: Seq<(Seq<char>, Option<Seq<char>>, usize)>,
}

/// What is shown of the message replied to, as a mathematical value.
pub open spec fn reference_view(
    reference: Option<(String, String, String, String, String, bool)>,
) -> Option<(Seq<char>, Seq<char>, Seq<char>, Seq<char>, Seq<char>, bool)> {
    match reference {
        Some(r) => Some((r.0@, r.1@, r.2@, r.3@, r.4@, r.5)),
        None => None,
    }
}

/// An attachment as a mathematical value.
pub open spec fn attachment_view(a: (String, String, bool)) -> (Seq<char>, Seq<char>, bool) {
    (a.0@, a.1@, a.2)
}

/// The values of a sequence of attachments.
pub open spec fn attachments_view(v: Seq<(String, String, bool)>) -> Seq<
    (Seq<char>, Seq<char>, bool),
> {
    Seq::new(v.len(), |i: int| attachment_view(v[i]))
}

/// A reaction as a mathematical value.
pub open spec fn reaction_view(r: (String, Option<String>, usize)) -> (
    Seq<char>,
    Option<Seq<char>>,
    usize,
) {
    (r.0@, option_text(r.1), r.2)
}

/// The values of a sequence of reactions.
pub open spec fn reactions_view(v: Seq<(String, Option<String>, usize)>) -> Seq<
    (Seq<char>, Option<Seq<char>>, usize),
> {
    Seq::new(v.len(), |i: int| reaction_view(v[i]))
}

impl View for Message {
    type V = MessageView;

    open spec fn view(&self) -> MessageView {
        MessageView {
            sequential_id: self.sequential_id@,
            message_id: self.message_id@,
            message_type: self.message_type@,
            name: self.name@,
            avatar: self.avatar@,
            color: self.color@,
            bot: self.bot,
            created_timestamp: self.created_timestamp@,
            edited_timestamp: option_text(self.edited_timestamp),
            separate: self.separate,
            reference: reference_view(self.reference),
            content: self.content@,
            edits_list: self.edits_list@,
            attachments: attachments_view(self.attachments@),
            reactions: reactions_view(self.reactions@),
        }
    }
}

/// The values of a sequence of messages.
pub open spec fn messages_view(v: Seq<Message>) -> Seq<MessageView> {
    Seq::new(v.len(), |i: int| v[i]@)
}

/// The message that holds nothing: empty texts, the neutral gray as colour,
/// shown with a header of its own.
pub open spec fn default_message() -> MessageView {
    MessageView {
        sequential_id: Seq::empty(),
        message_id: Seq::empty(),
        message_type: Seq::empty(),
        name: Seq::empty(),
        avatar: Seq::empty(),
        color: "#afafaf"@,
        bot: 0,
        created_timestamp: Seq::empty(),
        edited_timestamp: None,
        separate: true,
        reference: None,
        content: Seq::empty(),
        edits_list: Seq::empty(),
        attachments: Seq::empty(),
        reactions: Seq::empty(),
    }
}

/// The record that marks the start of a day: its content is the date.
pub open spec fn separator_message(day: Seq<char>) -> MessageView {
    MessageView { message_type: "day_separator"@, content: day, ..default_message() }
}

impl Default for Message {
    fn default() -> (m: Message)
        ensures
            m@ == default_message(),
    {
        let m = Message {
            sequential_id: String::new(),
            message_id: String::new(),
            message_type: String::new(),
            name: String::new(),
            avatar: String::new(),
            color: String::from_str("#afafaf"),
            bot: 0,
            created_timestamp: String::new(),
            edited_timestamp: None,
            separate: true,
            reference: None,
            content: String::new(),
            edits_list: String::new(),
            attachments: Vec::new(),
            reactions: Vec::new(),
        };
        assert(m@.attachments =~= Seq::empty());
        assert(m@.reactions =~= Seq::empty());
        m
    }
}

/// The record that marks the start of the day written as `day`.
pub fn day_record(day: String) -> (m: Message)
    ensures
        m@ == separator_message(day@),
{
    let mut m = Message::default();
    m.message_type = String::from_str("day_separator");
    m.content = day;
    m
}

/// The record that marks the start of the local day of `timestamp`. There is
/// none where the date cannot be written.
pub fn day_separator(timestamp: &Timestamp) -> (r: Option<Message>)
    ensures
        match timestamp.day_text() {
            Some(day) => r matches Some(m) && m@ == separator_message(day),
            None => r is None,
        },
{
    match timestamp.format_day() {
        Some(day) => Some(day_record(day)),
        None => None,
    }
}

/// What is known of the backups and, for the one selected, of its chats.
#[derive(Debug)]
pub struct SelectionContext<'a> {
    pub backup_path: &'a str,
    pub chat_id: &'a str,
    /// Of each backup its path and its name.
    pub backups: Vec<[String; 2]>,
    /// Of each chat of the selected backup its identifier and its name.
    pub chats: Vec<[String; 2]>,
    /// Of each backup its path and the chats that are shown of it.
    pub mapped_chats: Vec<(String, Vec<[String; 2]>)>,
}

/// A chat with the messages of one page.
#[derive(Debug)]
pub struct ChatContext<'a> {
    pub name: String,
    pub topic: String,
    pub messages: Vec<Message>,
    pub selection_context: Option<SelectionContext<'a>>,
}

impl<'a> Default for ChatContext<'a> {
    fn default() -> (c: ChatContext<'a>)
        ensures
            c.name@ == Seq::<char>::empty(),
            c.topic@ == Seq::<char>::empty(),
            c.messages@ == Seq::<Message>::empty(),
            c.selection_context is None,
    {
        ChatContext {
            name: String::new(),
            topic: String::new(),
            messages: Vec::new(),
            selection_context: None,
        }
    }
}

/// The messages that are shown of a page: those of the page, or none where the
/// page has failed. A page is never shown in part.
pub fn page_or_empty(page: Result<Vec<Message>, RowError>) -> (r: Vec<Message>)
    ensures
        match page {
            Ok(messages) => r == messages,
            Err(_) => r@ == Seq::<Message>::empty(),
        },
{
    match page {
        Ok(messages) => messages,
        Err(_) => Vec::new(),
    }
}

/// The kinds of backup that can be read.
#[derive(Debug, Clone, Copy, PartialEq, Eq, Structural)]
pub enum BackupKind {
    Discord,
    Matrix,
    Generic,
}

/// The kind that the description of a backup names, if it is one that can be
/// read.
pub open spec fn kind_named(name: Seq<char>) -> Option<BackupKind> {
    if name == "discord"@ {
        Some(BackupKind::Discord)
    } else if name == "matrix"@ {
        Some(BackupKind::Matrix)
    } else if name == "generic"@ {
        Some(BackupKind::Generic)
    } else {
        None
    }
}

/// The kind that the description of a backup names.
pub fn backup_kind(name: &str) -> (r: Option<BackupKind>)
    ensures
        r == kind_named(name@),
{
    if str_eq(name, "discord") {
        Some(BackupKind::Discord)
    } else if str_eq(name, "matrix") {
        Some(BackupKind::Matrix)
    } else if str_eq(name, "generic") {
        Some(BackupKind::Generic)
    } else {
        None
    }
}

/// Whether a backup of the given version can be read.
pub fn supports_version(version: &str) -> (r: bool)
    ensures
        r == (version@ == "0.1.0"@),
{
    str_eq(version, "0.1.0")
}

/// Whether a backup of the given version and kind can be read.
pub fn is_supported(version: &str, kind: &str) -> (r: bool)
    ensures
        r == (version@ == "0.1.0"@ && kind_named(kind@) is Some),
{
    supports_version(version) && backup_kind(kind).is_some()
}

/// The shapes of a page of a chat. A page is cut out by the position of its
/// messages in the chat, and holds its messages in the order of their
/// creation.
#[derive(Debug, Clone, Copy, PartialEq, Eq, Structural)]
pub enum Window {
    /// The latest hundred messages of the chat.
    Latest,
    /// The hundred messages before a position.
    Above,
    /// The hundred messages after a position.
    Below,
    /// Up to fifty messages at or before a position and up to fifty after it,
    /// so that the message at the position is shown with what surrounds it.
    Around,
}

/// The template of the query for a window. In it `{}` stands for the selection
/// of the adapter, `$1` for the chat and `$2` for the position.
pub open spec fn window_template(window: Window) -> Seq<char> {
    match window {
        Window::Latest => "SELECT * FROM ({} chat = $1 ORDER BY created_timestamp DESC LIMIT 100) ORDER BY created_timestamp"@,
        Window::Above => "SELECT * FROM ({} chat = $1 AND ROWID < $2 ORDER BY created_timestamp DESC LIMIT 100) ORDER BY created_timestamp"@,
        Window::Below => "{} chat = $1 AND ROWID > $2 ORDER BY created_timestamp LIMIT 100"@,
        Window::Around => "SELECT * FROM ({} chat = $1 AND ROWID <= $2 ORDER BY created_timestamp DESC LIMIT 50) UNION SELECT * FROM ({} chat = $1 AND ROWID > $2 ORDER BY created_timestamp LIMIT 50) ORDER BY created_timestamp"@,
    }
}

/// The template of the query for a window.
pub fn window_query(window: Window) -> (r: &'static str)
    ensures
        r@ == window_template(window),
{
    match window {
        Window::Latest => "SELECT * FROM ({} chat = $1 ORDER BY created_timestamp DESC LIMIT 100) ORDER BY created_timestamp",
        Window::Above => "SELECT * FROM ({} chat = $1 AND ROWID < $2 ORDER BY created_timestamp DESC LIMIT 100) ORDER BY created_timestamp",
        Window::Below => "{} chat = $1 AND ROWID > $2 ORDER BY created_timestamp LIMIT 100",
        Window::Around => "SELECT * FROM ({} chat = $1 AND ROWID <= $2 ORDER BY created_timestamp DESC LIMIT 50) UNION SELECT * FROM ({} chat = $1 AND ROWID > $2 ORDER BY created_timestamp LIMIT 50) ORDER BY created_timestamp",
    }
}

/// The window that a request for more messages asks for: `above` and `below`
/// name their windows, anything else asks for the messages around the
/// position.
pub open spec fn window_named(position: Seq<char>) -> Window {
    if position == "above"@ {
        Window::Above
    } else if position == "below"@ {
        Window::Below
    } else {
        Window::Around
    }
}

/// The window that a request for more messages asks for.
pub fn window_at(position: &str) -> (r: Window)
    ensures
        r == window_named(position@),
{
    if str_eq(position, "above") {
        Window::Above
    } else if str_eq(position, "below") {
        Window::Below
    } else {
        Window::Around
    }
}

/// The window that a jump asks for: the messages around the message jumped
/// to, or the latest messages where no message is named.
pub fn window_of_jump(message_id: &Option<String>) -> (r: Window)
    ensures
        r == if message_id is Some {
            Window::Around
        } else {
            Window::Latest
        },
{
    match message_id {
        Some(_) => Window::Around,
        None => Window::Latest,
    }
}

/// The conditions that a search may put on the messages it finds. Each is a
/// comparison of one column with a value. The value of a condition is bound to
/// the statement as a parameter and never becomes part of its text.
#[derive(Debug)]
pub struct Filters {
    /// The name of the author.
    pub author: Option<String>,
    /// The kind of message.
    pub kind: Option<String>,
    /// The instant at or after which the message was created, as the store
    /// writes instants.
    pub since: Option<String>,
    /// The instant at or before which the message was created.
    pub until: Option<String>,
}

/// Which conditions a search puts on its messages.
pub struct Shape {
    pub author: bool,
    pub kind: bool,
    pub since: bool,
    pub until: bool,
}

impl Filters {
    /// Which of the conditions are there.
    pub open spec fn shape(self) -> Shape {
        Shape {
            author: self.author is Some,
            kind: self.kind is Some,
            since: self.since is Some,
            until: self.until is Some,
        }
    }

    /// The values of the conditions that are there, in the order of the
    /// parameters that they are bound to.
    pub open spec fn bound(self) -> Seq<Seq<char>> {
        one_if(self.author) + one_if(self.kind) + one_if(self.since) + one_if(self.until)
    }

    /// No condition.
    pub fn none() -> (r: Filters)
        ensures
            r.shape() == (Shape { author: false, kind: false, since: false, until: false }),
    {
        Filters { author: None, kind: None, since: None, until: None }
    }

    /// The values of the conditions that are there, in the order of the
    /// parameters `$3`, `$4` and so on that they are bound to.
    pub fn values(&self) -> (r: Vec<String>)
        ensures
            texts(r@) == self.bound(),
    {
        let mut r: Vec<String> = Vec::new();
        if let Some(v) = &self.author {
            r.push(v.clone());
        }
        if let Some(v) = &self.kind {
            r.push(v.clone());
        }
        if let Some(v) = &self.since {
            r.push(v.clone());
        }
        if let Some(v) = &self.until {
            r.push(v.clone());
        }
        r
    }
}

/// The value of a condition that is there, as a sequence of one; nothing for
/// a condition that is not.
pub open spec fn one_if(value: Option<String>) -> Seq<Seq<char>> {
    match value {
        Some(v) => seq![v@],
        None => Seq::empty(),
    }
}

/// How many of the conditions are there.
pub open spec fn count(present: bool) -> nat {
    if present {
        1
    } else {
        0
    }
}

/// A condition in the text of a statement: the comparison with the parameter of
/// the given number, or nothing where the condition is not there.
pub open spec fn condition(present: bool, comparison: Seq<char>, parameter: nat) -> Seq<char> {
    if present {
        comparison + decimal_text(parameter)
    } else {
        Seq::empty()
    }
}

/// The template of the query for a search: the messages of the chat `$1` that
/// match the words `$2`, and that meet the conditions. The text depends on
/// which conditions are there and on nothing else; their values are bound to
/// the parameters from `$3` on.
pub open spec fn search_template(shape: Shape) -> Seq<char> {
    "{} chat = $1 AND id IN (SELECT id FROM message_search WHERE message_search MATCH $2 ORDER BY rank) AND TRUE"@
        + condition(shape.author, " AND name = $"@, 3) + condition(
        shape.kind,
        " AND message_type = $"@,
        3 + count(shape.author),
    ) + condition(
        shape.since,
        " AND created_timestamp >= $"@,
        3 + count(shape.author) + count(shape.kind),
    ) + condition(
        shape.until,
        " AND created_timestamp <= $"@,
        3 + count(shape.author) + count(shape.kind) + count(shape.since),
    )
}

/// The template of the query for a search.
pub fn search_query(filters: &Filters) -> (r: String)
    ensures
        r@ == search_template(filters.shape()),
{
    let mut r = String::from_str(
        "{} chat = $1 AND id IN (SELECT id FROM message_search WHERE message_search MATCH $2 ORDER BY rank) AND TRUE",
    );
    let mut parameter: u64 = 3;
    if filters.author.is_some() {
        r.append(" AND name = $");
        r.append(decimal(parameter).as_str());
        parameter = parameter + 1;
    }
    if filters.kind.is_some() {
        r.append(" AND message_type = $");
        r.append(decimal(parameter).as_str());
        parameter = parameter + 1;
    }
    if filters.since.is_some() {
        r.append(" AND created_timestamp >= $");
        r.append(decimal(parameter).as_str());
        parameter = parameter + 1;
    }
    if filters.until.is_some() {
        r.append(" AND created_timestamp <= $");
        r.append(decimal(parameter).as_str());
    }
    r
}

/// The statement of a search is the same whatever the values of its
/// conditions are: two searches with the same conditions run the same
/// statement.
pub proof fn lemma_statement_ignores_values(a: Filters, b: Filters)
    requires
        a.shape() == b.shape(),
    ensures
        search_template(a.shape()) == search_template(b.shape()),
{
}

/// The password that opens an encrypted backup.
#[derive(Debug)]
pub struct Password {
    pub password: String,
}

/// A request to jump to a message, in the chat named or else in the current
/// one.
#[derive(Debug)]
pub struct JumpDetails {
    pub chat_id: Option<String>,
    pub message_id: Option<String>,
}

/// A request for the messages next to a position.
#[derive(Debug)]
pub struct GetMessages {
    pub sequential_id: u64,
    pub position: String,
}

/// A request to search a chat.
#[derive(Debug)]
pub struct Query {
    /// The words to look for.
    pub string: String,
    pub filters: Filters,
}

impl GetMessages {
    /// The window that the request asks for.
    pub fn window(&self) -> (r: Window)
        ensures
            r == window_named(self.position@),
    {
        window_at(self.position.as_str())
    }
}

impl JumpDetails {
    /// The window that the request asks for.
    pub fn window(&self) -> (r: Window)
        ensures
            r == if self.message_id is Some {
                Window::Around
            } else {
                Window::Latest
            },
    {
        window_of_jump(&self.message_id)
    }
}

impl Query {
    /// The template of the query that the request asks for.
    pub fn template(&self) -> (r: String)
        ensures
            r@ == search_template(self.filters.shape()),
    {
        search_query(&self.filters)
    }

    /// The values that the request binds to the parameters from `$2` on: the
    /// words, then the values of the conditions.
    pub fn values(&self) -> (r: Vec<String>)
        ensures
            texts(r@) == seq![self.string@] + self.filters.bound(),
    {
        let mut r: Vec<String> = Vec::new();
        r.push(self.string.clone());
        let mut rest = self.filters.values();
        r.append(&mut rest);
        r
    }
}

/// A backup that can be read, as the selection lists it.
#[derive(Debug)]
pub struct Backup {
    /// The directory of the backup.
    pub path: String,
    pub name: String,
    /// Of each chat its identifier and its name; `None` for an encrypted backup
    /// that is not open.
    pub chats: Option<Vec<[String; 2]>>,
}

/// A pair of strings as a mathematical value.
pub open spec fn pair_view(pair: [String; 2]) -> (Seq<char>, Seq<char>) {
    (pair@[0]@, pair@[1]@)
}

/// The values of a sequence of pairs of strings.
pub open spec fn pairs_view(v: Seq<[String; 2]>) -> Seq<(Seq<char>, Seq<char>)> {
    Seq::new(v.len(), |i: int| pair_view(v[i]))
}

/// A backup as a mathematical value.
pub struct BackupView {
    pub path: Seq<char>,
    pub name: Seq<char>,
    pub chats: Option<Seq<(Seq<char>, Seq<char>)>>,
}

impl View for Backup {
    type V = BackupView;

    open spec fn view(&self) -> BackupView {
        BackupView {
            path: self.path@,
            name: self.name@,
            chats: match self.chats {
                Some(chats) => Some(pairs_view(chats@)),
                None => None,
            },
        }
    }
}

/// The values of a sequence of backups.
pub open spec fn backups_view(v: Seq<Backup>) -> Seq<BackupView> {
    Seq::new(v.len(), |i: int| v[i]@)
}

/// Whether the chats of a backup have to be read: those of an encrypted backup
/// are read only where it is the backup that is open.
pub fn reads_chats(encrypted: bool, path: &str, open_path: &str) -> (r: bool)
    ensures
        r == (!encrypted || path@ == open_path@),
{
    !encrypted || str_eq(path, open_path)
}

/// The index of the backup that is selected: the last one with the selected
/// path, or the first backup where none has it.
pub open spec fn selected_index(backups: Seq<BackupView>, backup_path: Seq<char>) -> int
    decreases backups.len(),
{
    if backups.len() == 0 {
        0
    } else if backups.last().path == backup_path {
        backups.len() - 1
    } else {
        selected_index(backups.drop_last(), backup_path)
    }
}

/// The chats that the selection shows of a backup: none for an encrypted backup
/// that is not open; `None` for a backup that is open and holds no chat, which
/// cannot be selected.
pub open spec fn shown_chats(backup: BackupView) -> Option<Seq<(Seq<char>, Seq<char>)>> {
    match backup.chats {
        None => Some(Seq::empty()),
        Some(chats) => if chats.len() > 0 {
            Some(chats)
        } else {
            None
        },
    }
}

/// The chats of the selected backup: none where there is no backup.
pub open spec fn selected_chats(backups: Seq<BackupView>, backup_path: Seq<char>) -> Option<
    Seq<(Seq<char>, Seq<char>)>,
> {
    if backups.len() == 0 {
        Some(Seq::empty())
    } else {
        shown_chats(backups[selected_index(backups, backup_path)])
    }
}

/// The backups with the chats that the selection shows of each, in their
/// order. A backup that is open and holds no chat is left out.
pub open spec fn chat_map(backups: Seq<BackupView>) -> Seq<
    (Seq<char>, Seq<(Seq<char>, Seq<char>)>),
>
    decreases backups.len(),
{
    if backups.len() == 0 {
        Seq::empty()
    } else {
        match shown_chats(backups.last()) {
            Some(chats) => chat_map(backups.drop_last()).push((backups.last().path, chats)),
            None => chat_map(backups.drop_last()),
        }
    }
}

/// The selected index lies among the backups.
pub proof fn lemma_selected_index_bounds(backups: Seq<BackupView>, backup_path: Seq<char>)
    requires
        backups.len() > 0,
    ensures
        0 <= selected_index(backups, backup_path) < backups.len(),
    decreases backups.len(),
{
    if backups.last().path != backup_path {
        if backups.len() > 1 {
            lemma_selected_index_bounds(backups.drop_last(), backup_path);
        } else {
            assert(selected_index(backups.drop_last(), backup_path) == 0);
        }
    }
}

/// The values of the entries of a map of chats.
pub open spec fn map_view(v: Seq<(String, Vec<[String; 2]>)>) -> Seq<
    (Seq<char>, Seq<(Seq<char>, Seq<char>)>),
> {
    Seq::new(v.len(), |i: int| (v[i].0@, pairs_view(v[i].1@)))
}

/// The selection as a mathematical value.
pub struct SelectionView {
    pub backup_path: Seq<char>,
    pub chat_id: Seq<char>,
    pub backups: Seq<(Seq<char>, Seq<char>)>,
    pub chats: Seq<(Seq<char>, Seq<char>)>,
    pub mapped_chats: Seq<(Seq<char>, Seq<(Seq<char>, Seq<char>)>)>,
}

impl<'a> View for SelectionContext<'a> {
    type V = SelectionView;

    open spec fn view(&self) -> SelectionView {
        SelectionView {
            backup_path: self.backup_path@,
            chat_id: self.chat_id@,
            backups: pairs_view(self.backups@),
            chats: pairs_view(self.chats@),
            mapped_chats: map_view(self.mapped_chats@),
        }
    }
}

/// The selection of the backups, or `None` where the selected backup cannot be
/// selected.
pub open spec fn selection_of(
    backups: Seq<BackupView>,
    backup_path: Seq<char>,
    chat_id: Seq<char>,
) -> Option<SelectionView> {
    match selected_chats(backups, backup_path) {
        Some(chats) => Some(
            SelectionView {
                backup_path,
                chat_id,
                backups: Seq::new(backups.len(), |i: int| (backups[i].path, backups[i].name)),
                chats,
                mapped_chats: chat_map(backups),
            },
        ),
        None => None,
    }
}

/// Creates the context to select a chat from: the backups that can be read, in
/// the order they were found, and the chats of the selected one.
pub fn selection_context<'a>(backups: Vec<Backup>, backup_path: &'a str, chat_id: &'a str) -> (r:
    Option<SelectionContext<'a>>)
    ensures
        match selection_of(backups_view(backups@), backup_path@, chat_id@) {
            Some(selection) => r matches Some(c) && c@ == selection,
            None => r is None,
        },
{
    let ghost all = backups_view(backups@);
    let mut listed: Vec<[String; 2]> = Vec::new();
    let mut mapped: Vec<(String, Vec<[String; 2]>)> = Vec::new();
    let mut selected: Option<Vec<[String; 2]>> = Some(Vec::new());
    for backup in it: backups
        invariant
            it.seq() == backups@,
            all == backups_view(backups@),
            pairs_view(listed@) == Seq::new(it.index() as nat, |i: int| (all[i].path, all[i].name)),
            map_view(mapped@) == chat_map(all.take(it.index() as int)),
            (match selected {
                Some(chats) => Some(pairs_view(chats@)),
                None => None,
            }) == selected_chats(all.take(it.index() as int), backup_path@),
    {
        let ghost i = it.index() as int;
        let ghost front = all.take(i);
        let ghost now = all.take(i + 1);
        proof {
            assert(now.drop_last() =~= front);
            if i > 0 {
                lemma_selected_index_bounds(front, backup_path@);
            }
        }
        let Backup { path, name, chats } = backup;
        let first = listed.len() == 0;
        let chosen = first || str_eq(path.as_str(), backup_path);
        let shown: Option<Vec<[String; 2]>> = match chats {
            None => {
                let none: Vec<[String; 2]> = Vec::new();
                assert(pairs_view(none@) =~= Seq::empty());
                Some(none)
            },
            Some(chats) => if chats.len() > 0 {
                Some(chats)
            } else {
                None
            },
        };
        let ghost before_listed = pairs_view(listed@);
        let ghost entry = (path@, name@);
        match shown {
            Some(chats) => {
                if chosen {
                    selected = Some(copy_pairs(&chats));
                }
                mapped.push((path.clone(), chats));
            },
            None => {
                if chosen {
                    selected = None;
                }
            },
        }
        listed.push([path, name]);
        assert(pairs_view(listed@) =~= before_listed.push(entry));
    }
    assert(all.take(backups@.len() as int) =~= all);
    match selected {
        Some(chats) => Some(
            SelectionContext { backup_path, chat_id, backups: listed, chats, mapped_chats: mapped },
        ),
        None => None,
    }
}

/// A copy of a list of pairs of strings.
pub fn copy_pairs(pairs: &Vec<[String; 2]>) -> (r: Vec<[String; 2]>)
    ensures
        pairs_view(r@) == pairs_view(pairs@),
{
    let mut out: Vec<[String; 2]> = Vec::new();
    let mut i: usize = 0;
    while i < pairs.len()
        invariant
            i <= pairs.len(),
            out@.len() == i,
            forall|k: int| 0 <= k < i ==> pair_view(#[trigger] out@[k]) == pair_view(pairs@[k]),
        decreases pairs.len() - i,
    {
        let pair = &pairs[i];
        out.push([pair[0].clone(), pair[1].clone()]);
        i += 1;
    }
    out
}

/// The one decrypted database that is kept open, with the backup it belongs
/// to. `T` is the handle of the decrypted file.
pub struct DBFile<T> {
    /// The path of the backup that was last asked to be opened; empty where
    /// none was.
    pub backup_path: String,
    pub file: Option<T>,
}

impl<T> DBFile<T> {
    /// A slot that holds nothing.
    pub fn new() -> (r: DBFile<T>)
        ensures
            r.backup_path@ == Seq::<char>::empty(),
            r.file is None,
    {
        DBFile { backup_path: String::new(), file: None }
    }

    /// Forgets the decrypted database and the backup it belongs to.
    pub fn reset(&mut self)
        ensures
            final(self).backup_path@ == Seq::<char>::empty(),
            final(self).file is None,
    {
        self.backup_path = String::new();
        self.file = None;
    }

    /// Prepares the slot for a request that names a backup: the decrypted
    /// database is kept where it belongs to that backup, and forgotten where
    /// it belongs to another.
    pub fn keep_for(&mut self, backup: &str)
        ensures
            old(self).backup_path@ == backup@ ==> *final(self) == *old(self),
            old(self).backup_path@ != backup@ ==> final(self).backup_path@ == Seq::<char>::empty()
                && final(self).file is None,
    {
        if !str_eq(self.backup_path.as_str(), backup) {
            self.reset();
        }
    }
}

} // verus!
