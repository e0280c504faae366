//! The adapter for backups of the generic kind: rows that carry their content
//! ready for display, or as plain text.

use vstd::prelude::*;
use crate::actions::{
    attachment_view, attachments_view, default_message, messages_view, reference_view, Message,
    MessageView, RowError,
};
use crate::convertor::option_text;
use crate::json::{decode_strings, json_strings, strings_view};
use crate::text::{
    decimal, decimal_text, escape, escaped, extension, join_path, lower, lowered, path_extension,
    path_join, replace_all, replaced, str_eq,
};
use crate::timeline::{assemble, drafts_view, step, timeline, Draft, DraftView};
use crate::timestamp::Timestamp;

verus! {

/// The kinds of asset that a backup keeps beside its database.
#[derive(Debug, Clone, Copy, PartialEq, Eq, Structural)]
pub enum AssetType {
    Avatar,
    Attachment,
}

impl AssetType {
    /// The name of the directory where assets of this kind are stored.
    pub open spec fn dir_name(self) -> Seq<char> {
        match self {
            AssetType::Avatar => "avatars"@,
            AssetType::Attachment => "attachments"@,
        }
    }

    /// The name of the directory where assets of this kind are stored.
    pub fn dir(&self) -> (r: &'static str)
        ensures
            r@ == self.dir_name(),
    {
        match self {
            AssetType::Avatar => "avatars",
            AssetType::Attachment => "attachments",
        }
    }
}

/// The address of an asset: the path of the backup, the directory of the kind
/// of asset, and the path of the asset, joined as paths.
pub open spec fn asset_url(backup_path: Seq<char>, asset_type: AssetType, asset_path: Seq<char>) -> Seq<
    char,
> {
    path_join(path_join(backup_path, asset_type.dir_name()), asset_path)
}

/// Converts the path of an asset to its address.
pub fn url(backup_path: &str, asset_type: AssetType, asset_path: &str) -> (r: String)
    ensures
        r@ == asset_url(backup_path@, asset_type, asset_path@),
{
    let dir = join_path(backup_path, asset_type.dir());
    join_path(dir.as_str(), asset_path)
}

/// Whether an extension in lower case is that of an image.
pub open spec fn is_image_extension(e: Seq<char>) -> bool {
    e == "apng"@ || e == "avif"@ || e == "gif"@ || e == "jpg"@ || e == "jpeg"@ || e == "jfif"@
        || e == "pjpeg"@ || e == "pjp"@ || e == "png"@ || e == "svg"@ || e == "webp"@
}

/// Whether an extension in lower case is that of a video.
pub open spec fn is_video_extension(e: Seq<char>) -> bool {
    e == "mp4"@ || e == "ogv"@ || e == "ogg"@
}

/// Whether an extension in lower case is that of a sound.
pub open spec fn is_audio_extension(e: Seq<char>) -> bool {
    e == "wav"@ || e == "flac"@ || e == "mp3"@ || e == "oga"@
}

/// The kind of medium that an extension in lower case stands for.
pub open spec fn kind_of_extension(e: Seq<char>) -> Seq<char> {
    if is_image_extension(e) {
        "image"@
    } else if is_video_extension(e) {
        "video"@
    } else if is_audio_extension(e) {
        "audio"@
    } else {
        "unknown"@
    }
}

/// The kind of medium of a file, by the extension of its name whatever its
/// case: `image`, `video`, `audio`, or `unknown` for any other extension and
/// for a name without one.
pub open spec fn media_kind(file_name: Seq<char>) -> Seq<char> {
    match path_extension(file_name) {
        Some(e) => kind_of_extension(lowered(e)),
        None => "unknown"@,
    }
}

/// The kind of medium that an extension stands for, whatever its case.
pub fn kind_of(extension: &str) -> (r: String)
    ensures
        r@ == kind_of_extension(lowered(extension@)),
{
    let low = lower(extension);
    let e = low.as_str();
    if str_eq(e, "apng") || str_eq(e, "avif") || str_eq(e, "gif") || str_eq(e, "jpg") || str_eq(
        e,
        "jpeg",
    ) || str_eq(e, "jfif") || str_eq(e, "pjpeg") || str_eq(e, "pjp") || str_eq(e, "png") || str_eq(
        e,
        "svg",
    ) || str_eq(e, "webp") {
        String::from_str("image")
    } else if str_eq(e, "mp4") || str_eq(e, "ogv") || str_eq(e, "ogg") {
        String::from_str("video")
    } else if str_eq(e, "wav") || str_eq(e, "flac") || str_eq(e, "mp3") || str_eq(e, "oga") {
        String::from_str("audio")
    } else {
        String::from_str("unknown")
    }
}

/// The kind of medium of a file.
pub fn file_type(file_name: &str) -> (r: String)
    ensures
        r@ == media_kind(file_name@),
{
    match extension(file_name) {
        Some(found) => kind_of(found.as_str()),
        None => String::from_str("unknown"),
    }
}

/// The columns that the adapter reads of each message, with the words that
/// lead up to the condition of a query.
pub open spec fn selection() -> Seq<char> {
    "SELECT ROWID, id, message_type, name, avatar, color, created_timestamp, edited_timestamp, reference, content, formatted_content, attachments FROM messages WHERE"@
}

/// The query that a template stands for: each `{}` in it is replaced by the
/// selection of the adapter. The template supplies the condition, the order
/// and the limit.
pub fn query(template: &str) -> (r: String)
    ensures
        r@ == replaced(template@, "{}"@, selection()),
{
    proof {
        reveal_strlit("{}");
    }
    replace_all(
        template,
        "{}",
        "SELECT ROWID, id, message_type, name, avatar, color, created_timestamp, edited_timestamp, reference, content, formatted_content, attachments FROM messages WHERE",
    )
}

/// The message that a reply refers to, as the database holds it.
#[derive(Debug)]
pub struct Reply {
    pub sequential_id: u64,
    pub name: String,
    pub avatar: Option<String>,
    pub color: Option<String>,
    pub content: Option<String>,
    pub has_attachments: bool,
}

/// A message replied to, as a mathematical value.
pub struct ReplyView {
    pub sequential_id: u64,
    pub name: Seq<char>,
    pub avatar: Option<Seq<char>>,
    pub color: Option<Seq<char>>,
    pub content: Option<Seq<char>>,
    pub has_attachments: bool,
}

impl View for Reply {
    type V = ReplyView;

    open spec fn view(&self) -> ReplyView {
        ReplyView {
            sequential_id: self.sequential_id,
            name: self.name@,
            avatar: option_text(self.avatar),
            color: option_text(self.color),
            content: option_text(self.content),
            has_attachments: self.has_attachments,
        }
    }
}

/// The value of an optional reply.
pub open spec fn reply_view(reply: Option<Reply>) -> Option<ReplyView> {
    match reply {
        Some(reply) => Some(reply@),
        None => None,
    }
}

/// What is shown of the message replied to: its position, the name, avatar and
/// colour of its author, its content, and whether it has attachments. Nothing
/// is shown where the row is no reply, or where the store does not hold the
/// message that it refers to.
pub open spec fn reference_of(
    backup_path: Seq<char>,
    reference: Option<Seq<char>>,
    reply: Option<ReplyView>,
) -> Option<(Seq<char>, Seq<char>, Seq<char>, Seq<char>, Seq<char>, bool)> {
    match (reference, reply) {
        (Some(_), Some(reply)) => Some(
            (
                decimal_text(reply.sequential_id as nat),
                reply.name,
                avatar_of(backup_path, reply.avatar),
                color_of(reply.color),
                match reply.content {
                    Some(content) => content,
                    None => Seq::empty(),
                },
                reply.has_attachments,
            ),
        ),
        _ => None,
    }
}

/// What is shown of the message replied to.
pub fn refer(backup_path: &str, reference: &Option<String>, reply: Option<Reply>) -> (r: Option<
    (String, String, String, String, String, bool),
>)
    ensures
        reference_view(r) == reference_of(backup_path@, option_text(*reference), reply_view(reply)),
{
    match (reference, reply) {
        (Some(_), Some(reply)) => {
            let avatar = match reply.avatar {
                Some(path) => url(backup_path, AssetType::Avatar, path.as_str()),
                None => String::from_str("/images/default.svg"),
            };
            let color = match reply.color {
                Some(color) => color,
                None => String::from_str("#afafaf"),
            };
            let content = match reply.content {
                Some(content) => content,
                None => String::new(),
            };
            Some((decimal(reply.sequential_id), reply.name, avatar, color, content, reply.has_attachments))
        },
        _ => None,
    }
}

/// A message as the database holds it. A column that may hold nothing is an
/// `Option`.
#[derive(Debug)]
pub struct Row {
    pub sequential_id: u64,
    pub message_id: String,
    pub message_type: String,
    pub name: String,
    pub avatar: Option<String>,
    pub color: Option<String>,
    pub created: Timestamp,
    /// The identifier of the message replied to.
    pub reference: Option<String>,
    /// The message that `reference` names, where the store holds it.
    pub reply: Option<Reply>,
    pub content: Option<String>,
    pub formatted_content: Option<String>,
    /// The names of the attached files, as a list in JSON.
    pub attachments: Option<String>,
}

/// A row as a mathematical value.
pub struct RowView {
    pub sequential_id: u64,
    pub message_id: Seq<char>,
    pub message_type: Seq<char>,
    pub name: Seq<char>,
    pub avatar: Option<Seq<char>>,
    pub color: Option<Seq<char>>,
    pub created: Timestamp,
    pub reference: Option<Seq<char>>,
    pub reply: Option<ReplyView>,
    pub content: Option<Seq<char>>,
    pub formatted_content: Option<Seq<char>>,
    pub attachments: Option<Seq<char>>,
}

impl View for Row {
    type V = RowView;

    open spec fn view(&self) -> RowView {
        RowView {
            sequential_id: self.sequential_id,
            message_id: self.message_id@,
            message_type: self.message_type@,
            name: self.name@,
            avatar: option_text(self.avatar),
            color: option_text(self.color),
            created: self.created,
            reference: option_text(self.reference),
            reply: reply_view(self.reply),
            content: option_text(self.content),
            formatted_content: option_text(self.formatted_content),
            attachments: option_text(self.attachments),
        }
    }
}

/// The values of a sequence of rows.
pub open spec fn rows_view(v: Seq<Row>) -> Seq<RowView> {
    Seq::new(v.len(), |i: int| v[i]@)
}

/// The avatar of an author: the address of the asset, or the stock picture
/// where the author has none.
pub open spec fn avatar_of(backup_path: Seq<char>, avatar: Option<Seq<char>>) -> Seq<char> {
    match avatar {
        Some(path) => asset_url(backup_path, AssetType::Avatar, path),
        None => "/images/default.svg"@,
    }
}

/// The colour of an author: the neutral gray where the author has none.
pub open spec fn color_of(color: Option<Seq<char>>) -> Seq<char> {
    match color {
        Some(color) => color,
        None => "#afafaf"@,
    }
}

/// An attached file as it is shown: its address, its kind of medium, and no
/// spoiler.
pub open spec fn attachment_of(backup_path: Seq<char>, file: Seq<char>) -> (
    Seq<char>,
    Seq<char>,
    bool,
) {
    (asset_url(backup_path, AssetType::Attachment, file), media_kind(file), false)
}

/// The attachments of a row; `None` where the list cannot be read.
pub open spec fn attachments_of(backup_path: Seq<char>, raw: Option<Seq<char>>) -> Option<
    Seq<(Seq<char>, Seq<char>, bool)>,
> {
    match raw {
        None => Some(Seq::empty()),
        Some(raw) => match json_strings(raw) {
            Some(files) => Some(
                Seq::new(files.len(), |i: int| attachment_of(backup_path, files[i])),
            ),
            None => None,
        },
    }
}

/// The content of a row: what it holds ready for display, or else its plain
/// text, escaped and with its line breaks written as `<br>`.
pub open spec fn content_of(content: Option<Seq<char>>, formatted: Option<Seq<char>>) -> Seq<
    char,
> {
    match formatted {
        Some(formatted) => formatted,
        None => replaced(
            escaped(
                match content {
                    Some(content) => content,
                    None => Seq::empty(),
                },
            ),
            "\n"@,
            "<br>"@,
        ),
    }
}

/// The message of a row whose instant is written as `created` and whose
/// attachments are `attachments`. A redacted row keeps its author and shows
/// nothing else; an ordinary row has its content and its attachments; a row of
/// any other kind is not shown. A reply shows the message replied to and asks
/// for a header of its own.
pub open spec fn message_of(
    row: RowView,
    backup_path: Seq<char>,
    created: Seq<char>,
    attachments: Seq<(Seq<char>, Seq<char>, bool)>,
) -> Option<MessageView> {
    let base = MessageView {
        sequential_id: decimal_text(row.sequential_id as nat),
        message_id: row.message_id,
        name: row.name,
        avatar: avatar_of(backup_path, row.avatar),
        color: color_of(row.color),
        created_timestamp: created,
        separate: row.reference is Some,
        reference: reference_of(backup_path, row.reference, row.reply),
        ..default_message()
    };
    if row.message_type == "redacted"@ {
        Some(MessageView { message_type: "redacted"@, ..base })
    } else if row.message_type == "default"@ {
        Some(
            MessageView {
                message_type: "default"@,
                content: content_of(row.content, row.formatted_content),
                attachments,
                ..base
            },
        )
    } else {
        None
    }
}

/// The draft of a row, or why the row cannot be read.
pub open spec fn draft_of(row: RowView, backup_path: Seq<char>) -> Result<DraftView, RowError> {
    match (row.created.minute_text(), row.created.day_text()) {
        (Some(created), Some(day)) => match attachments_of(backup_path, row.attachments) {
            Some(attachments) => Ok(
                DraftView {
                    created: row.created,
                    day,
                    message: message_of(row, backup_path, created, attachments),
                },
            ),
            None => Err(RowError::Attachments),
        },
        _ => Err(RowError::Timestamp),
    }
}

/// The drafts of the rows, or why the first row that cannot be read cannot.
pub open spec fn drafts_of(rows: Seq<RowView>, backup_path: Seq<char>) -> Result<
    Seq<DraftView>,
    RowError,
>
    decreases rows.len(),
{
    if rows.len() == 0 {
        Ok(Seq::empty())
    } else {
        match drafts_of(rows.drop_last(), backup_path) {
            Err(e) => Err(e),
            Ok(drafts) => match draft_of(rows.last(), backup_path) {
                Err(e) => Err(e),
                Ok(draft) => Ok(drafts.push(draft)),
            },
        }
    }
}

/// The messages of a page of rows, or why the page fails.
pub open spec fn page_of(rows: Seq<RowView>, backup_path: Seq<char>) -> Result<
    Seq<MessageView>,
    RowError,
> {
    match drafts_of(rows, backup_path) {
        Ok(drafts) => Ok(timeline(drafts)),
        Err(e) => Err(e),
    }
}

/// The attachments of a row.
fn attachments(backup_path: &str, raw: &Option<String>) -> (r: Option<Vec<(String, String, bool)>>)
    ensures
        (match r {
            Some(v) => Some(attachments_view(v@)),
            None => None,
        }) == attachments_of(backup_path@, option_text(*raw)),
{
    let mut out: Vec<(String, String, bool)> = Vec::new();
    match raw {
        None => {
            Some(out)
        },
        Some(raw) => match decode_strings(raw.as_str()) {
            Some(files) => {
                let ghost wanted = Seq::new(
                    files@.len(),
                    |i: int| attachment_of(backup_path@, strings_view(files@)[i]),
                );
                let mut i: usize = 0;
                while i < files.len()
                    invariant
                        i <= files.len(),
                        out@.len() == i,
                        forall|j: int|
                            0 <= j < i ==> attachment_view(#[trigger] out@[j])
                                == wanted[j],
                        wanted == Seq::new(
                            files@.len(),
                            |i: int| attachment_of(backup_path@, strings_view(files@)[i]),
                        ),
                    decreases files.len() - i,
                {
                    let file = files[i].as_str();
                    out.push((url(backup_path, AssetType::Attachment, file), file_type(file), false));
                    i += 1;
                }
                Some(out)
            },
            None => None,
        },
    }
}

/// The content of a row.
fn content(plain: Option<String>, formatted: Option<String>) -> (r: String)
    ensures
        r@ == content_of(option_text(plain), option_text(formatted)),
{
    match formatted {
        Some(formatted) => formatted,
        None => {
            proof {
                reveal_strlit("\n");
            }
            let plain = match plain {
                Some(plain) => plain,
                None => String::new(),
            };
            let safe = escape(plain.as_str());
            replace_all(safe.as_str(), "\n", "<br>")
        },
    }
}

/// The draft of a row.
pub fn draft(row: Row, backup_path: &str) -> (r: Result<Draft, RowError>)
    ensures
        match draft_of(row@, backup_path@) {
            Ok(d) => r matches Ok(x) && x@ == d,
            Err(e) => r == Err::<Draft, RowError>(e),
        },
{
    let created = match row.created.format_minute() {
        Some(created) => created,
        None => {
            return Err(RowError::Timestamp);
        },
    };
    let day = match row.created.format_day() {
        Some(day) => day,
        None => {
            return Err(RowError::Timestamp);
        },
    };
    let files = match attachments(backup_path, &row.attachments) {
        Some(files) => files,
        None => {
            return Err(RowError::Attachments);
        },
    };
    let Row {
        sequential_id,
        message_id,
        message_type,
        name,
        avatar,
        color,
        created: instant,
        reference,
        reply,
        content: plain,
        formatted_content,
        attachments: _,
    } = row;
    let redacted = str_eq(message_type.as_str(), "redacted");
    let ordinary = str_eq(message_type.as_str(), "default");
    if !redacted && !ordinary {
        return Ok(Draft { created: instant, day, message: None });
    }
    let mut m = Message::default();
    m.sequential_id = decimal(sequential_id);
    m.message_id = message_id;
    m.name = name;
    m.avatar = match avatar {
        Some(path) => url(backup_path, AssetType::Avatar, path.as_str()),
        None => String::from_str("/images/default.svg"),
    };
    m.color = match color {
        Some(color) => color,
        None => String::from_str("#afafaf"),
    };
    m.created_timestamp = created;
    m.separate = reference.is_some();
    m.reference = refer(backup_path, &reference, reply);
    if redacted {
        m.message_type = String::from_str("redacted");
    } else {
        m.message_type = String::from_str("default");
        m.content = content(plain, formatted_content);
        m.attachments = files;
    }
    proof {
        reveal_strlit("redacted");
        reveal_strlit("default");
    }
    Ok(Draft { created: instant, day, message: Some(m) })
}

/// Turns the rows of a page, in the order of the page, into the messages that
/// are shown.
pub fn populate_messages(rows: Vec<Row>, backup_path: &str) -> (r: Result<Vec<Message>, RowError>)
    ensures
        match page_of(rows_view(rows@), backup_path@) {
            Ok(page) => r matches Ok(messages) && messages_view(messages@) == page,
            Err(e) => r == Err::<Vec<Message>, RowError>(e),
        },
{
    let mut drafts: Vec<Draft> = Vec::new();
    let ghost all = rows_view(rows@);
    assert(drafts_view(drafts@) =~= Seq::<DraftView>::empty());
    for row in it: rows
        invariant
            it.seq() == rows@,
            all == rows_view(rows@),
            drafts_of(all.take(it.index() as int), backup_path@) == Ok::<Seq<DraftView>, RowError>(
                drafts_view(drafts@),
            ),
    {
        let ghost i = it.index() as int;
        proof {
            assert(all.take(i + 1).drop_last() =~= all.take(i));
            lemma_failure_stays(all, i + 1, backup_path@);
        }
        match draft(row, backup_path) {
            Ok(d) => {
                let ghost before = drafts_view(drafts@);
                let ghost added = d@;
                drafts.push(d);
                assert(drafts_view(drafts@) =~= before.push(added));
            },
            Err(e) => {
                return Err(e);
            },
        }
    }
    assert(all.take(rows@.len() as int) =~= all);
    Ok(assemble(drafts))
}

/// A page that fails at one of its first rows fails in the same way as a
/// whole.
pub proof fn lemma_failure_stays(rows: Seq<RowView>, n: int, backup_path: Seq<char>)
    requires
        0 <= n <= rows.len(),
    ensures
        drafts_of(rows.take(n), backup_path) matches Err(e) ==> drafts_of(rows, backup_path)
            == Err::<Seq<DraftView>, RowError>(e),
    decreases rows.len() - n,
{
    if n < rows.len() {
        assert(rows.take(n + 1).drop_last() =~= rows.take(n));
        lemma_failure_stays(rows, n + 1, backup_path);
    } else {
        assert(rows.take(n) =~= rows);
    }
}

/// A reply has a header of its own, whatever comes before it and whenever.
pub proof fn lemma_reply_is_separate(
    before: Seq<MessageView>,
    previous: Timestamp,
    row: RowView,
    backup_path: Seq<char>,
)
    requires
        row.reference is Some,
        draft_of(row, backup_path) matches Ok(draft) && draft.message is Some,
    ensures
        step(before, previous, draft_of(row, backup_path)->Ok_0).len() > 0,
        step(before, previous, draft_of(row, backup_path)->Ok_0).last().separate,
{
}

} // verus!
