//! The adapter for backups of the federated kind: rows of events, of which
//! texts, files and redactions are shown, and texts carry their edits.

use vstd::prelude::*;
use crate::actions::{default_message, messages_view, Message, MessageView, RowError};
use crate::convertor::option_text;
use crate::generic::{
    asset_url, avatar_of, color_of, refer, reference_of, reply_view, url, AssetType, Reply,
    ReplyView,
};
use crate::json::{
    decode_table, encode_pairs, json_pairs, json_table, pairs_view, scalars_view, table_view,
    Scalar, ScalarView,
};
use crate::text::{decimal, decimal_text, replace_all, replaced, str_eq};
use crate::timeline::{assemble, drafts_view, step, timeline, Draft, DraftView};
use crate::timestamp::{clock_text, local_offset, minute_pattern, truncated, Timestamp};

verus! {

/// The columns that the adapter reads of each message, with the words that
/// lead up to the condition of a query.
pub open spec fn selection() -> Seq<char> {
    "SELECT ROWID, id, message_type, name, avatar, color, created_timestamp, edits, reference, content, formatted_content FROM messages WHERE"@
}

/// The query that a template stands for: each `{}` in it is replaced by the
/// selection of the adapter. The template supplies the condition, the order
/// and the limit.
pub fn query(template: &str) -> (r: String)
    ensures
        r@ == replaced(template@, "{}"@, selection()),
{
    proof {
        reveal_strlit("{}");
    }
    replace_all(
        template,
        "{}",
        "SELECT ROWID, id, message_type, name, avatar, color, created_timestamp, edits, reference, content, formatted_content FROM messages WHERE",
    )
}

/// An event as the database holds it. A column that may hold nothing is an
/// `Option`.
#[derive(Debug)]
pub struct Row {
    pub sequential_id: u64,
    pub message_id: String,
    pub message_type: String,
    pub name: String,
    pub avatar: Option<String>,
    pub color: Option<String>,
    pub created: Timestamp,
    /// The edits of a text, as a list in JSON. Each edit is a list: its first
    /// value is the instant in milliseconds since the start of 1970 in UTC,
    /// its third the text, its fifth the text ready for display.
    pub edits: Option<String>,
    /// The identifier of the event replied to.
    pub reference: Option<String>,
    /// The event that `reference` names, where the store holds it.
    pub reply: Option<Reply>,
    pub content: Option<String>,
    pub formatted_content: Option<String>,
}

/// A row as a mathematical value.
pub struct RowView {
    pub sequential_id: u64,
    pub message_id: Seq<char>,
    pub message_type: Seq<char>,
    pub name: Seq<char>,
    pub avatar: Option<Seq<char>>,
    pub color: Option<Seq<char>>,
    pub created: Timestamp,
    pub edits: Option<Seq<char>>,
    pub reference: Option<Seq<char>>,
    pub reply: Option<ReplyView>,
    pub content: Option<Seq<char>>,
    pub formatted_content: Option<Seq<char>>,
}

impl View for Row {
    type V = RowView;

    open spec fn view(&self) -> RowView {
        RowView {
            sequential_id: self.sequential_id,
            message_id: self.message_id@,
            message_type: self.message_type@,
            name: self.name@,
            avatar: option_text(self.avatar),
            color: option_text(self.color),
            created: self.created,
            edits: option_text(self.edits),
            reference: option_text(self.reference),
            reply: reply_view(self.reply),
            content: option_text(self.content),
            formatted_content: option_text(self.formatted_content),
        }
    }
}

/// The values of a sequence of rows.
pub open spec fn rows_view(v: Seq<Row>) -> Seq<RowView> {
    Seq::new(v.len(), |i: int| v[i]@)
}

/// The text of an edit: its fifth value where that is a text, or else its
/// third; `None` where the edit has fewer than five values or neither is a
/// text.
pub open spec fn edit_content(edit: Seq<ScalarView>) -> Option<Seq<char>> {
    if edit.len() < 5 {
        None
    } else {
        match edit[4] {
            ScalarView::Text(formatted) => Some(formatted),
            _ => match edit[2] {
                ScalarView::Text(plain) => Some(plain),
                _ => None,
            },
        }
    }
}

/// The instant of an edit in milliseconds: its first value where that is a
/// whole number.
pub open spec fn edit_millis(edit: Seq<ScalarView>) -> Option<i64> {
    if edit.len() < 1 {
        None
    } else {
        match edit[0] {
            ScalarView::Integer(millis) => Some(millis),
            _ => None,
        }
    }
}

/// The second that an instant in milliseconds falls into, counted towards
/// zero.
pub open spec fn second_of(millis: i64) -> i64 {
    truncated(millis as int, 1000) as i64
}

/// The instant of an edit as it is shown in the local time that is `offset`
/// seconds ahead of UTC. Parts of a second do not show.
pub open spec fn edit_text(millis: i64, offset: i32) -> Option<Seq<char>> {
    clock_text(second_of(millis), 0, offset, minute_pattern())
}

/// What the edits make of a text.
pub struct History {
    /// The text as it stands after the last edit.
    pub content: Seq<char>,
    /// When the text was last edited.
    pub edited: Option<Seq<char>>,
    /// The states of the text, each with the instant it dates from.
    pub entries: Seq<(Seq<char>, Seq<char>)>,
}

/// The history after one more edit, shown in the zone `zone`: the offset of
/// local time at the instant of the edit, `None` where local time has no such
/// instant.
pub open spec fn history_step(
    history: History,
    edit: Seq<ScalarView>,
    zone: Option<i32>,
) -> Result<History, RowError> {
    match (edit_content(edit), edit_millis(edit)) {
        (Some(content), Some(millis)) => match zone {
            Some(offset) => match edit_text(millis, offset) {
                Some(at) => Ok(
                    History {
                        content,
                        edited: Some(at),
                        entries: history.entries.push((at, content)),
                    },
                ),
                None => Err(RowError::Timestamp),
            },
            None => Err(RowError::Timestamp),
        },
        _ => Err(RowError::Edits),
    }
}

/// The history of a text with its edits in their order. It starts with the
/// text as it was created; each edit adds a state and becomes the text that is
/// shown, and the instant of the last edit is when the text was edited.
pub open spec fn history_of(
    created: Seq<char>,
    content: Seq<char>,
    edits: Seq<Seq<ScalarView>>,
    zones: Seq<Option<i32>>,
) -> Result<History, RowError>
    decreases edits.len(),
{
    if edits.len() == 0 {
        Ok(History { content, edited: None, entries: seq![(created, content)] })
    } else {
        match history_of(created, content, edits.drop_last(), zones) {
            Ok(history) => history_step(history, edits.last(), zones[edits.len() - 1]),
            Err(e) => Err(e),
        }
    }
}

/// Whether the zone `zone` may be the one that the machine gives for `edit`: an
/// offset of less than a day, or none, and none only for an edit whose instant
/// cannot be written in UTC either.
pub open spec fn zone_fits(edit: Seq<ScalarView>, zone: Option<i32>) -> bool {
    match zone {
        Some(offset) => -86_400 < offset < 86_400,
        None => edit_millis(edit) matches Some(millis) && clock_text(
            second_of(millis),
            0,
            0,
            minute_pattern(),
        ) is None,
    }
}

/// Whether each zone may be the one that the machine gives for its edit. A
/// zone without an edit says nothing.
pub open spec fn zones_fit(edits: Seq<Seq<ScalarView>>, zones: Seq<Option<i32>>) -> bool {
    forall|k: int|
        0 <= k < zones.len() && k < edits.len() ==> zone_fits(edits[k], #[trigger] zones[k])
}

/// The edits of a row: none where the row has none or where they cannot be
/// read.
pub open spec fn edits_of(row: RowView) -> Seq<Seq<ScalarView>> {
    match row.edits {
        Some(raw) => match json_table(raw) {
            Some(edits) => edits,
            None => Seq::empty(),
        },
        None => Seq::empty(),
    }
}

/// The content of a row of text before its edits: what it holds ready for
/// display, or else its plain text.
pub open spec fn text_of(content: Option<Seq<char>>, formatted: Option<Seq<char>>) -> Seq<char> {
    match formatted {
        Some(formatted) => formatted,
        None => match content {
            Some(content) => content,
            None => Seq::empty(),
        },
    }
}

/// The message of a row whose instant is written as `created`, with the edits
/// shown in the zones `zones`; `Ok(None)` for a row that is not shown.
///
/// A file or an image is an ordinary message with one attachment, named by the
/// content of the row. A redaction keeps its author and shows nothing else. A
/// text has its content, and where the row has edits, their history.
/// A reply shows the event replied to and asks for a header of its own.
pub open spec fn message_of(
    row: RowView,
    backup_path: Seq<char>,
    created: Seq<char>,
    zones: Seq<Option<i32>>,
) -> Result<Option<MessageView>, RowError> {
    let base = MessageView {
        sequential_id: decimal_text(row.sequential_id as nat),
        message_id: row.message_id,
        name: row.name,
        avatar: avatar_of(backup_path, row.avatar),
        color: color_of(row.color),
        created_timestamp: created,
        separate: row.reference is Some,
        reference: reference_of(backup_path, row.reference, row.reply),
        ..default_message()
    };
    if row.message_type == "m.image"@ || row.message_type == "m.file"@ {
        match row.content {
            Some(file) => Ok(
                Some(
                    MessageView {
                        message_type: "default"@,
                        attachments: seq![
                            (
                                asset_url(backup_path, AssetType::Attachment, file),
                                if row.message_type == "m.image"@ {
                                    "image"@
                                } else {
                                    "unknown"@
                                },
                                false,
                            ),
                        ],
                        ..base
                    },
                ),
            ),
            None => Err(RowError::Content),
        }
    } else if row.message_type == "m.room.redaction"@ {
        Ok(Some(MessageView { message_type: "redacted"@, ..base }))
    } else if row.message_type == "m.text"@ {
        let content = text_of(row.content, row.formatted_content);
        match row.edits {
            None => Ok(Some(MessageView { message_type: "default"@, content, ..base })),
            Some(raw) => match json_table(raw) {
                None => Err(RowError::Edits),
                Some(edits) => match history_of(created, content, edits, zones) {
                    Ok(history) => Ok(
                        Some(
                            MessageView {
                                message_type: "default"@,
                                content: history.content,
                                edited_timestamp: history.edited,
                                edits_list: json_pairs(history.entries),
                                ..base
                            },
                        ),
                    ),
                    Err(e) => Err(e),
                },
            },
        }
    } else {
        Ok(None)
    }
}

/// The draft of a row, or why the row cannot be read.
pub open spec fn draft_of(row: RowView, backup_path: Seq<char>, zones: Seq<Option<i32>>) -> Result<
    DraftView,
    RowError,
> {
    match (row.created.minute_text(), row.created.day_text()) {
        (Some(created), Some(day)) => match message_of(row, backup_path, created, zones) {
            Ok(message) => Ok(DraftView { created: row.created, day, message }),
            Err(e) => Err(e),
        },
        _ => Err(RowError::Timestamp),
    }
}

/// The drafts of the rows, or why the first row that cannot be read cannot.
/// The edits of row `i` are shown in the zones `zones[i]`.
pub open spec fn drafts_of(
    rows: Seq<RowView>,
    backup_path: Seq<char>,
    zones: Seq<Seq<Option<i32>>>,
) -> Result<Seq<DraftView>, RowError>
    decreases rows.len(),
{
    if rows.len() == 0 {
        Ok(Seq::empty())
    } else {
        match drafts_of(rows.drop_last(), backup_path, zones) {
            Err(e) => Err(e),
            Ok(drafts) => match draft_of(rows.last(), backup_path, zones[rows.len() - 1]) {
                Err(e) => Err(e),
                Ok(draft) => Ok(drafts.push(draft)),
            },
        }
    }
}

/// The messages of a page of rows, or why the page fails.
pub open spec fn page_of(
    rows: Seq<RowView>,
    backup_path: Seq<char>,
    zones: Seq<Seq<Option<i32>>>,
) -> Result<Seq<MessageView>, RowError> {
    match drafts_of(rows, backup_path, zones) {
        Ok(drafts) => Ok(timeline(drafts)),
        Err(e) => Err(e),
    }
}

/// Whether an event of the given kind shows a file: an image or a file.
pub fn shows_file(message_type: &str) -> (r: bool)
    ensures
        r == (message_type@ == "m.image"@ || message_type@ == "m.file"@),
{
    str_eq(message_type, "m.image") || str_eq(message_type, "m.file")
}

/// Whether `r` is the outcome `wanted`.
pub open spec fn is_page(r: Result<Vec<Message>, RowError>, wanted: Result<Seq<MessageView>, RowError>) -> bool {
    match wanted {
        Ok(page) => r matches Ok(messages) && messages_view(messages@) == page,
        Err(e) => r == Err::<Vec<Message>, RowError>(e),
    }
}

/// The second that an instant in milliseconds falls into.
fn second(millis: i64) -> (r: i64)
    ensures
        r == second_of(millis),
{
    if millis >= 0 {
        millis / 1000
    } else {
        let back: i128 = (-(millis as i128)) / 1000;
        (-back) as i64
    }
}

/// The instant of an edit as it is shown in the local time that is `offset`
/// seconds ahead of UTC.
pub fn edit_instant(millis: i64, offset: i32) -> (r: Option<String>)
    ensures
        option_text(r) == edit_text(millis, offset),
{
    Timestamp { seconds: second(millis), nanos: 0, offset }.format_minute()
}

/// The history depends on the zones of its own edits only.
pub proof fn lemma_history_reads_its_zones(
    created: Seq<char>,
    content: Seq<char>,
    edits: Seq<Seq<ScalarView>>,
    zones: Seq<Option<i32>>,
    others: Seq<Option<i32>>,
)
    requires
        forall|k: int| 0 <= k < edits.len() ==> zones[k] == others[k],
    ensures
        history_of(created, content, edits, zones) == history_of(created, content, edits, others),
    decreases edits.len(),
{
    if edits.len() > 0 {
        lemma_history_reads_its_zones(created, content, edits.drop_last(), zones, others);
    }
}

/// A history that fails at one of its first edits fails in the same way as a
/// whole.
pub proof fn lemma_history_failure_stays(
    created: Seq<char>,
    content: Seq<char>,
    edits: Seq<Seq<ScalarView>>,
    n: int,
    zones: Seq<Option<i32>>,
)
    requires
        0 <= n <= edits.len(),
    ensures
        history_of(created, content, edits.take(n), zones) matches Err(e) ==> history_of(
            created,
            content,
            edits,
            zones,
        ) == Err::<History, RowError>(e),
    decreases edits.len() - n,
{
    if n < edits.len() {
        assert(edits.take(n + 1).drop_last() =~= edits.take(n));
        lemma_history_failure_stays(created, content, edits, n + 1, zones);
    } else {
        assert(edits.take(n) =~= edits);
    }
}

/// What `history` found, as a mathematical value.
pub open spec fn found_history(r: Result<(String, Option<String>, Vec<(String, String)>), RowError>) -> Result<
    History,
    RowError,
> {
    match r {
        Ok(h) => Ok(History { content: h.0@, edited: option_text(h.1), entries: pairs_view(h.2@) }),
        Err(e) => Err(e),
    }
}

/// Whether `zones` holds one zone for each of the edits, each one that the
/// machine may give for its edit, and `found` is the history of the edits
/// shown in these zones.
pub open spec fn history_in_zones(
    found: Result<History, RowError>,
    created: Seq<char>,
    content: Seq<char>,
    edits: Seq<Seq<ScalarView>>,
    zones: Seq<Option<i32>>,
) -> bool {
    zones.len() == edits.len() && zones_fit(edits, zones) && found == history_of(
        created,
        content,
        edits,
        zones,
    )
}

/// `zones`, filled up to `n` zones with the zone of UTC.
pub open spec fn padded(zones: Seq<Option<i32>>, n: int) -> Seq<Option<i32>> {
    Seq::new(
        n as nat,
        |k: int|
            if k < zones.len() {
                zones[k]
            } else {
                Some(0i32)
            },
    )
}

/// The text of an edit.
fn content_of_edit(edit: &Vec<Scalar>) -> (r: Option<String>)
    ensures
        option_text(r) == edit_content(scalars_view(edit@)),
{
    if edit.len() < 5 {
        return None;
    }
    match &edit[4] {
        Scalar::Text(formatted) => Some(formatted.clone()),
        _ => match &edit[2] {
            Scalar::Text(plain) => Some(plain.clone()),
            _ => None,
        },
    }
}

/// The instant of an edit in milliseconds.
fn millis_of_edit(edit: &Vec<Scalar>) -> (r: Option<i64>)
    ensures
        r == edit_millis(scalars_view(edit@)),
{
    if edit.len() < 1 {
        return None;
    }
    match &edit[0] {
        Scalar::Integer(millis) => Some(*millis),
        _ => None,
    }
}

/// The history of a text that was created at the instant written as `created`
/// with the content `content`. The instant of each edit is shown in the local
/// time of this machine at that instant.
pub fn history(created: &str, content: String, edits: &Vec<Vec<Scalar>>) -> (r: Result<
    (String, Option<String>, Vec<(String, String)>),
    RowError,
>)
    ensures
        exists|zones: Seq<Option<i32>>| #[trigger]
            history_in_zones(found_history(r), created@, content@, table_view(edits@), zones),
{
    let ghost all = table_view(edits@);
    let ghost first = content@;
    let mut entries: Vec<(String, String)> = Vec::new();
    entries.push((String::from_str(created), content.clone()));
    let mut current = content;
    let mut edited: Option<String> = None;
    let ghost mut zones: Seq<Option<i32>> = Seq::empty();
    let mut k: usize = 0;
    assert(pairs_view(entries@) =~= seq![(created@, first)]);
    while k < edits.len()
        invariant
            k <= edits.len(),
            all == table_view(edits@),
            first == content@,
            zones.len() == k,
            zones_fit(all, zones),
            history_of(created@, first, all.take(k as int), zones) == Ok::<History, RowError>(
                History {
                    content: current@,
                    edited: option_text(edited),
                    entries: pairs_view(entries@),
                },
            ),
        decreases edits.len() - k,
    {
        let edit = &edits[k];
        proof {
            assert(all.take(k + 1).drop_last() =~= all.take(k as int));
        }
        let found = match (content_of_edit(edit), millis_of_edit(edit)) {
            (Some(text), Some(millis)) => {
                let zone = local_offset(second(millis));
                proof {
                    let longer = zones.push(zone);
                    lemma_history_reads_its_zones(created@, first, all.take(k as int), zones, longer);
                    zones = longer;
                }
                match zone {
                    Some(offset) => match edit_instant(millis, offset) {
                        Some(at) => Ok((text, at)),
                        None => Err(RowError::Timestamp),
                    },
                    None => Err(RowError::Timestamp),
                }
            },
            _ => {
                proof {
                    let longer = zones.push(Some(0i32));
                    lemma_history_reads_its_zones(created@, first, all.take(k as int), zones, longer);
                    zones = longer;
                }
                Err(RowError::Edits)
            },
        };
        match found {
            Ok((text, at)) => {
                let ghost pairs = pairs_view(entries@);
                entries.push((at.clone(), text.clone()));
                assert(pairs_view(entries@) =~= pairs.push((at@, text@)));
                current = text;
                edited = Some(at);
            },
            Err(e) => {
                proof {
                    let filled = padded(zones, all.len() as int);
                    lemma_history_reads_its_zones(created@, first, all.take(k + 1), zones, filled);
                    lemma_history_failure_stays(created@, first, all, k + 1, filled);
                    assert(history_in_zones(
                        found_history(
                            Err::<(String, Option<String>, Vec<(String, String)>), RowError>(e),
                        ),
                        created@,
                        first,
                        all,
                        filled,
                    ));
                }
                return Err(e);
            },
        }
        k += 1;
    }
    proof {
        assert(all.take(k as int) =~= all);
        assert(history_in_zones(
            found_history(Ok::<(String, Option<String>, Vec<(String, String)>), RowError>((current, edited, entries))),
            created@,
            first,
            all,
            zones,
        ));
    }
    Ok((current, edited, entries))
}

/// What `draft` found, as a mathematical value.
pub open spec fn found_draft(r: Result<Draft, RowError>) -> Result<DraftView, RowError> {
    match r {
        Ok(d) => Ok(d@),
        Err(e) => Err(e),
    }
}

/// Whether each of `zones` may be the zone that the machine gives for its edit
/// of the row, and `found` is the draft of the row with its edits shown in
/// these zones.
pub open spec fn draft_in_zones(
    found: Result<DraftView, RowError>,
    row: RowView,
    backup_path: Seq<char>,
    zones: Seq<Option<i32>>,
) -> bool {
    zones_fit(edits_of(row), zones) && found == draft_of(row, backup_path, zones)
}

/// The draft of a row. The instant of each edit of the row is shown in the
/// local time of this machine at that instant.
pub fn draft(row: Row, backup_path: &str) -> (r: Result<Draft, RowError>)
    ensures
        exists|zones: Seq<Option<i32>>| #[trigger]
            draft_in_zones(found_draft(r), row@, backup_path@, zones),
{
    proof {
        reveal_strlit("m.image");
        reveal_strlit("m.file");
        reveal_strlit("m.room.redaction");
        reveal_strlit("m.text");
    }
    let ghost view = row@;
    let ghost none: Seq<Option<i32>> = Seq::empty();
    let created = match row.created.format_minute() {
        Some(created) => created,
        None => {
            assert(draft_in_zones(
                found_draft(Err::<Draft, RowError>(RowError::Timestamp)),
                view,
                backup_path@,
                none,
            ));
            return Err(RowError::Timestamp);
        },
    };
    let day = match row.created.format_day() {
        Some(day) => day,
        None => {
            assert(draft_in_zones(
                found_draft(Err::<Draft, RowError>(RowError::Timestamp)),
                view,
                backup_path@,
                none,
            ));
            return Err(RowError::Timestamp);
        },
    };
    let Row {
        sequential_id,
        message_id,
        message_type,
        name,
        avatar,
        color,
        created: instant,
        edits,
        reference,
        reply,
        content,
        formatted_content,
    } = row;
    let kind = message_type.as_str();
    let image = str_eq(kind, "m.image");
    let file = str_eq(kind, "m.file");
    let redaction = str_eq(kind, "m.room.redaction");
    let text = str_eq(kind, "m.text");
    if !image && !file && !redaction && !text {
        let d = Draft { created: instant, day, message: None };
        assert(draft_in_zones(found_draft(Ok::<Draft, RowError>(d)), view, backup_path@, none));
        return Ok(d);
    }
    let mut m = Message::default();
    m.sequential_id = decimal(sequential_id);
    m.message_id = message_id;
    m.name = name;
    m.avatar = match avatar {
        Some(path) => url(backup_path, AssetType::Avatar, path.as_str()),
        None => String::from_str("/images/default.svg"),
    };
    m.color = match color {
        Some(color) => color,
        None => String::from_str("#afafaf"),
    };
    m.separate = reference.is_some();
    m.reference = refer(backup_path, &reference, reply);
    let ghost mut zones: Seq<Option<i32>> = Seq::empty();
    if image || file {
        match content {
            Some(named) => {
                m.message_type = String::from_str("default");
                let kind = if image {
                    String::from_str("image")
                } else {
                    String::from_str("unknown")
                };
                let mut files: Vec<(String, String, bool)> = Vec::new();
                files.push((url(backup_path, AssetType::Attachment, named.as_str()), kind, false));
                m.attachments = files;
                assert(m@.attachments =~= seq![
                    (
                        asset_url(backup_path@, AssetType::Attachment, named@),
                        if image {
                            "image"@
                        } else {
                            "unknown"@
                        },
                        false,
                    ),
                ]);
            },
            None => {
                assert(draft_in_zones(
                    found_draft(Err::<Draft, RowError>(RowError::Content)),
                    view,
                    backup_path@,
                    none,
                ));
                return Err(RowError::Content);
            },
        }
    } else if redaction {
        m.message_type = String::from_str("redacted");
    } else {
        m.message_type = String::from_str("default");
        let first = match formatted_content {
            Some(formatted) => formatted,
            None => match content {
                Some(plain) => plain,
                None => String::new(),
            },
        };
        match edits {
            None => {
                m.content = first;
            },
            Some(raw) => match decode_table(raw.as_str()) {
                None => {
                    assert(draft_in_zones(
                        found_draft(Err::<Draft, RowError>(RowError::Edits)),
                        view,
                        backup_path@,
                        none,
                    ));
                    return Err(RowError::Edits);
                },
                Some(table) => {
                    let found = history(created.as_str(), first, &table);
                    proof {
                        zones = choose|zones: Seq<Option<i32>>| #[trigger]
                            history_in_zones(
                                found_history(found),
                                created@,
                                first@,
                                table_view(table@),
                                zones,
                            );
                    }
                    match found {
                        Ok((last, edited, entries)) => {
                            m.content = last;
                            m.edited_timestamp = edited;
                            m.edits_list = encode_pairs(&entries);
                        },
                        Err(e) => {
                            assert(draft_in_zones(
                                found_draft(Err::<Draft, RowError>(e)),
                                view,
                                backup_path@,
                                zones,
                            ));
                            return Err(e);
                        },
                    }
                },
            },
        }
    }
    m.created_timestamp = created;
    let d = Draft { created: instant, day, message: Some(m) };
    assert(draft_in_zones(found_draft(Ok::<Draft, RowError>(d)), view, backup_path@, zones));
    Ok(d)
}

/// The drafts depend on the zones of their own rows only.
pub proof fn lemma_drafts_read_their_zones(
    rows: Seq<RowView>,
    backup_path: Seq<char>,
    zones: Seq<Seq<Option<i32>>>,
    others: Seq<Seq<Option<i32>>>,
)
    requires
        forall|i: int| 0 <= i < rows.len() ==> zones[i] == others[i],
    ensures
        drafts_of(rows, backup_path, zones) == drafts_of(rows, backup_path, others),
    decreases rows.len(),
{
    if rows.len() > 0 {
        lemma_drafts_read_their_zones(rows.drop_last(), backup_path, zones, others);
    }
}

/// A page that fails at one of its first rows fails in the same way as a
/// whole.
pub proof fn lemma_failure_stays(
    rows: Seq<RowView>,
    n: int,
    backup_path: Seq<char>,
    zones: Seq<Seq<Option<i32>>>,
)
    requires
        0 <= n <= rows.len(),
    ensures
        drafts_of(rows.take(n), backup_path, zones) matches Err(e) ==> drafts_of(
            rows,
            backup_path,
            zones,
        ) == Err::<Seq<DraftView>, RowError>(e),
    decreases rows.len() - n,
{
    if n < rows.len() {
        assert(rows.take(n + 1).drop_last() =~= rows.take(n));
        lemma_failure_stays(rows, n + 1, backup_path, zones);
    } else {
        assert(rows.take(n) =~= rows);
    }
}

/// Whether `zones` holds for each row the zones of its edits, each one that
/// the machine may give for its edit, and `r` is the page of the rows with
/// their edits shown in these zones.
pub open spec fn page_in_zones(
    r: Result<Vec<Message>, RowError>,
    rows: Seq<RowView>,
    backup_path: Seq<char>,
    zones: Seq<Seq<Option<i32>>>,
) -> bool {
    zones.len() == rows.len() && (forall|i: int|
        0 <= i < zones.len() ==> zones_fit(edits_of(rows[i]), #[trigger] zones[i])) && is_page(
        r,
        page_of(rows, backup_path, zones),
    )
}

/// `zones`, filled up to `n` rows with rows without zones.
pub open spec fn padded_rows(zones: Seq<Seq<Option<i32>>>, n: int) -> Seq<Seq<Option<i32>>> {
    Seq::new(
        n as nat,
        |i: int|
            if i < zones.len() {
                zones[i]
            } else {
                Seq::empty()
            },
    )
}

/// Turns the rows of a page, in the order of the page, into the messages that
/// are shown. The instant of each edit is shown in the local time of this
/// machine at that instant; all else is fixed by the rows.
pub fn populate_messages(rows: Vec<Row>, backup_path: &str) -> (r: Result<Vec<Message>, RowError>)
    ensures
        exists|zones: Seq<Seq<Option<i32>>>| #[trigger]
            page_in_zones(r, rows_view(rows@), backup_path@, zones),
{
    let mut drafts: Vec<Draft> = Vec::new();
    let ghost all = rows_view(rows@);
    let ghost mut zones: Seq<Seq<Option<i32>>> = Seq::empty();
    assert(drafts_view(drafts@) =~= Seq::<DraftView>::empty());
    for row in it: rows
        invariant
            it.seq() == rows@,
            all == rows_view(rows@),
            zones.len() == it.index(),
            forall|i: int|
                0 <= i < zones.len() ==> zones_fit(edits_of(all[i]), #[trigger] zones[i]),
            drafts_of(all.take(it.index() as int), backup_path@, zones) == Ok::<
                Seq<DraftView>,
                RowError,
            >(drafts_view(drafts@)),
    {
        let ghost i = it.index() as int;
        let ghost view = row@;
        proof {
            assert(all.take(i + 1).drop_last() =~= all.take(i));
        }
        let found = draft(row, backup_path);
        proof {
            let zone = choose|zone: Seq<Option<i32>>| #[trigger]
                draft_in_zones(found_draft(found), view, backup_path@, zone);
            let longer = zones.push(zone);
            lemma_drafts_read_their_zones(all.take(i), backup_path@, zones, longer);
            zones = longer;
        }
        match found {
            Ok(d) => {
                let ghost before = drafts_view(drafts@);
                let ghost added = d@;
                drafts.push(d);
                assert(drafts_view(drafts@) =~= before.push(added));
            },
            Err(e) => {
                proof {
                    let filled = padded_rows(zones, all.len() as int);
                    lemma_drafts_read_their_zones(all.take(i + 1), backup_path@, zones, filled);
                    lemma_failure_stays(all, i + 1, backup_path@, filled);
                    assert(page_in_zones(
                        Err::<Vec<Message>, RowError>(e),
                        all,
                        backup_path@,
                        filled,
                    ));
                }
                return Err(e);
            },
        }
    }
    assert(all.take(rows@.len() as int) =~= all);
    let out = assemble(drafts);
    assert(page_in_zones(Ok::<Vec<Message>, RowError>(out), all, backup_path@, zones));
    Ok(out)
}

/// A reply has a header of its own, whatever comes before it and whenever, and
/// in whatever zones its edits are shown.
pub proof fn lemma_reply_is_separate(
    before: Seq<MessageView>,
    previous: Timestamp,
    row: RowView,
    backup_path: Seq<char>,
    zones: Seq<Option<i32>>,
)
    requires
        row.reference is Some,
        draft_of(row, backup_path, zones) matches Ok(draft) && draft.message is Some,
    ensures
        step(before, previous, draft_of(row, backup_path, zones)->Ok_0).len() > 0,
        step(before, previous, draft_of(row, backup_path, zones)->Ok_0).last().separate,
{
}

} // verus!
