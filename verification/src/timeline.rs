//! The assembly of a timeline: which messages are grouped under the header of
//! the message before them, and where a new day starts.
//!
//! A platform turns each of its rows into a draft: the instant of the row and,
//! where the row is shown at all, its message. The timeline is built from the
//! drafts in their order. It looks at nothing but the drafts, so the same
//! drafts give the same timeline.

use vstd::prelude::*;
use crate::actions::{day_record, messages_view, separator_message, Message, MessageView};
use crate::text::str_eq;
use crate::timestamp::Timestamp;

verus! {

/// What a row contributes to the timeline.
#[derive(Debug)]
pub struct Draft {
    /// When the row was created.
    pub created: Timestamp,
    /// The local date of `created`, as the record of a new day shows it.
    pub day: String,
    /// The message of the row, where the row is shown. Its flag `separate`
    /// says whether the message must have a header of its own whatever comes
    /// before it.
    pub message: Option<Message>,
}

/// A draft as a mathematical value.
pub struct DraftView {
    pub created: Timestamp,
    pub day: Seq<char>,
    pub message: Option<MessageView>,
}

impl View for Draft {
    type V = DraftView;

    open spec fn view(&self) -> DraftView {
        DraftView {
            created: self.created,
            day: self.day@,
            message: match self.message {
                Some(m) => Some(m@),
                None => None,
            },
        }
    }
}

/// The values of a sequence of drafts.
pub open spec fn drafts_view(v: Seq<Draft>) -> Seq<DraftView> {
    Seq::new(v.len(), |i: int| v[i]@)
}

/// Whether two messages have the same author: name, avatar, colour and the
/// flag of a bot.
pub open spec fn same_author(previous: MessageView, m: MessageView) -> bool {
    previous.name == m.name && previous.avatar == m.avatar && previous.color == m.color
        && previous.bot == m.bot
}

/// Whether a message is an ordinary one: no record of a new day, no redacted
/// message, no event of the platform.
pub open spec fn is_ordinary(m: MessageView) -> bool {
    m.message_type == "default"@
}

/// Whether `m` is shown under the header of `previous`: `previous` is an
/// ordinary message, both have the same author, and the row of `m` was created
/// at most five minutes after the row before it (`near`).
pub open spec fn grouped(previous: MessageView, m: MessageView, near: bool) -> bool {
    is_ordinary(previous) && same_author(previous, m) && near
}

/// The timeline `before` with one more draft, whose row follows a row created
/// at `previous`.
///
/// The first message of a timeline has a header of its own. Behind other
/// messages the record of a new day comes first where the draft falls on
/// another local day than the row before it; then comes the message of the
/// draft, with a header of its own where the draft asks for one or where it is
/// not grouped with the last message of `before`.
pub open spec fn step(
    before: Seq<MessageView>,
    previous: Timestamp,
    draft: DraftView,
) -> Seq<MessageView> {
    if before.len() == 0 {
        match draft.message {
            Some(m) => seq![MessageView { separate: true, ..m }],
            None => before,
        }
    } else {
        let dated = if previous.local_day() != draft.created.local_day() {
            before.push(separator_message(draft.day))
        } else {
            before
        };
        match draft.message {
            Some(m) => dated.push(
                MessageView {
                    separate: m.separate || !grouped(
                        before.last(),
                        m,
                        draft.created.is_within_five_minutes_of(previous),
                    ),
                    ..m
                },
            ),
            None => dated,
        }
    }
}

/// The instant that the last draft is compared with: that of the draft before
/// it. The first draft is compared with nothing.
pub open spec fn previous_instant(drafts: Seq<DraftView>) -> Timestamp {
    if drafts.len() >= 2 {
        drafts[drafts.len() - 2].created
    } else {
        Timestamp { seconds: 0, nanos: 0, offset: 0 }
    }
}

/// The timeline of the drafts.
pub open spec fn timeline(drafts: Seq<DraftView>) -> Seq<MessageView>
    decreases drafts.len(),
{
    if drafts.len() == 0 {
        Seq::empty()
    } else {
        step(timeline(drafts.drop_last()), previous_instant(drafts), drafts.last())
    }
}

/// Whether `m`, whose row was created at `created`, is shown under the header
/// of `previous`, where the row before that of `m` was created at `earlier`.
pub fn is_grouped(previous: &Message, m: &Message, created: &Timestamp, earlier: &Timestamp) -> (r:
    bool)
    ensures
        r == grouped(previous@, m@, created.is_within_five_minutes_of(*earlier)),
{
    str_eq(previous.message_type.as_str(), "default") && previous.name == m.name && previous.avatar
        == m.avatar && previous.color == m.color && previous.bot == m.bot
        && created.within_five_minutes_of(earlier)
}

/// Builds the timeline of the drafts.
pub fn assemble(drafts: Vec<Draft>) -> (out: Vec<Message>)
    ensures
        messages_view(out@) == timeline(drafts_view(drafts@)),
{
    let mut out: Vec<Message> = Vec::new();
    let mut previous = Timestamp { seconds: 0, nanos: 0, offset: 0 };
    let ghost all = drafts_view(drafts@);
    for draft in it: drafts
        invariant
            it.seq() == drafts@,
            all == drafts_view(drafts@),
            messages_view(out@) == timeline(all.take(it.index() as int)),
            it.index() > 0 ==> previous == all[it.index() - 1].created,
    {
        let ghost i = it.index() as int;
        let ghost taken = all.take(i + 1);
        assert(taken.drop_last() =~= all.take(i));
        let Draft { created, day, message } = draft;
        if out.len() == 0 {
            if let Some(m) = message {
                let mut m = m;
                m.separate = true;
                out.push(m);
            }
        } else {
            let grouped_with_last = match &message {
                Some(m) => is_grouped(&out[out.len() - 1], m, &created, &previous),
                None => false,
            };
            if !created.same_day(&previous) {
                out.push(day_record(day));
            }
            if let Some(m) = message {
                let mut m = m;
                m.separate = m.separate || !grouped_with_last;
                out.push(m);
            }
        }
        previous = created;
    }
    assert(all.take(drafts@.len() as int) =~= all);
    out
}

/// How many records of a new day the messages hold.
pub open spec fn count_separators(messages: Seq<MessageView>) -> nat
    decreases messages.len(),
{
    if messages.len() == 0 {
        0
    } else {
        let last: nat = if messages.last().message_type == "day_separator"@ {
            1
        } else {
            0
        };
        count_separators(messages.drop_last()) + last
    }
}

/// Whether one of the drafts is shown.
pub open spec fn any_shown(drafts: Seq<DraftView>) -> bool {
    exists|j: int| 0 <= j < drafts.len() && (#[trigger] drafts[j]).message is Some
}

/// Whether the last draft starts a new day in the timeline: a draft before it
/// is shown, and it falls on another local day than the draft just before it.
pub open spec fn starts_new_day(drafts: Seq<DraftView>) -> bool {
    drafts.len() >= 2 && any_shown(drafts.drop_last()) && previous_instant(drafts).local_day()
        != drafts.last().created.local_day()
}

/// How many of the drafts start a new day in the timeline.
pub open spec fn count_new_days(drafts: Seq<DraftView>) -> nat
    decreases drafts.len(),
{
    if drafts.len() == 0 {
        0
    } else {
        let last: nat = if starts_new_day(drafts) {
            1
        } else {
            0
        };
        count_new_days(drafts.drop_last()) + last
    }
}

/// Whether none of the drafts holds a message that poses as the record of a
/// new day.
pub open spec fn no_posing_separator(drafts: Seq<DraftView>) -> bool {
    forall|j: int|
        0 <= j < drafts.len() ==> ((#[trigger] drafts[j]).message matches Some(m)
            ==> m.message_type != "day_separator"@)
}

/// A message that asks for a header of its own gets one, whatever comes before
/// it and whenever: so does every reply, since the draft of a reply asks for
/// one.
pub proof fn lemma_forced_is_separate(
    before: Seq<MessageView>,
    previous: Timestamp,
    draft: DraftView,
)
    requires
        draft.message matches Some(m) && m.separate,
    ensures
        step(before, previous, draft).len() > 0,
        step(before, previous, draft).last().separate,
{
}

/// The first message of a timeline has a header of its own.
pub proof fn lemma_first_is_separate(previous: Timestamp, draft: DraftView)
    requires
        draft.message is Some,
    ensures
        step(Seq::empty(), previous, draft).len() == 1,
        step(Seq::empty(), previous, draft)[0].separate,
{
}

/// The rule of grouping: a message is shown under the header of the message
/// before it where, and only where, it asks for no header of its own, the
/// message before it is an ordinary message of the same author, and its row
/// was created at most five minutes after the row before it.
pub proof fn lemma_grouping_rule(before: Seq<MessageView>, previous: Timestamp, draft: DraftView)
    requires
        before.len() > 0,
        draft.message is Some,
    ensures
        step(before, previous, draft).len() > 0,
        !step(before, previous, draft).last().separate <==> !draft.message->0.separate
            && is_ordinary(before.last()) && same_author(before.last(), draft.message->0)
            && draft.created.nanos_since(previous) <= 300_000_000_000,
{
}

/// The window of grouping: a message that asks for no header, and that follows
/// an ordinary message of the same author, is grouped with it where at most
/// five minutes lie between their rows, and has a header of its own where more
/// do.
pub proof fn lemma_grouping_window(before: Seq<MessageView>, previous: Timestamp, draft: DraftView)
    requires
        before.len() > 0,
        draft.message matches Some(m) && !m.separate && same_author(before.last(), m)
            && is_ordinary(before.last()),
    ensures
        step(before, previous, draft).len() > 0,
        step(before, previous, draft).last().separate == (draft.created.nanos_since(previous)
            > 300_000_000_000),
{
}

/// The record of a new day stands right before the message of the draft that
/// starts the day.
pub proof fn lemma_separator_precedes_its_message(
    before: Seq<MessageView>,
    previous: Timestamp,
    draft: DraftView,
)
    requires
        before.len() > 0,
        draft.message is Some,
        previous.local_day() != draft.created.local_day(),
    ensures
        step(before, previous, draft).len() == before.len() + 2,
        step(before, previous, draft)[before.len() as int] == separator_message(draft.day),
        step(before, previous, draft).subrange(0, before.len() as int) == before,
{
}

/// A timeline holds a message as soon as one of its drafts is shown.
pub proof fn lemma_timeline_shows(drafts: Seq<DraftView>)
    ensures
        timeline(drafts).len() > 0 <==> any_shown(drafts),
    decreases drafts.len(),
{
    if drafts.len() > 0 {
        let front = drafts.drop_last();
        lemma_timeline_shows(front);
        if any_shown(front) {
            let j = choose|j: int| 0 <= j < front.len() && (#[trigger] front[j]).message is Some;
            assert(drafts[j].message is Some);
        }
        if any_shown(drafts) {
            let j = choose|j: int| 0 <= j < drafts.len() && (#[trigger] drafts[j]).message is Some;
            if j < front.len() {
                assert(front[j].message is Some);
            }
        }
    }
}

/// Adding a message at the end adds to the count where the message is the
/// record of a new day.
pub proof fn lemma_count_separators_push(messages: Seq<MessageView>, m: MessageView)
    ensures
        count_separators(messages.push(m)) == count_separators(messages) + (if m.message_type
            == "day_separator"@ {
            1nat
        } else {
            0nat
        }),
{
    assert(messages.push(m).drop_last() =~= messages);
}

/// Every change of day gives one record of a new day, never none and never
/// two: a timeline holds as many such records as there are drafts that start
/// a new day. Messages that pose as such a record are left out of the count.
pub proof fn lemma_one_separator_for_each_new_day(drafts: Seq<DraftView>)
    requires
        no_posing_separator(drafts),
    ensures
        count_separators(timeline(drafts)) == count_new_days(drafts),
    decreases drafts.len(),
{
    reveal_strlit("day_separator");
    reveal_strlit("default");
    if drafts.len() > 0 {
        let front = drafts.drop_last();
        let draft = drafts.last();
        let before = timeline(front);
        let previous = previous_instant(drafts);
        assert(no_posing_separator(front)) by {
            assert forall|j: int| 0 <= j < front.len() implies ((#[trigger] front[j]).message matches Some(
                m,
            ) ==> m.message_type != "day_separator"@) by {
                assert(front[j] == drafts[j]);
            }
        }
        lemma_one_separator_for_each_new_day(front);
        lemma_timeline_shows(front);
        if before.len() == 0 {
            match draft.message {
                Some(m) => {
                    let shown = MessageView { separate: true, ..m };
                    assert(seq![shown] =~= before.push(shown));
                    lemma_count_separators_push(before, shown);
                },
                None => {},
            }
        } else {
            let dated = if previous.local_day() != draft.created.local_day() {
                before.push(separator_message(draft.day))
            } else {
                before
            };
            lemma_count_separators_push(before, separator_message(draft.day));
            match draft.message {
                Some(m) => {
                    let shown = MessageView {
                        separate: m.separate || !grouped(
                            before.last(),
                            m,
                            draft.created.is_within_five_minutes_of(previous),
                        ),
                        ..m
                    };
                    lemma_count_separators_push(dated, shown);
                },
                None => {},
            }
        }
    }
}

/// A message without its flag for a header of its own.
pub open spec fn unflagged(m: MessageView) -> MessageView {
    MessageView { separate: true, ..m }
}

/// The messages of the drafts that are shown, without their flags, in the
/// order of the drafts.
pub open spec fn shown_messages(drafts: Seq<DraftView>) -> Seq<MessageView>
    decreases drafts.len(),
{
    if drafts.len() == 0 {
        Seq::empty()
    } else {
        match drafts.last().message {
            Some(m) => shown_messages(drafts.drop_last()).push(unflagged(m)),
            None => shown_messages(drafts.drop_last()),
        }
    }
}

/// The messages that are no records of a new day, without their flags, in
/// their order.
pub open spec fn kept_messages(messages: Seq<MessageView>) -> Seq<MessageView>
    decreases messages.len(),
{
    if messages.len() == 0 {
        Seq::empty()
    } else if messages.last().message_type == "day_separator"@ {
        kept_messages(messages.drop_last())
    } else {
        kept_messages(messages.drop_last()).push(unflagged(messages.last()))
    }
}

/// Adding a message at the end keeps it where it is no record of a new day.
pub proof fn lemma_kept_messages_push(messages: Seq<MessageView>, m: MessageView)
    ensures
        kept_messages(messages.push(m)) == if m.message_type == "day_separator"@ {
            kept_messages(messages)
        } else {
            kept_messages(messages).push(unflagged(m))
        },
{
    assert(messages.push(m).drop_last() =~= messages);
}

/// A timeline holds the messages of its rows, each once and in the order of
/// the rows: apart from the records of a new day and from the flags for a
/// header, its messages are those of the drafts that are shown. Messages that
/// pose as the record of a new day are left out.
pub proof fn lemma_timeline_keeps_the_rows(drafts: Seq<DraftView>)
    requires
        no_posing_separator(drafts),
    ensures
        kept_messages(timeline(drafts)) == shown_messages(drafts),
    decreases drafts.len(),
{
    reveal_strlit("day_separator");
    if drafts.len() > 0 {
        let front = drafts.drop_last();
        let draft = drafts.last();
        let before = timeline(front);
        let previous = previous_instant(drafts);
        assert(no_posing_separator(front)) by {
            assert forall|j: int| 0 <= j < front.len() implies ((#[trigger] front[j]).message matches Some(
                m,
            ) ==> m.message_type != "day_separator"@) by {
                assert(front[j] == drafts[j]);
            }
        }
        lemma_timeline_keeps_the_rows(front);
        assert(drafts[drafts.len() - 1] == draft);
        if before.len() == 0 {
            match draft.message {
                Some(m) => {
                    let shown = MessageView { separate: true, ..m };
                    assert(seq![shown] =~= before.push(shown));
                    lemma_kept_messages_push(before, shown);
                },
                None => {},
            }
        } else {
            let dated = if previous.local_day() != draft.created.local_day() {
                before.push(separator_message(draft.day))
            } else {
                before
            };
            lemma_kept_messages_push(before, separator_message(draft.day));
            match draft.message {
                Some(m) => {
                    let shown = MessageView {
                        separate: m.separate || !grouped(
                            before.last(),
                            m,
                            draft.created.is_within_five_minutes_of(previous),
                        ),
                        ..m
                    };
                    lemma_kept_messages_push(dated, shown);
                },
                None => {},
            }
        }
    }
}

} // verus!
