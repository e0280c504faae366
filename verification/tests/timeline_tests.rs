use cheesecake::actions::{day_separator, Message};
use cheesecake::timeline::{assemble, is_grouped, Draft};
use cheesecake::timestamp::Timestamp;

// 2021-03-04 05:06:00 UTC
const BASE: i64 = 1_614_834_360;

fn at(seconds: i64) -> Timestamp {
    Timestamp { seconds, nanos: 0, offset: 0 }
}

fn message(name: &str, separate: bool) -> Message {
    Message {
        message_type: String::from("default"),
        name: String::from(name),
        avatar: String::from("avatars/a.png"),
        separate,
        ..Default::default()
    }
}

fn draft(seconds: i64, m: Option<Message>) -> Draft {
    let created = at(seconds);
    Draft { created, day: created.format_day().unwrap(), message: m }
}

#[test]
fn default_message_is_gray_and_separate() {
    let m = Message::default();
    assert_eq!(m.color, "#afafaf");
    assert!(m.separate);
    assert_eq!(m.bot, 0);
    assert_eq!(m.sequential_id, "");
    assert_eq!(m.edited_timestamp, None);
    assert!(m.attachments.is_empty());
    assert!(m.reactions.is_empty());
}

#[test]
fn timestamp_is_written_to_the_minute() {
    assert_eq!(at(BASE).format_minute().unwrap(), "2021-03-04 05:06");
    assert_eq!(at(BASE + 59).format_minute().unwrap(), "2021-03-04 05:06");
    assert_eq!(at(BASE).format_day().unwrap(), "2021-03-04");
}

#[test]
fn timestamp_is_written_in_its_offset() {
    let t = Timestamp { seconds: BASE, nanos: 0, offset: 19 * 3600 };
    assert_eq!(t.format_minute().unwrap(), "2021-03-05 00:06");
    assert_eq!(t.format_day().unwrap(), "2021-03-05");
    let t = Timestamp { seconds: BASE, nanos: 0, offset: -6 * 3600 };
    assert_eq!(t.format_minute().unwrap(), "2021-03-03 23:06");
}

#[test]
fn timestamp_out_of_range_is_not_written() {
    assert_eq!(at(i64::MAX).format_minute(), None);
    assert_eq!(Timestamp { seconds: 0, nanos: 0, offset: 86_400 }.format_day(), None);
}

#[test]
fn same_day_goes_by_local_time() {
    let evening = Timestamp { seconds: BASE + 18 * 3600, nanos: 0, offset: 0 };
    assert!(at(BASE).same_day(&evening));
    let shifted = Timestamp { seconds: BASE + 18 * 3600, nanos: 0, offset: 3600 };
    assert!(!at(BASE).same_day(&shifted));
    let before_epoch = Timestamp { seconds: -1, nanos: 0, offset: 0 };
    assert!(!before_epoch.same_day(&at(0)));
    assert!(before_epoch.same_day(&at(-86_400)));
}

#[test]
fn five_minutes_are_within_the_window() {
    assert!(at(BASE + 4 * 60).within_five_minutes_of(&at(BASE)));
    assert!(at(BASE + 5 * 60).within_five_minutes_of(&at(BASE)));
    assert!(!at(BASE + 5 * 60 + 1).within_five_minutes_of(&at(BASE)));
    assert!(!at(BASE + 5 * 60 + 30).within_five_minutes_of(&at(BASE)));
    assert!(!at(BASE + 6 * 60).within_five_minutes_of(&at(BASE)));
    assert!(at(BASE - 3600).within_five_minutes_of(&at(BASE)));
    let late = Timestamp { seconds: BASE + 300, nanos: 1, offset: 0 };
    assert!(!late.within_five_minutes_of(&at(BASE)));
    let just = Timestamp { seconds: BASE + 299, nanos: 999_999_999, offset: 0 };
    assert!(just.within_five_minutes_of(&at(BASE)));
    let other_zone = Timestamp { seconds: BASE + 300, nanos: 0, offset: 7200 };
    assert!(other_zone.within_five_minutes_of(&at(BASE)));
}

#[test]
fn day_separator_holds_the_date() {
    let m = day_separator(&at(BASE)).unwrap();
    assert_eq!(m.message_type, "day_separator");
    assert_eq!(m.content, "2021-03-04");
    assert_eq!(m.color, "#afafaf");
    assert!(m.separate);
    assert!(day_separator(&at(i64::MAX)).is_none());
}

#[test]
fn four_minutes_apart_are_grouped() {
    let out = assemble(vec![
            draft(BASE, Some(message("ann", false))),
            draft(BASE + 4 * 60, Some(message("ann", false))),
        ],
    );
    assert_eq!(out.len(), 2);
    assert!(out[0].separate);
    assert!(!out[1].separate);
}

#[test]
fn six_minutes_apart_are_separate() {
    let out = assemble(
        vec![
            draft(BASE, Some(message("ann", false))),
            draft(BASE + 6 * 60, Some(message("ann", false))),
        ],
    );
    assert_eq!(out.len(), 2);
    assert!(out[1].separate);
}

#[test]
fn reply_is_separate_whatever_the_timing() {
    let out = assemble(
        vec![
            draft(BASE, Some(message("ann", false))),
            draft(BASE + 1, Some(message("ann", true))),
        ],
    );
    assert!(out[1].separate);
}

#[test]
fn another_author_is_separate() {
    let out = assemble(
        vec![
            draft(BASE, Some(message("ann", false))),
            draft(BASE + 1, Some(message("bob", false))),
        ],
    );
    assert!(out[1].separate);
    let mut other_avatar = message("ann", false);
    other_avatar.avatar = String::from("avatars/b.png");
    let mut other_color = message("ann", false);
    other_color.color = String::from("#ff0000");
    let mut other_bot = message("ann", false);
    other_bot.bot = 1;
    for m in [other_avatar, other_color, other_bot] {
        let out = assemble(
            vec![draft(BASE, Some(message("ann", false))), draft(BASE + 1, Some(m))]);
        assert!(out[1].separate);
    }
}

#[test]
fn only_an_ordinary_message_heads_a_group() {
    for kind in ["join", "redacted", "day_separator", ""] {
        let mut first = message("ann", false);
        first.message_type = String::from(kind);
        let out = assemble(vec![draft(BASE, Some(first)), draft(BASE + 1, Some(message("ann", false)))]);
        assert!(out[1].separate, "{}", kind);
    }
    let mut join = message("ann", false);
    join.message_type = String::from("join");
    let out = assemble(vec![draft(BASE, Some(message("ann", false))), draft(BASE + 1, Some(join))]);
    assert!(!out[1].separate);
}

#[test]
fn five_and_a_half_minutes_apart_are_separate() {
    let out = assemble(vec![
        draft(BASE, Some(message("ann", false))),
        draft(BASE + 300, Some(message("ann", false))),
        draft(BASE + 300 + 330, Some(message("ann", false))),
    ]);
    assert!(!out[1].separate);
    assert!(out[2].separate);
}

#[test]
fn is_grouped_states_the_rule() {
    let a = message("ann", false);
    let b = message("ann", false);
    assert!(is_grouped(&a, &b, &at(BASE + 300), &at(BASE)));
    assert!(!is_grouped(&a, &b, &at(BASE + 301), &at(BASE)));
    let c = message("bob", false);
    assert!(!is_grouped(&a, &c, &at(BASE + 1), &at(BASE)));
    let mut redacted = message("ann", false);
    redacted.message_type = String::from("redacted");
    assert!(!is_grouped(&redacted, &b, &at(BASE + 1), &at(BASE)));
    assert!(is_grouped(&a, &redacted, &at(BASE + 1), &at(BASE)));
}

#[test]
fn one_separator_at_the_change_of_day() {
    let rows = || {
        vec![
            draft(BASE, Some(message("ann", false))),
            draft(BASE + 60, Some(message("ann", false))),
            draft(BASE + 86_400, Some(message("ann", false))),
            draft(BASE + 86_460, Some(message("ann", false))),
        ]
    };
    for _ in 0..2 {
        let out = assemble(rows());
        let kinds: Vec<&str> = out.iter().map(|m| m.message_type.as_str()).collect();
        assert_eq!(kinds, vec!["default", "default", "day_separator", "default", "default"]);
        assert_eq!(out[2].content, "2021-03-05");
        assert!(out[3].separate);
        assert!(!out[4].separate);
    }
}

#[test]
fn no_separator_before_the_first_message() {
    let out = assemble(
        vec![
            draft(BASE, None),
            draft(BASE + 86_400, Some(message("ann", false))),
            draft(BASE + 2 * 86_400, None),
            draft(BASE + 2 * 86_400 + 1, Some(message("ann", false))),
        ],
    );
    let kinds: Vec<&str> = out.iter().map(|m| m.message_type.as_str()).collect();
    assert_eq!(kinds, vec!["default", "day_separator", "default"]);
    assert!(out[0].separate);
    assert!(out[2].separate);
}

#[test]
fn empty_page_has_no_messages() {
    assert!(assemble(Vec::new()).is_empty());
}

fn chrono_instant(t: &Timestamp) -> chrono::DateTime<chrono::FixedOffset> {
    let zone = chrono::FixedOffset::east_opt(t.offset).unwrap();
    chrono::DateTime::from_timestamp(t.seconds, t.nanos).unwrap().with_timezone(&zone)
}

#[test]
fn days_and_gaps_are_those_of_the_calendar() {
    let mut instants = Vec::new();
    for seconds in [
        -86_401, -86_400, -86_399, -361, -360, -359, -1, 0, 1, 299, 300, 359, 360, 361, 86_399, 86_400,
        BASE - 360, BASE - 1, BASE, BASE + 1, BASE + 359, BASE + 360, BASE + 86_400, 253_402_300_799,
    ] {
        for nanos in [0, 1, 500_000_000, 999_999_999] {
            for offset in [0, 1, -1, 3600, -3600, 86_399, -86_399, 19_800] {
                instants.push(Timestamp { seconds, nanos, offset });
            }
        }
    }
    for a in &instants {
        for b in instants.iter().step_by(17) {
            let (x, y) = (chrono_instant(a), chrono_instant(b));
            assert_eq!(a.same_day(b), x.date_naive() == y.date_naive(), "{:?} {:?}", a, b);
            assert_eq!(
                a.within_five_minutes_of(b),
                x - y <= chrono::TimeDelta::minutes(5),
                "{:?} {:?}",
                a,
                b
            );
        }
    }
}
