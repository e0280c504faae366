use cheesecake::actions::{page_or_empty, Message, RowError};
use cheesecake::discord;
use cheesecake::generic;
use cheesecake::matrix;
use cheesecake::timestamp::Timestamp;

// 2021-03-04 05:06:00 UTC
const BASE: i64 = 1_614_834_360;

fn at(seconds: i64) -> Timestamp {
    Timestamp { seconds, nanos: 0, offset: 0 }
}

fn local_minute(seconds: i64) -> String {
    let t = chrono::TimeZone::timestamp_opt(&chrono::Local, seconds, 0).single().unwrap();
    t.format("%Y-%m-%d %H:%M").to_string()
}

fn generic_row(id: u64, kind: &str, seconds: i64) -> generic::Row {
    generic::Row {
        sequential_id: id,
        message_id: format!("m{}", id),
        message_type: String::from(kind),
        name: String::from("ann"),
        avatar: Some(String::from("a.png")),
        color: None,
        created: at(seconds),
        reference: None,
        reply: None,
        content: Some(String::from("a < b\nc")),
        formatted_content: None,
        attachments: None,
    }
}

#[test]
fn file_type_goes_by_extension() {
    assert_eq!(generic::file_type("a/b/photo.JPG"), "image");
    assert_eq!(generic::file_type("clip.ogv"), "video");
    assert_eq!(generic::file_type("song.Flac"), "audio");
    assert_eq!(generic::file_type("notes.txt"), "unknown");
    assert_eq!(generic::file_type("noextension"), "unknown");
    assert_eq!(generic::file_type(".png"), "unknown");
    for e in ["apng", "avif", "gif", "jpg", "jpeg", "jfif", "pjpeg", "pjp", "png", "svg", "webp"] {
        assert_eq!(generic::file_type(&format!("x.{}", e)), "image");
    }
    for e in ["mp4", "ogv", "ogg"] {
        assert_eq!(generic::file_type(&format!("x.{}", e)), "video");
    }
    for e in ["wav", "flac", "mp3", "oga"] {
        assert_eq!(generic::file_type(&format!("x.{}", e)), "audio");
    }
}

#[test]
fn generic_url_joins_paths() {
    assert_eq!(generic::url("backup", generic::AssetType::Avatar, "a.png"), "backup/avatars/a.png");
    assert_eq!(
        generic::url("backup", generic::AssetType::Attachment, "d/f.txt"),
        "backup/attachments/d/f.txt"
    );
    assert_eq!(generic::AssetType::Avatar.dir(), "avatars");
    assert_eq!(generic::AssetType::Attachment.dir(), "attachments");
}

#[test]
fn queries_name_the_columns_of_their_adapter() {
    assert_eq!(
        generic::query("{} chat = $1"),
        "SELECT ROWID, id, message_type, name, avatar, color, created_timestamp, edited_timestamp, reference, content, formatted_content, attachments FROM messages WHERE chat = $1"
    );
    assert_eq!(
        matrix::query("{} chat = $1"),
        "SELECT ROWID, id, message_type, name, avatar, color, created_timestamp, edits, reference, content, formatted_content FROM messages WHERE chat = $1"
    );
    assert_eq!(
        discord::query("({} a) UNION ({} b)"),
        "(SELECT ROWID, id, message_type, name, avatar, color, bot, created_timestamp, edited_timestamp, reference, content, attachments, reactions FROM messages WHERE a) UNION (SELECT ROWID, id, message_type, name, avatar, color, bot, created_timestamp, edited_timestamp, reference, content, attachments, reactions FROM messages WHERE b)"
    );
}

#[test]
fn generic_page_escapes_plain_content() {
    let out = generic::populate_messages(vec![generic_row(1, "default", BASE)], "backup").unwrap();
    assert_eq!(out.len(), 1);
    let m = &out[0];
    assert_eq!(m.sequential_id, "1");
    assert_eq!(m.message_id, "m1");
    assert_eq!(m.message_type, "default");
    assert_eq!(m.name, "ann");
    assert_eq!(m.avatar, "backup/avatars/a.png");
    assert_eq!(m.color, "#afafaf");
    assert_eq!(m.created_timestamp, "2021-03-04 05:06");
    assert_eq!(m.content, "a &lt; b<br>c");
    assert!(m.separate);
    assert!(m.attachments.is_empty());
}

#[test]
fn generic_page_prefers_formatted_content() {
    let mut row = generic_row(1, "default", BASE);
    row.formatted_content = Some(String::from("<b>x</b>"));
    row.avatar = None;
    row.color = Some(String::from("#123456"));
    row.attachments = Some(String::from("[\"pic.png\", \"doc.pdf\"]"));
    let out = generic::populate_messages(vec![row], "backup").unwrap();
    let m = &out[0];
    assert_eq!(m.content, "<b>x</b>");
    assert_eq!(m.avatar, "/images/default.svg");
    assert_eq!(m.color, "#123456");
    assert_eq!(
        m.attachments,
        vec![
            (String::from("backup/attachments/pic.png"), String::from("image"), false),
            (String::from("backup/attachments/doc.pdf"), String::from("unknown"), false),
        ]
    );
}

#[test]
fn generic_page_groups_and_redacts() {
    let out = generic::populate_messages(
        vec![
            generic_row(1, "default", BASE),
            generic_row(2, "default", BASE + 60),
            generic_row(3, "redacted", BASE + 120),
            generic_row(4, "default", BASE + 180),
            generic_row(5, "other", BASE + 240),
            generic_row(6, "default", BASE + 9 * 60),
        ],
        "backup",
    )
    .unwrap();
    let seen: Vec<(&str, &str, bool)> = out
        .iter()
        .map(|m| (m.sequential_id.as_str(), m.message_type.as_str(), m.separate))
        .collect();
    assert_eq!(
        seen,
        vec![
            ("1", "default", true),
            ("2", "default", false),
            ("3", "redacted", false),
            ("4", "default", true),
            ("6", "default", false),
        ]
    );
    assert_eq!(out[2].content, "");
}

#[test]
fn generic_page_fails_on_a_bad_list_of_attachments() {
    let mut row = generic_row(2, "default", BASE);
    row.attachments = Some(String::from("{\"not\": \"a list\"}"));
    let r = generic::populate_messages(vec![generic_row(1, "default", BASE), row], "backup");
    assert_eq!(r.err(), Some(RowError::Attachments));
    let mut row = generic_row(2, "default", BASE);
    row.attachments = Some(String::from("[1, 2]"));
    assert_eq!(generic::draft(row, "backup").err(), Some(RowError::Attachments));
}

#[test]
fn generic_page_fails_on_an_instant_out_of_range() {
    let r = generic::populate_messages(vec![generic_row(1, "default", i64::MAX)], "backup");
    assert_eq!(r.err(), Some(RowError::Timestamp));
}

fn matrix_row(id: u64, kind: &str, seconds: i64) -> matrix::Row {
    matrix::Row {
        sequential_id: id,
        message_id: format!("$e{}", id),
        message_type: String::from(kind),
        name: String::from("ann"),
        avatar: None,
        color: None,
        created: at(seconds),
        edits: None,
        reference: None,
        reply: None,
        content: Some(String::from("hello")),
        formatted_content: None,
    }
}

#[test]
fn matrix_page_shows_texts_files_and_redactions() {
    let mut image = matrix_row(2, "m.image", BASE + 1);
    image.content = Some(String::from("pic.bin"));
    let mut file = matrix_row(3, "m.file", BASE + 2);
    file.content = Some(String::from("doc.png"));
    let out = matrix::populate_messages(
        vec![
            matrix_row(1, "m.text", BASE),
            image,
            file,
            matrix_row(4, "m.room.redaction", BASE + 3),
            matrix_row(5, "m.room.member", BASE + 4),
        ],
        "backup",
    )
    .unwrap();
    assert_eq!(out.len(), 4);
    assert_eq!(out[0].message_type, "default");
    assert_eq!(out[0].content, "hello");
    assert_eq!(out[0].edits_list, "");
    assert_eq!(out[0].avatar, "/images/default.svg");
    assert_eq!(
        out[1].attachments,
        vec![(String::from("backup/attachments/pic.bin"), String::from("image"), false)]
    );
    assert!(!out[1].separate);
    assert_eq!(
        out[2].attachments,
        vec![(String::from("backup/attachments/doc.png"), String::from("unknown"), false)]
    );
    assert_eq!(out[3].message_type, "redacted");
    assert!(!out[3].separate);
    assert_eq!(out[3].content, "");
}

#[test]
fn matrix_text_carries_its_history() {
    let mut row = matrix_row(1, "m.text", BASE);
    let first = (BASE + 600) * 1000 + 7;
    let second = (BASE + 1200) * 1000;
    row.edits = Some(format!(
        "[[{}, null, \"plain one\", null, \"<i>one</i>\"], [{}, 1, \"plain two\", {{}}, null]]",
        first, second
    ));
    let out = matrix::populate_messages(vec![row], "backup").unwrap();
    let m = &out[0];
    assert_eq!(m.content, "plain two");
    assert_eq!(m.edited_timestamp, Some(local_minute(BASE + 1200)));
    let expected = serde_json::to_string(&vec![
        [String::from("2021-03-04 05:06"), String::from("hello")],
        [local_minute(BASE + 600), String::from("<i>one</i>")],
        [local_minute(BASE + 1200), String::from("plain two")],
    ])
    .unwrap();
    assert_eq!(m.edits_list, expected);
}

#[test]
fn matrix_text_with_an_empty_list_of_edits_keeps_its_first_state() {
    let mut row = matrix_row(1, "m.text", BASE);
    row.edits = Some(String::from("[]"));
    let out = matrix::populate_messages(vec![row], "backup").unwrap();
    assert_eq!(out[0].edited_timestamp, None);
    assert_eq!(out[0].edits_list, "[[\"2021-03-04 05:06\",\"hello\"]]");
}

#[test]
fn matrix_page_fails_on_bad_edits() {
    for edits in [
        "not json",
        "{}",
        "[1]",
        "[[1, 2, 3, 4]]",
        "[[1, 2, 3, 4, 5]]",
        "[[\"x\", 2, \"text\", 4, 5]]",
        "[[1.5, 2, \"text\", 4, 5]]",
    ] {
        let mut row = matrix_row(1, "m.text", BASE);
        row.edits = Some(String::from(edits));
        assert_eq!(matrix::populate_messages(vec![row], "backup").err(), Some(RowError::Edits));
    }
}

#[test]
fn matrix_page_fails_on_an_edit_out_of_range() {
    let mut row = matrix_row(1, "m.text", BASE);
    row.edits = Some(format!("[[{}, 2, \"text\", 4, 5]]", i64::MAX));
    assert_eq!(matrix::populate_messages(vec![row], "backup").err(), Some(RowError::Timestamp));
}

#[test]
fn matrix_file_without_a_name_fails() {
    let mut row = matrix_row(1, "m.file", BASE);
    row.content = None;
    assert_eq!(matrix::populate_messages(vec![row], "backup").err(), Some(RowError::Content));
}

#[test]
fn edit_instant_counts_seconds_towards_zero() {
    assert_eq!(matrix::edit_instant(BASE * 1000 + 999, 0).unwrap(), "2021-03-04 05:06");
    assert_eq!(matrix::edit_instant(-1, 0).unwrap(), "1970-01-01 00:00");
    assert_eq!(matrix::edit_instant(-60_000, 0).unwrap(), "1969-12-31 23:59");
}

#[test]
fn reaction_of_a_plain_emoji() {
    let r = discord::decode_reaction("\u{1f600}-111,222").unwrap();
    assert_eq!(r.name, "\u{1f600}");
    assert_eq!(r.file, None);
    assert_eq!(r.count, 2);
}

#[test]
fn reaction_of_a_custom_emoji() {
    let r = discord::decode_reaction("<:wave:123>-111").unwrap();
    assert_eq!(r.name, "wave");
    assert_eq!(r.file, Some(String::from("123.png")));
    assert_eq!(r.count, 1);
    let r = discord::decode_reaction("<a:dance:456>-1,2,3").unwrap();
    assert_eq!(r.name, "dance");
    assert_eq!(r.file, Some(String::from("456.gif")));
    assert_eq!(r.count, 3);
    let r = discord::decode_reaction("a:dance:456-1").unwrap();
    assert_eq!(r.file, Some(String::from("456.gif")));
    let r = discord::decode_reaction(":wave:123-1").unwrap();
    assert_eq!(r.file, Some(String::from("123.png")));
}

#[test]
fn reaction_without_users_or_identifier_is_refused() {
    assert_eq!(discord::decode_reaction("wave").err(), Some(RowError::Reactions));
    assert_eq!(discord::decode_reaction("").err(), Some(RowError::Reactions));
    assert_eq!(discord::decode_reaction("a:b-1").err(), Some(RowError::Reactions));
}

#[test]
fn discord_url_is_local_or_remote() {
    let kept = |path: &str| path == "backup/emoji/1.png";
    assert_eq!(discord::url("backup", discord::AssetType::Emoji, "1.png", &kept), "backup/emoji/1.png");
    assert_eq!(
        discord::url("backup", discord::AssetType::Emoji, "2.png", &kept),
        "https://cdn.discordapp.com/emojis/2.png"
    );
    assert_eq!(
        discord::url("backup", discord::AssetType::Avatar, "u/a.png", &kept),
        "https://cdn.discordapp.com/avatars/u/a.png"
    );
    assert_eq!(
        discord::address("backup", discord::AssetType::Attachment, "c/f.bin", true),
        "backup/attachments/c/f.bin"
    );
    assert_eq!(
        discord::address("backup", discord::AssetType::Attachment, "c/f.bin", false),
        "https://cdn.discordapp.com/attachments/c/f.bin"
    );
    assert_eq!(discord::AssetType::Emoji.dir(), "emoji");
    assert_eq!(discord::AssetType::Emoji.discord_dir(), "emojis");
    assert_eq!(discord::AssetType::Avatar.discord_dir(), "avatars");
}

#[test]
fn spoiler_goes_by_the_last_segment() {
    assert!(discord::spoiler("1/2/SPOILER_cat.png"));
    assert!(discord::spoiler("SPOILER_"));
    assert!(!discord::spoiler("SPOILER_dir/cat.png"));
    assert!(!discord::spoiler("1/2/spoiler_cat.png"));
    assert!(!discord::spoiler(""));
}

fn discord_row(id: u64, seconds: i64) -> discord::Row {
    discord::Row {
        sequential_id: id,
        message_id: 1000 + id,
        message_type: String::from("default"),
        name: String::from("ann"),
        avatar: String::from("u1/a.png"),
        color: None,
        bot: 0,
        created: at(seconds),
        edited: None,
        reference: None,
        content: Some(String::from("hi")),
        attachments: None,
        reactions: None,
    }
}

fn discord_page(rows: Vec<discord::Row>) -> Result<Vec<Message>, RowError> {
    let store = discord::Store {
        asset_exists: |path: &str| path.ends_with("kept.png") || path.ends_with("a.png"),
        reply: |id: u64| {
            if id == 1001 {
                Some(discord::Reply {
                    sequential_id: 1,
                    name: String::from("bob"),
                    avatar: String::from("u2/b.png"),
                    color: None,
                    content: None,
                    has_attachments: true,
                })
            } else {
                None
            }
        },
        user: |id: &str| (format!("user{}", id), None),
        role: |id: &str| (format!("role{}", id), Some(String::from("#00ff00"))),
        channel: |id: &str| (format!("chan{}", id), None),
    };
    discord::populate_messages(rows, "backup", &store)
}

#[test]
fn discord_page_builds_messages() {
    let mut row = discord_row(1, BASE);
    row.edited = Some(at(BASE + 3600));
    row.color = Some(String::from("#abcdef"));
    row.bot = 1;
    row.content = Some(String::from("<@7> **b** <:kept:1>"));
    row.attachments = Some(String::from("c/1/pic.kept.png  c/2/SPOILER_clip.mp4"));
    row.reactions = Some(String::from("\u{1f600}-1,2 <:kept:9>-3 <a:wave:8>-4,5,6"));
    let out = discord_page(vec![row]).unwrap();
    assert_eq!(out.len(), 1);
    let m = &out[0];
    assert_eq!(m.sequential_id, "1");
    assert_eq!(m.message_id, "1001");
    assert_eq!(m.message_type, "default");
    assert_eq!(m.avatar, "backup/avatars/u1/a.png");
    assert_eq!(m.color, "#abcdef");
    assert_eq!(m.bot, 1);
    assert_eq!(m.created_timestamp, "2021-03-04 05:06");
    assert_eq!(m.edited_timestamp, Some(String::from("2021-03-04 06:06")));
    assert!(m.separate);
    assert_eq!(m.reference, None);
    assert_eq!(m.edits_list, "");
    assert_eq!(
        m.content,
        "<span class=\"user\">@user7</span><span> </span><strong><span>b</span></strong><span> </span>\
         <img src=\"https://cdn.discordapp.com/emojis/1.png\" alt=\"kept\" class=\"emoji\" title=\"kept\"></img>"
    );
    assert_eq!(
        m.attachments,
        vec![
            (String::from("backup/attachments/c/1/pic.kept.png"), String::from("image"), false),
            (
                String::from("https://cdn.discordapp.com/attachments/c/2/SPOILER_clip.mp4"),
                String::from("video"),
                true
            ),
        ]
    );
    assert_eq!(
        m.reactions,
        vec![
            (String::from("\u{1f600}"), None, 2),
            (String::from("kept"), Some(String::from("https://cdn.discordapp.com/emojis/9.png")), 1),
            (String::from("wave"), Some(String::from("https://cdn.discordapp.com/emojis/8.gif")), 3),
        ]
    );
}

#[test]
fn discord_emoji_kept_beside_the_database_is_local() {
    let mut row = discord_row(1, BASE);
    row.content = Some(String::from("<:x:kept>"));
    let out = discord_page(vec![row]).unwrap();
    assert_eq!(out[0].content, "<span>&lt;:x:kept&gt;</span>");
    let store = discord::Store {
        asset_exists: |path: &str| path == "backup/emoji/5.png",
        reply: |_id: u64| None,
        user: |_id: &str| (String::from("unknown"), None),
        role: |_id: &str| (String::from("unknown"), None),
        channel: |_id: &str| (String::from("unknown"), None),
    };
    let mut row = discord_row(1, BASE);
    row.content = Some(String::from("<:x:5>"));
    let out = discord::populate_messages(vec![row], "backup", &store).unwrap();
    assert_eq!(
        out[0].content,
        "<img src=\"backup/emoji/5.png\" alt=\"x\" class=\"emoji wumboji\" title=\"x\"></img>"
    );
}

#[test]
fn discord_embed_takes_labelled_links() {
    let mut row = discord_row(1, BASE);
    row.bot = 2;
    row.content = Some(String::from("[docs](http://d.io)"));
    let out = discord_page(vec![row]).unwrap();
    assert_eq!(out[0].content, "<a href=\"http://d.io\" target=\"_blank\">docs</a>");
}

#[test]
fn discord_reply_is_resolved_and_separate() {
    let mut reply = discord_row(2, BASE + 60);
    reply.reference = Some(1001);
    let mut lost = discord_row(3, BASE + 120);
    lost.reference = Some(4242);
    let out = discord_page(vec![discord_row(1, BASE), reply, lost, discord_row(4, BASE + 180)]).unwrap();
    assert_eq!(out.len(), 4);
    assert!(out[1].separate);
    assert_eq!(
        out[1].reference,
        Some((
            String::from("1"),
            String::from("bob"),
            String::from("https://cdn.discordapp.com/avatars/u2/b.png"),
            String::from("#afafaf"),
            String::from(""),
            true
        ))
    );
    assert!(out[2].separate);
    assert_eq!(out[2].reference, None);
    assert!(!out[3].separate);
}

#[test]
fn discord_reference_of_a_structural_message_is_followed() {
    let mut row = discord_row(2, BASE + 60);
    row.message_type = String::from("pins_add");
    row.reference = Some(1001);
    let mut plain = discord_row(3, BASE + 120);
    plain.message_type = String::from("pins_add");
    let out = discord_page(vec![discord_row(1, BASE), row, discord_row(4, BASE + 90), plain]).unwrap();
    assert!(out[1].separate);
    assert_eq!(out[1].reference.as_ref().map(|r| r.1.as_str()), Some("bob"));
    // Behind a structural message a message has a header of its own; a
    // structural message behind an ordinary one is grouped like any other.
    assert!(out[2].separate);
    assert!(!out[3].separate);
}

#[test]
fn discord_page_groups_by_author_and_time() {
    let out = discord_page(vec![
        discord_row(1, BASE),
        discord_row(2, BASE + 4 * 60),
        discord_row(3, BASE + 10 * 60),
    ])
    .unwrap();
    let seen: Vec<bool> = out.iter().map(|m| m.separate).collect();
    assert_eq!(seen, vec![true, false, true]);
}

#[test]
fn discord_page_marks_the_change_of_day() {
    let out = discord_page(vec![discord_row(1, BASE), discord_row(2, BASE + 86_400)]).unwrap();
    let kinds: Vec<&str> = out.iter().map(|m| m.message_type.as_str()).collect();
    assert_eq!(kinds, vec!["default", "day_separator", "default"]);
    assert_eq!(out[1].content, "2021-03-05");
}

#[test]
fn discord_page_fails_on_a_bad_reaction() {
    let mut row = discord_row(2, BASE);
    row.reactions = Some(String::from("\u{1f600}-1 broken"));
    assert_eq!(discord_page(vec![discord_row(1, BASE), row]).err(), Some(RowError::Reactions));
    let mut row = discord_row(1, BASE);
    row.reactions = Some(String::new());
    assert_eq!(discord_page(vec![row]).err(), Some(RowError::Reactions));
}

#[test]
fn discord_page_fails_on_an_instant_out_of_range() {
    assert_eq!(discord_page(vec![discord_row(1, i64::MIN)]).err(), Some(RowError::Timestamp));
}

#[test]
fn discord_edit_out_of_range_does_not_show() {
    let mut row = discord_row(1, BASE);
    row.edited = Some(at(i64::MAX));
    let out = discord_page(vec![row]).unwrap();
    assert_eq!(out[0].edited_timestamp, None);
}

#[test]
fn discord_row_without_content_is_empty() {
    let mut row = discord_row(1, BASE);
    row.content = None;
    let out = discord_page(vec![row]).unwrap();
    assert_eq!(out[0].content, "");
}

#[test]
fn generic_reply_has_a_header_of_its_own() {
    let mut reply = generic_row(2, "default", BASE + 60);
    reply.reference = Some(String::from("m1"));
    let out = generic::populate_messages(
        vec![generic_row(1, "default", BASE), reply, generic_row(3, "default", BASE + 120)],
        "backup",
    )
    .unwrap();
    let seen: Vec<bool> = out.iter().map(|m| m.separate).collect();
    assert_eq!(seen, vec![true, true, false]);
}

#[test]
fn matrix_reply_has_a_header_of_its_own() {
    let mut reply = matrix_row(2, "m.text", BASE + 60);
    reply.reference = Some(String::from("$e1"));
    let mut picture = matrix_row(4, "m.image", BASE + 180);
    picture.reference = Some(String::from("$e1"));
    let out = matrix::populate_messages(
        vec![matrix_row(1, "m.text", BASE), reply, matrix_row(3, "m.text", BASE + 120), picture],
        "backup",
    )
    .unwrap();
    let seen: Vec<bool> = out.iter().map(|m| m.separate).collect();
    assert_eq!(seen, vec![true, true, false, true]);
}

#[test]
fn message_behind_a_redacted_one_has_a_header_of_its_own() {
    let out = matrix::populate_messages(
        vec![
            matrix_row(1, "m.text", BASE),
            matrix_row(2, "m.room.redaction", BASE + 60),
            matrix_row(3, "m.text", BASE + 120),
            matrix_row(4, "m.text", BASE + 120 + 300),
            matrix_row(5, "m.text", BASE + 120 + 300 + 301),
        ],
        "backup",
    )
    .unwrap();
    let seen: Vec<bool> = out.iter().map(|m| m.separate).collect();
    assert_eq!(seen, vec![true, false, true, false, true]);
}

#[test]
fn kind_goes_by_the_extension_whatever_its_case() {
    assert_eq!(generic::kind_of("PNG"), "image");
    assert_eq!(generic::kind_of("Mp4"), "video");
    assert_eq!(generic::kind_of("oga"), "audio");
    assert_eq!(generic::kind_of("ogg"), "video");
    assert_eq!(generic::kind_of("txt"), "unknown");
    assert_eq!(generic::kind_of(""), "unknown");
    assert_eq!(generic::kind_of("png "), "unknown");
}

#[test]
fn failed_page_is_shown_as_empty() {
    assert!(page_or_empty(generic::populate_messages(vec![generic_row(1, "default", i64::MAX)], "b")).is_empty());
    assert_eq!(page_or_empty(generic::populate_messages(vec![generic_row(1, "default", BASE)], "b")).len(), 1);
}

fn generic_reply() -> generic::Reply {
    generic::Reply {
        sequential_id: 1,
        name: String::from("bob"),
        avatar: Some(String::from("b.png")),
        color: None,
        content: Some(String::from("first")),
        has_attachments: true,
    }
}

#[test]
fn generic_reply_shows_the_message_replied_to() {
    let mut reply = generic_row(2, "default", BASE + 60);
    reply.reference = Some(String::from("m1"));
    reply.reply = Some(generic_reply());
    let mut lost = generic_row(3, "default", BASE + 120);
    lost.reference = Some(String::from("m0"));
    let mut stray = generic_row(4, "default", BASE + 500);
    stray.reply = Some(generic_reply());
    let out = generic::populate_messages(vec![generic_row(1, "default", BASE), reply, lost, stray], "backup").unwrap();
    assert_eq!(
        out[1].reference,
        Some((
            String::from("1"),
            String::from("bob"),
            String::from("backup/avatars/b.png"),
            String::from("#afafaf"),
            String::from("first"),
            true
        ))
    );
    assert_eq!(out[2].reference, None);
    assert!(out[2].separate);
    assert_eq!(out[3].reference, None);
    assert_eq!(
        generic::refer(
            "backup",
            &Some(String::from("x")),
            Some(generic::Reply { avatar: None, content: None, ..generic_reply() })
        ),
        Some((
            String::from("1"),
            String::from("bob"),
            String::from("/images/default.svg"),
            String::from("#afafaf"),
            String::new(),
            true
        ))
    );
}

#[test]
fn matrix_reply_shows_the_event_replied_to() {
    let mut reply = matrix_row(2, "m.text", BASE + 60);
    reply.reference = Some(String::from("$e1"));
    reply.reply = Some(generic::Reply { has_attachments: matrix::shows_file("m.image"), ..generic_reply() });
    let mut gone = matrix_row(3, "m.room.redaction", BASE + 120);
    gone.reference = Some(String::from("$e1"));
    gone.reply = Some(generic_reply());
    let out = matrix::populate_messages(vec![matrix_row(1, "m.text", BASE), reply, gone], "backup").unwrap();
    assert_eq!(out[1].reference.as_ref().map(|r| (r.1.as_str(), r.5)), Some(("bob", true)));
    assert_eq!(out[2].message_type, "redacted");
    assert!(out[2].separate);
    assert_eq!(out[2].reference.as_ref().map(|r| r.0.as_str()), Some("1"));
    assert!(matrix::shows_file("m.file"));
    assert!(!matrix::shows_file("m.text"));
}
