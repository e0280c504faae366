use cheesecake::actions::{copy_pairs, reads_chats, selection_context, Backup};
use cheesecake::parser::{parse, parse_embed, Expression};

fn pair(a: &str, b: &str) -> [String; 2] {
    [String::from(a), String::from(b)]
}

fn backup(path: &str, chats: Option<Vec<[String; 2]>>) -> Backup {
    Backup { path: String::from(path), name: format!("Archive {}", path), chats }
}

#[test]
fn chats_of_a_locked_backup_are_not_read() {
    assert!(reads_chats(false, "1", ""));
    assert!(reads_chats(true, "1", "1"));
    assert!(!reads_chats(true, "1", "2"));
    assert!(!reads_chats(true, "1", ""));
}

#[test]
fn selection_lists_backups_and_the_chats_of_the_selected_one() {
    let c = selection_context(
        vec![
            backup("1", Some(vec![pair("10", "general")])),
            backup("2", None),
            backup("3", Some(vec![pair("30", "cakes"), pair("31", "pies")])),
            backup("4", Some(Vec::new())),
        ],
        "3",
        "31",
    )
    .unwrap();
    assert_eq!(c.backup_path, "3");
    assert_eq!(c.chat_id, "31");
    assert_eq!(
        c.backups,
        vec![
            pair("1", "Archive 1"),
            pair("2", "Archive 2"),
            pair("3", "Archive 3"),
            pair("4", "Archive 4")
        ]
    );
    assert_eq!(c.chats, vec![pair("30", "cakes"), pair("31", "pies")]);
    assert_eq!(
        c.mapped_chats,
        vec![
            (String::from("1"), vec![pair("10", "general")]),
            (String::from("2"), Vec::new()),
            (String::from("3"), vec![pair("30", "cakes"), pair("31", "pies")]),
        ]
    );
}

#[test]
fn selection_falls_back_to_the_first_backup() {
    let c = selection_context(
        vec![backup("1", Some(vec![pair("10", "general")])), backup("2", None)],
        "",
        "",
    )
    .unwrap();
    assert_eq!(c.chats, vec![pair("10", "general")]);
    let c = selection_context(
        vec![backup("1", Some(vec![pair("10", "general")])), backup("2", None)],
        "2",
        "",
    )
    .unwrap();
    assert!(c.chats.is_empty());
}

#[test]
fn selection_without_backups_is_empty() {
    let c = selection_context(Vec::new(), "1", "2").unwrap();
    assert!(c.backups.is_empty());
    assert!(c.chats.is_empty());
    assert!(c.mapped_chats.is_empty());
}

#[test]
fn open_backup_without_chats_cannot_be_selected() {
    assert!(selection_context(vec![backup("1", Some(Vec::new()))], "1", "").is_none());
    assert!(selection_context(
        vec![backup("1", Some(vec![pair("10", "general")])), backup("2", Some(Vec::new()))],
        "2",
        ""
    )
    .is_none());
}

#[test]
fn copy_of_pairs_is_equal() {
    let pairs = vec![pair("a", "b"), pair("c", "d")];
    assert_eq!(copy_pairs(&pairs), pairs);
}

/// The stretch of text that a node was read from, for trees without escapes
/// and with every delimiter written in its first form.
fn source(e: &Expression) -> String {
    fn all(children: &Vec<Expression>) -> String {
        children.iter().map(source).collect()
    }
    match e {
        Expression::Text(t) => t.to_string(),
        Expression::CustomEmoji(name, file) => match file.strip_suffix(".gif") {
            Some(id) => format!("<a:{}:{}>", name, id),
            None => format!("<:{}:{}>", name, file.strip_suffix(".png").unwrap()),
        },
        Expression::User(id) => format!("<@{}>", id),
        Expression::Role(id) => format!("<@&{}>", id),
        Expression::Channel(id) => format!("<#{}>", id),
        Expression::Hyperlink(text, href) if text == href => href.to_string(),
        Expression::Hyperlink(text, href) => format!("[{}]({})", text, href),
        Expression::Blockquote(c) => format!("> {}\n", all(c)),
        Expression::MultilineCode(t) => format!("```{}```", t),
        Expression::InlineCode(t) => format!("``{}``", t),
        Expression::Spoiler(c) => format!("||{}||", all(c)),
        Expression::Underline(c) => format!("__{}__", all(c)),
        Expression::Strikethrough(c) => format!("~~{}~~", all(c)),
        Expression::Bold(c) => format!("**{}**", all(c)),
        Expression::Italics(c) => format!("_{}_", all(c)),
    }
}

#[test]
fn parse_loses_nothing() {
    for text in [
        "plain",
        "a **b _c_ d** e",
        "<:wave:1><a:dance:2> <@3><@&4><#5>",
        "> quote with ||spoiler||\nthen ~~gone~~ and __under__",
        "``code **kept**`` and ```more\ncode``` and https://e.org/x?y=z.",
        "unmatched ~ and <@ and <:x: and [label] stay as they are",
        "\u{e9}\u{e8} **\u{30c4}** \u{1f600}",
    ] {
        let tree = parse(text).unwrap();
        let rebuilt: String = tree.iter().map(source).collect();
        assert_eq!(rebuilt, text);
    }
    let text = "see [docs](http://d.io) and http://e.org";
    let tree = parse_embed(text).unwrap();
    let rebuilt: String = tree.iter().map(source).collect();
    assert_eq!(rebuilt, text);
}

#[test]
fn decrypted_database_is_kept_for_its_backup_only() {
    let mut slot: cheesecake::actions::DBFile<u8> = cheesecake::actions::DBFile::new();
    assert_eq!(slot.backup_path, "");
    assert_eq!(slot.file, None);
    slot.backup_path = String::from("1");
    slot.file = Some(7);
    slot.keep_for("1");
    assert_eq!(slot.backup_path, "1");
    assert_eq!(slot.file, Some(7));
    slot.keep_for("2");
    assert_eq!(slot.backup_path, "");
    assert_eq!(slot.file, None);
    slot.file = Some(8);
    slot.reset();
    assert_eq!(slot.file, None);
}
