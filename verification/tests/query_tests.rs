use cheesecake::actions::{
    backup_kind, is_supported, search_query, supports_version, window_at, window_of_jump,
    window_query, BackupKind, ChatContext, Filters, GetMessages, JumpDetails, Query, Window,
};
use cheesecake::discord;

fn chat_with(rows: u32) -> rusqlite::Connection {
    let conn = rusqlite::Connection::open_in_memory().unwrap();
    conn.execute(
        "CREATE TABLE messages (id INTEGER, chat TEXT, message_type TEXT, name TEXT, avatar TEXT, \
         color TEXT, bot INTEGER, created_timestamp TEXT, edited_timestamp TEXT, reference INTEGER, \
         content TEXT, attachments TEXT, reactions TEXT)",
        (),
    )
    .unwrap();
    for i in 1..=rows {
        let stamp = format!("2021-03-04T{:02}:{:02}:{:02}+00:00", i / 3600, (i / 60) % 60, i % 60);
        conn.execute(
            "INSERT INTO messages (id, chat, message_type, name, avatar, bot, created_timestamp, content) \
             VALUES (?1, 'c', 'default', 'ann', 'a.png', 0, ?2, 'x')",
            (1000 + i, stamp),
        )
        .unwrap();
        conn.execute(
            "INSERT INTO messages (id, chat, message_type, name, avatar, bot, created_timestamp, content) \
             VALUES (?1, 'other', 'default', 'bob', 'b.png', 0, ?2, 'y')",
            (5000 + i, format!("2021-03-04T00:00:{:02}+00:00", i % 60)),
        )
        .unwrap();
    }
    conn
}

fn positions(conn: &rusqlite::Connection, window: Window, position: Option<u64>) -> Vec<u64> {
    let sql = discord::query(window_query(window));
    let mut statement = conn.prepare(&sql).unwrap();
    let read = |row: &rusqlite::Row| row.get::<_, i64>(0);
    let rows = match position {
        Some(p) => statement.query_map(("c", p as i64), read).unwrap(),
        None => statement.query_map(("c",), read).unwrap(),
    };
    rows.map(|r| r.unwrap() as u64).collect()
}

fn odd_positions(from: u64, to: u64) -> Vec<u64> {
    (from..=to).filter(|p| p % 2 == 1).collect()
}

#[test]
fn jump_window_holds_a_hundred_rows_around_its_target() {
    // The rows of the chat have the odd positions 1, 3, ..., 399.
    let conn = chat_with(200);
    let got = positions(&conn, Window::Around, Some(201));
    assert_eq!(got.len(), 100);
    assert_eq!(got, odd_positions(103, 301));
    assert!(got.contains(&201));
}

#[test]
fn jump_window_is_shorter_near_the_ends() {
    let conn = chat_with(200);
    let got = positions(&conn, Window::Around, Some(9));
    assert_eq!(got, odd_positions(1, 109));
    let got = positions(&conn, Window::Around, Some(395));
    assert_eq!(got, odd_positions(297, 399));
    let got = positions(&conn, Window::Around, Some(0));
    assert_eq!(got, odd_positions(1, 99));
}

#[test]
fn latest_window_holds_the_last_hundred_rows() {
    let conn = chat_with(200);
    assert_eq!(positions(&conn, Window::Latest, None), odd_positions(201, 399));
    let conn = chat_with(3);
    assert_eq!(positions(&conn, Window::Latest, None), vec![1, 3, 5]);
}

#[test]
fn windows_above_and_below_exclude_their_position() {
    let conn = chat_with(200);
    assert_eq!(positions(&conn, Window::Above, Some(301)), odd_positions(101, 299));
    assert_eq!(positions(&conn, Window::Below, Some(101)), odd_positions(103, 301));
    assert_eq!(positions(&conn, Window::Above, Some(1)), Vec::<u64>::new());
    assert_eq!(positions(&conn, Window::Below, Some(399)), Vec::<u64>::new());
}

#[test]
fn window_goes_by_the_named_position() {
    assert_eq!(window_at("above"), Window::Above);
    assert_eq!(window_at("below"), Window::Below);
    assert_eq!(window_at("around"), Window::Around);
    assert_eq!(window_at(""), Window::Around);
    let request = GetMessages { sequential_id: 5, position: String::from("below") };
    assert_eq!(request.window(), Window::Below);
}

#[test]
fn jump_without_a_message_shows_the_latest() {
    assert_eq!(window_of_jump(&None), Window::Latest);
    assert_eq!(window_of_jump(&Some(String::from("1001"))), Window::Around);
    let request = JumpDetails { chat_id: None, message_id: Some(String::from("7")) };
    assert_eq!(request.window(), Window::Around);
}

const SEARCH: &str = "{} chat = $1 AND id IN (SELECT id FROM message_search WHERE message_search MATCH $2 ORDER BY rank) AND TRUE";

#[test]
fn search_without_filters_takes_every_match() {
    assert_eq!(search_query(&Filters::none()), SEARCH);
    let request = Query { string: String::from("cake"), filters: Filters::none() };
    assert_eq!(request.template(), SEARCH);
    assert_eq!(request.values(), vec![String::from("cake")]);
}

#[test]
fn search_binds_the_values_of_its_filters() {
    let filters = Filters {
        author: Some(String::from("ann")),
        kind: None,
        since: Some(String::from("2021-03-04")),
        until: Some(String::from("TRUE) OR (TRUE")),
    };
    assert_eq!(
        search_query(&filters),
        format!("{} AND name = $3 AND created_timestamp >= $4 AND created_timestamp <= $5", SEARCH)
    );
    assert_eq!(
        filters.values(),
        vec![String::from("ann"), String::from("2021-03-04"), String::from("TRUE) OR (TRUE")]
    );
    let all = Filters {
        author: Some(String::new()),
        kind: Some(String::from("default")),
        since: Some(String::new()),
        until: Some(String::new()),
    };
    assert_eq!(
        search_query(&all),
        format!(
            "{} AND name = $3 AND message_type = $4 AND created_timestamp >= $5 AND created_timestamp <= $6",
            SEARCH
        )
    );
    let kind = Filters { author: None, kind: Some(String::from("x")), since: None, until: None };
    assert_eq!(search_query(&kind), format!("{} AND message_type = $3", SEARCH));
}

#[test]
fn statement_of_a_search_does_not_depend_on_the_values() {
    let with = |value: &str| Filters {
        author: Some(String::from(value)),
        kind: None,
        since: None,
        until: Some(String::from(value)),
    };
    assert_eq!(search_query(&with("ann")), search_query(&with("TRUE) OR (TRUE")));
    assert_eq!(search_query(&with("")), search_query(&with("'; DROP TABLE messages; --")));
}

fn found(conn: &rusqlite::Connection, request: &Query) -> Vec<u64> {
    let sql = discord::query(&request.template());
    let mut statement = conn.prepare(&sql).unwrap();
    let mut params = vec![String::from("c")];
    params.extend(request.values());
    let rows = statement
        .query_map(rusqlite::params_from_iter(params.iter()), |row: &rusqlite::Row| row.get::<_, i64>(1))
        .unwrap();
    let mut ids: Vec<u64> = rows.map(|r| r.unwrap() as u64).collect();
    ids.sort();
    ids
}

#[test]
fn search_finds_the_messages_of_the_chat_that_match_and_meet_the_filters() {
    let conn = chat_with(5);
    conn.execute("CREATE VIRTUAL TABLE message_search USING fts5(id, content)", ()).unwrap();
    conn.execute("INSERT INTO message_search (id, content) SELECT id, content FROM messages", ()).unwrap();
    conn.execute("UPDATE messages SET name = 'bob' WHERE id = 1003", ()).unwrap();
    let words = |filters: Filters| Query { string: String::from("x"), filters };
    assert_eq!(found(&conn, &words(Filters::none())), vec![1001, 1002, 1003, 1004, 1005]);
    let by = |name: &str| Filters { author: Some(String::from(name)), kind: None, since: None, until: None };
    assert_eq!(found(&conn, &words(by("bob"))), vec![1003]);
    assert_eq!(found(&conn, &words(by("ann"))), vec![1001, 1002, 1004, 1005]);
    // A value is compared as a value, whatever it holds.
    assert_eq!(found(&conn, &words(by("ann' OR 'a' = 'a"))), Vec::<u64>::new());
    assert_eq!(found(&conn, &words(by("TRUE) OR (TRUE"))), Vec::<u64>::new());
    let between = Filters {
        author: None,
        kind: Some(String::from("default")),
        since: Some(String::from("2021-03-04T00:00:02+00:00")),
        until: Some(String::from("2021-03-04T00:00:04+00:00")),
    };
    assert_eq!(found(&conn, &words(between)), vec![1002, 1003, 1004]);
    let other = Query { string: String::from("y"), filters: Filters::none() };
    assert_eq!(found(&conn, &other), Vec::<u64>::new());
}

#[test]
fn three_kinds_of_backup_are_read() {
    assert_eq!(backup_kind("discord"), Some(BackupKind::Discord));
    assert_eq!(backup_kind("matrix"), Some(BackupKind::Matrix));
    assert_eq!(backup_kind("generic"), Some(BackupKind::Generic));
    assert_eq!(backup_kind("irc"), None);
    assert!(is_supported("0.1.0", "matrix"));
    assert!(!is_supported("0.2.0", "matrix"));
    assert!(!is_supported("0.1.0", "Matrix"));
    assert!(supports_version("0.1.0"));
    assert!(!supports_version("0.1"));
}

#[test]
fn default_chat_is_empty() {
    let c = ChatContext::default();
    assert_eq!(c.name, "");
    assert_eq!(c.topic, "");
    assert!(c.messages.is_empty());
    assert!(c.selection_context.is_none());
}
