use redb::backends::InMemoryBackend;
use redb::Database;
use redb::TableDefinition;
use redb_browser::session::InputEvent;
use redb_browser::session::Session;

fn empty_db() -> Database {
    Database::builder()
        .create_with_backend(InMemoryBackend::new())
        .unwrap()
}

fn names(n: usize) -> Vec<String> {
    (0..n).map(|i| format!("table{}", i)).collect()
}

#[test]
fn initial_cursor_is_first_table() {
    let s = Session::new(names(3), 100);
    assert_eq!(s.cursor, Some(0));
    assert_eq!(s.db_properties.num_tables, 3);
    assert_eq!(s.db_properties.file_size, 100);
    assert!(s.selected_table_content.is_empty());
}

#[test]
fn initial_cursor_is_none_without_tables() {
    let s = Session::new(Vec::new(), 0);
    assert_eq!(s.cursor, None);
}

#[test]
fn advance_and_retreat_are_noops_without_tables() {
    let db = empty_db();
    let mut s = Session::new(Vec::new(), 0);
    s.advance(&db);
    assert_eq!(s.cursor, None);
    s.retreat(&db);
    assert_eq!(s.cursor, None);
}

#[test]
fn advance_wraps_from_last_to_first() {
    let db = empty_db();
    let mut s = Session::new(names(3), 0);
    s.advance(&db);
    assert_eq!(s.cursor, Some(1));
    s.advance(&db);
    assert_eq!(s.cursor, Some(2));
    s.advance(&db);
    assert_eq!(s.cursor, Some(0));
}

#[test]
fn retreat_wraps_from_first_to_last() {
    let db = empty_db();
    let mut s = Session::new(names(3), 0);
    s.retreat(&db);
    assert_eq!(s.cursor, Some(2));
    s.retreat(&db);
    assert_eq!(s.cursor, Some(1));
}

#[test]
fn any_mixed_sequence_stays_in_range() {
    let db = empty_db();
    let mut s = Session::new(names(4), 0);
    let moves = [true, true, false, true, false, false, false, true, true, true, true, false];
    for &forward in moves.iter() {
        if forward {
            s.advance(&db);
        } else {
            s.retreat(&db);
        }
        let i = s.cursor.expect("cursor must stay selected");
        assert!(i < 4);
    }
}

#[test]
fn single_table_always_selects_it() {
    let db = empty_db();
    let mut s = Session::new(names(1), 0);
    s.advance(&db);
    assert_eq!(s.cursor, Some(0));
    s.retreat(&db);
    assert_eq!(s.cursor, Some(0));
}

#[test]
fn quit_event_returns_control_and_changes_nothing() {
    let db = empty_db();
    let mut s = Session::new(names(2), 0);
    let quit = s.handle_event(&db, InputEvent::Quit);
    assert!(quit);
    assert_eq!(s.cursor, Some(0));
    assert!(s.selected_table_content.is_empty());
}

#[test]
fn other_event_is_a_noop() {
    let db = empty_db();
    let mut s = Session::new(names(2), 0);
    let quit = s.handle_event(&db, InputEvent::Other);
    assert!(!quit);
    assert_eq!(s.cursor, Some(0));
}

#[test]
fn directional_events_move_the_cursor() {
    let db = empty_db();
    let mut s = Session::new(names(2), 0);
    assert!(!s.handle_event(&db, InputEvent::Down));
    assert_eq!(s.cursor, Some(1));
    assert!(!s.handle_event(&db, InputEvent::Up));
    assert_eq!(s.cursor, Some(0));
}

#[test]
fn selection_change_refreshes_content() {
    let db = Database::builder()
        .create_with_backend(InMemoryBackend::new())
        .unwrap();
    let def: TableDefinition<&[u8], &[u8]> = TableDefinition::new("only");
    let txn = db.begin_write().unwrap();
    {
        let mut table = txn.open_table(def).unwrap();
        table.insert(b"k".as_slice(), b"v".as_slice()).unwrap();
    }
    txn.commit().unwrap();
    let mut s = Session::new(vec![String::from("only")], 0);
    assert!(s.selected_table_content.is_empty());
    s.advance(&db);
    assert_eq!(
        s.selected_table_content,
        vec![(String::from("u8: 107"), (String::from("u8: 118")))]
    );
}

#[test]
fn selected_table_name_follows_cursor() {
    let db = empty_db();
    let mut s = Session::new(vec![String::from("alpha"), String::from("beta")], 0);
    assert_eq!(s.selected_table_name(), Some(&String::from("alpha")));
    s.advance(&db);
    assert_eq!(s.selected_table_name(), Some(&String::from("beta")));
    let none = Session::new(Vec::new(), 0);
    assert_eq!(none.selected_table_name(), None);
}
