use krtodo::{
    decode_todos, encode_todos, format_u32, parse_u32, table_rows, todos_from_rows, App, Key, Step,
    Todo,
};

fn todo(id: u32, title: &str, done: bool) -> Todo {
    Todo { id, title: title.to_string(), is_completed: done }
}

fn app_with(items: Vec<Todo>) -> App {
    let text = encode_todos(&items).unwrap();
    App::new("todos.csv", Some(text.as_slice()))
}

fn type_text(app: &mut App, s: &str) {
    for c in s.chars() {
        assert_eq!(app.handle_key(Key::Char(c)), Step::Continue);
    }
}

#[test]
fn scenario_toggle_add_delete() {
    let mut app = App::new("todos.csv", Some(&b"id,title,is_completed\n1,A,false\n"[..]));
    assert_eq!(app.items, vec![todo(1, "A", false)]);
    assert_eq!(app.selected, Some(0));

    assert_eq!(app.handle_key(Key::Char(' ')), Step::Save);
    assert_eq!(app.items, vec![todo(1, "A", true)]);
    let saved = app.encode_db().unwrap();
    assert_eq!(String::from_utf8(saved).unwrap(), "id,title,is_completed\n1,A,true\n");

    assert_eq!(app.handle_key(Key::Char('a')), Step::Continue);
    assert!(app.input_mode);
    type_text(&mut app, "B");
    assert_eq!(app.handle_key(Key::Enter), Step::Save);
    assert!(!app.input_mode);
    assert_eq!(app.items, vec![todo(1, "A", true), todo(2, "B", false)]);
    assert_eq!(app.selected, Some(0));

    assert_eq!(app.handle_key(Key::Char('d')), Step::Save);
    assert_eq!(app.items, vec![todo(2, "B", false)]);
    assert_eq!(app.selected, Some(0));
}

#[test]
fn round_trip_through_file_text() {
    let items = vec![
        todo(1, "plain", false),
        todo(2, "with, comma", true),
        todo(3, "with \"quotes\"", false),
        todo(7, "two\nlines", true),
        todo(4294967295, "  padded  ", false),
    ];
    let text = encode_todos(&items).unwrap();
    assert_eq!(decode_todos(&text), items);
}

#[test]
fn round_trip_empty_list() {
    let text = encode_todos(&Vec::new()).unwrap();
    assert_eq!(String::from_utf8(text.clone()).unwrap(), "id,title,is_completed\n");
    assert_eq!(decode_todos(&text), Vec::<Todo>::new());
}

#[test]
fn encoded_text_is_exact() {
    let text = encode_todos(&vec![todo(12, "a,b", false), todo(3, "c", true)]).unwrap();
    assert_eq!(
        String::from_utf8(text).unwrap(),
        "id,title,is_completed\n12,\"a,b\",false\n3,c,true\n"
    );
}

#[test]
fn malformed_rows_are_skipped() {
    let text = b"id,title,is_completed\nx,A,true\n2,B,maybe\n3,C,false\n4,D\n5,E,true\n";
    assert_eq!(decode_todos(text), vec![todo(3, "C", false), todo(5, "E", true)]);
}

#[test]
fn wrong_header_loads_nothing() {
    assert_eq!(decode_todos(b"title,id,is_completed\nA,1,true\n"), Vec::<Todo>::new());
    assert_eq!(decode_todos(b""), Vec::<Todo>::new());
}

#[test]
fn missing_file_gives_empty_list() {
    let mut app = App::new("todos.csv", None);
    assert!(app.items.is_empty());
    assert_eq!(app.selected, None);
    assert_eq!(app.db, "todos.csv");
    app.next();
    app.previous();
    assert_eq!(app.selected, None);
    assert!(!app.toggle_complete());
    assert!(!app.delete_task());
    assert_eq!(app.handle_key(Key::Char('d')), Step::Continue);
}

#[test]
fn cursor_wraps_around() {
    let mut app = app_with(vec![todo(1, "a", false), todo(2, "b", false), todo(3, "c", false)]);
    app.selected = Some(2);
    app.next();
    assert_eq!(app.selected, Some(0));
    app.previous();
    assert_eq!(app.selected, Some(2));
    assert_eq!(app.handle_key(Key::Char('k')), Step::Continue);
    assert_eq!(app.selected, Some(1));
    assert_eq!(app.handle_key(Key::Down), Step::Continue);
    assert_eq!(app.selected, Some(2));
    assert_eq!(app.handle_key(Key::Char('j')), Step::Continue);
    assert_eq!(app.selected, Some(0));
    assert_eq!(app.handle_key(Key::Up), Step::Continue);
    assert_eq!(app.selected, Some(2));
}

#[test]
fn add_appends_with_next_id() {
    let mut app = app_with(vec![todo(1, "a", false), todo(2, "b", true)]);
    app.input_mode = true;
    app.input_text = "X".chars().collect();
    assert!(app.add_task());
    assert_eq!(app.items.len(), 3);
    assert_eq!(app.items[2], todo(3, "X", false));
    assert_eq!(app.selected, Some(0));
    assert!(app.input_text.is_empty());
    assert!(!app.input_mode);
}

#[test]
fn add_to_empty_list_selects_it() {
    let mut app = App::new("todos.csv", None);
    app.handle_key(Key::Char('a'));
    type_text(&mut app, "first");
    assert_eq!(app.handle_key(Key::Enter), Step::Save);
    assert_eq!(app.items, vec![todo(1, "first", false)]);
    assert_eq!(app.selected, Some(0));
}

#[test]
fn blank_titles_are_rejected() {
    let mut app = app_with(vec![todo(1, "a", false)]);
    for title in ["", "   ", " \t\n"] {
        app.handle_key(Key::Char('a'));
        type_text(&mut app, title);
        assert_eq!(app.handle_key(Key::Enter), Step::Continue);
        assert_eq!(app.items, vec![todo(1, "a", false)]);
        assert!(!app.input_mode);
        assert!(app.input_text.is_empty());
    }
}

#[test]
fn delete_last_resets_cursor() {
    let mut app = app_with(vec![todo(1, "a", false), todo(2, "b", false), todo(3, "c", false)]);
    app.selected = Some(2);
    assert!(app.delete_task());
    assert_eq!(app.items, vec![todo(1, "a", false), todo(2, "b", false)]);
    assert_eq!(app.selected, Some(0));
}

#[test]
fn delete_middle_keeps_cursor() {
    let mut app = app_with(vec![todo(1, "a", false), todo(2, "b", false), todo(3, "c", false)]);
    app.selected = Some(1);
    assert!(app.delete_task());
    assert_eq!(app.items, vec![todo(1, "a", false), todo(3, "c", false)]);
    assert_eq!(app.selected, Some(1));
}

#[test]
fn delete_only_task_clears_cursor() {
    let mut app = app_with(vec![todo(1, "a", false)]);
    assert!(app.delete_task());
    assert!(app.items.is_empty());
    assert_eq!(app.selected, None);
}

#[test]
fn compose_mode_ignores_list_keys() {
    let mut app = app_with(vec![todo(1, "a", false), todo(2, "b", false)]);
    app.handle_key(Key::Char('a'));
    for key in [Key::Char(' '), Key::Char('d'), Key::Char('j'), Key::Down, Key::Up, Key::Char('q'), Key::Other] {
        assert_eq!(app.handle_key(key), Step::Continue);
    }
    assert_eq!(app.items, vec![todo(1, "a", false), todo(2, "b", false)]);
    assert_eq!(app.selected, Some(0));
    assert!(app.input_mode);
    assert_eq!(app.input_text, vec![' ', 'd', 'j', 'q']);
    app.handle_key(Key::Backspace);
    assert_eq!(app.input_text, vec![' ', 'd', 'j']);
    app.handle_key(Key::Esc);
    assert!(!app.input_mode);
    assert!(app.input_text.is_empty());
    assert_eq!(app.items.len(), 2);
}

#[test]
fn backspace_on_empty_buffer_is_harmless() {
    let mut app = App::new("todos.csv", None);
    app.handle_key(Key::Char('a'));
    assert_eq!(app.handle_key(Key::Backspace), Step::Continue);
    assert!(app.input_text.is_empty());
    assert!(app.input_mode);
}

#[test]
fn quit_key_quits_only_when_navigating() {
    let mut app = App::new("todos.csv", None);
    assert_eq!(app.handle_key(Key::Char('q')), Step::Quit);
    assert_eq!(app.handle_key(Key::Enter), Step::Continue);
}

#[test]
fn enter_toggles_when_navigating() {
    let mut app = app_with(vec![todo(1, "a", true)]);
    assert_eq!(app.handle_key(Key::Enter), Step::Save);
    assert_eq!(app.items, vec![todo(1, "a", false)]);
}

#[test]
fn decimal_text() {
    assert_eq!(format_u32(0), "0");
    assert_eq!(format_u32(42), "42");
    assert_eq!(format_u32(4294967295), "4294967295");
    assert_eq!(parse_u32(&"007".chars().collect()), Some(7));
    assert_eq!(parse_u32(&"4294967295".chars().collect()), Some(4294967295));
    assert_eq!(parse_u32(&"4294967296".chars().collect()), None);
    assert_eq!(parse_u32(&"".chars().collect()), None);
    assert_eq!(parse_u32(&"12a".chars().collect()), None);
    assert_eq!(parse_u32(&"-1".chars().collect()), None);
}

fn row(fields: &[&str]) -> Vec<String> {
    fields.iter().map(|f| f.to_string()).collect()
}

#[test]
fn rows_to_tasks() {
    let rows = vec![
        Some(row(&["id", "title", "is_completed"])),
        Some(row(&["1", "a", "true"])),
        None,
        Some(row(&["2", "b", "no"])),
        Some(row(&["3", "c, d", "false"])),
    ];
    assert_eq!(todos_from_rows(&rows), vec![todo(1, "a", true), todo(3, "c, d", false)]);
    let no_header = vec![Some(row(&["1", "a", "true"]))];
    assert_eq!(todos_from_rows(&no_header), Vec::<Todo>::new());
    let bad_header = vec![None, Some(row(&["1", "a", "true"]))];
    assert_eq!(todos_from_rows(&bad_header), Vec::<Todo>::new());
    assert_eq!(todos_from_rows(&Vec::new()), Vec::<Todo>::new());
}

#[test]
fn tasks_to_rows() {
    let rows = table_rows(&vec![todo(10, "x", false), todo(2, "y z", true)]);
    assert_eq!(
        rows,
        vec![
            row(&["id", "title", "is_completed"]),
            row(&["10", "x", "false"]),
            row(&["2", "y z", "true"]),
        ]
    );
    assert_eq!(table_rows(&Vec::new()), vec![row(&["id", "title", "is_completed"])]);
}

#[test]
fn add_to_empty_list_writes_one_record() {
    let mut app = App::new("todos.csv", None);
    app.handle_key(Key::Char('a'));
    type_text(&mut app, "X");
    assert_eq!(app.handle_key(Key::Enter), Step::Save);
    let saved = app.encode_db().unwrap();
    assert_eq!(String::from_utf8(saved).unwrap(), "id,title,is_completed\n1,X,false\n");
}

#[test]
fn delete_rewrites_remaining_records() {
    let mut app = app_with(vec![todo(1, "A", true), todo(2, "B", false)]);
    assert_eq!(app.handle_key(Key::Char('d')), Step::Save);
    let saved = app.encode_db().unwrap();
    assert_eq!(String::from_utf8(saved).unwrap(), "id,title,is_completed\n2,B,false\n");
}

#[test]
fn unicode_white_space_title_is_rejected() {
    let mut app = App::new("todos.csv", None);
    app.handle_key(Key::Char('a'));
    type_text(&mut app, "\u{3000}\u{a0}");
    assert_eq!(app.handle_key(Key::Enter), Step::Continue);
    assert!(app.items.is_empty());
}
