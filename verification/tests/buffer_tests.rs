use slush::buffer::Buffer;
use slush::buffer::Direction;
use slush::buffer::render_document;
use slush::keys::Key;
use slush::keys::handle_key_ins_mode;

fn sample() -> Buffer {
    Buffer::new(String::from("alpha\nbeta\ngamma"), String::from("f.txt"))
}

#[test]
fn new_splits_lines() {
    let b = sample();
    assert_eq!(b.lines, vec!["alpha", "beta", "gamma"]);
    assert_eq!(b.cursor.row, 0);
    assert_eq!(b.cursor.col, 0);
    assert_eq!(b.file_name, "f.txt");
    assert!(!b.modified);
}

#[test]
fn new_empty_text_yields_one_empty_line() {
    let b = Buffer::new(String::new(), String::from("f"));
    assert_eq!(b.lines, vec![""]);
}

#[test]
fn new_handles_trailing_newline_and_crlf() {
    let b = Buffer::new(String::from("a\r\nb\n"), String::from("f"));
    assert_eq!(b.lines, vec!["a", "b"]);
    let c = Buffer::new(String::from("\n"), String::from("f"));
    assert_eq!(c.lines, vec![""]);
}

#[test]
fn update_resets_cursor_and_modified() {
    let mut b = sample();
    b.move_cursor(Direction::Down);
    b.insert_character('x');
    assert!(b.modified);
    b.update(String::from("one"), String::from("g.txt"));
    assert_eq!(b.lines, vec!["one"]);
    assert_eq!((b.cursor.row, b.cursor.col), (0, 0));
    assert_eq!(b.file_name, "g.txt");
    assert!(!b.modified);
}

#[test]
fn move_up_at_first_row_is_noop() {
    let mut b = sample();
    b.move_cursor(Direction::Up);
    assert_eq!((b.cursor.row, b.cursor.col), (0, 0));
}

#[test]
fn move_down_at_last_row_is_noop() {
    let mut b = sample();
    b.move_cursor(Direction::Down);
    b.move_cursor(Direction::Down);
    assert_eq!(b.cursor.row, 2);
    b.move_cursor(Direction::Down);
    assert_eq!(b.cursor.row, 2);
}

#[test]
fn move_left_at_column_zero_is_noop() {
    let mut b = sample();
    b.move_cursor(Direction::Left);
    assert_eq!(b.cursor.col, 0);
}

#[test]
fn move_right_at_line_end_is_noop() {
    let mut b = sample();
    for _ in 0..5 {
        b.move_cursor(Direction::Right);
    }
    assert_eq!(b.cursor.col, 5);
    b.move_cursor(Direction::Right);
    assert_eq!(b.cursor.col, 5);
}

#[test]
fn moving_to_shorter_line_clamps_column() {
    let mut b = sample();
    for _ in 0..5 {
        b.move_cursor(Direction::Right);
    }
    b.move_cursor(Direction::Down);
    assert_eq!((b.cursor.row, b.cursor.col), (1, 4));
}

#[test]
fn delete_line_keeps_at_least_one_line() {
    let mut b = Buffer::new(String::from("only"), String::from("f"));
    b.delete_line();
    assert_eq!(b.lines.len(), 1);
    assert_eq!(b.lines, vec!["only"]);
    assert!(!b.modified);
}

#[test]
fn delete_line_removes_cursor_row() {
    let mut b = sample();
    b.move_cursor(Direction::Down);
    b.delete_line();
    assert_eq!(b.lines, vec!["alpha", "gamma"]);
    assert!(b.modified);
}

#[test]
fn delete_last_line_reclamps_cursor() {
    let mut b = sample();
    b.move_cursor(Direction::Down);
    b.move_cursor(Direction::Down);
    b.delete_line();
    assert_eq!(b.lines, vec!["alpha", "beta"]);
    assert_eq!(b.cursor.row, 1);
}

#[test]
fn insert_character_splices_and_moves_right() {
    let mut b = sample();
    b.move_cursor(Direction::Right);
    b.insert_character('X');
    assert_eq!(b.lines[0], "aXlpha");
    assert_eq!((b.cursor.row, b.cursor.col), (0, 2));
    assert!(b.modified);
}

#[test]
fn delete_current_character_removes_under_cursor() {
    let mut b = sample();
    b.delete_current_character();
    assert_eq!(b.lines[0], "lpha");
    assert!(b.modified);
}

#[test]
fn delete_current_character_at_line_end_is_noop() {
    let mut b = sample();
    for _ in 0..5 {
        b.move_cursor(Direction::Right);
    }
    b.delete_current_character();
    assert_eq!(b.lines[0], "alpha");
    assert!(!b.modified);
}

#[test]
fn insert_newline_below_adds_empty_line() {
    let mut b = sample();
    b.insert_newline_below();
    assert_eq!(b.lines, vec!["alpha", "", "beta", "gamma"]);
    assert_eq!(b.cursor.row, 0);
}

#[test]
fn split_line_at_cursor_splits_and_moves() {
    let mut b = sample();
    b.move_cursor(Direction::Right);
    b.move_cursor(Direction::Right);
    b.split_line_at_cursor();
    assert_eq!(b.lines, vec!["al", "pha", "beta", "gamma"]);
    assert_eq!((b.cursor.row, b.cursor.col), (1, 0));
    assert!(b.modified);
}

#[test]
fn move_cursor_to_line_start_resets_column() {
    let mut b = sample();
    b.move_cursor(Direction::Right);
    b.move_cursor_to_line_start();
    assert_eq!(b.cursor.col, 0);
}

#[test]
fn saved_clears_modified() {
    let mut b = sample();
    b.insert_character('x');
    assert!(b.modified);
    b.saved();
    assert!(!b.modified);
}

#[test]
fn render_document_terminates_every_line() {
    let b = sample();
    assert_eq!(render_document(&b.lines), "alpha\nbeta\ngamma\n");
    let empty: Vec<String> = Vec::new();
    assert_eq!(render_document(&empty), "");
}

#[test]
fn saving_then_reloading_restores_the_lines() {
    let b = sample();
    let reloaded = Buffer::new(render_document(&b.lines), b.file_name.clone());
    assert_eq!(reloaded.lines, b.lines);
}

#[test]
fn insert_mode_key_inserts_shifted_character() {
    let mut b = sample();
    handle_key_ins_mode(Key::X, false, &mut b);
    assert_eq!(b.lines[0], "xalpha");
    handle_key_ins_mode(Key::Num1, true, &mut b);
    assert_eq!(b.lines[0], "x!alpha");
    assert_eq!(b.cursor.col, 2);
}

#[test]
fn insert_mode_return_splits_line() {
    let mut b = sample();
    b.move_cursor(Direction::Right);
    handle_key_ins_mode(Key::Return, false, &mut b);
    assert_eq!(b.lines, vec!["a", "lpha", "beta", "gamma"]);
    assert_eq!((b.cursor.row, b.cursor.col), (1, 0));
}

#[test]
fn insert_mode_backspace_removes_left_of_cursor() {
    let mut b = sample();
    b.move_cursor(Direction::Right);
    handle_key_ins_mode(Key::Backspace, false, &mut b);
    assert_eq!(b.lines[0], "lpha");
    assert_eq!(b.cursor.col, 0);
    handle_key_ins_mode(Key::Backspace, false, &mut b);
    assert_eq!(b.lines[0], "lpha");
}
