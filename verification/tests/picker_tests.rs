use slush::file_picker::FileEntity;
use slush::file_picker::FilePicker;
use slush::item_picker::Item;
use slush::item_picker::ItemPicker;
use slush::keys::Key;

#[test]
fn it_works() {
    assert_eq!(2 + 2, 4);
}

fn fruit_picker() -> ItemPicker {
    let items = vec![
        Item::new(0, String::from("apple")),
        Item::new(1, String::from("banana")),
        Item::new(2, String::from("grape")),
    ];
    let mut p = ItemPicker::new();
    p.activate(items);
    p
}

fn filtered_names(p: &ItemPicker) -> Vec<String> {
    p.get_items_filtered().iter().map(|i| i.name.clone()).collect()
}

#[test]
fn activation_shows_everything_unfiltered() {
    let mut p = fruit_picker();
    assert!(p.is_active());
    assert_eq!(filtered_names(&p), vec!["apple", "banana", "grape"]);
    assert_eq!(p.inserted_part(), "");
    assert_eq!(p.selected_line, 0);
}

#[test]
fn filtering_narrows_by_substring() {
    let mut p = fruit_picker();
    p.insert_char('a');
    assert_eq!(filtered_names(&p), vec!["apple", "banana", "grape"]);
    p.insert_char('p');
    assert_eq!(p.inserted_part(), "ap");
    assert_eq!(filtered_names(&p), vec!["apple", "grape"]);
    p.insert_char('p');
    assert_eq!(filtered_names(&p), vec!["apple"]);
}

#[test]
fn deleting_a_filter_character_restores_previous_set() {
    let mut p = fruit_picker();
    p.insert_char('a');
    let after_a = filtered_names(&p);
    p.insert_char('p');
    p.delete_char();
    assert_eq!(filtered_names(&p), after_a);
    assert_eq!(p.inserted_part(), "a");
}

#[test]
fn filtering_is_order_independent_of_intermediate_state() {
    let mut one = fruit_picker();
    one.insert_char('a');
    one.insert_char('p');
    let mut other = fruit_picker();
    other.insert_char('x');
    other.delete_char();
    other.insert_char('a');
    other.insert_char('p');
    assert_eq!(filtered_names(&one), filtered_names(&other));
}

#[test]
fn selection_saturates_at_both_ends() {
    let mut p = fruit_picker();
    p.selection_down();
    assert_eq!(p.selected_line, 0);
    p.selection_up();
    p.selection_up();
    assert_eq!(p.selected_line, 2);
    p.selection_up();
    assert_eq!(p.selected_line, 2);
}

#[test]
fn selection_stays_zero_on_empty_filtered_list() {
    let mut p = fruit_picker();
    p.insert_char('z');
    assert_eq!(filtered_names(&p).len(), 0);
    p.selection_up();
    assert_eq!(p.selected_line, 0);
    p.selection_down();
    assert_eq!(p.selected_line, 0);
}

#[test]
fn narrowing_resets_out_of_range_selection() {
    let mut p = fruit_picker();
    p.selection_up();
    p.selection_up();
    assert_eq!(p.selected_line, 2);
    p.insert_char('g');
    assert_eq!(filtered_names(&p), vec!["grape"]);
    assert_eq!(p.selected_line, 0);
}

#[test]
fn accept_and_take_are_one_shot() {
    let mut p = fruit_picker();
    p.selection_up();
    p.accept_selection();
    let got = p.get_accepted().unwrap();
    assert_eq!(got.name, "banana");
    assert_eq!(got.id, 1);
    assert!(p.get_accepted().is_none());
}

#[test]
fn key_routing_inserts_characters() {
    let mut p = fruit_picker();
    assert!(p.try_handle_key(&Key::A, false, false));
    assert!(p.try_handle_key(&Key::P, false, false));
    assert_eq!(p.inserted_part(), "ap");
    assert_eq!(filtered_names(&p), vec!["apple", "grape"]);
}

#[test]
fn key_routing_control_chords() {
    let mut p = fruit_picker();
    assert!(p.try_handle_key(&Key::K, false, true));
    assert_eq!(p.selected_line, 1);
    assert!(p.try_handle_key(&Key::J, false, true));
    assert_eq!(p.selected_line, 0);
    assert!(p.try_handle_key(&Key::L, false, true));
    assert_eq!(p.get_accepted().unwrap().name, "apple");
    assert!(!p.try_handle_key(&Key::Q, false, true));
}

#[test]
fn key_routing_escape_deactivates() {
    let mut p = fruit_picker();
    assert!(p.try_handle_key(&Key::Escape, false, false));
    assert!(!p.is_active());
    assert_eq!(p.get_items().len(), 0);
}

#[test]
fn key_routing_ignores_unknown_keys() {
    let mut p = fruit_picker();
    assert!(!p.try_handle_key(&Key::Other, false, false));
    assert_eq!(filtered_names(&p), vec!["apple", "banana", "grape"]);
}

fn dir_entity(path: &str) -> FileEntity {
    FileEntity::from_path(String::from(path), true)
}

fn file_entity(path: &str) -> FileEntity {
    FileEntity::from_path(String::from(path), false)
}

#[test]
fn from_path_names_entries() {
    let d = dir_entity("/home/user/projects");
    assert_eq!(d.name, "projects/");
    assert_eq!(d.path, "/home/user/projects");
    let f = file_entity("/home/user/notes.txt");
    assert_eq!(f.name, "notes.txt");
}

#[test]
fn listing_is_sorted_reverse_case_insensitively() {
    let mut fp = FilePicker::new(dir_entity("/d"));
    fp.activate();
    fp.set_listing(vec![
        file_entity("/d/alpha"),
        file_entity("/d/gamma"),
        file_entity("/d/Beta"),
    ]);
    let names: Vec<String> = fp.get_items(10).iter().map(|e| e.name.clone()).collect();
    assert_eq!(names, vec!["gamma", "Beta", "alpha"]);
}

#[test]
fn confirm_on_directory_descends_and_resets() {
    let mut fp = FilePicker::new(dir_entity("/d"));
    fp.activate();
    fp.set_listing(vec![dir_entity("/d/sub"), file_entity("/d/f.txt")]);
    fp.insert_character("s");
    assert_eq!(fp.inserted_part(), "s");
    let names: Vec<String> = fp.get_items(10).iter().map(|e| e.name.clone()).collect();
    assert_eq!(names, vec!["sub/"]);
    let r = fp.confirm_selection();
    assert!(r.is_none());
    assert_eq!(fp.current_directory_name(), "/d/sub");
    assert_eq!(fp.inserted_part(), "");
    assert_eq!(fp.selected_line(), 0);
    assert_eq!(fp.selection_stats(), (0, 0));
}

#[test]
fn confirm_on_file_returns_path_and_keeps_state() {
    let mut fp = FilePicker::new(dir_entity("/d"));
    fp.activate();
    fp.set_listing(vec![dir_entity("/d/sub"), file_entity("/d/f.txt")]);
    fp.selection_up();
    let before_stats = fp.selection_stats();
    let r = fp.confirm_selection();
    assert_eq!(r.as_deref(), Some("/d/f.txt"));
    assert_eq!(fp.current_directory_name(), "/d");
    assert_eq!(fp.selection_stats(), before_stats);
    assert_eq!(fp.selected_line(), 1);
}

#[test]
fn confirm_with_empty_filtered_list_is_noop() {
    let mut fp = FilePicker::new(dir_entity("/d"));
    fp.activate();
    assert!(fp.confirm_selection().is_none());
    assert_eq!(fp.current_directory_name(), "/d");
}

#[test]
fn delete_segment_moves_to_parent() {
    let mut fp = FilePicker::new(dir_entity("/home/user/projects"));
    fp.activate();
    fp.delete_segment();
    assert_eq!(fp.current_directory_name(), "/home/user");
    assert_eq!(fp.current_directory.name, "user/");
    fp.delete_segment();
    assert_eq!(fp.current_directory_name(), "/home");
    fp.delete_segment();
    assert_eq!(fp.current_directory_name(), "/");
    fp.delete_segment();
    assert_eq!(fp.current_directory_name(), "/");
}

#[test]
fn delete_character_refilters_and_empty_is_noop() {
    let mut fp = FilePicker::new(dir_entity("/d"));
    fp.activate();
    fp.set_listing(vec![file_entity("/d/aa"), file_entity("/d/ab")]);
    fp.insert_character("a");
    fp.insert_character("b");
    assert_eq!(fp.selection_stats(), (2, 1));
    fp.delete_character();
    assert_eq!(fp.selection_stats(), (2, 2));
    assert_eq!(fp.inserted_part(), "a");
    fp.delete_character();
    fp.delete_character();
    assert_eq!(fp.inserted_part(), "");
}

#[test]
fn get_items_bounds_what_is_drawn() {
    let mut fp = FilePicker::new(dir_entity("/d"));
    fp.activate();
    fp.set_listing(vec![
        file_entity("/d/a"),
        file_entity("/d/b"),
        file_entity("/d/c"),
    ]);
    assert_eq!(fp.get_items(2).len(), 2);
    assert_eq!(fp.get_items(9).len(), 3);
}

#[test]
fn quit_only_closes_the_picker() {
    let mut fp = FilePicker::new(dir_entity("/d"));
    fp.activate();
    fp.set_listing(vec![file_entity("/d/a")]);
    fp.quit();
    assert!(!fp.is_active());
    assert_eq!(fp.selection_stats(), (1, 1));
}
