use slush::actions::Actions;
use slush::actions::CommandAction;

#[test]
fn palette_starts_closed_with_both_commands() {
    let a = Actions::new();
    assert!(!a.is_active());
    assert_eq!(a.inserted_part(), "");
    assert_eq!(a.selected_line(), 0);
    let names: Vec<&str> = a.get_items().iter().map(|c| c.name()).collect();
    assert_eq!(names, vec!["Open File", "Change Color Scheme"]);
}

#[test]
fn palette_opens_and_closes() {
    let mut a = Actions::new();
    a.activate();
    assert!(a.is_active());
    a.deactivate();
    assert!(!a.is_active());
}

#[test]
fn command_names_are_fixed() {
    assert_eq!(CommandAction::OpenFile.name(), "Open File");
    assert_eq!(CommandAction::ChangeColorScheme.name(), "Change Color Scheme");
}
