use portal::remote::uploader::Status;
use portal::screen::{select_line, ButtonPins, ButtonPress, DisplayInfo, MAIN_MENU, READING_MENU, SETTINGS_MENU};

#[test]
fn pins_map_to_buttons() {
    let pins = ButtonPins { up: 5, down: 6, left: 13, right: 19, enter: 26 };
    assert_eq!(pins.button_for(5), Some(ButtonPress::Up));
    assert_eq!(pins.button_for(6), Some(ButtonPress::Down));
    assert_eq!(pins.button_for(13), Some(ButtonPress::Left));
    assert_eq!(pins.button_for(19), Some(ButtonPress::Right));
    assert_eq!(pins.button_for(26), Some(ButtonPress::Enter));
    assert_eq!(pins.button_for(4), None);
}

#[test]
fn unset_pins_share_zero_and_up_wins() {
    let pins = ButtonPins { up: 0, down: 0, left: 0, right: 0, enter: 0 };
    assert_eq!(pins.button_for(0), Some(ButtonPress::Up));
    assert_eq!(pins.button_for(1), None);
}

#[test]
fn display_starts_on_the_main_menu() {
    let info = DisplayInfo::new();
    assert_eq!(info.title_bar, "Chronokeep          ");
    assert_eq!(info.title_bar.len(), 20);
    assert_eq!(info.main_menu.len(), 6);
    assert_eq!(info.main_menu[0], " > Start Reading    ");
    assert_eq!(info.main_menu[5], "   Shutdown         ");
    assert!(info.main_menu.iter().all(|l| l.len() == 20));
    assert!(info.reader_info.is_empty());
    assert!(info.settings_menu.is_empty());
    assert!(info.upload_status == Status::Unknown);
    assert_eq!(info.upload_errors, 0);
}

#[test]
fn moving_the_marker() {
    let mut info = DisplayInfo::new();
    info.update_menu(&[MAIN_MENU, 2, 0]);
    assert_eq!(info.main_menu[0], "   Start Reading    ");
    assert_eq!(info.main_menu[2], " > About            ");
    assert_eq!(info.main_menu.iter().filter(|l| l.contains('>')).count(), 1);
    // Another menu leaves the main menu alone.
    info.update_menu(&[READING_MENU, 0, 0]);
    assert_eq!(info.main_menu[2], " > About            ");
}

#[test]
fn settings_marker() {
    let mut info = DisplayInfo::new();
    info.settings_menu = vec![String::from(" > Read Window   20 "), String::from("   Chip Type    DEC ")];
    info.update_menu(&[SETTINGS_MENU, 1, 0]);
    assert_eq!(info.settings_menu[0], "   Read Window   20 ");
    assert_eq!(info.settings_menu[1], " > Chip Type    DEC ");
}

#[test]
fn select_line_marks_one() {
    let mut lines = vec![String::from("ab"), String::from("cd"), String::from("efgh")];
    select_line(&mut lines, 2);
    assert_eq!(lines, vec![String::from("a "), String::from("c "), String::from("e>gh")]);
}

#[test]
fn upload_status_is_kept() {
    let mut info = DisplayInfo::new();
    info.update_upload_status(Status::Running, 3);
    assert!(info.upload_status == Status::Running);
    assert_eq!(info.upload_errors, 3);
}
