use open_soundpad_core::devices::{
    device_menu_line, first_virtual_cable, is_virtual_cable, mentions_virtual_cable,
    parse_device_choice, selected_message, selection_prompt,
};

#[test]
fn device_choice_accepts_numbers_in_range() {
    assert_eq!(parse_device_choice("2\n", 3), Some(1));
    assert_eq!(parse_device_choice(" 3 \r\n", 3), Some(2));
    assert_eq!(parse_device_choice("1", 1), Some(0));
    assert_eq!(parse_device_choice("+2", 3), Some(1));
    assert_eq!(parse_device_choice("002", 3), Some(1));
}

#[test]
fn device_choice_refuses_other_input() {
    assert_eq!(parse_device_choice("0\n", 3), None);
    assert_eq!(parse_device_choice("4\n", 3), None);
    assert_eq!(parse_device_choice("x\n", 3), None);
    assert_eq!(parse_device_choice("\n", 3), None);
    assert_eq!(parse_device_choice("1 2", 3), None);
    assert_eq!(parse_device_choice("-1", 3), None);
    assert_eq!(parse_device_choice("1", 0), None);
    assert_eq!(parse_device_choice("99999999999999999999999", 3), None);
}

#[test]
fn menu_lines_and_prompt() {
    assert_eq!(device_menu_line(0, "Mic"), "1. Mic");
    assert_eq!(device_menu_line(41, "USB Audio"), "42. USB Audio");
    assert_eq!(selection_prompt(3), "\nSelect one (1-3)");
    assert_eq!(selected_message("Mic"), "Selected: Mic");
}

#[test]
fn menu_number_selects_its_device() {
    let count = 25;
    for index in 0..count {
        let line = device_menu_line(index, "dev");
        let number = line.split('.').next().unwrap().to_string();
        assert_eq!(parse_device_choice(&format!("{}\n", number), count), Some(index));
    }
}

#[test]
fn virtual_cable_names() {
    assert!(is_virtual_cable("CABLE Input (VB-Audio Virtual Cable)"));
    assert!(is_virtual_cable("vb-audio point"));
    assert!(is_virtual_cable("My cable"));
    assert!(!is_virtual_cable("Speakers (Realtek)"));
    assert!(!is_virtual_cable("Cabl"));
    assert!(!mentions_virtual_cable("vb-audio"));
    assert!(mentions_virtual_cable("VB-AUDIO"));
}

#[test]
fn first_virtual_cable_in_order() {
    let names: Vec<String> = ["Speakers", "Headset", "cable output", "VB-Audio"]
        .iter()
        .map(|s| s.to_string())
        .collect();
    assert_eq!(first_virtual_cable(&names), Some(2));
    let none: Vec<String> = vec!["Speakers".to_string()];
    assert_eq!(first_virtual_cable(&none), None);
    assert_eq!(first_virtual_cable(&Vec::new()), None);
}
