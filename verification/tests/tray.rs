use plaxo_otp::tray::{autostart_label, toggled_autostart, tray_command, TrayCommand};

#[test]
fn menu_items_map_to_their_commands() {
    assert_eq!(tray_command("open"), TrayCommand::Open);
    assert_eq!(tray_command("autostart"), TrayCommand::ToggleAutostart);
    assert_eq!(tray_command("quit"), TrayCommand::Quit);
    assert_eq!(tray_command("settings"), TrayCommand::Ignore);
    assert_eq!(tray_command(""), TrayCommand::Ignore);
}

#[test]
fn autostart_toggle_flips_the_setting_and_its_label() {
    assert!(toggled_autostart(false));
    assert!(!toggled_autostart(true));
    assert_eq!(autostart_label(toggled_autostart(false)), "✓ Start with system");
    assert_eq!(autostart_label(toggled_autostart(true)), "Start with system");
}
