//! What the system tray menu decides: which command an item stands for, the
//! new start-with-the-system setting when it is toggled, and the item's label.

use vstd::prelude::*;

use crate::text::str_eq;

verus! {

/// The commands of the tray menu.
#[derive(Debug, Clone, Copy, PartialEq, Eq, Structural)]
pub enum TrayCommand {
    /// Show the main window and focus it.
    Open,
    /// Flip the start-with-the-system setting.
    ToggleAutostart,
    /// Leave the application.
    Quit,
    /// An item this menu does not know; nothing happens.
    Ignore,
}

/// The command of a menu item id.
pub open spec fn command_of(id: Seq<char>) -> TrayCommand {
    if id == "open"@ {
        TrayCommand::Open
    } else if id == "autostart"@ {
        TrayCommand::ToggleAutostart
    } else if id == "quit"@ {
        TrayCommand::Quit
    } else {
        TrayCommand::Ignore
    }
}

/// The command that a click on the menu item `id` asks for.
pub fn tray_command(id: &str) -> (r: TrayCommand)
    ensures
        r == command_of(id@),
{
    if str_eq(id, "open") {
        TrayCommand::Open
    } else if str_eq(id, "autostart") {
        TrayCommand::ToggleAutostart
    } else if str_eq(id, "quit") {
        TrayCommand::Quit
    } else {
        TrayCommand::Ignore
    }
}

/// The setting to write when the autostart item is clicked: the opposite of
/// the one currently in force.
pub fn toggled_autostart(current: bool) -> (r: bool)
    ensures
        r == !current,
{
    !current
}

/// The label of the autostart item, checked while the setting is on.
pub fn autostart_label(enabled: bool) -> (r: &'static str)
    ensures
        enabled ==> r@ == "✓ Start with system"@,
        !enabled ==> r@ == "Start with system"@,
{
    if enabled {
        "✓ Start with system"
    } else {
        "Start with system"
    }
}

} // verus!
