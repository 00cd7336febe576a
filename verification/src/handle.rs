//! What is reported of an event once it is parsed.

use crate::command::{Command, CommandView};
use crate::number::{decimal_digits, format_decimal};
use vstd::prelude::*;

verus! {

/// Whether an event has a report. The coming and going of a monitor has none.
pub open spec fn is_handled(command: CommandView) -> bool {
    !(command is MonitorAdded) && !(command is MonitorRemoved)
}

/// How a flag is written in a report.
pub open spec fn flag_text(flag: bool) -> Seq<char> {
    if flag {
        "true"@
    } else {
        "false"@
    }
}

/// The report of an event: one line of text that names what happened, with
/// numbers in decimal. An event without a report has the empty text here.
pub open spec fn report_of(command: CommandView) -> Seq<char>
    recommends
        is_handled(command),
{
    match command {
        CommandView::Workspace(id) => "Workspace "@ + decimal_digits(id),
        CommandView::ActiveWindow { title, class } => "Switched to window "@ + class + " : "@
            + title,
        CommandView::CreateWorkspace(id) => "WorkSpace Created: "@ + decimal_digits(id),
        CommandView::DestroyWorkspace(id) => "WorkSpace Destroyed: "@ + decimal_digits(id),
        CommandView::FocusedMon { monitor, workspace } => "Changed Monitor to "@ + monitor + ": "@
            + decimal_digits(workspace),
        CommandView::FullScreen(enabled) => "Full screen mode : "@ + flag_text(enabled),
        CommandView::MonitorAdded(_) => Seq::empty(),
        CommandView::MonitorRemoved(_) => Seq::empty(),
        CommandView::MoveWorkspace { workspace, monitor } => "Workspace "@ + decimal_digits(
            workspace,
        ) + " moved to monitor "@ + monitor,
        CommandView::OpenWindow { address, class, title, workspace } => "Window "@ + title + "-"@
            + class + " = "@ + address + " Opened in workspace "@ + decimal_digits(workspace),
        CommandView::CloseWindow(address) => "Closed Window "@ + address,
        CommandView::MoveWindow { address, workspace } => "Window "@ + address
            + " moved to workspace "@ + decimal_digits(workspace),
        CommandView::OpenLayer(name) => "Layer "@ + name + " Opened"@,
        CommandView::CloseLayer(name) => "Layer "@ + name + " closed"@,
        CommandView::SubMap(name) => "Submap event "@ + name,
    }
}

/// Tells whether `cmd` has a report, that is whether [`handle`] takes it.
pub fn has_handler(cmd: &Command) -> (r: bool)
    ensures
        r == is_handled(cmd@),
{
    match cmd {
        Command::MonitorAdded(_) => false,
        Command::MonitorRemoved(_) => false,
        _ => true,
    }
}

/// Writes the report of an event.
///
/// An event of a monitor that was added or removed has no report, and may
/// not be handed in: [`has_handler`] tells.
pub fn handle(cmd: &Command) -> (r: String)
    requires
        is_handled(cmd@),
    ensures
        r@ == report_of(cmd@),
{
    match cmd {
        Command::Workspace(id) => {
            let number = format_decimal(*id);
            let mut text = "Workspace ".to_owned();
            text.append(number.as_str());
            text
        },
        Command::ActiveWindow { title, class } => {
            let mut text = "Switched to window ".to_owned();
            text.append(class.as_str());
            text.append(" : ");
            text.append(title.as_str());
            text
        },
        Command::CreateWorkspace(id) => {
            let number = format_decimal(*id);
            let mut text = "WorkSpace Created: ".to_owned();
            text.append(number.as_str());
            text
        },
        Command::DestroyWorkspace(id) => {
            let number = format_decimal(*id);
            let mut text = "WorkSpace Destroyed: ".to_owned();
            text.append(number.as_str());
            text
        },
        Command::FocusedMon { monitor, workspace } => {
            let number = format_decimal(*workspace);
            let mut text = "Changed Monitor to ".to_owned();
            text.append(monitor.as_str());
            text.append(": ");
            text.append(number.as_str());
            text
        },
        Command::FullScreen(enabled) => {
            let mut text = "Full screen mode : ".to_owned();
            text.append(if *enabled { "true" } else { "false" });
            text
        },
        Command::MonitorAdded(_) => String::new(),
        Command::MonitorRemoved(_) => String::new(),
        Command::MoveWorkspace { workspace, monitor } => {
            let number = format_decimal(*workspace);
            let mut text = "Workspace ".to_owned();
            text.append(number.as_str());
            text.append(" moved to monitor ");
            text.append(monitor.as_str());
            text
        },
        Command::OpenWindow { address, class, title, workspace } => {
            let number = format_decimal(*workspace);
            let mut text = "Window ".to_owned();
            text.append(title.as_str());
            text.append("-");
            text.append(class.as_str());
            text.append(" = ");
            text.append(address.as_str());
            text.append(" Opened in workspace ");
            text.append(number.as_str());
            text
        },
        Command::CloseWindow(address) => {
            let mut text = "Closed Window ".to_owned();
            text.append(address.as_str());
            text
        },
        Command::MoveWindow { address, workspace } => {
            let number = format_decimal(*workspace);
            let mut text = "Window ".to_owned();
            text.append(address.as_str());
            text.append(" moved to workspace ");
            text.append(number.as_str());
            text
        },
        Command::OpenLayer(name) => {
            let mut text = "Layer ".to_owned();
            text.append(name.as_str());
            text.append(" Opened");
            text
        },
        Command::CloseLayer(name) => {
            let mut text = "Layer ".to_owned();
            text.append(name.as_str());
            text.append(" closed");
            text
        },
        Command::SubMap(name) => {
            let mut text = "Submap event ".to_owned();
            text.append(name.as_str());
            text
        },
    }
}

} // verus!
