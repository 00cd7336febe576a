//! The events that a line can hold, the reasons for which a line holds none,
//! and the mathematical view of each.

use crate::kind::{Field, Kind};
use vstd::prelude::*;

verus! {

/// One event of the window manager, as one line of its event stream gives it.
///
/// Text fields are kept as they stand on the line; nothing interprets them.
#[derive(Clone, Debug, PartialEq, Eq)]
pub enum Command {
    /// The active workspace changed to the one with this number.
    Workspace(usize),
    /// The focus went to the window with this class and this title.
    ActiveWindow { title: String, class: String },
    /// The workspace with this number was created.
    CreateWorkspace(usize),
    /// The workspace with this number was destroyed.
    DestroyWorkspace(usize),
    /// The focus went to this monitor, which shows this workspace.
    FocusedMon { monitor: String, workspace: usize },
    /// A window entered (`true`) or left (`false`) full-screen mode.
    FullScreen(bool),
    /// The monitor with this name was connected.
    MonitorAdded(String),
    /// The monitor with this name was disconnected.
    MonitorRemoved(String),
    /// This workspace moved to this monitor.
    MoveWorkspace { workspace: usize, monitor: String },
    /// A window was opened on this workspace.
    OpenWindow { address: String, class: String, title: String, workspace: usize },
    /// The window at this address was closed.
    CloseWindow(String),
    /// The window at this address moved to this workspace.
    MoveWindow { address: String, workspace: usize },
    /// The layer with this name was opened.
    OpenLayer(String),
    /// The layer with this name was closed.
    CloseLayer(String),
    /// The keybinding submap changed to the one with this name.
    SubMap(String),
}

/// What a [`Command`] stands for: the same variants, with text as sequences
/// of characters and numbers as natural numbers.
pub enum CommandView {
    Workspace(nat),
    ActiveWindow { title: Seq<char>, class: Seq<char> },
    CreateWorkspace(nat),
    DestroyWorkspace(nat),
    FocusedMon { monitor: Seq<char>, workspace: nat },
    FullScreen(bool),
    MonitorAdded(Seq<char>),
    MonitorRemoved(Seq<char>),
    MoveWorkspace { workspace: nat, monitor: Seq<char> },
    OpenWindow { address: Seq<char>, class: Seq<char>, title: Seq<char>, workspace: nat },
    CloseWindow(Seq<char>),
    MoveWindow { address: Seq<char>, workspace: nat },
    OpenLayer(Seq<char>),
    CloseLayer(Seq<char>),
    SubMap(Seq<char>),
}

/// Why a line holds no event.
#[derive(Clone, Debug, PartialEq, Eq)]
pub enum Error {
    /// The line has no separator between keyword and payload.
    MalformedLine,
    /// The keyword, given here, names no kind of event.
    UnknownEventKind(String),
    /// The payload has fewer fields than the `arity` of its kind.
    MissingField { kind: Kind, arity: usize },
    /// The `token` in this field is no unsigned decimal integer.
    InvalidNumber { kind: Kind, field: Field, token: String },
    /// The `token` is a payload that is neither 0 nor 1.
    InvalidBoolean { kind: Kind, token: String },
}

/// What an [`Error`] stands for.
pub enum ErrorView {
    MalformedLine,
    UnknownEventKind(Seq<char>),
    MissingField { kind: Kind, arity: nat },
    InvalidNumber { kind: Kind, field: Field, token: Seq<char> },
    InvalidBoolean { kind: Kind, token: Seq<char> },
}

impl View for Command {
    type V = CommandView;

    open spec fn view(&self) -> CommandView {
        match *self {
            Command::Workspace(id) => CommandView::Workspace(id as nat),
            Command::ActiveWindow { title, class } => CommandView::ActiveWindow {
                title: title@,
                class: class@,
            },
            Command::CreateWorkspace(id) => CommandView::CreateWorkspace(id as nat),
            Command::DestroyWorkspace(id) => CommandView::DestroyWorkspace(id as nat),
            Command::FocusedMon { monitor, workspace } => CommandView::FocusedMon {
                monitor: monitor@,
                workspace: workspace as nat,
            },
            Command::FullScreen(enabled) => CommandView::FullScreen(enabled),
            Command::MonitorAdded(name) => CommandView::MonitorAdded(name@),
            Command::MonitorRemoved(name) => CommandView::MonitorRemoved(name@),
            Command::MoveWorkspace { workspace, monitor } => CommandView::MoveWorkspace {
                workspace: workspace as nat,
                monitor: monitor@,
            },
            Command::OpenWindow { address, class, title, workspace } => CommandView::OpenWindow {
                address: address@,
                class: class@,
                title: title@,
                workspace: workspace as nat,
            },
            Command::CloseWindow(address) => CommandView::CloseWindow(address@),
            Command::MoveWindow { address, workspace } => CommandView::MoveWindow {
                address: address@,
                workspace: workspace as nat,
            },
            Command::OpenLayer(name) => CommandView::OpenLayer(name@),
            Command::CloseLayer(name) => CommandView::CloseLayer(name@),
            Command::SubMap(name) => CommandView::SubMap(name@),
        }
    }
}

impl View for Error {
    type V = ErrorView;

    open spec fn view(&self) -> ErrorView {
        match *self {
            Error::MalformedLine => ErrorView::MalformedLine,
            Error::UnknownEventKind(keyword) => ErrorView::UnknownEventKind(keyword@),
            Error::MissingField { kind, arity } => ErrorView::MissingField {
                kind,
                arity: arity as nat,
            },
            Error::InvalidNumber { kind, field, token } => ErrorView::InvalidNumber {
                kind,
                field,
                token: token@,
            },
            Error::InvalidBoolean { kind, token } => ErrorView::InvalidBoolean {
                kind,
                token: token@,
            },
        }
    }
}

impl CommandView {
    /// The kind of this event.
    pub open spec fn kind(self) -> Kind {
        match self {
            CommandView::Workspace(..) => Kind::Workspace,
            CommandView::ActiveWindow { .. } => Kind::ActiveWindow,
            CommandView::CreateWorkspace(..) => Kind::CreateWorkspace,
            CommandView::DestroyWorkspace(..) => Kind::DestroyWorkspace,
            CommandView::FocusedMon { .. } => Kind::FocusedMon,
            CommandView::FullScreen(..) => Kind::FullScreen,
            CommandView::MonitorAdded(..) => Kind::MonitorAdded,
            CommandView::MonitorRemoved(..) => Kind::MonitorRemoved,
            CommandView::MoveWorkspace { .. } => Kind::MoveWorkspace,
            CommandView::OpenWindow { .. } => Kind::OpenWindow,
            CommandView::CloseWindow(..) => Kind::CloseWindow,
            CommandView::MoveWindow { .. } => Kind::MoveWindow,
            CommandView::OpenLayer(..) => Kind::OpenLayer,
            CommandView::CloseLayer(..) => Kind::CloseLayer,
            CommandView::SubMap(..) => Kind::SubMap,
        }
    }
}

impl Command {
    /// The kind of this event.
    pub fn kind(&self) -> (r: Kind)
        ensures
            r == self@.kind(),
    {
        match self {
            Command::Workspace(..) => Kind::Workspace,
            Command::ActiveWindow { .. } => Kind::ActiveWindow,
            Command::CreateWorkspace(..) => Kind::CreateWorkspace,
            Command::DestroyWorkspace(..) => Kind::DestroyWorkspace,
            Command::FocusedMon { .. } => Kind::FocusedMon,
            Command::FullScreen(..) => Kind::FullScreen,
            Command::MonitorAdded(..) => Kind::MonitorAdded,
            Command::MonitorRemoved(..) => Kind::MonitorRemoved,
            Command::MoveWorkspace { .. } => Kind::MoveWorkspace,
            Command::OpenWindow { .. } => Kind::OpenWindow,
            Command::CloseWindow(..) => Kind::CloseWindow,
            Command::MoveWindow { .. } => Kind::MoveWindow,
            Command::OpenLayer(..) => Kind::OpenLayer,
            Command::CloseLayer(..) => Kind::CloseLayer,
            Command::SubMap(..) => Kind::SubMap,
        }
    }
}

/// What the result of parsing a line stands for.
pub open spec fn outcome(result: Result<Command, Error>) -> Result<CommandView, ErrorView> {
    match result {
        Ok(command) => Ok(command@),
        Err(error) => Err(error@),
    }
}

} // verus!
