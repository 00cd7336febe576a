//! The grammar of an event line, as mathematics.
//!
//! A line is `keyword>>payload`, with white space allowed at either end. The
//! keyword names the kind of event; the payload holds the fields of that
//! kind, separated by commas, in the order in which they stand on the wire.

use crate::command::{CommandView, ErrorView};
use crate::kind::{Field, Kind};
use crate::number::{flag_value, unsigned_value};
use crate::text::{split_at_first, trimmed};
use vstd::prelude::*;

verus! {

/// What stands between the keyword and the payload.
pub open spec fn separator() -> Seq<char> {
    ">>"@
}

/// What stands between two fields of a payload.
pub open spec fn comma() -> Seq<char> {
    ","@
}

/// The `count` fields of `payload`: each field but the last ends before the
/// next comma, and the last is all that is left, with any further commas.
/// `None` where `payload` has fewer than `count - 1` commas. A payload has at
/// least one field, so a `count` of zero is taken as one.
pub open spec fn fields_of(payload: Seq<char>, count: nat) -> Option<Seq<Seq<char>>>
    decreases count,
{
    if count <= 1 {
        Some(seq![payload])
    } else {
        match split_at_first(payload, comma()) {
            Some((head, rest)) => match fields_of(rest, (count - 1) as nat) {
                Some(fields) => Some(seq![head] + fields),
                None => None,
            },
            None => None,
        }
    }
}

/// Where a payload has `count` fields, `fields_of` gives that many.
pub proof fn lemma_fields_of_count(payload: Seq<char>, count: nat)
    requires
        count >= 1,
    ensures
        fields_of(payload, count) matches Some(fields) ==> fields.len() == count,
    decreases count,
{
    if count > 1 {
        match split_at_first(payload, comma()) {
            Some((head, rest)) => {
                lemma_fields_of_count(rest, (count - 1) as nat);
            },
            None => {},
        }
    }
}

/// The number that `token` holds, as the field `field` of a payload of `kind`.
pub open spec fn number_of(kind: Kind, field: Field, token: Seq<char>) -> Result<nat, ErrorView> {
    match unsigned_value(token) {
        Some(value) => Ok(value),
        None => Err(ErrorView::InvalidNumber { kind, field, token }),
    }
}

/// The event of `kind` whose payload has these fields, in wire order.
///
/// The wire order of a kind is not the order of the variant's fields:
/// `activewindow` is `class,title`; `focusedmon` is `monitor,workspace` but
/// `moveworkspace` is `workspace,monitor`; `openwindow` is
/// `address,workspace,class,title`; `movewindow` is `address,workspace`.
pub open spec fn event_of_fields(kind: Kind, fields: Seq<Seq<char>>) -> Result<
    CommandView,
    ErrorView,
>
    recommends
        fields.len() == kind.arity(),
{
    match kind {
        Kind::Workspace => match number_of(kind, Field::Id, fields[0]) {
            Ok(id) => Ok(CommandView::Workspace(id)),
            Err(error) => Err(error),
        },
        Kind::CreateWorkspace => match number_of(kind, Field::Id, fields[0]) {
            Ok(id) => Ok(CommandView::CreateWorkspace(id)),
            Err(error) => Err(error),
        },
        Kind::DestroyWorkspace => match number_of(kind, Field::Id, fields[0]) {
            Ok(id) => Ok(CommandView::DestroyWorkspace(id)),
            Err(error) => Err(error),
        },
        Kind::ActiveWindow => Ok(CommandView::ActiveWindow { class: fields[0], title: fields[1] }),
        Kind::FocusedMon => match number_of(kind, Field::Workspace, fields[1]) {
            Ok(workspace) => Ok(CommandView::FocusedMon { monitor: fields[0], workspace }),
            Err(error) => Err(error),
        },
        Kind::FullScreen => match flag_value(fields[0]) {
            Some(enabled) => Ok(CommandView::FullScreen(enabled)),
            None => Err(ErrorView::InvalidBoolean { kind, token: fields[0] }),
        },
        Kind::MonitorAdded => Ok(CommandView::MonitorAdded(fields[0])),
        Kind::MonitorRemoved => Ok(CommandView::MonitorRemoved(fields[0])),
        Kind::MoveWorkspace => match number_of(kind, Field::Workspace, fields[0]) {
            Ok(workspace) => Ok(CommandView::MoveWorkspace { workspace, monitor: fields[1] }),
            Err(error) => Err(error),
        },
        Kind::OpenWindow => match number_of(kind, Field::Workspace, fields[1]) {
            Ok(workspace) => Ok(
                CommandView::OpenWindow {
                    address: fields[0],
                    workspace,
                    class: fields[2],
                    title: fields[3],
                },
            ),
            Err(error) => Err(error),
        },
        Kind::CloseWindow => Ok(CommandView::CloseWindow(fields[0])),
        Kind::MoveWindow => match number_of(kind, Field::Workspace, fields[1]) {
            Ok(workspace) => Ok(CommandView::MoveWindow { address: fields[0], workspace }),
            Err(error) => Err(error),
        },
        Kind::OpenLayer => Ok(CommandView::OpenLayer(fields[0])),
        Kind::CloseLayer => Ok(CommandView::CloseLayer(fields[0])),
        Kind::SubMap => Ok(CommandView::SubMap(fields[0])),
    }
}

/// The event of `kind` that `payload` holds: the payload is split into the
/// fields of the kind first, and the fields are read after that, so a missing
/// field is reported before a field that is no number.
pub open spec fn event_of_payload(kind: Kind, payload: Seq<char>) -> Result<
    CommandView,
    ErrorView,
> {
    match fields_of(payload, kind.arity()) {
        Some(fields) => event_of_fields(kind, fields),
        None => Err(ErrorView::MissingField { kind, arity: kind.arity() }),
    }
}

/// The event that `line` holds, or the reason for which it holds none.
///
/// The line is trimmed and split at its first separator. Without a separator
/// it is malformed. What stands before the separator must be a keyword, as it
/// is: nothing more is trimmed. What stands behind it is the payload of that
/// kind.
pub open spec fn event_of_line(line: Seq<char>) -> Result<CommandView, ErrorView> {
    match split_at_first(trimmed(line), separator()) {
        Some((keyword, payload)) => match Kind::of_keyword(keyword) {
            Some(kind) => event_of_payload(kind, payload),
            None => Err(ErrorView::UnknownEventKind(keyword)),
        },
        None => Err(ErrorView::MalformedLine),
    }
}

/// The payload that holds `fields`: each followed by a comma, but the last.
pub open spec fn joined(fields: Seq<Seq<char>>) -> Seq<char>
    decreases fields.len(),
{
    if fields.len() == 0 {
        Seq::empty()
    } else if fields.len() == 1 {
        fields[0]
    } else {
        fields[0] + comma() + joined(fields.drop_first())
    }
}

/// The line that holds `payload` under `keyword`.
pub open spec fn line_of(keyword: Seq<char>, payload: Seq<char>) -> Seq<char> {
    keyword + separator() + payload
}

/// Whether each of `fields` holds what `kind` wants in its place: a number
/// where the kind has a number, a flag where it has a flag. Any text is a
/// text field.
pub open spec fn well_typed(kind: Kind, fields: Seq<Seq<char>>) -> bool
    recommends
        fields.len() == kind.arity(),
{
    match kind {
        Kind::Workspace | Kind::CreateWorkspace | Kind::DestroyWorkspace | Kind::MoveWorkspace =>
            unsigned_value(fields[0]) is Some,
        Kind::FocusedMon | Kind::OpenWindow | Kind::MoveWindow => unsigned_value(fields[1]) is Some,
        Kind::FullScreen => flag_value(fields[0]) is Some,
        _ => true,
    }
}

} // verus!
