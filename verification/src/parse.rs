//! The parser: from one line of text to one event, or to the reason for
//! which the line holds none.

use crate::command::{outcome, Command, Error, ErrorView};
use crate::grammar::{
    event_of_fields, event_of_line, event_of_payload, fields_of, lemma_fields_of_count, number_of,
};
use crate::kind::{Field, Kind};
use crate::number::{parse_flag, parse_unsigned};
use crate::text::{split_once, trim};
use vstd::prelude::*;

verus! {

/// The characters of each text of `fields`.
pub open spec fn texts(fields: Seq<&str>) -> Seq<Seq<char>> {
    Seq::new(fields.len(), |i: int| fields[i]@)
}

/// Splits `payload` into `count` fields at its first `count - 1` commas.
///
/// The last field is all that stands behind the last of these commas. Returns
/// `None` where `payload` has too few commas. A payload has at least one
/// field, so a `count` of zero is taken as one.
pub fn split_fields<'a>(payload: &'a str, count: usize) -> (r: Option<Vec<&'a str>>)
    ensures
        match r {
            Some(fields) => fields_of(payload@, count as nat) == Some(texts(fields@)),
            None => fields_of(payload@, count as nat) is None,
        },
{
    let mut fields: Vec<&'a str> = Vec::new();
    let mut rest: &'a str = payload;
    let mut left: usize = count;
    while left > 1
        invariant
            fields_of(payload@, count as nat) == match fields_of(rest@, left as nat) {
                Some(more) => Some(texts(fields@) + more),
                None => None,
            },
        decreases left,
    {
        match split_once(rest, ",") {
            Some((head, tail)) => {
                proof {
                    let before = texts(fields@);
                    let after = texts(fields@.push(head));
                    assert(after =~= before + seq![head@]);
                    match fields_of(tail@, (left - 1) as nat) {
                        Some(more) => {
                            assert(before + (seq![head@] + more) =~= after + more);
                        },
                        None => {},
                    }
                }
                fields.push(head);
                rest = tail;
                left -= 1;
            },
            None => {
                return None;
            },
        }
    }
    proof {
        assert(texts(fields@) + seq![rest@] =~= texts(fields@.push(rest)));
    }
    fields.push(rest);
    Some(fields)
}

/// Reads `token` as the number in the field `field` of a payload of `kind`.
fn parse_number(kind: Kind, field: Field, token: &str) -> (r: Result<usize, Error>)
    ensures
        match r {
            Ok(value) => number_of(kind, field, token@) == Ok::<nat, ErrorView>(value as nat),
            Err(error) => number_of(kind, field, token@) == Err::<nat, ErrorView>(error@),
        },
{
    match parse_unsigned(token) {
        Some(value) => Ok(value),
        None => Err(Error::InvalidNumber { kind, field, token: token.to_owned() }),
    }
}

/// Builds the event of `kind` from the fields of its payload, in wire order.
fn assemble(kind: Kind, fields: &Vec<&str>) -> (r: Result<Command, Error>)
    requires
        fields@.len() == kind.arity(),
    ensures
        outcome(r) == event_of_fields(kind, texts(fields@)),
{
    match kind {
        Kind::Workspace => {
            let id: usize = parse_number(kind, Field::Id, fields[0])?;
            Ok(Command::Workspace(id))
        },
        Kind::CreateWorkspace => {
            let id: usize = parse_number(kind, Field::Id, fields[0])?;
            Ok(Command::CreateWorkspace(id))
        },
        Kind::DestroyWorkspace => {
            let id: usize = parse_number(kind, Field::Id, fields[0])?;
            Ok(Command::DestroyWorkspace(id))
        },
        Kind::ActiveWindow => Ok(
            Command::ActiveWindow { class: fields[0].to_owned(), title: fields[1].to_owned() },
        ),
        Kind::FocusedMon => {
            let workspace: usize = parse_number(kind, Field::Workspace, fields[1])?;
            Ok(Command::FocusedMon { monitor: fields[0].to_owned(), workspace })
        },
        Kind::FullScreen => match parse_flag(fields[0]) {
            Some(enabled) => Ok(Command::FullScreen(enabled)),
            None => Err(Error::InvalidBoolean { kind, token: fields[0].to_owned() }),
        },
        Kind::MonitorAdded => Ok(Command::MonitorAdded(fields[0].to_owned())),
        Kind::MonitorRemoved => Ok(Command::MonitorRemoved(fields[0].to_owned())),
        Kind::MoveWorkspace => {
            let workspace: usize = parse_number(kind, Field::Workspace, fields[0])?;
            Ok(Command::MoveWorkspace { workspace, monitor: fields[1].to_owned() })
        },
        Kind::OpenWindow => {
            let workspace: usize = parse_number(kind, Field::Workspace, fields[1])?;
            Ok(
                Command::OpenWindow {
                    address: fields[0].to_owned(),
                    class: fields[2].to_owned(),
                    title: fields[3].to_owned(),
                    workspace,
                },
            )
        },
        Kind::CloseWindow => Ok(Command::CloseWindow(fields[0].to_owned())),
        Kind::MoveWindow => {
            let workspace: usize = parse_number(kind, Field::Workspace, fields[1])?;
            Ok(Command::MoveWindow { address: fields[0].to_owned(), workspace })
        },
        Kind::OpenLayer => Ok(Command::OpenLayer(fields[0].to_owned())),
        Kind::CloseLayer => Ok(Command::CloseLayer(fields[0].to_owned())),
        Kind::SubMap => Ok(Command::SubMap(fields[0].to_owned())),
    }
}

/// Reads `payload` as the payload of an event of `kind`.
///
/// Fails with `MissingField` where the payload has fewer fields than the
/// kind, and otherwise with `InvalidNumber` or `InvalidBoolean` where a
/// field does not hold what the kind wants there.
pub fn parse_payload(kind: Kind, payload: &str) -> (r: Result<Command, Error>)
    ensures
        outcome(r) == event_of_payload(kind, payload@),
{
    let arity: usize = kind.field_count();
    proof {
        lemma_fields_of_count(payload@, arity as nat);
    }
    match split_fields(payload, arity) {
        Some(fields) => assemble(kind, &fields),
        None => Err(Error::MissingField { kind, arity }),
    }
}

impl std::str::FromStr for Command {
    type Err = Error;

    /// Reads one line of the event stream.
    ///
    /// White space at either end of the line does not count. Fails with
    /// `MalformedLine` where the line has no `>>`, with `UnknownEventKind`
    /// where what stands before the first `>>` is no keyword, and otherwise
    /// as [`parse_payload`] does on what stands behind it.
    fn from_str(line: &str) -> (r: Result<Command, Error>)
        ensures
            outcome(r) == event_of_line(line@),
    {
        match split_once(trim(line), ">>") {
            Some((keyword, payload)) => match Kind::from_keyword(keyword) {
                Some(kind) => parse_payload(kind, payload),
                None => Err(Error::UnknownEventKind(keyword.to_owned())),
            },
            None => Err(Error::MalformedLine),
        }
    }
}

} // verus!
