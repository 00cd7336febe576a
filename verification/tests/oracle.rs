use hypr_events::number::{parse_flag, parse_unsigned};
use hypr_events::text::{split_once, trim};
use hypr_events::{Command, Error, Field, Kind};

/// A small generator of repeatable pseudo-random numbers.
struct Source(u64);

impl Source {
    fn next(&mut self, bound: usize) -> usize {
        self.0 = self.0.wrapping_mul(6364136223846793005).wrapping_add(1442695040888963407);
        ((self.0 >> 33) as usize) % bound
    }

    fn pick<'a>(&mut self, items: &[&'a str]) -> &'a str {
        items[self.next(items.len())]
    }

    fn text(&mut self, pieces: &[&str], most: usize) -> String {
        let count = self.next(most + 1);
        let mut text = String::new();
        for _ in 0..count {
            text.push_str(self.pick(pieces));
        }
        text
    }
}

const KEYWORDS: [&str; 19] = [
    "workspace",
    "createworkspace",
    "destroyworkspace",
    "activewindow",
    "focusedmon",
    "fullscreen",
    "monitoradded",
    "monitorremoved",
    "moveworkspace",
    "openwindow",
    "closewindow",
    "movewindow",
    "openlayer",
    "closelayer",
    "submap",
    "",
    "bogus",
    "Workspace",
    "work space",
];

const PIECES: [&str; 20] = [
    "0", "1", "2", "7", "10", "+", "-", ",", ",", ">", ">>", " ", "\t", "a", "DP-1", "é", "\u{a0}",
    "0x5", "\n", "18446744073709551616",
];

fn number(kind: Kind, field: Field, token: &str) -> Result<usize, Error> {
    token.parse::<usize>().map_err(|_| Error::InvalidNumber {
        kind,
        field,
        token: token.to_string(),
    })
}

fn fields(kind: Kind, payload: &str, count: usize) -> Result<Vec<&str>, Error> {
    let parts: Vec<&str> = payload.splitn(count, ',').collect();
    if parts.len() == count {
        Ok(parts)
    } else {
        Err(Error::MissingField { kind, arity: count })
    }
}

/// The grammar, written with the scanning functions of the standard library.
fn expected(line: &str) -> Result<Command, Error> {
    let (keyword, payload) = line.trim().split_once(">>").ok_or(Error::MalformedLine)?;
    let one = payload.to_string();
    match keyword {
        "workspace" => Ok(Command::Workspace(number(Kind::Workspace, Field::Id, payload)?)),
        "createworkspace" => {
            Ok(Command::CreateWorkspace(number(Kind::CreateWorkspace, Field::Id, payload)?))
        }
        "destroyworkspace" => {
            Ok(Command::DestroyWorkspace(number(Kind::DestroyWorkspace, Field::Id, payload)?))
        }
        "activewindow" => {
            let parts = fields(Kind::ActiveWindow, payload, 2)?;
            Ok(Command::ActiveWindow { class: parts[0].to_string(), title: parts[1].to_string() })
        }
        "focusedmon" => {
            let parts = fields(Kind::FocusedMon, payload, 2)?;
            let workspace = number(Kind::FocusedMon, Field::Workspace, parts[1])?;
            Ok(Command::FocusedMon { monitor: parts[0].to_string(), workspace })
        }
        "fullscreen" => match payload.parse::<i32>() {
            Ok(0) => Ok(Command::FullScreen(false)),
            Ok(1) => Ok(Command::FullScreen(true)),
            _ => Err(Error::InvalidBoolean { kind: Kind::FullScreen, token: one }),
        },
        "monitoradded" => Ok(Command::MonitorAdded(one)),
        "monitorremoved" => Ok(Command::MonitorRemoved(one)),
        "moveworkspace" => {
            let parts = fields(Kind::MoveWorkspace, payload, 2)?;
            let workspace = number(Kind::MoveWorkspace, Field::Workspace, parts[0])?;
            Ok(Command::MoveWorkspace { workspace, monitor: parts[1].to_string() })
        }
        "openwindow" => {
            let parts = fields(Kind::OpenWindow, payload, 4)?;
            let workspace = number(Kind::OpenWindow, Field::Workspace, parts[1])?;
            Ok(Command::OpenWindow {
                address: parts[0].to_string(),
                class: parts[2].to_string(),
                title: parts[3].to_string(),
                workspace,
            })
        }
        "closewindow" => Ok(Command::CloseWindow(one)),
        "movewindow" => {
            let parts = fields(Kind::MoveWindow, payload, 2)?;
            let workspace = number(Kind::MoveWindow, Field::Workspace, parts[1])?;
            Ok(Command::MoveWindow { address: parts[0].to_string(), workspace })
        }
        "openlayer" => Ok(Command::OpenLayer(one)),
        "closelayer" => Ok(Command::CloseLayer(one)),
        "submap" => Ok(Command::SubMap(one)),
        other => Err(Error::UnknownEventKind(other.to_string())),
    }
}

#[test]
fn generated_lines_parse_as_the_standard_library_reads_them() {
    let mut source = Source(1);
    for _ in 0..20000 {
        let mut line = source.text(&[" ", "\n", "\u{3000}"], 2);
        line.push_str(source.pick(&KEYWORDS));
        line.push_str(source.pick(&[">>", ">>", ">>", ">", "", " >>"]));
        line.push_str(&source.text(&PIECES, 8));
        assert_eq!(line.parse::<Command>(), expected(&line), "{:?}", line);
    }
}

#[test]
fn generated_text_is_trimmed_and_split_as_the_standard_library_does() {
    let mut source = Source(2);
    for _ in 0..20000 {
        let text = source.text(&PIECES, 10);
        assert_eq!(trim(&text), text.trim(), "{:?}", text);
        for pattern in [">>", ",", " ", "1", "a,"] {
            assert_eq!(split_once(&text, pattern), text.split_once(pattern), "{:?}", text);
        }
    }
}

#[test]
fn generated_numbers_are_read_as_the_standard_library_reads_them() {
    let mut source = Source(3);
    let digits = ["0", "0", "1", "1", "2", "9", "+", "-", " ", "a", "18446744073709551615"];
    for _ in 0..20000 {
        let text = source.text(&digits, 6);
        assert_eq!(parse_unsigned(&text), text.parse::<usize>().ok(), "{:?}", text);
        let flag = match text.parse::<i32>() {
            Ok(0) => Some(false),
            Ok(1) => Some(true),
            _ => None,
        };
        assert_eq!(parse_flag(&text), flag, "{:?}", text);
    }
}
