use hypr_events::parse::{parse_payload, split_fields};
use hypr_events::{Command, Error, Field, Kind};

const KINDS: [Kind; 15] = [
    Kind::Workspace,
    Kind::CreateWorkspace,
    Kind::DestroyWorkspace,
    Kind::ActiveWindow,
    Kind::FocusedMon,
    Kind::FullScreen,
    Kind::MonitorAdded,
    Kind::MonitorRemoved,
    Kind::MoveWorkspace,
    Kind::OpenWindow,
    Kind::CloseWindow,
    Kind::MoveWindow,
    Kind::OpenLayer,
    Kind::CloseLayer,
    Kind::SubMap,
];

#[test]
fn keywords() {
    let names: Vec<&str> = KINDS.iter().map(|kind| kind.name()).collect();
    assert_eq!(
        names,
        vec![
            "workspace",
            "createworkspace",
            "destroyworkspace",
            "activewindow",
            "focusedmon",
            "fullscreen",
            "monitoradded",
            "monitorremoved",
            "moveworkspace",
            "openwindow",
            "closewindow",
            "movewindow",
            "openlayer",
            "closelayer",
            "submap",
        ]
    );
}

#[test]
fn keyword_names_its_kind() {
    for kind in KINDS {
        assert_eq!(Kind::from_keyword(kind.name()), Some(kind));
    }
}

#[test]
fn other_text_names_no_kind() {
    for text in ["", "bogus", "Workspace", "workspace ", " workspace", "workspaces", "sub map"] {
        assert_eq!(Kind::from_keyword(text), None);
    }
}

#[test]
fn field_counts() {
    let counts: Vec<usize> = KINDS.iter().map(|kind| kind.field_count()).collect();
    assert_eq!(counts, vec![1, 1, 1, 2, 2, 1, 1, 1, 2, 4, 1, 2, 1, 1, 1]);
}

#[test]
fn fields_are_split_at_the_first_commas() {
    assert_eq!(split_fields("a,b,c,d", 1), Some(vec!["a,b,c,d"]));
    assert_eq!(split_fields("a,b,c,d", 2), Some(vec!["a", "b,c,d"]));
    assert_eq!(split_fields("a,b,c,d", 3), Some(vec!["a", "b", "c,d"]));
    assert_eq!(split_fields("a,b,c,d", 4), Some(vec!["a", "b", "c", "d"]));
    assert_eq!(split_fields("a,b,c,d", 5), None);
    assert_eq!(split_fields("", 1), Some(vec![""]));
    assert_eq!(split_fields("", 2), None);
    assert_eq!(split_fields(",,", 3), Some(vec!["", "", ""]));
}

#[test]
fn split_fields_agrees_with_splitn() {
    for payload in ["", "a", "a,b", ",", "a,,b", "0x55f,3,kitty,~/projects", "a,b,c,d,e,f"] {
        for count in 1..6usize {
            let parts: Vec<&str> = payload.splitn(count, ',').collect();
            let expected = if parts.len() == count { Some(parts) } else { None };
            assert_eq!(split_fields(payload, count), expected, "{:?} into {}", payload, count);
        }
    }
}

#[test]
fn payload_is_read_for_the_given_kind() {
    assert_eq!(parse_payload(Kind::Workspace, "3"), Ok(Command::Workspace(3)));
    assert_eq!(parse_payload(Kind::CreateWorkspace, "3"), Ok(Command::CreateWorkspace(3)));
    assert_eq!(parse_payload(Kind::SubMap, "3"), Ok(Command::SubMap("3".to_string())));
    assert_eq!(
        parse_payload(Kind::MoveWindow, "3"),
        Err(Error::MissingField { kind: Kind::MoveWindow, arity: 2 })
    );
    assert_eq!(
        parse_payload(Kind::MoveWindow, "3,x"),
        Err(Error::InvalidNumber {
            kind: Kind::MoveWindow,
            field: Field::Workspace,
            token: "x".to_string(),
        })
    );
}
