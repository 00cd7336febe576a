//! The kinds of event, each with the keyword that names it on the wire and
//! the number of fields that its payload holds.

use crate::text::{characters, same_text};
use vstd::prelude::*;

verus! {

/// The kind of an event: what stands before the separator of a line.
#[derive(Clone, Copy, Debug, PartialEq, Eq, Hash, Structural)]
pub enum Kind {
    Workspace,
    CreateWorkspace,
    DestroyWorkspace,
    ActiveWindow,
    FocusedMon,
    FullScreen,
    MonitorAdded,
    MonitorRemoved,
    MoveWorkspace,
    OpenWindow,
    CloseWindow,
    MoveWindow,
    OpenLayer,
    CloseLayer,
    SubMap,
}

/// A field of a payload that holds a number.
#[derive(Clone, Copy, Debug, PartialEq, Eq, Hash, Structural)]
pub enum Field {
    /// The number of the workspace that a workspace event is about.
    Id,
    /// The number of the workspace that a monitor or a window is on.
    Workspace,
}

impl Kind {
    /// The keyword of this kind: lower case, matched exactly.
    pub open spec fn keyword(self) -> Seq<char> {
        match self {
            Kind::Workspace => "workspace"@,
            Kind::CreateWorkspace => "createworkspace"@,
            Kind::DestroyWorkspace => "destroyworkspace"@,
            Kind::ActiveWindow => "activewindow"@,
            Kind::FocusedMon => "focusedmon"@,
            Kind::FullScreen => "fullscreen"@,
            Kind::MonitorAdded => "monitoradded"@,
            Kind::MonitorRemoved => "monitorremoved"@,
            Kind::MoveWorkspace => "moveworkspace"@,
            Kind::OpenWindow => "openwindow"@,
            Kind::CloseWindow => "closewindow"@,
            Kind::MoveWindow => "movewindow"@,
            Kind::OpenLayer => "openlayer"@,
            Kind::CloseLayer => "closelayer"@,
            Kind::SubMap => "submap"@,
        }
    }

    /// The number of fields in a payload of this kind. The last field takes
    /// the rest of the payload, with its commas.
    pub open spec fn arity(self) -> nat {
        match self {
            Kind::ActiveWindow | Kind::FocusedMon | Kind::MoveWorkspace | Kind::MoveWindow => 2,
            Kind::OpenWindow => 4,
            _ => 1,
        }
    }

    /// The kind that `keyword` names, or `None` where it names none.
    pub open spec fn of_keyword(keyword: Seq<char>) -> Option<Kind> {
        if exists|kind: Kind| #[trigger] kind.keyword() == keyword {
            Some(choose|kind: Kind| #[trigger] kind.keyword() == keyword)
        } else {
            None
        }
    }

    /// No two kinds share a keyword: the keyword of a kind names that kind.
    pub proof fn lemma_keyword_names_kind(self)
        ensures
            Kind::of_keyword(self.keyword()) == Some(self),
    {
        reveal_keywords();
        let chosen = choose|kind: Kind| #[trigger] kind.keyword() == self.keyword();
        assert(chosen.keyword() == self.keyword());
        assert(chosen.keyword()[0] == self.keyword()[0]);
        assert(chosen.keyword()[1] == self.keyword()[1]);
        assert(chosen.keyword()[4] == self.keyword()[4]);
    }

    /// A keyword holds lower-case letters only.
    pub proof fn lemma_keyword_is_lower_case(self)
        ensures
            self.keyword().len() > 0,
            forall|i: int|
                0 <= i < self.keyword().len() ==> 'a' <= #[trigger] self.keyword()[i] <= 'z',
    {
        reveal_keywords();
    }

    /// The keyword of this kind.
    pub fn name(self) -> (r: &'static str)
        ensures
            r@ == self.keyword(),
    {
        match self {
            Kind::Workspace => "workspace",
            Kind::CreateWorkspace => "createworkspace",
            Kind::DestroyWorkspace => "destroyworkspace",
            Kind::ActiveWindow => "activewindow",
            Kind::FocusedMon => "focusedmon",
            Kind::FullScreen => "fullscreen",
            Kind::MonitorAdded => "monitoradded",
            Kind::MonitorRemoved => "monitorremoved",
            Kind::MoveWorkspace => "moveworkspace",
            Kind::OpenWindow => "openwindow",
            Kind::CloseWindow => "closewindow",
            Kind::MoveWindow => "movewindow",
            Kind::OpenLayer => "openlayer",
            Kind::CloseLayer => "closelayer",
            Kind::SubMap => "submap",
        }
    }

    /// The number of fields in a payload of this kind.
    pub fn field_count(self) -> (r: usize)
        ensures
            r == self.arity(),
    {
        match self {
            Kind::ActiveWindow | Kind::FocusedMon | Kind::MoveWorkspace | Kind::MoveWindow => 2,
            Kind::OpenWindow => 4,
            _ => 1,
        }
    }

    /// Finds the kind that `keyword` names.
    ///
    /// The match is exact: no white space is dropped and upper case is not
    /// folded.
    pub fn from_keyword(keyword: &str) -> (r: Option<Kind>)
        ensures
            r == Kind::of_keyword(keyword@),
    {
        let chars = characters(keyword);
        let text = chars.as_slice();
        let found = if same_text(text, "workspace") {
            Some(Kind::Workspace)
        } else if same_text(text, "createworkspace") {
            Some(Kind::CreateWorkspace)
        } else if same_text(text, "destroyworkspace") {
            Some(Kind::DestroyWorkspace)
        } else if same_text(text, "activewindow") {
            Some(Kind::ActiveWindow)
        } else if same_text(text, "focusedmon") {
            Some(Kind::FocusedMon)
        } else if same_text(text, "fullscreen") {
            Some(Kind::FullScreen)
        } else if same_text(text, "monitoradded") {
            Some(Kind::MonitorAdded)
        } else if same_text(text, "monitorremoved") {
            Some(Kind::MonitorRemoved)
        } else if same_text(text, "moveworkspace") {
            Some(Kind::MoveWorkspace)
        } else if same_text(text, "openwindow") {
            Some(Kind::OpenWindow)
        } else if same_text(text, "closewindow") {
            Some(Kind::CloseWindow)
        } else if same_text(text, "movewindow") {
            Some(Kind::MoveWindow)
        } else if same_text(text, "openlayer") {
            Some(Kind::OpenLayer)
        } else if same_text(text, "closelayer") {
            Some(Kind::CloseLayer)
        } else if same_text(text, "submap") {
            Some(Kind::SubMap)
        } else {
            None
        };
        proof {
            match found {
                Some(kind) => {
                    kind.lemma_keyword_names_kind();
                },
                None => {
                    assert forall|kind: Kind| #[trigger] kind.keyword() != keyword@ by {}
                },
            }
        }
        found
    }
}

/// Spells out the fifteen keywords.
proof fn reveal_keywords()
    ensures
        "workspace"@ == seq!['w', 'o', 'r', 'k', 's', 'p', 'a', 'c', 'e'],
        "createworkspace"@ == seq!['c', 'r', 'e', 'a', 't', 'e', 'w', 'o', 'r', 'k', 's', 'p', 'a', 'c', 'e'],
        "destroyworkspace"@ == seq!['d', 'e', 's', 't', 'r', 'o', 'y', 'w', 'o', 'r', 'k', 's', 'p', 'a', 'c', 'e'],
        "activewindow"@ == seq!['a', 'c', 't', 'i', 'v', 'e', 'w', 'i', 'n', 'd', 'o', 'w'],
        "focusedmon"@ == seq!['f', 'o', 'c', 'u', 's', 'e', 'd', 'm', 'o', 'n'],
        "fullscreen"@ == seq!['f', 'u', 'l', 'l', 's', 'c', 'r', 'e', 'e', 'n'],
        "monitoradded"@ == seq!['m', 'o', 'n', 'i', 't', 'o', 'r', 'a', 'd', 'd', 'e', 'd'],
        "monitorremoved"@ == seq!['m', 'o', 'n', 'i', 't', 'o', 'r', 'r', 'e', 'm', 'o', 'v', 'e', 'd'],
        "moveworkspace"@ == seq!['m', 'o', 'v', 'e', 'w', 'o', 'r', 'k', 's', 'p', 'a', 'c', 'e'],
        "openwindow"@ == seq!['o', 'p', 'e', 'n', 'w', 'i', 'n', 'd', 'o', 'w'],
        "closewindow"@ == seq!['c', 'l', 'o', 's', 'e', 'w', 'i', 'n', 'd', 'o', 'w'],
        "movewindow"@ == seq!['m', 'o', 'v', 'e', 'w', 'i', 'n', 'd', 'o', 'w'],
        "openlayer"@ == seq!['o', 'p', 'e', 'n', 'l', 'a', 'y', 'e', 'r'],
        "closelayer"@ == seq!['c', 'l', 'o', 's', 'e', 'l', 'a', 'y', 'e', 'r'],
        "submap"@ == seq!['s', 'u', 'b', 'm', 'a', 'p'],
{
    reveal_strlit("workspace");
    reveal_strlit("createworkspace");
    reveal_strlit("destroyworkspace");
    reveal_strlit("activewindow");
    reveal_strlit("focusedmon");
    reveal_strlit("fullscreen");
    reveal_strlit("monitoradded");
    reveal_strlit("monitorremoved");
    reveal_strlit("moveworkspace");
    reveal_strlit("openwindow");
    reveal_strlit("closewindow");
    reveal_strlit("movewindow");
    reveal_strlit("openlayer");
    reveal_strlit("closelayer");
    reveal_strlit("submap");
}

} // verus!
