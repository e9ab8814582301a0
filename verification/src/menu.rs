//! The menu's choices, their order and their labels.

use vstd::prelude::*;

verus! {

/// What a line typed at the menu stands for.
#[derive(Clone, Copy, Debug, PartialEq, Eq, Structural)]
pub enum Menu {
    Ownership,
    Structs,
    Enums,
    Reliability,
    Quit,
    /// The line names no choice.
    Invalid,
}

impl Menu {
    /// Place of the choice in the menu, from the top. A line that could name
    /// several choices names the one of least rank.
    pub open spec fn rank(self) -> nat {
        match self {
            Menu::Ownership => 0,
            Menu::Structs => 1,
            Menu::Enums => 2,
            Menu::Reliability => 3,
            Menu::Quit => 4,
            Menu::Invalid => 5,
        }
    }

    /// The lowercase word a line is held against to name this choice.
    /// `Invalid` has no label: the empty text stands for it here.
    pub open spec fn label_text(self) -> Seq<char> {
        match self {
            Menu::Ownership => "ownership"@,
            Menu::Structs => "structs"@,
            Menu::Enums => "enums"@,
            Menu::Reliability => "reliability"@,
            Menu::Quit => "quit"@,
            Menu::Invalid => Seq::empty(),
        }
    }

    /// The label of this choice; `Invalid` has none.
    pub fn label(self) -> (text: Option<&'static str>)
        ensures
            text is None <==> self == Menu::Invalid,
            text is Some ==> text->0@ == self.label_text(),
    {
        match self {
            Menu::Ownership => Some("ownership"),
            Menu::Structs => Some("structs"),
            Menu::Enums => Some("enums"),
            Menu::Reliability => Some("reliability"),
            Menu::Quit => Some("quit"),
            Menu::Invalid => None,
        }
    }
}

} // verus!
