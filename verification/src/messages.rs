use vstd::prelude::*;
use vstd::string::StringSliceAdditionalSpecFns;
use crate::lock::ButtonIndex;
use crate::map::Label;
use crate::state::{MessageInfo, RambleIndex, Screen};
use crate::text::{lines_of, lines_valid, wrapped, Segment, SegmentView};
use crate::xy::{x as x_of, y as y_of};

verus! {

/// What is said to tell that the button called `name` is the one to press at the place `index`.
pub open spec fn reveal_line(name: Label, index: ButtonIndex) -> &'static str {
    match name {
        Label::North => if index == 0 {
            "push the north button first"
        } else if index == 1 {
            "push the north button second"
        } else if index == 2 {
            "push the north button third"
        } else if index == 3 {
            "push the north button fourth"
        } else {
            "missing_password_reveal_message"
        },
        Label::East => if index == 0 {
            "push the east button first"
        } else if index == 1 {
            "push the east button second"
        } else if index == 2 {
            "push the east button third"
        } else if index == 3 {
            "push the east button fourth"
        } else {
            "missing_password_reveal_message"
        },
        Label::South => if index == 0 {
            "push the south button first"
        } else if index == 1 {
            "push the south button second"
        } else if index == 2 {
            "push the south button third"
        } else if index == 3 {
            "push the south button fourth"
        } else {
            "missing_password_reveal_message"
        },
        Label::West => if index == 0 {
            "push the west button first"
        } else if index == 1 {
            "push the west button second"
        } else if index == 2 {
            "push the west button third"
        } else if index == 3 {
            "push the west button fourth"
        } else {
            "missing_password_reveal_message"
        },
        Label::Unlabeled => "missing_password_reveal_message",
    }
}

/// The part `index` of the ramble.
pub open spec fn ramble_line(index: RambleIndex) -> &'static str {
    if index == 0 {
        "let me tell you a story from my childhood."
    } else if index == 1 {
        "one day we were all playing in the graveyard. we must have run past a dozen rows of graves."
    } else if index == 2 {
        "but then we were bushed so we walked past all eight of the johnson family's graves."
    } else if index == 3 {
        "that's the trouble with kids these days, they don't know how to walk it off!"
    } else if index == 4 {
        "then blair had the \"bright idea\" to stop and lean against one of the gravestones."
    } else if index == 5 {
        "that kid always had an aversion to laying down right in a field for some reason. anyway..."
    } else if index == 6 {
        "well blair ended up pushing the bloody thing out of its proper place!"
    } else if index == 7 {
        "we quickly put the thing back and booked it out of there before anyone noticed"
    } else if index == 8 {
        "and no one ever did! that's the moral of the story kid: it only counts if you get caught"
    } else if index == 9 {
        "that's the trouble with kids these days, imagining some kind of absolute morality, independent of the consquences! pshaw!"
    } else {
        "... blah ... blah ... blah ..."
    }
}

/// What is said for `message`, by a lock whose buttons are called `names`; nothing for no
/// message.
pub open spec fn message_line(message: MessageInfo, names: Seq<Label>) -> Option<&'static str> {
    match message {
        MessageInfo::NoMessage => None,
        MessageInfo::PasswordReveal { index } => Some(
            if index < names.len() {
                reveal_line(names[index as int], index)
            } else {
                "missing_password_reveal_message"
            },
        ),
        MessageInfo::PasswordRevealRefused => Some("someone else told already. i won't."),
        MessageInfo::ForgotPassword => Some("i forgot my part of the password"),
        MessageInfo::Ramble(index) => Some(ramble_line(index)),
        MessageInfo::GhostOoo => Some("... Ooooo ... ooooo .. ooooo! ..."),
    }
}

/// The two lines of the last screen.
pub open spec fn congraturation_lines() -> Seq<SegmentView> {
    seq![
        SegmentView {
            text: "congraturation".spec_bytes(),
            start: 0,
            end: "congraturation".spec_bytes().len() as int,
            x: 12,
            y: 4,
        },
        SegmentView {
            text: "this story is happy end".spec_bytes(),
            start: 0,
            end: "this story is happy end".spec_bytes().len() as int,
            x: 4,
            y: 8,
        },
    ]
}

/// The lines of text on show: those of the last screen, or those of the message, broken to
/// fit the text box.
pub open spec fn message_lines(screen: Screen, message: MessageInfo, names: Seq<Label>) -> Seq<
    SegmentView,
> {
    match screen {
        Screen::Congraturation => congraturation_lines(),
        Screen::Gameplay => match message_line(message, names) {
            Some(line) => wrapped(line.spec_bytes()),
            None => Seq::empty(),
        },
    }
}

/// What is said to tell that the button called `name` is the one to press at the place `index`.
pub fn reveal_text(name: Label, index: ButtonIndex) -> (r: &'static str)
    ensures
        r == reveal_line(name, index),
{
    match name {
        Label::North => {
            if index == 0 {
                "push the north button first"
            } else if index == 1 {
                "push the north button second"
            } else if index == 2 {
                "push the north button third"
            } else if index == 3 {
                "push the north button fourth"
            } else {
                "missing_password_reveal_message"
            }
        },
        Label::East => {
            if index == 0 {
                "push the east button first"
            } else if index == 1 {
                "push the east button second"
            } else if index == 2 {
                "push the east button third"
            } else if index == 3 {
                "push the east button fourth"
            } else {
                "missing_password_reveal_message"
            }
        },
        Label::South => {
            if index == 0 {
                "push the south button first"
            } else if index == 1 {
                "push the south button second"
            } else if index == 2 {
                "push the south button third"
            } else if index == 3 {
                "push the south button fourth"
            } else {
                "missing_password_reveal_message"
            }
        },
        Label::West => {
            if index == 0 {
                "push the west button first"
            } else if index == 1 {
                "push the west button second"
            } else if index == 2 {
                "push the west button third"
            } else if index == 3 {
                "push the west button fourth"
            } else {
                "missing_password_reveal_message"
            }
        },
        Label::Unlabeled => "missing_password_reveal_message",
    }
}

/// The part `index` of the ramble.
pub fn ramble_text(index: RambleIndex) -> (r: &'static str)
    ensures
        r == ramble_line(index),
{
    if index == 0 {
        "let me tell you a story from my childhood."
    } else if index == 1 {
        "one day we were all playing in the graveyard. we must have run past a dozen rows of graves."
    } else if index == 2 {
        "but then we were bushed so we walked past all eight of the johnson family's graves."
    } else if index == 3 {
        "that's the trouble with kids these days, they don't know how to walk it off!"
    } else if index == 4 {
        "then blair had the \"bright idea\" to stop and lean against one of the gravestones."
    } else if index == 5 {
        "that kid always had an aversion to laying down right in a field for some reason. anyway..."
    } else if index == 6 {
        "well blair ended up pushing the bloody thing out of its proper place!"
    } else if index == 7 {
        "we quickly put the thing back and booked it out of there before anyone noticed"
    } else if index == 8 {
        "and no one ever did! that's the moral of the story kid: it only counts if you get caught"
    } else if index == 9 {
        "that's the trouble with kids these days, imagining some kind of absolute morality, independent of the consquences! pshaw!"
    } else {
        "... blah ... blah ... blah ..."
    }
}

/// The lines of the last screen.
pub fn congraturation_segments() -> (r: Vec<Segment>)
    ensures
        lines_of(r@) == congraturation_lines(),
        lines_valid(lines_of(r@)),
{
    let mut lines: Vec<Segment> = Vec::new();
    lines.push(Segment::whole("congraturation".as_bytes(), x_of(12), y_of(4)));
    lines.push(Segment::whole("this story is happy end".as_bytes(), x_of(4), y_of(8)));
    assert(lines_of(lines@) =~= congraturation_lines());
    lines
}

} // verus!
