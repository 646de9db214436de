use vstd::prelude::*;

verus! {

/// Why a text could not be read as a message.
#[derive(Debug, Clone, Copy, PartialEq, Eq, Structural)]
pub enum EdifactError {
    /// The first line opens with `UNA` but is too short to name six delimiters.
    MalformedUnaHeader,
    /// The text ended before a segment terminator was seen.
    IncompleteSegment,
    /// The text ended right after an escape character.
    InvalidEscape,
}

impl EdifactError {
    /// The text of the error, in one line.
    pub open spec fn message_text(self) -> Seq<char> {
        match self {
            EdifactError::MalformedUnaHeader =>
                "EDIFACT Error: service line UNA is shorter than nine characters"@,
            EdifactError::IncompleteSegment => "EDIFACT Error: segment has no terminator"@,
            EdifactError::InvalidEscape =>
                "EDIFACT Error: escape character at the end of the text"@,
        }
    }

    /// The text of the error, in one line.
    pub fn message(&self) -> (text: String)
        ensures
            text@ == self.message_text(),
    {
        match self {
            EdifactError::MalformedUnaHeader => {
                "EDIFACT Error: service line UNA is shorter than nine characters".to_owned()
            },
            EdifactError::IncompleteSegment => "EDIFACT Error: segment has no terminator".to_owned(),
            EdifactError::InvalidEscape => {
                "EDIFACT Error: escape character at the end of the text".to_owned()
            },
        }
    }
}

} // verus!
