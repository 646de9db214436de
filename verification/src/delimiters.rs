use vstd::prelude::*;

verus! {

/// The six service characters of a message.
#[derive(Debug, Clone, Copy, PartialEq, Eq, Structural)]
pub struct Delimiters {
    /// Separates the components of one data element.
    pub component: char,
    /// Separates data elements, and the tag from the first of them.
    pub data: char,
    /// The decimal mark. It separates nothing, but is written escaped.
    pub decimal: char,
    /// Makes the character after it literal.
    pub escape: char,
    /// Ends a segment.
    pub segment: char,
    /// Reserved. It separates nothing, but is written escaped.
    pub reserved: char,
}

/// What a character means to the tokenizer when it is not escaped.
#[derive(Debug, Clone, Copy, PartialEq, Eq, Structural)]
pub enum CharRole {
    /// Makes the next character literal.
    Escape,
    /// Closes a component.
    Component,
    /// Closes a component and its element.
    Data,
    /// Ends the segment.
    Terminator,
    /// Belongs to the open component.
    Literal,
}

impl Delimiters {
    /// The set `:+.?*'` that holds when no service line says otherwise.
    pub open spec fn standard() -> Delimiters {
        Delimiters {
            component: ':',
            data: '+',
            decimal: '.',
            escape: '?',
            segment: '\'',
            reserved: '*',
        }
    }

    /// The role of `c`. Where two delimiters are the same character, the
    /// earlier of escape, component, data, terminator wins.
    pub open spec fn role_of(self, c: char) -> CharRole {
        if c == self.escape {
            CharRole::Escape
        } else if c == self.component {
            CharRole::Component
        } else if c == self.data {
            CharRole::Data
        } else if c == self.segment {
            CharRole::Terminator
        } else {
            CharRole::Literal
        }
    }

    /// Whether the serializer writes an escape character before `c`.
    /// The escape character itself is not among these.
    pub open spec fn needs_escape(self, c: char) -> bool {
        c == self.data || c == self.component || c == self.decimal || c == self.segment
            || c == self.reserved
    }

    /// The role of `c` to the tokenizer.
    pub fn role(&self, c: char) -> (r: CharRole)
        ensures
            r == self.role_of(c),
    {
        if c == self.escape {
            CharRole::Escape
        } else if c == self.component {
            CharRole::Component
        } else if c == self.data {
            CharRole::Data
        } else if c == self.segment {
            CharRole::Terminator
        } else {
            CharRole::Literal
        }
    }

    /// Whether `c` is written behind an escape character.
    pub fn must_escape(&self, c: char) -> (b: bool)
        ensures
            b == self.needs_escape(c),
    {
        c == self.data || c == self.component || c == self.decimal || c == self.segment
            || c == self.reserved
    }

    /// Whether these are the standard delimiters.
    pub fn is_standard(&self) -> (b: bool)
        ensures
            b == (*self == Delimiters::standard()),
    {
        self.component == ':' && self.data == '+' && self.decimal == '.' && self.escape == '?'
            && self.segment == '\'' && self.reserved == '*'
    }
}

impl Default for Delimiters {
    fn default() -> (d: Self)
        ensures
            d == Delimiters::standard(),
    {
        Delimiters {
            component: ':',
            data: '+',
            decimal: '.',
            escape: '?',
            segment: '\'',
            reserved: '*',
        }
    }
}

} // verus!
