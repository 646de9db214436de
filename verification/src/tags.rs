use vstd::prelude::*;

verus! {

/// What a segment is to an order, by its tag. Tags are compared letter for
/// letter; any tag that is not listed is `Other`.
#[derive(Debug, Clone, Copy, PartialEq, Eq, Structural)]
pub enum TagRole {
    /// `UNB`, the envelope of the whole transmission.
    InterchangeHeader,
    /// `UNH`, which opens one message.
    MessageHeader,
    /// `LIN`, which opens an order line.
    Line,
    /// `IMD`, the description of an order line.
    Description,
    /// `QTY`, the quantity of an order line.
    Quantity,
    /// `MOA`, the amount of an order line.
    Amount,
    /// `PRI`, the price of an order line.
    Price,
    /// `RFF`, the reference of an order line.
    Reference,
    /// Any other tag.
    Other,
}

impl TagRole {
    /// The role of a tag.
    pub open spec fn of(tag: Seq<char>) -> TagRole {
        if tag == "UNB"@ {
            TagRole::InterchangeHeader
        } else if tag == "UNH"@ {
            TagRole::MessageHeader
        } else if tag == "LIN"@ {
            TagRole::Line
        } else if tag == "IMD"@ {
            TagRole::Description
        } else if tag == "QTY"@ {
            TagRole::Quantity
        } else if tag == "MOA"@ {
            TagRole::Amount
        } else if tag == "PRI"@ {
            TagRole::Price
        } else if tag == "RFF"@ {
            TagRole::Reference
        } else {
            TagRole::Other
        }
    }

    /// Whether a segment of this role is kept in a header slot of an order,
    /// not in its body.
    pub open spec fn is_header(self) -> bool {
        self == TagRole::InterchangeHeader || self == TagRole::MessageHeader
    }

    /// Whether a segment of this role is attached to the open order line.
    pub open spec fn is_detail(self) -> bool {
        self == TagRole::Description || self == TagRole::Quantity || self == TagRole::Amount
            || self == TagRole::Price || self == TagRole::Reference
    }

    /// Whether a segment of this role is attached to the open order line.
    pub fn attaches(&self) -> (b: bool)
        ensures
            b == self.is_detail(),
    {
        match self {
            TagRole::Description
            | TagRole::Quantity
            | TagRole::Amount
            | TagRole::Price
            | TagRole::Reference => true,
            _ => false,
        }
    }
}

/// The role of `tag`.
pub fn tag_role(tag: &str) -> (role: TagRole)
    ensures
        role == TagRole::of(tag@),
{
    proof {
        reveal_strlit("UNB");
        reveal_strlit("UNH");
        reveal_strlit("LIN");
        reveal_strlit("IMD");
        reveal_strlit("QTY");
        reveal_strlit("MOA");
        reveal_strlit("PRI");
        reveal_strlit("RFF");
    }
    if tag.unicode_len() != 3 {
        return TagRole::Other;
    }
    let a = tag.get_char(0);
    let b = tag.get_char(1);
    let c = tag.get_char(2);
    assert(tag@ =~= seq![a, b, c]);
    if a == 'U' && b == 'N' && c == 'B' {
        assert(tag@ =~= "UNB"@);
        TagRole::InterchangeHeader
    } else if a == 'U' && b == 'N' && c == 'H' {
        assert(tag@ =~= "UNH"@);
        TagRole::MessageHeader
    } else if a == 'L' && b == 'I' && c == 'N' {
        assert(tag@ =~= "LIN"@);
        TagRole::Line
    } else if a == 'I' && b == 'M' && c == 'D' {
        assert(tag@ =~= "IMD"@);
        TagRole::Description
    } else if a == 'Q' && b == 'T' && c == 'Y' {
        assert(tag@ =~= "QTY"@);
        TagRole::Quantity
    } else if a == 'M' && b == 'O' && c == 'A' {
        assert(tag@ =~= "MOA"@);
        TagRole::Amount
    } else if a == 'P' && b == 'R' && c == 'I' {
        assert(tag@ =~= "PRI"@);
        TagRole::Price
    } else if a == 'R' && b == 'F' && c == 'F' {
        assert(tag@ =~= "RFF"@);
        TagRole::Reference
    } else {
        TagRole::Other
    }
}

} // verus!
