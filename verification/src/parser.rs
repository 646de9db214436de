use vstd::prelude::*;

use crate::delimiters::{CharRole, Delimiters};
use crate::error::EdifactError;
use crate::segment::{Segment, SegmentView};
use crate::text::{chars_of, find_first, first_index, string_of};

verus! {

/// What the tokenizer holds between two characters of a segment's body.
pub struct ScanState {
    /// The elements closed so far.
    pub elements: Seq<Seq<Seq<char>>>,
    /// The components closed so far in the open element.
    pub element: Seq<Seq<char>>,
    /// The characters read so far of the open component.
    pub component: Seq<char>,
    /// Whether the character before was an escape character that now makes
    /// the next one literal.
    pub escaped: bool,
}

impl ScanState {
    /// Nothing read yet.
    pub open spec fn start() -> ScanState {
        ScanState {
            elements: Seq::empty(),
            element: Seq::empty(),
            component: Seq::empty(),
            escaped: false,
        }
    }

    /// Whether `c`, read in this state, ends the segment.
    pub open spec fn ends_at(self, c: char, d: Delimiters) -> bool {
        !self.escaped && d.role_of(c) == CharRole::Terminator
    }

    /// The state after reading `c`, for a `c` that does not end the segment.
    pub open spec fn step(self, c: char, d: Delimiters) -> ScanState {
        if self.escaped {
            ScanState { component: self.component.push(c), escaped: false, ..self }
        } else {
            match d.role_of(c) {
                CharRole::Escape => ScanState { escaped: true, ..self },
                CharRole::Component => ScanState {
                    element: self.element.push(self.component),
                    component: Seq::empty(),
                    ..self
                },
                CharRole::Data => ScanState {
                    elements: self.elements.push(self.element.push(self.component)),
                    element: Seq::empty(),
                    component: Seq::empty(),
                    ..self
                },
                CharRole::Terminator => self,
                CharRole::Literal => ScanState { component: self.component.push(c), ..self },
            }
        }
    }

    /// The elements of the segment once the terminator is read. The open
    /// element is closed with its open component, unless both are empty:
    /// a terminator right after a data separator adds no element.
    pub open spec fn finish(self) -> Seq<Seq<Seq<char>>> {
        if self.element.len() > 0 || self.component.len() > 0 {
            self.elements.push(self.element.push(self.component))
        } else {
            self.elements
        }
    }
}

/// Reads the body of a segment, the text after the tag and its separator,
/// from the state `st` on. The first unescaped terminator ends the segment
/// and what follows it is not looked at. A body that ends before that is an
/// error: `InvalidEscape` right after an escape character,
/// `IncompleteSegment` otherwise.
pub open spec fn scan(body: Seq<char>, d: Delimiters, st: ScanState) -> Result<
    Seq<Seq<Seq<char>>>,
    EdifactError,
>
    decreases body.len(),
{
    if body.len() == 0 {
        if st.escaped {
            Err(EdifactError::InvalidEscape)
        } else {
            Err(EdifactError::IncompleteSegment)
        }
    } else if st.ends_at(body[0], d) {
        Ok(st.finish())
    } else {
        scan(body.drop_first(), d, st.step(body[0], d))
    }
}

/// The tag of a segment's text: what stands before the first data
/// separator, or the whole text where there is none.
pub open spec fn tag_of(text: Seq<char>, d: Delimiters) -> Seq<char> {
    text.take(first_index(text, d.data) as int)
}

/// The body of a segment's text: what stands after the first data
/// separator. It is empty where there is none.
pub open spec fn body_of(text: Seq<char>, d: Delimiters) -> Seq<char> {
    let t = first_index(text, d.data);
    if t < text.len() {
        text.skip(t as int + 1)
    } else {
        Seq::empty()
    }
}

/// The segment that `text` spells under the delimiters `d`, or why it
/// spells none. The tag is taken as it stands, without regard to escape
/// characters or terminators; the elements are read from the body by
/// `scan`. A text without a data separator has an empty body, and so no
/// terminator.
pub open spec fn parsed_segment(text: Seq<char>, d: Delimiters, position: nat) -> Result<
    SegmentView,
    EdifactError,
> {
    match scan(body_of(text, d), d, ScanState::start()) {
        Ok(elements) => Ok(SegmentView { tag: tag_of(text, d), elements, position }),
        Err(e) => Err(e),
    }
}

/// Whether a line opens with the three letters `UNA`.
pub open spec fn has_una_prefix(line: Seq<char>) -> bool {
    line.len() >= 3 && line[0] == 'U' && line[1] == 'N' && line[2] == 'A'
}

/// The delimiters that a service line declares: its characters 3 to 8 are
/// the component separator, the data separator, the decimal mark, the
/// escape character, the reserved character and the segment terminator.
/// A line of fewer than nine characters declares none.
pub open spec fn una_delimiters(line: Seq<char>) -> Result<Delimiters, EdifactError> {
    if line.len() < 9 {
        Err(EdifactError::MalformedUnaHeader)
    } else {
        Ok(
            Delimiters {
                component: line[3],
                data: line[4],
                decimal: line[5],
                escape: line[6],
                reserved: line[7],
                segment: line[8],
            },
        )
    }
}

/// Whether `line` opens with the three letters `UNA`.
pub fn starts_with_una(line: &str) -> (b: bool)
    ensures
        b == has_una_prefix(line@),
{
    line.unicode_len() >= 3 && line.get_char(0) == 'U' && line.get_char(1) == 'N' && line.get_char(
        2,
    ) == 'A'
}

/// Reads segments under a set of delimiters.
#[derive(Debug, Clone, Copy)]
pub struct Parser {
    pub delimiters: Delimiters,
}

impl Parser {
    /// A parser with the standard delimiters.
    pub fn new() -> (p: Parser)
        ensures
            p.delimiters == Delimiters::standard(),
    {
        Parser { delimiters: Delimiters::default() }
    }

    /// Takes the delimiters from a `UNA` service line. A line that does not
    /// open with `UNA` changes nothing; one that does, but is shorter than
    /// nine characters, is refused and changes nothing either.
    pub fn set_delimiters(&mut self, una_segment: &str) -> (r: Result<(), EdifactError>)
        ensures
            !has_una_prefix(una_segment@) ==> r is Ok && final(self).delimiters == old(
                self,
            ).delimiters,
            has_una_prefix(una_segment@) ==> match una_delimiters(una_segment@) {
                Ok(d) => r is Ok && final(self).delimiters == d,
                Err(e) => r == Err::<(), EdifactError>(e) && final(self).delimiters == old(
                    self,
                ).delimiters,
            },
    {
        if starts_with_una(una_segment) {
            let chars = chars_of(una_segment);
            if chars.len() < 9 {
                return Err(EdifactError::MalformedUnaHeader);
            }
            self.delimiters = Delimiters {
                component: chars[3],
                data: chars[4],
                decimal: chars[5],
                escape: chars[6],
                reserved: chars[7],
                segment: chars[8],
            };
        }
        Ok(())
    }

    /// Reads one segment from `segment_str` and gives it the position
    /// `position`.
    pub fn parse_segment(&self, segment_str: &str, position: usize) -> (r: Result<
        Segment,
        EdifactError,
    >)
        ensures
            match r {
                Ok(segment) => parsed_segment(segment_str@, self.delimiters, position as nat)
                    == Ok::<SegmentView, EdifactError>(segment@),
                Err(e) => parsed_segment(segment_str@, self.delimiters, position as nat) == Err::<
                    SegmentView,
                    EdifactError,
                >(e),
            },
    {
        let d = self.delimiters;
        let chars = chars_of(segment_str);
        let n = chars.len();
        let tag_end = find_first(&chars, 0, d.data);
        proof {
            assert(chars@.skip(0) == chars@);
        }
        let tag = string_of(&chars, 0, tag_end);
        proof {
            assert(chars@.subrange(0, tag_end as int) == chars@.take(tag_end as int));
        }
        let ghost body = body_of(segment_str@, d);
        let mut elements: Vec<Vec<String>> = Vec::new();
        let mut element: Vec<String> = Vec::new();
        let mut component = String::new();
        let mut escaped = false;
        let mut i: usize = if tag_end < n {
            tag_end + 1
        } else {
            n
        };
        proof {
            assert(chars@.skip(i as int) == body);
            assert(elements.deep_view() == Seq::<Seq<Seq<char>>>::empty());
            assert(element.deep_view() == Seq::<Seq<char>>::empty());
        }
        while i < n
            invariant
                n == chars.len(),
                chars@ == segment_str@,
                d == self.delimiters,
                tag@ == tag_of(segment_str@, d),
                body == body_of(segment_str@, d),
                0 <= i <= n,
                scan(body, d, ScanState::start()) == scan(
                    chars@.skip(i as int),
                    d,
                    ScanState {
                        elements: elements.deep_view(),
                        element: element.deep_view(),
                        component: component@,
                        escaped,
                    },
                ),
            decreases n - i,
        {
            let c = chars[i];
            let ghost st = ScanState {
                elements: elements.deep_view(),
                element: element.deep_view(),
                component: component@,
                escaped,
            };
            proof {
                assert(chars@.skip(i as int)[0] == c);
                assert(chars@.skip(i as int).drop_first() == chars@.skip(i + 1));
            }
            if escaped {
                component.push(c);
                escaped = false;
            } else {
                match d.role(c) {
                    CharRole::Escape => {
                        escaped = true;
                    },
                    CharRole::Component => {
                        element.push(component);
                        component = String::new();
                        proof {
                            assert(element.deep_view() == st.element.push(st.component));
                        }
                    },
                    CharRole::Data => {
                        element.push(component);
                        proof {
                            assert(element.deep_view() == st.element.push(st.component));
                        }
                        elements.push(element);
                        proof {
                            assert(elements.deep_view() == st.elements.push(
                                st.element.push(st.component),
                            ));
                        }
                        element = Vec::new();
                        component = String::new();
                        proof {
                            assert(element.deep_view() == Seq::<Seq<char>>::empty());
                        }
                    },
                    CharRole::Terminator => {
                        if element.len() > 0 || !component.as_str().is_empty() {
                            element.push(component);
                            proof {
                                assert(element.deep_view() == st.element.push(st.component));
                            }
                            elements.push(element);
                            proof {
                                assert(elements.deep_view() == st.elements.push(
                                    st.element.push(st.component),
                                ));
                            }
                        }
                        return Ok(Segment { tag, elements, position });
                    },
                    CharRole::Literal => {
                        component.push(c);
                    },
                }
            }
            i += 1;
        }
        if escaped {
            Err(EdifactError::InvalidEscape)
        } else {
            Err(EdifactError::IncompleteSegment)
        }
    }
}

} // verus!
