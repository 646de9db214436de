use vstd::prelude::*;

use crate::delimiters::{CharRole, Delimiters};
use crate::error::EdifactError;
use crate::parser::{body_of, parsed_segment, scan, tag_of, ScanState};
use crate::segment::{escaped_char, escaped_component, joined_element, written_elements, SegmentView};
use crate::text::lemma_first_index;

verus! {

/// A character that is read back as it was written: it is written escaped,
/// or it is not the escape character.
pub open spec fn survives(c: char, d: Delimiters) -> bool {
    d.needs_escape(c) || c != d.escape
}

/// A character that means nothing to the serializer or to the tokenizer.
pub open spec fn is_plain(c: char, d: Delimiters) -> bool {
    !d.needs_escape(c) && c != d.escape
}

/// Whether some element of `es` has two components or more.
pub open spec fn has_joined_element(es: Seq<Seq<Seq<char>>>) -> bool {
    exists|i: int| 0 <= i < es.len() && (#[trigger] es[i]).len() > 1
}

/// The shape of a segment that its text can show: the tag holds no data
/// separator, there is an element, every element has a component, and the
/// last element is more than one empty component.
///
/// Any other segment shares its text with one of this shape, or with none:
/// a tag that holds the data separator is cut short at it; a segment
/// without elements is written as tag and terminator, and read as a tag
/// without a body; an element without components is written like one with
/// a single empty component; and a last element that is one empty
/// component is written as nothing, and dropped when read.
pub open spec fn has_written_shape(segment: SegmentView, d: Delimiters) -> bool {
    let es = segment.elements;
    &&& forall|i: int| 0 <= i < segment.tag.len() ==> segment.tag[i] != d.data
    &&& es.len() > 0
    &&& forall|i: int| 0 <= i < es.len() ==> (#[trigger] es[i]).len() > 0
    &&& es.last().len() > 1 || es.last()[0].len() > 0
}

/// The delimiters that the text of the segment needs are read in their own
/// role: the terminator always, the data separator where there are two
/// elements or more, the component separator where an element has two
/// components or more. A delimiter that is also an earlier one in the
/// order of `role_of` is read as that one.
pub open spec fn separators_are_read(segment: SegmentView, d: Delimiters) -> bool {
    let es = segment.elements;
    &&& d.role_of(d.segment) == CharRole::Terminator
    &&& es.len() > 1 ==> d.role_of(d.data) == CharRole::Data
    &&& has_joined_element(es) ==> d.role_of(d.component) == CharRole::Component
}

/// The segments that are read back as they were written: of the written
/// shape, with separators that are read as such, and with no bare escape
/// character in a component.
pub open spec fn round_trips(segment: SegmentView, d: Delimiters) -> bool {
    &&& has_written_shape(segment, d)
    &&& separators_are_read(segment, d)
    &&& all_survive(segment.elements, d)
}

/// Every character of every component of `es` survives.
pub open spec fn all_survive(es: Seq<Seq<Seq<char>>>, d: Delimiters) -> bool {
    forall|i: int, j: int, k: int|
        0 <= i < es.len() && 0 <= j < es[i].len() && 0 <= k < es[i][j].len() ==> survives(
            #[trigger] es[i][j][k],
            d,
        )
}

/// Every character of every component of `es` is plain.
pub open spec fn all_plain(es: Seq<Seq<Seq<char>>>, d: Delimiters) -> bool {
    forall|i: int, j: int, k: int|
        0 <= i < es.len() && 0 <= j < es[i].len() && 0 <= k < es[i][j].len() ==> is_plain(
            #[trigger] es[i][j][k],
            d,
        )
}

/// Reading a character that does not end the segment moves the state on.
proof fn lemma_scan_one(c: char, rest: Seq<char>, d: Delimiters, st: ScanState)
    requires
        !st.ends_at(c, d),
    ensures
        scan(seq![c] + rest, d, st) == scan(rest, d, st.step(c, d)),
{
    let body = seq![c] + rest;
    assert(body[0] == c);
    assert(body.drop_first() =~= rest);
}

/// A component of surviving characters, written escaped, is read back into
/// the open component, whatever follows it.
pub proof fn lemma_component_reads_back(
    component: Seq<char>,
    rest: Seq<char>,
    d: Delimiters,
    st: ScanState,
)
    requires
        !st.escaped,
        forall|k: int| 0 <= k < component.len() ==> survives(component[k], d),
    ensures
        scan(escaped_component(component, d) + rest, d, st) == scan(
            rest,
            d,
            ScanState { component: st.component + component, ..st },
        ),
    decreases component.len(),
{
    if component.len() == 0 {
        assert(escaped_component(component, d) + rest =~= rest);
        assert(st.component + component =~= st.component);
    } else {
        let front = component.drop_last();
        let c = component.last();
        let tail = escaped_char(c, d) + rest;
        assert(escaped_component(component, d) + rest =~= escaped_component(front, d) + tail);
        lemma_component_reads_back(front, tail, d, st);
        let st1 = ScanState { component: st.component + front, ..st };
        assert(survives(c, d));
        if d.needs_escape(c) {
            assert(tail =~= seq![d.escape] + (seq![c] + rest));
            lemma_scan_one(d.escape, seq![c] + rest, d, st1);
            lemma_scan_one(c, rest, d, st1.step(d.escape, d));
            assert(st1.step(d.escape, d).step(c, d).component =~= st.component + component);
        } else {
            assert(tail =~= seq![c] + rest);
            lemma_scan_one(c, rest, d, st1);
            assert(st1.step(c, d).component =~= st.component + component);
        }
    }
}

/// An element of at least one component, written, is read back as the open
/// element and its open component, whatever follows it.
proof fn lemma_element_reads_back(
    element: Seq<Seq<char>>,
    rest: Seq<char>,
    d: Delimiters,
    st: ScanState,
)
    requires
        element.len() > 1 ==> d.role_of(d.component) == CharRole::Component,
        !st.escaped,
        st.component.len() == 0,
        element.len() > 0,
        forall|j: int, k: int|
            0 <= j < element.len() && 0 <= k < element[j].len() ==> survives(
                #[trigger] element[j][k],
                d,
            ),
    ensures
        scan(joined_element(element, d) + rest, d, st) == scan(
            rest,
            d,
            ScanState {
                element: st.element + element.drop_last(),
                component: element.last(),
                ..st
            },
        ),
    decreases element.len(),
{
    if element.len() == 1 {
        lemma_component_reads_back(element[0], rest, d, st);
        assert(st.component + element[0] =~= element[0]);
        assert(st.element + element.drop_last() =~= st.element);
    } else {
        let front = element.drop_last();
        let last = element.last();
        let tail = seq![d.component] + (escaped_component(last, d) + rest);
        assert(joined_element(element, d) + rest =~= joined_element(front, d) + tail);
        lemma_element_reads_back(front, tail, d, st);
        let st1 = ScanState {
            element: st.element + front.drop_last(),
            component: front.last(),
            ..st
        };
        lemma_scan_one(d.component, escaped_component(last, d) + rest, d, st1);
        let st2 = st1.step(d.component, d);
        lemma_component_reads_back(last, rest, d, st2);
        assert(st2.component + last =~= last);
        assert(st2.element =~= st.element + element.drop_last());
    }
}

/// Written elements open with the data separator.
proof fn lemma_written_elements_head(es: Seq<Seq<Seq<char>>>, d: Delimiters)
    requires
        es.len() > 0,
    ensures
        written_elements(es, d).len() > 0,
        written_elements(es, d)[0] == d.data,
    decreases es.len(),
{
    if es.len() > 1 {
        lemma_written_elements_head(es.drop_last(), d);
    } else {
        assert(written_elements(es.drop_last(), d).len() == 0);
    }
}

/// Elements of at least one component each, written, are read back from
/// behind their first data separator: all but the last closed, the last
/// still open.
proof fn lemma_elements_read_back(es: Seq<Seq<Seq<char>>>, rest: Seq<char>, d: Delimiters)
    requires
        es.len() > 1 ==> d.role_of(d.data) == CharRole::Data,
        has_joined_element(es) ==> d.role_of(d.component) == CharRole::Component,
        es.len() > 0,
        forall|i: int| 0 <= i < es.len() ==> (#[trigger] es[i]).len() > 0,
        all_survive(es, d),
    ensures
        scan(written_elements(es, d).drop_first() + rest, d, ScanState::start()) == scan(
            rest,
            d,
            ScanState {
                elements: es.drop_last(),
                element: es.last().drop_last(),
                component: es.last().last(),
                escaped: false,
            },
        ),
    decreases es.len(),
{
    let last = es.last();
    assert forall|j: int, k: int| 0 <= j < last.len() && 0 <= k < last[j].len() implies survives(
        #[trigger] last[j][k],
        d,
    ) by {
        assert(survives(es[es.len() - 1][j][k], d));
    }
    assert(last.len() > 1 ==> has_joined_element(es)) by {
        assert(es[es.len() - 1] == last);
    }
    if es.len() == 1 {
        assert(written_elements(es.drop_last(), d) =~= Seq::<char>::empty());
        assert(written_elements(es, d).drop_first() + rest =~= joined_element(last, d) + rest);
        lemma_element_reads_back(last, rest, d, ScanState::start());
        assert(ScanState::start().element + last.drop_last() =~= last.drop_last());
        assert(es.drop_last() =~= Seq::<Seq<Seq<char>>>::empty());
    } else {
        let front = es.drop_last();
        let tail = seq![d.data] + (joined_element(last, d) + rest);
        lemma_written_elements_head(front, d);
        assert(written_elements(es, d).drop_first() + rest =~= written_elements(
            front,
            d,
        ).drop_first() + tail);
        assert(all_survive(front, d)) by {
            assert forall|i: int, j: int, k: int|
                0 <= i < front.len() && 0 <= j < front[i].len() && 0 <= k
                    < front[i][j].len() implies survives(#[trigger] front[i][j][k], d) by {
                assert(survives(es[i][j][k], d));
            }
        }
        assert forall|i: int| 0 <= i < front.len() implies (#[trigger] front[i]).len() > 0 by {
            assert(es[i].len() > 0);
        }
        if has_joined_element(front) {
            let i = choose|i: int| 0 <= i < front.len() && (#[trigger] front[i]).len() > 1;
            assert(es[i].len() > 1);
        }
        lemma_elements_read_back(front, tail, d);
        let st1 = ScanState {
            elements: front.drop_last(),
            element: front.last().drop_last(),
            component: front.last().last(),
            escaped: false,
        };
        lemma_scan_one(d.data, joined_element(last, d) + rest, d, st1);
        let st2 = st1.step(d.data, d);
        assert(front.last().drop_last().push(front.last().last()) =~= front.last());
        assert(st2.elements =~= front);
        lemma_element_reads_back(last, rest, d, st2);
        assert(st2.element + last.drop_last() =~= last.drop_last());
    }
}

/// Reading undoes writing: the text of a segment that `round_trips` admits
/// is read back as that segment. Components may hold any of the five
/// characters that are written escaped.
pub proof fn theorem_parse_inverts_serialize(segment: SegmentView, d: Delimiters)
    requires
        round_trips(segment, d),
    ensures
        parsed_segment(segment.to_text(d), d, segment.position) == Ok::<
            SegmentView,
            EdifactError,
        >(segment),
{
    let es = segment.elements;
    let tag = segment.tag;
    let text = segment.to_text(d);
    let t = tag.len() as int;
    lemma_written_elements_head(es, d);
    assert(text[t] == d.data);
    assert forall|j: int| 0 <= j < t implies text[j] != d.data by {
        assert(text[j] == tag[j]);
    }
    lemma_first_index(text, d.data, t);
    assert(tag_of(text, d) =~= tag);
    let rest = seq![d.segment];
    assert(body_of(text, d) =~= written_elements(es, d).drop_first() + rest);
    lemma_elements_read_back(es, rest, d);
    let st = ScanState {
        elements: es.drop_last(),
        element: es.last().drop_last(),
        component: es.last().last(),
        escaped: false,
    };
    assert(st.ends_at(d.segment, d));
    assert(rest[0] == d.segment);
    assert(es.last().drop_last().push(es.last().last()) =~= es.last());
    assert(es.drop_last().push(es.last()) =~= es);
    assert(st.finish() =~= es);
}

/// A segment whose components hold no delimiter at all is read back as it
/// was written.
pub proof fn theorem_plain_segment_round_trips(segment: SegmentView, d: Delimiters)
    requires
        has_written_shape(segment, d),
        separators_are_read(segment, d),
        all_plain(segment.elements, d),
    ensures
        parsed_segment(segment.to_text(d), d, segment.position) == Ok::<
            SegmentView,
            EdifactError,
        >(segment),
{
    let es = segment.elements;
    assert(all_survive(es, d)) by {
        assert forall|i: int, j: int, k: int|
            0 <= i < es.len() && 0 <= j < es[i].len() && 0 <= k < es[i][j].len() implies survives(
            #[trigger] es[i][j][k],
            d,
        ) by {
            assert(is_plain(es[i][j][k], d));
        }
    }
    theorem_parse_inverts_serialize(segment, d);
}

/// Which delimiters a segment is written with does not matter to what is
/// read: written with one set and read with it, a segment that both sets
/// admit comes out as it does with the other.
pub proof fn theorem_delimiters_do_not_matter(segment: SegmentView, d1: Delimiters, d2: Delimiters)
    requires
        round_trips(segment, d1),
        round_trips(segment, d2),
    ensures
        parsed_segment(segment.to_text(d1), d1, segment.position) == parsed_segment(
            segment.to_text(d2),
            d2,
            segment.position,
        ),
{
    theorem_parse_inverts_serialize(segment, d1);
    theorem_parse_inverts_serialize(segment, d2);
}

/// A body in which no character is a terminator spells no segment, from
/// whatever state it is read.
pub proof fn theorem_unterminated_body_fails(body: Seq<char>, d: Delimiters, st: ScanState)
    requires
        forall|i: int| 0 <= i < body.len() ==> d.role_of(body[i]) != CharRole::Terminator,
    ensures
        scan(body, d, st) is Err,
    decreases body.len(),
{
    if body.len() > 0 {
        theorem_unterminated_body_fails(body.drop_first(), d, st.step(body[0], d));
    }
}

} // verus!
