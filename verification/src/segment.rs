use vstd::prelude::*;

use crate::delimiters::Delimiters;

verus! {

/// One structural unit of a message: a tag and its data elements, each an
/// ordered list of components.
#[derive(Debug)]
pub struct Segment {
    pub tag: String,
    pub elements: Vec<Vec<String>>,
    /// The index of the segment among those read from a text, or the length
    /// of the body at the time the segment was made for it.
    pub position: usize,
}

/// A segment as a mathematical value.
pub struct SegmentView {
    pub tag: Seq<char>,
    pub elements: Seq<Seq<Seq<char>>>,
    pub position: nat,
}

impl View for Segment {
    type V = SegmentView;

    open spec fn view(&self) -> SegmentView {
        SegmentView {
            tag: self.tag@,
            elements: self.elements.deep_view(),
            position: self.position as nat,
        }
    }
}

impl DeepView for Segment {
    type V = SegmentView;

    open spec fn deep_view(&self) -> SegmentView {
        self@
    }
}

/// One character as it is written: after an escape character where it would
/// otherwise be read as a delimiter.
pub open spec fn escaped_char(c: char, d: Delimiters) -> Seq<char> {
    if d.needs_escape(c) {
        seq![d.escape, c]
    } else {
        seq![c]
    }
}

/// A component as it is written: each of its characters as `escaped_char`
/// gives it.
pub open spec fn escaped_component(component: Seq<char>, d: Delimiters) -> Seq<char>
    decreases component.len(),
{
    if component.len() == 0 {
        Seq::empty()
    } else {
        escaped_component(component.drop_last(), d) + escaped_char(component.last(), d)
    }
}

/// An element as it is written: its components, escaped, with the component
/// separator between each two.
pub open spec fn joined_element(element: Seq<Seq<char>>, d: Delimiters) -> Seq<char>
    decreases element.len(),
{
    if element.len() == 0 {
        Seq::empty()
    } else if element.len() == 1 {
        escaped_component(element[0], d)
    } else {
        joined_element(element.drop_last(), d) + seq![d.component] + escaped_component(
            element.last(),
            d,
        )
    }
}

/// Elements as they are written: the data separator before each.
pub open spec fn written_elements(elements: Seq<Seq<Seq<char>>>, d: Delimiters) -> Seq<char>
    decreases elements.len(),
{
    if elements.len() == 0 {
        Seq::empty()
    } else {
        written_elements(elements.drop_last(), d) + seq![d.data] + joined_element(
            elements.last(),
            d,
        )
    }
}

impl SegmentView {
    /// The text of the segment: the tag as it stands, the elements, the
    /// terminator. No line break follows.
    pub open spec fn to_text(self, d: Delimiters) -> Seq<char> {
        self.tag + written_elements(self.elements, d) + seq![d.segment]
    }
}

/// Appends `component` to `out` as `escaped_component` gives it.
fn write_component(out: &mut String, component: &str, d: &Delimiters)
    ensures
        final(out)@ == old(out)@ + escaped_component(component@, *d),
{
    let chars = component.chars();
    for c in it: chars
        invariant
            it.seq() == component@,
            out@ == old(out)@ + escaped_component(component@.take(it.index()), *d),
    {
        proof {
            let k = it.index();
            assert(component@.take(k + 1).drop_last() == component@.take(k));
        }
        if d.must_escape(c) {
            out.push(d.escape);
        }
        out.push(c);
    }
    proof {
        assert(component@.take(component@.len() as int) == component@);
    }
}

/// Appends `element` to `out` as `joined_element` gives it.
fn write_element(out: &mut String, element: &Vec<String>, d: &Delimiters)
    ensures
        final(out)@ == old(out)@ + joined_element(element.deep_view(), *d),
{
    let ghost e = element.deep_view();
    let mut j: usize = 0;
    while j < element.len()
        invariant
            0 <= j <= element.len(),
            e == element.deep_view(),
            out@ == old(out)@ + joined_element(e.take(j as int), *d),
        decreases element.len() - j,
    {
        proof {
            assert(e.take(j + 1).drop_last() == e.take(j as int));
            assert(e.take(j + 1).last() == element[j as int]@);
        }
        if j > 0 {
            out.push(d.component);
        }
        write_component(out, element[j].as_str(), d);
        j += 1;
    }
    proof {
        assert(e.take(e.len() as int) == e);
    }
}

impl Segment {
    pub fn new(tag: String, elements: Vec<Vec<String>>, position: usize) -> (s: Segment)
        ensures
            s.tag == tag,
            s.elements == elements,
            s.position == position,
    {
        Segment { tag, elements, position }
    }

    /// The element at `index`, if there is one.
    pub fn get_element(&self, index: usize) -> (r: Option<&Vec<String>>)
        ensures
            index < self.elements.len() ==> r == Some(&self.elements[index as int]),
            index >= self.elements.len() ==> r is None,
    {
        if index < self.elements.len() {
            Some(&self.elements[index])
        } else {
            None
        }
    }

    /// The component at `component_index` of the element at `element_index`,
    /// if both are there.
    pub fn get_component(&self, element_index: usize, component_index: usize) -> (r: Option<
        &String,
    >)
        ensures
            element_index < self.elements.len() && component_index
                < self.elements[element_index as int].len() ==> r == Some(
                &self.elements[element_index as int][component_index as int],
            ),
            !(element_index < self.elements.len() && component_index
                < self.elements[element_index as int].len()) ==> r is None,
    {
        if element_index < self.elements.len() {
            let element = &self.elements[element_index];
            if component_index < element.len() {
                return Some(&element[component_index]);
            }
        }
        None
    }

    /// The segment as text, written with the delimiters `d`.
    pub fn to_edifact(&self, delimiters: &Delimiters) -> (text: String)
        ensures
            text@ == self@.to_text(*delimiters),
    {
        let mut out = self.tag.clone();
        let ghost es = self.elements.deep_view();
        let mut i: usize = 0;
        while i < self.elements.len()
            invariant
                0 <= i <= self.elements.len(),
                es == self.elements.deep_view(),
                out@ == self.tag@ + written_elements(es.take(i as int), *delimiters),
            decreases self.elements.len() - i,
        {
            proof {
                assert(es.take(i + 1).drop_last() == es.take(i as int));
                assert(es.take(i + 1).last() == self.elements[i as int].deep_view());
            }
            out.push(delimiters.data);
            write_element(&mut out, &self.elements[i], delimiters);
            i += 1;
        }
        proof {
            assert(es.take(es.len() as int) == es);
        }
        out.push(delimiters.segment);
        out
    }
}

impl Clone for Segment {
    fn clone(&self) -> (s: Segment)
        ensures
            s@ == self@,
    {
        Segment {
            tag: self.tag.clone(),
            elements: self.elements.clone(),
            position: self.position,
        }
    }
}

} // verus!
