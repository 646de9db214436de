use vstd::prelude::*;

use crate::delimiters::Delimiters;
use crate::error::EdifactError;
use crate::order_line::{order_lines, OrderLine, OrderLineView};
use crate::parser::{has_una_prefix, parsed_segment, starts_with_una, una_delimiters, Parser};
use crate::segment::{Segment, SegmentView};
use crate::tags::{tag_role, TagRole};
use crate::text::{is_blank, is_blank_line, lines_of, split_lines};

verus! {

/// An order message: its body segments in the order they came, the two
/// header slots, and the parser whose delimiters it is written with.
#[derive(Debug)]
pub struct Order {
    /// The body: every segment that is not a header.
    pub segments: Vec<Segment>,
    /// The `UNB` segment, if there is one.
    pub interchange_header: Option<Segment>,
    /// The `UNH` segment, if there is one.
    pub message_header: Option<Segment>,
    pub parser: Parser,
}

/// An order as a mathematical value.
pub struct OrderView {
    pub segments: Seq<SegmentView>,
    pub interchange_header: Option<SegmentView>,
    pub message_header: Option<SegmentView>,
    pub delimiters: Delimiters,
}

impl View for Order {
    type V = OrderView;

    open spec fn view(&self) -> OrderView {
        OrderView {
            segments: self.segments.deep_view(),
            interchange_header: self.interchange_header.deep_view(),
            message_header: self.message_header.deep_view(),
            delimiters: self.parser.delimiters,
        }
    }
}

/// The segments that non-blank lines spell, each with its index among them
/// as its position. The first line that spells none decides the error.
pub open spec fn read_lines(lines: Seq<Seq<char>>, d: Delimiters) -> Result<
    Seq<SegmentView>,
    EdifactError,
>
    decreases lines.len(),
{
    if lines.len() == 0 {
        Ok(Seq::empty())
    } else {
        match read_lines(lines.drop_last(), d) {
            Err(e) => Err(e),
            Ok(segments) => if is_blank(lines.last()) {
                Ok(segments)
            } else {
                match parsed_segment(lines.last(), d, segments.len()) {
                    Ok(segment) => Ok(segments.push(segment)),
                    Err(e) => Err(e),
                }
            },
        }
    }
}

/// The segments of `segments` that are no headers, in their order.
pub open spec fn body_segments(segments: Seq<SegmentView>) -> Seq<SegmentView> {
    segments.filter(|s: SegmentView| !TagRole::of(s.tag).is_header())
}

/// The segments of `segments` whose tag is `tag`, in their order.
pub open spec fn segments_tagged(segments: Seq<SegmentView>, tag: Seq<char>) -> Seq<SegmentView> {
    segments.filter(|s: SegmentView| s.tag == tag)
}

/// The first segment of `segments` whose tag is `tag`.
pub open spec fn first_tagged(segments: Seq<SegmentView>, tag: Seq<char>) -> Option<SegmentView> {
    let found = segments_tagged(segments, tag);
    if found.len() > 0 {
        Some(found[0])
    } else {
        None
    }
}

/// The last segment of `segments` that has the role `role`.
pub open spec fn last_of_role(segments: Seq<SegmentView>, role: TagRole) -> Option<SegmentView>
    decreases segments.len(),
{
    if segments.len() == 0 {
        None
    } else if TagRole::of(segments.last().tag) == role {
        Some(segments.last())
    } else {
        last_of_role(segments.drop_last(), role)
    }
}

/// The order that segments make, read in this order: the last `UNB` and the
/// last `UNH` fill the header slots, all others are the body.
pub open spec fn routed(segments: Seq<SegmentView>, d: Delimiters) -> OrderView {
    OrderView {
        segments: body_segments(segments),
        interchange_header: last_of_role(segments, TagRole::InterchangeHeader),
        message_header: last_of_role(segments, TagRole::MessageHeader),
        delimiters: d,
    }
}

/// The order that lines spell under the delimiters `d`.
pub open spec fn read_order(lines: Seq<Seq<char>>, d: Delimiters) -> Result<
    OrderView,
    EdifactError,
> {
    match read_lines(lines, d) {
        Ok(segments) => Ok(routed(segments, d)),
        Err(e) => Err(e),
    }
}

/// The order that a text spells. Where its first line opens with `UNA`,
/// that line declares the delimiters and is no segment; any other text is
/// read with the standard set.
pub open spec fn parsed_order(text: Seq<char>) -> Result<OrderView, EdifactError> {
    let lines = lines_of(text);
    if lines.len() > 0 && has_una_prefix(lines[0]) {
        match una_delimiters(lines[0]) {
            Ok(d) => read_order(lines.skip(1), d),
            Err(e) => Err(e),
        }
    } else {
        read_order(lines, Delimiters::standard())
    }
}

/// The service line that declares the delimiters `d`, without a line break.
pub open spec fn una_line(d: Delimiters) -> Seq<char> {
    "UNA"@ + seq![d.component, d.data, d.decimal, d.escape, d.reserved, d.segment]
}

/// Segments as lines of text, a line feed after each.
pub open spec fn written_lines(segments: Seq<SegmentView>, d: Delimiters) -> Seq<char>
    decreases segments.len(),
{
    if segments.len() == 0 {
        Seq::empty()
    } else {
        written_lines(segments.drop_last(), d) + segments.last().to_text(d) + seq!['\n']
    }
}

/// A header slot as text: the line of its segment, or nothing.
pub open spec fn written_header(header: Option<SegmentView>, d: Delimiters) -> Seq<char> {
    match header {
        Some(segment) => segment.to_text(d) + seq!['\n'],
        None => Seq::empty(),
    }
}

impl OrderView {
    /// The order without segments, with the standard delimiters.
    pub open spec fn empty() -> OrderView {
        OrderView {
            segments: Seq::empty(),
            interchange_header: None,
            message_header: None,
            delimiters: Delimiters::standard(),
        }
    }

    /// The text of the order: a service line where the delimiters are not
    /// the standard ones, the interchange header, the message header, the
    /// body; one line each.
    pub open spec fn to_text(self) -> Seq<char> {
        let d = self.delimiters;
        let service = if d == Delimiters::standard() {
            Seq::empty()
        } else {
            una_line(d) + seq!['\n']
        };
        service + written_header(self.interchange_header, d) + written_header(
            self.message_header,
            d,
        ) + written_lines(self.segments, d)
    }
}

/// Filtering a sequence that grew by one keeps or drops the new item.
proof fn lemma_filter_push<A>(s: Seq<A>, pred: spec_fn(A) -> bool, x: A)
    ensures
        s.push(x).filter(pred) == if pred(x) {
            s.filter(pred).push(x)
        } else {
            s.filter(pred)
        },
{
    reveal(Seq::filter);
    assert(s.push(x).drop_last() =~= s);
}

/// Where no item meets `pred`, the filter keeps none.
proof fn lemma_filter_none<A>(s: Seq<A>, pred: spec_fn(A) -> bool)
    requires
        forall|j: int| 0 <= j < s.len() ==> !pred(s[j]),
    ensures
        s.filter(pred).len() == 0,
    decreases s.len(),
{
    reveal(Seq::filter);
    if s.len() > 0 {
        lemma_filter_none(s.drop_last(), pred);
    }
}

/// The first item that the filter keeps is the first that meets `pred`.
proof fn lemma_filter_first<A>(s: Seq<A>, pred: spec_fn(A) -> bool, i: int)
    requires
        0 <= i < s.len(),
        pred(s[i]),
        forall|j: int| 0 <= j < i ==> !pred(s[j]),
    ensures
        s.filter(pred).len() > 0,
        s.filter(pred)[0] == s[i],
    decreases s.len(),
{
    reveal(Seq::filter);
    if i == s.len() - 1 {
        lemma_filter_none(s.drop_last(), pred);
    } else {
        lemma_filter_first(s.drop_last(), pred, i);
    }
}

/// `last_of_role` finds the segment of a role after which none of that role
/// comes.
pub proof fn lemma_last_of_role(segments: Seq<SegmentView>, role: TagRole, i: int)
    requires
        0 <= i < segments.len(),
        TagRole::of(segments[i].tag) == role,
        forall|k: int| i < k < segments.len() ==> TagRole::of(#[trigger] segments[k].tag) != role,
    ensures
        last_of_role(segments, role) == Some(segments[i]),
    decreases segments.len(),
{
    if i < segments.len() - 1 {
        lemma_last_of_role(segments.drop_last(), role, i);
    }
}

/// Of two interchange headers the later one is kept: where segments are
/// read that hold `UNB` at `i` and at `j` behind it, and none behind `j`, the
/// header slot holds the segment at `j`, and the body holds no header.
/// The same holds of two message headers and their slot.
pub proof fn theorem_last_header_wins(
    segments: Seq<SegmentView>,
    d: Delimiters,
    role: TagRole,
    i: int,
    j: int,
)
    requires
        role.is_header(),
        0 <= i < j < segments.len(),
        TagRole::of(segments[i].tag) == role,
        TagRole::of(segments[j].tag) == role,
        forall|k: int| j < k < segments.len() ==> TagRole::of(#[trigger] segments[k].tag) != role,
    ensures
        role == TagRole::InterchangeHeader ==> routed(segments, d).interchange_header == Some(
            segments[j],
        ),
        role == TagRole::MessageHeader ==> routed(segments, d).message_header == Some(
            segments[j],
        ),
        forall|k: int|
            0 <= k < routed(segments, d).segments.len() ==> !TagRole::of(
                #[trigger] routed(segments, d).segments[k].tag,
            ).is_header(),
{
    lemma_last_of_role(segments, role, j);
    let pred = |s: SegmentView| !TagRole::of(s.tag).is_header();
    assert forall|k: int| 0 <= k < body_segments(segments).len() implies !TagRole::of(
        #[trigger] body_segments(segments)[k].tag,
    ).is_header() by {
        segments.lemma_filter_pred(pred, k);
    }
}

/// Lines after a line that spells no segment change nothing of the error.
proof fn lemma_read_lines_error(lines: Seq<Seq<char>>, k: int, d: Delimiters)
    requires
        0 <= k <= lines.len(),
        read_lines(lines.take(k), d) is Err,
    ensures
        read_lines(lines, d) == read_lines(lines.take(k), d),
    decreases lines.len() - k,
{
    if k < lines.len() {
        assert(lines.take(k + 1).drop_last() =~= lines.take(k));
        lemma_read_lines_error(lines, k + 1, d);
    } else {
        assert(lines.take(k) =~= lines);
    }
}

impl Order {
    /// An order without segments, with the standard delimiters.
    pub fn new() -> (order: Order)
        ensures
            order@ == OrderView::empty(),
    {
        let order = Order {
            segments: Vec::new(),
            interchange_header: None,
            message_header: None,
            parser: Parser::new(),
        };
        proof {
            assert(order@.segments =~= Seq::<SegmentView>::empty());
        }
        order
    }

    /// Reads an order from text, one segment per line. Blank lines are
    /// passed over. The first line that cannot be read ends the reading
    /// with its error, and nothing of the order is returned.
    pub fn from_edifact(content: String) -> (r: Result<Order, EdifactError>)
        ensures
            match r {
                Ok(order) => parsed_order(content@) == Ok::<OrderView, EdifactError>(order@),
                Err(e) => parsed_order(content@) == Err::<OrderView, EdifactError>(e),
            },
    {
        let lines = split_lines(content.as_str());
        let mut order = Order::new();
        let mut i: usize = 0;
        if lines.len() > 0 && starts_with_una(lines[0].as_str()) {
            match order.parser.set_delimiters(lines[0].as_str()) {
                Ok(()) => {},
                Err(e) => {
                    return Err(e);
                },
            }
            i = 1;
        }
        let ghost d = order.parser.delimiters;
        let ghost rest = lines.deep_view().skip(i as int);
        let ghost start = i;
        let ghost mut read: Seq<SegmentView> = Seq::empty();
        let mut position: usize = 0;
        proof {
            reveal(Seq::filter);
            assert(rest.take(0) =~= Seq::<Seq<char>>::empty());
            assert(lines.deep_view().skip(0) =~= lines.deep_view());
            assert(order@.segments =~= body_segments(read));
        }
        while i < lines.len()
            invariant
                start <= i <= lines.len(),
                start <= 1,
                d == order.parser.delimiters,
                rest == lines.deep_view().skip(start as int),
                parsed_order(content@) == read_order(rest, d),
                read_lines(rest.take(i - start), d) == Ok::<Seq<SegmentView>, EdifactError>(read),
                order@ == routed(read, d),
                position == read.len(),
                position <= i,
            decreases lines.len() - i,
        {
            let line = lines[i].as_str();
            proof {
                assert(rest.take(i - start + 1).drop_last() =~= rest.take(i - start));
                assert(rest.take(i - start + 1).last() == line@);
            }
            if !is_blank_line(line) {
                match order.parser.parse_segment(line, position) {
                    Err(e) => {
                        proof {
                            lemma_read_lines_error(rest, i - start + 1, d);
                        }
                        return Err(e);
                    },
                    Ok(segment) => {
                        proof {
                            lemma_filter_push(
                                read,
                                |s: SegmentView| !TagRole::of(s.tag).is_header(),
                                segment@,
                            );
                            assert(read.push(segment@).drop_last() =~= read);
                            read = read.push(segment@);
                        }
                        let ghost before = order@;
                        match tag_role(segment.tag.as_str()) {
                            TagRole::InterchangeHeader => {
                                order.interchange_header = Some(segment);
                            },
                            TagRole::MessageHeader => {
                                order.message_header = Some(segment);
                            },
                            _ => {
                                order.segments.push(segment);
                                proof {
                                    assert(order@.segments =~= before.segments.push(segment@));
                                }
                            },
                        }
                        position += 1;
                    },
                }
            }
            i += 1;
        }
        proof {
            assert(rest.take(i - start) =~= rest);
        }
        Ok(order)
    }

    /// A copy of the first segment of the body whose tag is `tag`.
    pub fn get_segment(&self, tag: &str) -> (r: Option<Segment>)
        ensures
            r.deep_view() == first_tagged(self@.segments, tag@),
    {
        let wanted = tag.to_owned();
        let ghost body = self@.segments;
        let ghost pred = |s: SegmentView| s.tag == tag@;
        let mut i: usize = 0;
        while i < self.segments.len()
            invariant
                0 <= i <= self.segments.len(),
                wanted@ == tag@,
                body == self@.segments,
                pred == |s: SegmentView| s.tag == tag@,
                forall|j: int| 0 <= j < i ==> !pred(body[j]),
            decreases self.segments.len() - i,
        {
            if self.segments[i].tag == wanted {
                proof {
                    lemma_filter_first(body, pred, i as int);
                }
                return Some(self.segments[i].clone());
            }
            i += 1;
        }
        proof {
            lemma_filter_none(body, pred);
        }
        None
    }

    /// All segments of the body whose tag is `tag`, in their order.
    pub fn get_all_segments(&self, tag: &str) -> (found: Vec<Segment>)
        ensures
            found.deep_view() == segments_tagged(self@.segments, tag@),
    {
        tagged_segments(&self.segments, tag)
    }

    /// The order lines of the body, one for every `LIN` segment, in their
    /// order.
    pub fn get_order_lines(&self) -> (lines: Vec<OrderLine>)
        ensures
            lines.deep_view() == order_lines(self@.segments),
    {
        let mut lines: Vec<OrderLine> = Vec::new();
        let mut current: Option<OrderLine> = None;
        let ghost body = self@.segments;
        let mut i: usize = 0;
        proof {
            assert(body.take(0) =~= Seq::<SegmentView>::empty());
            assert(lines.deep_view() =~= Seq::<OrderLineView>::empty());
        }
        while i < self.segments.len()
            invariant
                0 <= i <= self.segments.len(),
                body == self@.segments,
                order_lines(body.take(i as int)) == match current {
                    Some(line) => lines.deep_view().push(line@),
                    None => lines.deep_view(),
                },
                current is None ==> lines.len() == 0,
            decreases self.segments.len() - i,
        {
            let ghost closed = lines.deep_view();
            proof {
                assert(body.take(i + 1).drop_last() =~= body.take(i as int));
                assert(body.take(i + 1).last() == self.segments[i as int]@);
            }
            let role = tag_role(self.segments[i].tag.as_str());
            if role == TagRole::Line {
                match current {
                    Some(line) => {
                        lines.push(line);
                        proof {
                            assert(lines.deep_view() =~= closed.push(line@));
                        }
                    },
                    None => {},
                }
                current = Some(OrderLine::new(self.segments[i].clone()));
            } else if role.attaches() {
                current =
                match current {
                    Some(line) => {
                        let mut line = line;
                        let ghost open = line@;
                        line.add_segment(self.segments[i].clone());
                        proof {
                            assert(closed.push(open).update(closed.len() as int, line@)
                                =~= closed.push(line@));
                        }
                        Some(line)
                    },
                    None => None,
                };
            } else {
                proof {
                    if current is Some {
                        let open = current->Some_0@;
                        assert(closed.push(open).update(closed.len() as int, open)
                            =~= closed.push(open));
                    }
                }
            }
            i += 1;
        }
        proof {
            assert(body.take(i as int) =~= body);
        }
        match current {
            Some(line) => {
                let ghost closed = lines.deep_view();
                lines.push(line);
                proof {
                    assert(lines.deep_view() =~= closed.push(line@));
                }
            },
            None => {},
        }
        lines
    }

    /// The order as text, every segment on a line of its own.
    pub fn to_edifact(&self) -> (text: String)
        ensures
            text@ == self@.to_text(),
    {
        let d = self.parser.delimiters;
        let mut out = String::new();
        if !d.is_standard() {
            out.append("UNA");
            out.push(d.component);
            out.push(d.data);
            out.push(d.decimal);
            out.push(d.escape);
            out.push(d.reserved);
            out.push(d.segment);
            out.push('\n');
            proof {
                assert(out@ =~= una_line(d) + seq!['\n']);
            }
        }
        write_header(&mut out, &self.interchange_header, &d);
        write_header(&mut out, &self.message_header, &d);
        let ghost head = out@;
        let ghost body = self@.segments;
        let mut i: usize = 0;
        proof {
            assert(body.take(0) =~= Seq::<SegmentView>::empty());
            assert(out@ =~= head + written_lines(body.take(0), d));
        }
        while i < self.segments.len()
            invariant
                0 <= i <= self.segments.len(),
                body == self@.segments,
                out@ == head + written_lines(body.take(i as int), d),
            decreases self.segments.len() - i,
        {
            proof {
                assert(body.take(i + 1).drop_last() =~= body.take(i as int));
                assert(body.take(i + 1).last() == self.segments[i as int]@);
            }
            let line = self.segments[i].to_edifact(&d);
            out.append(line.as_str());
            out.push('\n');
            i += 1;
        }
        proof {
            assert(body.take(i as int) =~= body);
        }
        out
    }

    /// A segment for the body of this order: its position is the length of
    /// the body. The order is not changed.
    pub fn create_segment(&self, tag: &str, elements: Vec<Vec<String>>) -> (segment: Segment)
        ensures
            segment@ == (SegmentView {
                tag: tag@,
                elements: elements.deep_view(),
                position: self@.segments.len(),
            }),
    {
        Segment::new(tag.to_owned(), elements, self.segments.len())
    }

    /// Appends a segment to the body, with the length of the body before as
    /// its position, and returns a copy of it. No tag is refused.
    pub fn add_segment(&mut self, tag: &str, elements: Vec<Vec<String>>) -> (segment: Segment)
        ensures
            segment@ == (SegmentView {
                tag: tag@,
                elements: elements.deep_view(),
                position: old(self)@.segments.len(),
            }),
            final(self)@ == (OrderView {
                segments: old(self)@.segments.push(segment@),
                ..old(self)@
            }),
    {
        let segment = self.create_segment(tag, elements);
        let copy = segment.clone();
        let ghost before = self@.segments;
        self.segments.push(segment);
        proof {
            assert(self@.segments =~= before.push(copy@));
        }
        copy
    }
}

/// Copies of the segments of `segments` whose tag is `tag`, in their order.
pub fn tagged_segments(segments: &Vec<Segment>, tag: &str) -> (found: Vec<Segment>)
    ensures
        found.deep_view() == segments_tagged(segments.deep_view(), tag@),
{
    let wanted = tag.to_owned();
    let mut found: Vec<Segment> = Vec::new();
    let ghost all = segments.deep_view();
    let mut i: usize = 0;
    proof {
        reveal(Seq::filter);
        assert(all.take(0) =~= Seq::<SegmentView>::empty());
        assert(found.deep_view() =~= segments_tagged(all.take(0), tag@));
    }
    while i < segments.len()
        invariant
            0 <= i <= segments.len(),
            wanted@ == tag@,
            all == segments.deep_view(),
            found.deep_view() == segments_tagged(all.take(i as int), tag@),
        decreases segments.len() - i,
    {
        proof {
            lemma_filter_push(all.take(i as int), |s: SegmentView| s.tag == tag@, all[i as int]);
            assert(all.take(i as int).push(all[i as int]) =~= all.take(i + 1));
        }
        if segments[i].tag == wanted {
            let ghost before = found.deep_view();
            let segment = segments[i].clone();
            found.push(segment);
            proof {
                assert(found.deep_view() =~= before.push(all[i as int]));
            }
        }
        i += 1;
    }
    proof {
        assert(all.take(i as int) =~= all);
    }
    found
}

/// Appends a header slot to `out` as `written_header` gives it.
fn write_header(out: &mut String, header: &Option<Segment>, d: &Delimiters)
    ensures
        final(out)@ == old(out)@ + written_header(header.deep_view(), *d),
{
    match header {
        Some(segment) => {
            let line = segment.to_edifact(d);
            out.append(line.as_str());
            out.push('\n');
            proof {
                assert(out@ =~= old(out)@ + (segment@.to_text(*d) + seq!['\n']));
            }
        },
        None => {
            proof {
                assert(out@ =~= old(out)@ + Seq::<char>::empty());
            }
        },
    }
}

impl Clone for Order {
    fn clone(&self) -> (order: Order)
        ensures
            order@ == self@,
    {
        Order {
            segments: self.segments.clone(),
            interchange_header: self.interchange_header.clone(),
            message_header: self.message_header.clone(),
            parser: self.parser,
        }
    }
}

} // verus!
