use vstd::prelude::*;

use crate::segment::{Segment, SegmentView};
use crate::tags::{tag_role, TagRole};

verus! {

/// One line of an order: the `LIN` segment that opens it and, of each kind
/// of detail, the segment that came last before the next line.
#[derive(Debug)]
pub struct OrderLine {
    pub line_segment: Segment,
    pub description: Option<Segment>,
    pub quantity: Option<Segment>,
    pub amount: Option<Segment>,
    pub price: Option<Segment>,
    pub reference: Option<Segment>,
}

/// An order line as a mathematical value.
pub struct OrderLineView {
    pub line_segment: SegmentView,
    pub description: Option<SegmentView>,
    pub quantity: Option<SegmentView>,
    pub amount: Option<SegmentView>,
    pub price: Option<SegmentView>,
    pub reference: Option<SegmentView>,
}

impl OrderLineView {
    /// The line that `line_segment` opens, with no detail yet.
    pub open spec fn opened_by(line_segment: SegmentView) -> OrderLineView {
        OrderLineView {
            line_segment,
            description: None,
            quantity: None,
            amount: None,
            price: None,
            reference: None,
        }
    }

    /// The line after `segment` came: a detail takes the slot of its kind,
    /// whatever was there, and any other segment changes nothing.
    pub open spec fn attach(self, segment: SegmentView) -> OrderLineView {
        match TagRole::of(segment.tag) {
            TagRole::Description => OrderLineView { description: Some(segment), ..self },
            TagRole::Quantity => OrderLineView { quantity: Some(segment), ..self },
            TagRole::Amount => OrderLineView { amount: Some(segment), ..self },
            TagRole::Price => OrderLineView { price: Some(segment), ..self },
            TagRole::Reference => OrderLineView { reference: Some(segment), ..self },
            _ => self,
        }
    }
}

impl View for OrderLine {
    type V = OrderLineView;

    open spec fn view(&self) -> OrderLineView {
        OrderLineView {
            line_segment: self.line_segment@,
            description: self.description.deep_view(),
            quantity: self.quantity.deep_view(),
            amount: self.amount.deep_view(),
            price: self.price.deep_view(),
            reference: self.reference.deep_view(),
        }
    }
}

impl DeepView for OrderLine {
    type V = OrderLineView;

    open spec fn deep_view(&self) -> OrderLineView {
        self@
    }
}

/// The order lines of a body. Every `LIN` segment opens a line; a detail
/// goes to the line that was opened last; what stands before the first
/// `LIN`, and segments of any other kind, belong to no line.
pub open spec fn order_lines(body: Seq<SegmentView>) -> Seq<OrderLineView>
    decreases body.len(),
{
    if body.len() == 0 {
        Seq::empty()
    } else {
        let lines = order_lines(body.drop_last());
        let segment = body.last();
        if TagRole::of(segment.tag) == TagRole::Line {
            lines.push(OrderLineView::opened_by(segment))
        } else if lines.len() > 0 {
            lines.update(lines.len() - 1, lines.last().attach(segment))
        } else {
            lines
        }
    }
}

/// The `LIN` segments of a body, in their order.
pub open spec fn line_segments(body: Seq<SegmentView>) -> Seq<SegmentView> {
    body.filter(|s: SegmentView| TagRole::of(s.tag) == TagRole::Line)
}

/// There is one order line for every `LIN` segment of the body, in the
/// order of the body, and each line is opened by its `LIN` segment.
pub proof fn theorem_one_line_per_lin(body: Seq<SegmentView>)
    ensures
        order_lines(body).len() == line_segments(body).len(),
        forall|k: int|
            0 <= k < order_lines(body).len() ==> (#[trigger] order_lines(body)[k]).line_segment
                == line_segments(body)[k],
    decreases body.len(),
{
    reveal(Seq::filter);
    if body.len() > 0 {
        theorem_one_line_per_lin(body.drop_last());
    }
}

impl OrderLine {
    /// The line that `line_segment` opens, with no detail yet.
    pub fn new(line_segment: Segment) -> (line: OrderLine)
        ensures
            line@ == OrderLineView::opened_by(line_segment@),
    {
        OrderLine {
            line_segment,
            description: None,
            quantity: None,
            amount: None,
            price: None,
            reference: None,
        }
    }

    /// Attaches a detail to the line, in place of an earlier one of its
    /// kind. A segment that is no detail is dropped.
    pub fn add_segment(&mut self, segment: Segment)
        ensures
            final(self)@ == old(self)@.attach(segment@),
    {
        match tag_role(segment.tag.as_str()) {
            TagRole::Description => {
                self.description = Some(segment);
            },
            TagRole::Quantity => {
                self.quantity = Some(segment);
            },
            TagRole::Amount => {
                self.amount = Some(segment);
            },
            TagRole::Price => {
                self.price = Some(segment);
            },
            TagRole::Reference => {
                self.reference = Some(segment);
            },
            _ => {},
        }
    }
}

} // verus!
