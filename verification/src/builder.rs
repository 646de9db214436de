use vstd::prelude::*;

use crate::order::{Order, OrderView};
use crate::segment::{Segment, SegmentView};

verus! {

/// Assembles an order from fields, step by step. Every step changes the
/// builder in place and hands it back, so that steps can be chained.
#[derive(Debug)]
pub struct OrderBuilder {
    order: Order,
}

impl View for OrderBuilder {
    type V = OrderView;

    /// The order as built so far.
    closed spec fn view(&self) -> OrderView {
        self.order@
    }
}

/// The `UNB` segment of an interchange: syntax `UNOA` version `4`, the
/// parties, the date, the control reference, and the application `ORDERS`.
pub open spec fn interchange_header(
    sender: Seq<char>,
    recipient: Seq<char>,
    date: Seq<char>,
    control_ref: Seq<char>,
) -> SegmentView {
    SegmentView {
        tag: "UNB"@,
        elements: seq![
            seq!["UNOA"@, "4"@],
            seq![sender],
            seq![recipient],
            seq![date],
            seq![control_ref],
            seq!["ORDERS"@],
        ],
        position: 0,
    }
}

/// The `UNH` segment of a message: its reference, and its type in
/// directory `D`, release `01B`, of the agency `UN`.
pub open spec fn message_header(message_ref: Seq<char>, message_type: Seq<char>) -> SegmentView {
    SegmentView {
        tag: "UNH"@,
        elements: seq![seq![message_ref], seq![message_type, "D"@, "01B"@, "UN"@]],
        position: 1,
    }
}

/// The `BGM` segment that opens a message.
pub open spec fn bgm_segment(
    message_name: Seq<char>,
    doc_number: Seq<char>,
    message_function: Seq<char>,
    position: nat,
) -> SegmentView {
    SegmentView {
        tag: "BGM"@,
        elements: seq![seq![message_name], seq![doc_number], seq![message_function]],
        position,
    }
}

/// The `LIN` segment of an order line: the line number, an element without
/// components, and the item number as a buyer's part number (`BP`).
pub open spec fn lin_segment(line_number: Seq<char>, item_number: Seq<char>, position: nat) -> SegmentView {
    SegmentView {
        tag: "LIN"@,
        elements: seq![seq![line_number], Seq::empty(), seq![item_number, "BP"@]],
        position,
    }
}

/// The `QTY` segment of an order line: the ordered quantity (qualifier `21`).
pub open spec fn qty_segment(quantity: Seq<char>, position: nat) -> SegmentView {
    SegmentView { tag: "QTY"@, elements: seq![seq!["21"@], seq![quantity]], position }
}

/// The `PRI` segment of an order line: the net price (qualifier `AAA`).
pub open spec fn pri_segment(price: Seq<char>, position: nat) -> SegmentView {
    SegmentView { tag: "PRI"@, elements: seq![seq!["AAA"@], seq![price]], position }
}

/// An element of one component.
fn one(a: &str) -> (element: Vec<String>)
    ensures
        element.deep_view() == seq![a@],
{
    let element = vec![a.to_owned()];
    assert(element.deep_view() =~= seq![a@]);
    element
}

/// An element of two components.
fn two(a: &str, b: &str) -> (element: Vec<String>)
    ensures
        element.deep_view() == seq![a@, b@],
{
    let element = vec![a.to_owned(), b.to_owned()];
    assert(element.deep_view() =~= seq![a@, b@]);
    element
}

impl OrderBuilder {
    /// A builder whose order is empty and has the standard delimiters.
    pub fn new() -> (builder: OrderBuilder)
        ensures
            builder@ == OrderView::empty(),
    {
        OrderBuilder { order: Order::new() }
    }

    /// Sets the interchange header, in place of an earlier one.
    pub fn with_interchange_header(
        &mut self,
        sender: &str,
        recipient: &str,
        date: &str,
        control_ref: &str,
    ) -> (builder: &mut OrderBuilder)
        ensures
            (*builder)@ == (OrderView {
                interchange_header: Some(
                    interchange_header(sender@, recipient@, date@, control_ref@),
                ),
                ..old(self)@
            }),
            *final(self) == *final(builder),
    {
        let elements = vec![
            two("UNOA", "4"),
            one(sender),
            one(recipient),
            one(date),
            one(control_ref),
            one("ORDERS"),
        ];
        let segment = Segment::new("UNB".to_owned(), elements, 0);
        assert(segment@.elements =~= interchange_header(
            sender@,
            recipient@,
            date@,
            control_ref@,
        ).elements);
        self.order.interchange_header = Some(segment);
        self
    }

    /// Sets the message header, in place of an earlier one.
    pub fn with_message_header(&mut self, message_ref: &str, message_type: &str) -> (builder:
        &mut OrderBuilder)
        ensures
            (*builder)@ == (OrderView {
                message_header: Some(message_header(message_ref@, message_type@)),
                ..old(self)@
            }),
            *final(self) == *final(builder),
    {
        let kind = vec![
            message_type.to_owned(),
            "D".to_owned(),
            "01B".to_owned(),
            "UN".to_owned(),
        ];
        assert(kind.deep_view() =~= seq![message_type@, "D"@, "01B"@, "UN"@]);
        let elements = vec![one(message_ref), kind];
        let segment = Segment::new("UNH".to_owned(), elements, 1);
        assert(segment@.elements =~= message_header(message_ref@, message_type@).elements);
        self.order.message_header = Some(segment);
        self
    }

    /// Appends a `BGM` segment to the body.
    pub fn with_bgm(&mut self, message_name: &str, doc_number: &str, message_function: &str) -> (builder:
        &mut OrderBuilder)
        ensures
            (*builder)@ == (OrderView {
                segments: old(self)@.segments.push(
                    bgm_segment(
                        message_name@,
                        doc_number@,
                        message_function@,
                        old(self)@.segments.len(),
                    ),
                ),
                ..old(self)@
            }),
            *final(self) == *final(builder),
    {
        let elements = vec![one(message_name), one(doc_number), one(message_function)];
        assert(elements.deep_view() =~= bgm_segment(
            message_name@,
            doc_number@,
            message_function@,
            0,
        ).elements);
        self.order.add_segment("BGM", elements);
        self
    }

    /// Appends an order line to the body: a `LIN`, a `QTY` and a `PRI`
    /// segment, and no other.
    pub fn add_order_line(
        &mut self,
        line_number: &str,
        item_number: &str,
        quantity: &str,
        price: &str,
    ) -> (builder: &mut OrderBuilder)
        ensures
            (*builder)@ == (OrderView {
                segments: old(self)@.segments.push(
                    lin_segment(line_number@, item_number@, old(self)@.segments.len()),
                ).push(qty_segment(quantity@, old(self)@.segments.len() + 1)).push(
                    pri_segment(price@, old(self)@.segments.len() + 2),
                ),
                ..old(self)@
            }),
            *final(self) == *final(builder),
    {
        let none: Vec<String> = Vec::new();
        assert(none.deep_view() =~= Seq::<Seq<char>>::empty());
        let lin = vec![one(line_number), none, two(item_number, "BP")];
        assert(lin.deep_view() =~= lin_segment(line_number@, item_number@, 0).elements);
        self.order.add_segment("LIN", lin);
        let qty = vec![one("21"), one(quantity)];
        assert(qty.deep_view() =~= qty_segment(quantity@, 0).elements);
        self.order.add_segment("QTY", qty);
        let pri = vec![one("AAA"), one(price)];
        assert(pri.deep_view() =~= pri_segment(price@, 0).elements);
        self.order.add_segment("PRI", pri);
        self
    }

    /// The order as built so far, as a value of its own: what the builder
    /// does later does not reach it.
    pub fn build(&self) -> (order: Order)
        ensures
            order@ == self@,
    {
        self.order.clone()
    }
}

impl Clone for OrderBuilder {
    fn clone(&self) -> (builder: OrderBuilder)
        ensures
            builder@ == self@,
    {
        OrderBuilder { order: self.order.clone() }
    }
}

} // verus!
