//! Reading and writing UN/EDIFACT-style purchase-order messages.
//!
//! A message is flat text, one segment per line. Every segment is a short tag
//! followed by data elements, each made of components. Which characters
//! separate them is fixed by a [`Delimiters`] value, the standard set unless
//! the text opens with a `UNA` service line that declares another.
//!
//! Every type has a mathematical view (`SegmentView`, `OrderLineView`,
//! `OrderView`), and every function says over those views what it returns:
//!
//! - `delimiters`, `tags`: the service characters and the roles of tags;
//! - `text`: lines and blank lines;
//! - `segment`: a segment and its text (`Segment::to_edifact`);
//! - `parser`: the tokenizer (`Parser::parse_segment`), a state machine over
//!   the characters of one segment;
//! - `roundtrip`: when reading a segment's text gives the segment back;
//! - `order_line`, `order`: an order read from text
//!   (`Order::from_edifact`), its lines, its text;
//! - `message`: a plain list of segments;
//! - `builder`: an order assembled from fields.

pub mod builder;
pub mod delimiters;
pub mod error;
pub mod message;
pub mod order;
pub mod order_line;
pub mod parser;
pub mod roundtrip;
pub mod segment;
pub mod tags;
pub mod text;

pub use builder::OrderBuilder;
pub use delimiters::{CharRole, Delimiters};
pub use error::EdifactError;
pub use message::Message;
pub use order::{Order, OrderView};
pub use order_line::{OrderLine, OrderLineView};
pub use parser::{Parser, ScanState};
pub use segment::{Segment, SegmentView};
pub use tags::TagRole;
