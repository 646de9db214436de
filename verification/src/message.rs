use std::collections::HashMap;
use vstd::prelude::*;

use crate::order::{segments_tagged, tagged_segments};
use crate::segment::Segment;

verus! {

/// A message as a plain list of segments, with its service segments kept
/// apart by tag.
#[derive(Debug)]
pub struct Message {
    pub segments: Vec<Segment>,
    pub service_segments: HashMap<String, Segment>,
}

impl Message {
    /// A message without segments.
    pub fn new() -> (message: Message)
        ensures
            message.segments@.len() == 0,
            message.service_segments@ == Map::<String, Segment>::empty(),
    {
        Message { segments: Vec::new(), service_segments: HashMap::new() }
    }

    /// All segments whose tag is `tag`, in their order.
    pub fn get_segments_by_tag(&self, tag: &str) -> (found: Vec<Segment>)
        ensures
            found.deep_view() == segments_tagged(self.segments.deep_view(), tag@),
    {
        tagged_segments(&self.segments, tag)
    }
}

} // verus!
