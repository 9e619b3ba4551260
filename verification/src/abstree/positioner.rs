//! What every node has in common: a span that can be read and extended.

use crate::abstree::tree::{with_max, with_min};
use crate::lexanal::position::{Position, Span};
use vstd::prelude::*;

verus! {

/// The span that a position, if there is one, stands for.
pub open spec fn span_of(position: Option<&Position>) -> Option<Span> {
    match position {
        Some(p) => Some(p@),
        None => None,
    }
}

pub trait Positioner {
    /// The span of the node, if it has one yet.
    spec fn span(&self) -> Option<Span>;

    fn get_position_ref(&self) -> (position: Option<&Position>)
        ensures
            span_of(position) == self.span(),
    ;

    /// The position of the node, to be changed in place: the span of the
    /// node is then the span of the position as it was left.
    fn get_position_ref_mut(&mut self) -> (position: Option<&mut Position>)
        ensures
            match old(self).span() {
                Some(span) => position.is_some() && (*position.unwrap())@ == span
                    && final(self).span() == Some((*final(position.unwrap()))@),
                None => position.is_none() && final(self).span() is None,
            },
    ;

    /// Moves the begin endpoint to include `position`, which becomes the
    /// span if there was none.
    fn set_min(&mut self, position: &Position)
        ensures
            final(self).span() == with_min(old(self).span(), position@),
    ;

    /// Moves the end endpoint to include `position`, which becomes the span
    /// if there was none.
    fn set_max(&mut self, position: &Position)
        ensures
            final(self).span() == with_max(old(self).span(), position@),
    ;
}

} // verus!
