//! The span of a node, which is unknown until the node has been given one.

use crate::abstree::positioner::{span_of, Positioner};
use crate::abstree::tree::{cover, position_xml};
use crate::lexanal::position::{Position, Span};
use crate::xml::XMLable;
use vstd::prelude::*;

verus! {

pub struct AbsPosition {
    position: Option<Position>,
}

impl View for AbsPosition {
    type V = Option<Span>;

    closed spec fn view(&self) -> Option<Span> {
        match self.position {
            Some(p) => Some(p@),
            None => None,
        }
    }
}

impl AbsPosition {
    pub fn new() -> (position: AbsPosition)
        ensures
            position@ is None,
    {
        AbsPosition { position: None }
    }

    pub fn new_with_position(pos: &Position) -> (position: AbsPosition)
        ensures
            position@ == Some(pos@),
    {
        AbsPosition { position: Some(pos.clone()) }
    }

    /// Extends the span to include `other`, if there is one.
    pub fn cover(&mut self, other: Option<&Position>)
        ensures
            final(self)@ == cover(old(self)@, span_of(other)),
    {
        match other {
            Some(position) => {
                self.set_min(position);
                self.set_max(position);
            },
            None => {},
        }
    }
}

impl Positioner for AbsPosition {
    open spec fn span(&self) -> Option<Span> {
        self@
    }

    fn get_position_ref(&self) -> (position: Option<&Position>) {
        self.position.as_ref()
    }

    fn get_position_ref_mut(&mut self) -> (position: Option<&mut Position>) {
        self.position.as_mut()
    }

    fn set_min(&mut self, position: &Position) {
        match self.position.take() {
            Some(mut pos) => {
                pos.set_min(position);
                self.position = Some(pos);
            },
            None => {
                self.position = Some(position.clone());
            },
        }
    }

    fn set_max(&mut self, position: &Position) {
        match self.position.take() {
            Some(mut pos) => {
                pos.set_max(position);
                self.position = Some(pos);
            },
            None => {
                self.position = Some(position.clone());
            },
        }
    }
}

impl XMLable for AbsPosition {
    open spec fn xml(&self) -> Seq<char> {
        position_xml(self@)
    }

    fn to_xml(&self, xml: &mut String) {
        match &self.position {
            Some(position) => position.to_xml(xml),
            None => {
                assert(xml@ + Seq::<char>::empty() =~= xml@);
            },
        }
    }
}

} // verus!
