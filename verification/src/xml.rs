//! Output in XML form.

use vstd::prelude::*;

verus! {

/// What can be written in XML form.
pub trait XMLable {
    /// The XML form of the value.
    spec fn xml(&self) -> Seq<char>;

    /// Appends the XML form of the value to `xml`.
    fn to_xml(&self, xml: &mut String)
        ensures
            final(xml)@ == old(xml)@ + self.xml(),
    ;
}

} // verus!
