//! Source spans.
//!
//! A span names a region of one source file by the line and column of its
//! first and of its last character. Lines and columns are compared
//! lexicographically.

use crate::text::{decimal, push_decimal, push_text};
use crate::xml::XMLable;
use std::rc::Rc;
use vstd::prelude::*;

verus! {

/// `(l1, c1)` is at or before `(l2, c2)` in the lexicographic order on
/// `(line, column)`.
pub open spec fn at_or_before(l1: nat, c1: nat, l2: nat, c2: nat) -> bool {
    l1 < l2 || (l1 == l2 && c1 <= c2)
}

/// The mathematical model of a [`Position`].
pub struct Span {
    pub file: Seq<char>,
    pub begin_line: nat,
    pub begin_column: nat,
    pub end_line: nat,
    pub end_column: nat,
}

impl Span {
    /// The begin endpoint is at or before the end endpoint.
    pub open spec fn ordered(self) -> bool {
        at_or_before(self.begin_line, self.begin_column, self.end_line, self.end_column)
    }

    /// `self` with its begin endpoint moved to that of `other` if that one is
    /// strictly earlier.
    pub open spec fn extend_min(self, other: Span) -> Span {
        if at_or_before(self.begin_line, self.begin_column, other.begin_line, other.begin_column) {
            self
        } else {
            Span { begin_line: other.begin_line, begin_column: other.begin_column, ..self }
        }
    }

    /// `self` with its end endpoint moved to that of `other` if that one is
    /// strictly later.
    pub open spec fn extend_max(self, other: Span) -> Span {
        if at_or_before(other.end_line, other.end_column, self.end_line, self.end_column) {
            self
        } else {
            Span { end_line: other.end_line, end_column: other.end_column, ..self }
        }
    }

    /// The smallest span of `self`'s file that contains both `self` and `other`.
    pub open spec fn cover(self, other: Span) -> Span {
        self.extend_min(other).extend_max(other)
    }

    /// Where the span begins, in words.
    pub open spec fn description(self) -> Seq<char> {
        "filename: "@ + self.file + ", line "@ + decimal(self.begin_line) + " column "@ + decimal(
            self.begin_column,
        )
    }

    /// The span in short form: `[file: line.column-line.column]`.
    pub open spec fn text(self) -> Seq<char> {
        "["@ + self.file + ": "@ + decimal(self.begin_line) + "."@ + decimal(self.begin_column)
            + "-"@ + decimal(self.end_line) + "."@ + decimal(self.end_column) + "]"@
    }

    /// The span as an XML element.
    pub open spec fn xml(self) -> Seq<char> {
        "<position filename=\""@ + self.file + "\" begLine=\""@ + decimal(self.begin_line)
            + "\" begColumn=\""@ + decimal(self.begin_column) + "\" endLine=\""@ + decimal(
            self.end_line,
        ) + "\" endColumn=\""@ + decimal(self.end_column) + "\"/> \n"@
    }

    /// `other` lies within `self`: it begins no earlier and ends no later.
    pub open spec fn contains(self, other: Span) -> bool {
        &&& at_or_before(self.begin_line, self.begin_column, other.begin_line, other.begin_column)
        &&& at_or_before(other.end_line, other.end_column, self.end_line, self.end_column)
    }
}

/// Containment of spans is reflexive.
pub proof fn lemma_contains_reflexive(a: Span)
    ensures
        a.contains(a),
{
}

/// Containment of spans is transitive.
pub proof fn lemma_contains_transitive(a: Span, b: Span, c: Span)
    requires
        a.contains(b),
        b.contains(c),
    ensures
        a.contains(c),
{
}

/// Extending a span keeps whatever it contained, adds the other span's
/// endpoint on the side that was extended, and keeps an ordered span ordered.
pub proof fn lemma_extend_contains(a: Span, b: Span)
    ensures
        a.extend_min(b).contains(a),
        a.extend_max(b).contains(a),
        a.cover(b).contains(a),
        a.cover(b).contains(b),
        a.ordered() ==> a.extend_min(b).ordered() && a.extend_max(b).ordered(),
        a.ordered() ==> a.cover(b).ordered(),
        a.contains(b) ==> a.cover(b) == a,
{
}

/// A region of a source file, from the line and column of its first character
/// to the line and column of its last.
#[derive(Debug, PartialEq, Eq)]
pub struct Position {
    filename: Rc<String>,
    begin_line: u64,
    begin_column: u64,
    end_line: u64,
    end_column: u64,
}

/// `Rc::clone`: the new pointer shares the allocation of the given one, so
/// both hold the same string.
#[verifier::external_body]
fn share_name(name: &Rc<String>) -> (shared: Rc<String>)
    ensures
        shared == *name,
{
    Rc::clone(name)
}

impl View for Position {
    type V = Span;

    closed spec fn view(&self) -> Span {
        Span {
            file: (*self.filename)@,
            begin_line: self.begin_line as nat,
            begin_column: self.begin_column as nat,
            end_line: self.end_line as nat,
            end_column: self.end_column as nat,
        }
    }
}

impl Clone for Position {
    fn clone(&self) -> (copy: Position)
        ensures
            copy@ == self@,
    {
        proof {
            use_type_invariant(self);
        }
        Position {
            filename: share_name(&self.filename),
            begin_line: self.begin_line,
            begin_column: self.begin_column,
            end_line: self.end_line,
            end_column: self.end_column,
        }
    }
}

impl Position {
    #[verifier::type_invariant]
    spec fn well_formed(&self) -> bool {
        self@.ordered()
    }

    /// The line of the first character. Every position is ordered.
    pub fn begin_line(&self) -> (line: u64)
        ensures
            line == self@.begin_line,
            self@.ordered(),
    {
        proof {
            use_type_invariant(self);
        }
        self.begin_line
    }

    /// The column of the first character.
    pub fn begin_column(&self) -> (column: u64)
        ensures
            column == self@.begin_column,
    {
        self.begin_column
    }

    /// The line of the last character.
    pub fn end_line(&self) -> (line: u64)
        ensures
            line == self@.end_line,
    {
        self.end_line
    }

    /// The column of the last character.
    pub fn end_column(&self) -> (column: u64)
        ensures
            column == self@.end_column,
    {
        self.end_column
    }

    /// The name of the source file.
    pub fn filename(&self) -> (name: &str)
        ensures
            name@ == self@.file,
    {
        self.filename.as_str()
    }

    pub fn new(
        filename: &Rc<String>,
        begin_line: u64,
        begin_column: u64,
        end_line: u64,
        end_column: u64,
    ) -> (position: Position)
        requires
            at_or_before(
                begin_line as nat,
                begin_column as nat,
                end_line as nat,
                end_column as nat,
            ),
        ensures
            position@ == (Span {
                file: (**filename)@,
                begin_line: begin_line as nat,
                begin_column: begin_column as nat,
                end_line: end_line as nat,
                end_column: end_column as nat,
            }),
    {
        Position { filename: share_name(filename), begin_line, begin_column, end_line, end_column }
    }

    pub fn get_description(&self) -> (description: String)
        ensures
            description@ == self@.description(),
    {
        let mut description = String::new();
        push_text(&mut description, "filename: ");
        push_text(&mut description, self.filename.as_str());
        push_text(&mut description, ", line ");
        push_decimal(&mut description, self.begin_line);
        push_text(&mut description, " column ");
        push_decimal(&mut description, self.begin_column);
        assert(description@ =~= self@.description());
        description
    }

    /// The position in short form.
    pub fn to_string(&self) -> (text: String)
        ensures
            text@ == self@.text(),
    {
        let mut text = String::new();
        push_text(&mut text, "[");
        push_text(&mut text, self.filename.as_str());
        push_text(&mut text, ": ");
        push_decimal(&mut text, self.begin_line);
        push_text(&mut text, ".");
        push_decimal(&mut text, self.begin_column);
        push_text(&mut text, "-");
        push_decimal(&mut text, self.end_line);
        push_text(&mut text, ".");
        push_decimal(&mut text, self.end_column);
        push_text(&mut text, "]");
        assert(text@ =~= self@.text());
        text
    }

    /// Moves the begin endpoint to that of `position` if that one is earlier.
    pub fn set_min(&mut self, position: &Position)
        ensures
            final(self)@ == old(self)@.extend_min(position@),
    {
        proof {
            use_type_invariant(&*self);
        }
        if (position.begin_line < self.begin_line) || ((position.begin_line == self.begin_line)
            && (position.begin_column < self.begin_column)) {
            self.begin_line = position.begin_line;
            self.begin_column = position.begin_column;
        }
    }

    /// Moves the end endpoint to that of `position` if that one is later.
    pub fn set_max(&mut self, position: &Position)
        ensures
            final(self)@ == old(self)@.extend_max(position@),
    {
        proof {
            use_type_invariant(&*self);
        }
        if (position.end_line > self.end_line) || ((position.end_line == self.end_line) && (
        position.end_column > self.end_column)) {
            self.end_line = position.end_line;
            self.end_column = position.end_column;
        }
    }
}

impl XMLable for Position {
    open spec fn xml(&self) -> Seq<char> {
        self@.xml()
    }

    fn to_xml(&self, xml: &mut String) {
        let mut element = String::new();
        push_text(&mut element, "<position filename=\"");
        push_text(&mut element, self.filename.as_str());
        push_text(&mut element, "\" begLine=\"");
        push_decimal(&mut element, self.begin_line);
        push_text(&mut element, "\" begColumn=\"");
        push_decimal(&mut element, self.begin_column);
        push_text(&mut element, "\" endLine=\"");
        push_decimal(&mut element, self.end_line);
        push_text(&mut element, "\" endColumn=\"");
        push_decimal(&mut element, self.end_column);
        push_text(&mut element, "\"/> \n");
        assert(element@ =~= self@.xml());
        push_text(xml, element.as_str());
    }
}

} // verus!
