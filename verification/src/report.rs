//! The lines by which warnings and errors are reported.

use crate::lexanal::position::{Position, Span};
use crate::text::push_text;
use vstd::prelude::*;

verus! {

/// Why the analysis of a source text was given up.
#[derive(Debug, Clone, Copy, PartialEq, Eq, Structural)]
pub enum ExitCode {
    LexicalAnalyzerIlegallChar,
    SyntaxAnalyzerSyntaxError,
    SyntaxAnalyzerUnexpectedEndOfStream,
    AbstractSyntaxTreeInvalidExpression,
}

impl ExitCode {
    /// The name of the code.
    pub open spec fn name(self) -> Seq<char> {
        match self {
            ExitCode::LexicalAnalyzerIlegallChar => "LexicalAnalyzerIlegallChar"@,
            ExitCode::SyntaxAnalyzerSyntaxError => "SyntaxAnalyzerSyntaxError"@,
            ExitCode::SyntaxAnalyzerUnexpectedEndOfStream => "SyntaxAnalyzerUnexpectedEndOfStream"@,
            ExitCode::AbstractSyntaxTreeInvalidExpression => "AbstractSyntaxTreeInvalidExpression"@,
        }
    }

    /// The name of the code, on a line of its own.
    pub fn to_string(&self) -> (text: String)
        ensures
            text@ == self.name() + "\n"@,
    {
        let mut text = String::new();
        match self {
            ExitCode::LexicalAnalyzerIlegallChar => push_text(
                &mut text,
                "LexicalAnalyzerIlegallChar",
            ),
            ExitCode::SyntaxAnalyzerSyntaxError => push_text(
                &mut text,
                "SyntaxAnalyzerSyntaxError",
            ),
            ExitCode::SyntaxAnalyzerUnexpectedEndOfStream => push_text(
                &mut text,
                "SyntaxAnalyzerUnexpectedEndOfStream",
            ),
            ExitCode::AbstractSyntaxTreeInvalidExpression => push_text(
                &mut text,
                "AbstractSyntaxTreeInvalidExpression",
            ),
        }
        push_text(&mut text, "\n");
        assert(text@ =~= self.name() + "\n"@);
        text
    }
}

/// The line that reports a warning.
pub open spec fn warning_line(msg: Seq<char>) -> Seq<char> {
    ":-o "@ + msg
}

/// The line that reports a warning about a part of the source.
pub open spec fn warning_line_at(msg: Seq<char>, position: Span) -> Seq<char> {
    ":-o "@ + position.text() + " "@ + msg
}

/// The line that reports an error.
pub open spec fn error_line(msg: Seq<char>, exit_code: ExitCode) -> Seq<char> {
    ":-( "@ + msg + "  ExitCode: "@ + exit_code.name() + "\n"@
}

/// The line that reports an error in a part of the source.
pub open spec fn error_line_at(msg: Seq<char>, position: Span, exit_code: ExitCode) -> Seq<char> {
    ":-( "@ + msg + " "@ + exit_code.name() + "\n"@ + " "@ + position.text()
}

/// The line that reports a warning.
pub fn warning(msg: &str) -> (line: String)
    ensures
        line@ == warning_line(msg@),
{
    let mut line = String::new();
    push_text(&mut line, ":-o ");
    push_text(&mut line, msg);
    assert(line@ =~= warning_line(msg@));
    line
}

/// The line that reports a warning about a part of the source.
pub fn warning_at_position(msg: &str, position: &Position) -> (line: String)
    ensures
        line@ == warning_line_at(msg@, position@),
{
    let mut line = String::new();
    push_text(&mut line, ":-o ");
    push_text(&mut line, position.to_string().as_str());
    push_text(&mut line, " ");
    push_text(&mut line, msg);
    assert(line@ =~= warning_line_at(msg@, position@));
    line
}

/// The line that reports an error, after which the analysis is given up.
pub fn error(msg: &str, exit_code: ExitCode) -> (line: String)
    ensures
        line@ == error_line(msg@, exit_code),
{
    let mut line = String::new();
    push_text(&mut line, ":-( ");
    push_text(&mut line, msg);
    push_text(&mut line, "  ExitCode: ");
    push_text(&mut line, exit_code.to_string().as_str());
    assert(line@ =~= error_line(msg@, exit_code));
    line
}

/// The line that reports an error in a part of the source, after which the
/// analysis is given up.
pub fn error_at_position(msg: &str, position: &Position, exit_code: ExitCode) -> (line: String)
    ensures
        line@ == error_line_at(msg@, position@, exit_code),
{
    let mut line = String::new();
    push_text(&mut line, ":-( ");
    push_text(&mut line, msg);
    push_text(&mut line, " ");
    push_text(&mut line, exit_code.to_string().as_str());
    push_text(&mut line, " ");
    push_text(&mut line, position.to_string().as_str());
    assert(line@ =~= error_line_at(msg@, position@, exit_code));
    line
}

} // verus!
