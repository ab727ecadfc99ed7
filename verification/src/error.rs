use vstd::prelude::*;
use crate::text::{decimal, decimal_text};

verus! {

/// An error of the front end, with the line it was found on.
#[derive(Debug)]
pub struct ErrorInfo {
    pub line: usize,
    pub location: String,
    pub message: String,
}

impl ErrorInfo {
    /// An error on a line, without a location inside the line.
    pub fn line(line: usize, message: &str) -> (info: Self)
        ensures
            info.line == line,
            info.location@ == Seq::<char>::empty(),
            info.message@ == message@,
    {
        ErrorInfo { line, location: String::new(), message: message.to_owned() }
    }

    /// The report as one line of text.
    pub open spec fn report(&self) -> Seq<char> {
        "[line "@ + decimal_text(self.line as nat) + "] Error"@ + self.location@ + ": "@
            + self.message@
    }

    /// Writes the report: the line in brackets, the word `Error` with the
    /// location, a colon, and the message.
    pub fn text(&self) -> (text: String)
        ensures
            text@ == self.report(),
    {
        let mut text = "[line ".to_owned();
        text.append(decimal(self.line).as_str());
        text.append("] Error");
        text.append(self.location.as_str());
        text.append(": ");
        text.append(self.message.as_str());
        text
    }
}

/// Remembers whether a static or a runtime error was reported.
#[derive(Debug)]
pub struct ErrorReporter {
    pub had_error: bool,
    pub had_runtime_error: bool,
}

impl ErrorReporter {
    /// A reporter that has seen no error.
    pub fn new() -> (reporter: Self)
        ensures
            !reporter.had_error,
            !reporter.had_runtime_error,
    {
        ErrorReporter { had_error: false, had_runtime_error: false }
    }
}

} // verus!
