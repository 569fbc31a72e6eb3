//! What is reported once a colour has its name.

use vstd::prelude::*;
use vstd::string::*;

verus! {

/// The line that reports `name`.
pub open spec fn line_text(name: Seq<char>) -> Seq<char> {
    "Name: "@ + name
}

/// Builds the line to print for `name`.
pub fn name_line(name: &str) -> (line: String)
    ensures
        line@ == line_text(name@),
{
    let mut line = String::from_str("Name: ");
    line.append(name);
    line
}

} // verus!
