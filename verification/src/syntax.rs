//! The fixed vocabulary of statement prefixes and block delimiters.

use vstd::prelude::*;

verus! {

/// Opens and closes a comment that spans several lines.
pub const ML_COMMENT: &'static str = "...";

/// Begins a comment of one line.
pub const SL_COMMENT: &'static str = ".";

/// Begins a variable declaration.
pub const VAR_DECLARE: &'static str = "var ";

/// Begins the deletion of a variable.
pub const VAR_DELETE: &'static str = "-";

/// Begins a reference to a variable inside text.
pub const VAR_GET: char = '$';

/// Separates a declared name from its value.
pub const VAR_ASSIGN: &'static str = "=";

/// Begins a function definition.
pub const FUNC_BEGIN: &'static str = "func ";

/// Ends a function definition.
pub const FUNC_END: &'static str = "cnuf";

/// Begins a function call.
pub const FUNC_CALL: &'static str = "call ";

/// Begins a conditional block.
pub const IF_BEGIN: &'static str = "if ";

/// Ends a conditional block.
pub const IF_END: &'static str = "fi";

/// Begins a concurrent block.
pub const THREAD_OUTSIDE_BEGIN: &'static str = "!!";

/// Begins a group of lines inside a concurrent block.
pub const THREAD_INSIDE_BEGIN: &'static str = "{";

/// Ends a group of lines inside a concurrent block.
pub const THREAD_INSIDE_END: &'static str = "}";

/// Ends a concurrent block.
pub const THREAD_OUTSIDE_END: &'static str = "??";

/// Begins an input statement.
pub const INPUT_VAR: &'static str = "input ";

/// Separates the name of an input statement from its prompt.
pub const INPUT_VAR_SPLIT: &'static str = "->";

/// The prompt of an input statement that gives none.
pub const INPUT_DEFAULT_PROMPT: &'static str = "Enter value: ";

} // verus!
