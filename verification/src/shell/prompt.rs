//! The prompt that the shell shows before it reads a line.

use vstd::prelude::*;
use vstd::string::StringExecFns;

verus! {

/// The name that stands in the prompt for the working directory: its path,
/// or a question mark where the system does not tell it.
pub open spec fn shown_directory(directory: Option<Seq<char>>) -> Seq<char> {
    match directory {
        Some(path) => path,
        None => "?"@,
    }
}

/// The prompt for `user` on `device` in `directory`: `user@device directory $ `.
pub open spec fn prompt_text(
    user: Seq<char>,
    device: Seq<char>,
    directory: Option<Seq<char>>,
) -> Seq<char> {
    user + "@"@ + device + " "@ + shown_directory(directory) + " $ "@
}

/// The prompt for `user` on `device` in `directory`.
pub fn prompt(user: &str, device: &str, directory: Option<&str>) -> (text: String)
    ensures
        text@ == prompt_text(user@, device@, directory.deep_view()),
{
    let mut text = String::from_str(user);
    text.append("@");
    text.append(device);
    text.append(" ");
    match directory {
        Some(path) => text.append(path),
        None => text.append("?"),
    }
    text.append(" $ ");
    text
}

} // verus!
