//! The Java tools `javac` and `java`: their names, what is said when one of
//! them fails, and the name of the class that a file holds.

use vstd::prelude::*;
use vstd::string::{StringExecFns, StrSliceExecFns};
use crate::text::chars_of;

verus! {

/// The tools that are called.
#[derive(Debug, Clone, Copy, PartialEq, Eq, Structural)]
pub enum Tool {
    Javac,
    Java,
}

impl Tool {
    /// The name of the program.
    pub open spec fn program(self) -> Seq<char> {
        match self {
            Tool::Javac => "javac"@,
            Tool::Java => "java"@,
        }
    }

    /// The name of the program.
    pub fn name(&self) -> (s: &'static str)
        ensures
            s@ == self.program(),
    {
        match self {
            Tool::Javac => "javac",
            Tool::Java => "java",
        }
    }
}

/// Why a call of a tool failed.
#[derive(Debug, Clone, PartialEq, Eq)]
pub enum Error {
    /// The program was not found.
    JavaBinaryNotFound,
    /// The program ran and failed; with the status it gave.
    JavacFailure(String),
    /// Another error of the system; with its text.
    Io(String),
}

/// The mathematical value of an `Error`.
pub enum ErrorView {
    JavaBinaryNotFound,
    JavacFailure(Seq<char>),
    Io(Seq<char>),
}

impl View for Error {
    type V = ErrorView;

    open spec fn view(&self) -> ErrorView {
        match *self {
            Error::JavaBinaryNotFound => ErrorView::JavaBinaryNotFound,
            Error::JavacFailure(s) => ErrorView::JavacFailure(s@),
            Error::Io(s) => ErrorView::Io(s@),
        }
    }
}

impl Error {
    /// The error for an error of the system with the text `text`, of
    /// which `not_found` says whether it tells that a file is missing.
    pub fn from_io(not_found: bool, text: String) -> (e: Error)
        ensures
            e@ == if not_found {
                ErrorView::JavaBinaryNotFound
            } else {
                ErrorView::Io(text@)
            },
    {
        if not_found {
            Error::JavaBinaryNotFound
        } else {
            Error::Io(text)
        }
    }
}

/// What is said when `tool` fails with `e`.
pub open spec fn failure_text(tool: Tool, e: ErrorView) -> Seq<char> {
    match e {
        ErrorView::JavaBinaryNotFound => "`"@ + tool.program()
            + "` was not found on the system. Make sure that `"@ + tool.program()
            + "` is installed and in your PATH. Aborting."@,
        ErrorView::JavacFailure(status) => "`"@ + tool.program()
            + "` exited with a non-success status ("@ + status + "). Aborting."@,
        ErrorView::Io(text) => "an IO error occured while executing `"@ + tool.program() + "`: "@
            + text + ". Aborting."@,
    }
}

/// What is said when `tool` fails with `e`.
pub fn failure_message(tool: Tool, e: &Error) -> (s: String)
    ensures
        s@ == failure_text(tool, e@),
{
    match e {
        Error::JavaBinaryNotFound => {
            let mut s = "`".to_owned();
            s.append(tool.name());
            s.append("` was not found on the system. Make sure that `");
            s.append(tool.name());
            s.append("` is installed and in your PATH. Aborting.");
            s
        },
        Error::JavacFailure(status) => {
            let mut s = "`".to_owned();
            s.append(tool.name());
            s.append("` exited with a non-success status (");
            s.append(status.as_str());
            s.append("). Aborting.");
            s
        },
        Error::Io(text) => {
            let mut s = "an IO error occured while executing `".to_owned();
            s.append(tool.name());
            s.append("`: ");
            s.append(text.as_str());
            s.append(". Aborting.");
            s
        },
    }
}

/// Whether `s` ends with `ending`.
pub open spec fn ends_with(s: Seq<char>, ending: Seq<char>) -> bool {
    s.len() >= ending.len() && s.skip(s.len() - ending.len()) == ending
}

/// The name of a file without its ending `.java` or `.jav`.
pub open spec fn without_ending(file: Seq<char>) -> Seq<char> {
    if ends_with(file, seq!['.', 'j', 'a', 'v', 'a']) {
        file.take(file.len() - 5)
    } else if ends_with(file, seq!['.', 'j', 'a', 'v']) {
        file.take(file.len() - 4)
    } else {
        file
    }
}

/// Whether the characters `v` end with the characters `ending`.
fn has_ending(v: &Vec<char>, ending: &Vec<char>) -> (r: bool)
    ensures
        r == ends_with(v@, ending@),
{
    if v.len() < ending.len() {
        return false;
    }
    let from = v.len() - ending.len();
    let mut i: usize = 0;
    while i < ending.len()
        invariant
            from + ending.len() == v.len(),
            i <= ending.len(),
            forall|j: int| 0 <= j < i ==> v@[from + j] == ending@[j],
        decreases ending.len() - i,
    {
        if v[from + i] != ending[i] {
            return false;
        }
        i += 1;
    }
    assert(v@.skip(from as int) =~= ending@);
    true
}

/// The name of a file without its ending `.java` or `.jav`.
pub fn strip_file_ending(file: &str) -> (name: &str)
    ensures
        name@ == without_ending(file@),
{
    let v = chars_of(file);
    let mut java: Vec<char> = Vec::new();
    java.push('.');
    java.push('j');
    java.push('a');
    java.push('v');
    let jav_ends = has_ending(&v, &java);
    assert(java@ =~= seq!['.', 'j', 'a', 'v']);
    java.push('a');
    assert(java@ =~= seq!['.', 'j', 'a', 'v', 'a']);
    if has_ending(&v, &java) {
        let name = file.substring_char(0, v.len() - 5);
        name
    } else if jav_ends {
        let name = file.substring_char(0, v.len() - 4);
        name
    } else {
        file
    }
}

} // verus!
