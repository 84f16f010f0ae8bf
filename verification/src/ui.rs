//! The labels that stand before the messages of a run.

use vstd::prelude::*;
use crate::render::repeat;
use crate::text::chars_of;

verus! {

/// The width of the longest label.
pub const MAX_MESSAGE_LEN: usize = 9;

/// How a label is shown.
#[derive(Debug, Clone, Copy, PartialEq, Eq, Structural)]
pub enum LabelStyle {
    /// Red and bold.
    Error,
    /// Yellow.
    Warning,
    /// Magenta and bold.
    Aborting,
    /// Green and bold: what is being done.
    Status,
    /// White and bold.
    Strong,
    /// As the terminal shows text.
    Plain,
}

/// The kinds of messages.
#[derive(Debug, Clone, Copy, PartialEq, Eq, Structural)]
pub enum MessageType {
    Error,
    Warning,
    Checking,
    Compiling,
    Running,
    Ignoring,
    Aborting,
    Fresh,
    Note,
    Debug,
    Blank,
}

impl MessageType {
    /// The word of the label; for `Blank` there is no word.
    pub open spec fn word(self) -> Seq<char> {
        match self {
            MessageType::Error => "Error"@,
            MessageType::Warning => "Warning"@,
            MessageType::Checking => "Checking"@,
            MessageType::Compiling => "Compiling"@,
            MessageType::Running => "Running"@,
            MessageType::Ignoring => "Ignoring"@,
            MessageType::Aborting => "Aborting"@,
            MessageType::Fresh => "Fresh"@,
            MessageType::Note => "Note"@,
            MessageType::Debug => "Debug"@,
            MessageType::Blank => ""@,
        }
    }

    /// How the label is shown.
    pub open spec fn look(self) -> LabelStyle {
        match self {
            MessageType::Error => LabelStyle::Error,
            MessageType::Warning => LabelStyle::Warning,
            MessageType::Aborting => LabelStyle::Aborting,
            MessageType::Checking | MessageType::Compiling | MessageType::Running
            | MessageType::Fresh => LabelStyle::Status,
            MessageType::Ignoring | MessageType::Note => LabelStyle::Strong,
            MessageType::Debug | MessageType::Blank => LabelStyle::Plain,
        }
    }

    /// Number of spaces before the word, which stands at the right of a
    /// field two wider than the longest label.
    pub open spec fn indent(self) -> nat {
        if self.word().len() < MAX_MESSAGE_LEN + 2 {
            (MAX_MESSAGE_LEN + 2 - self.word().len()) as nat
        } else {
            0
        }
    }

    /// The word of the label.
    pub fn label(&self) -> (s: &'static str)
        ensures
            s@ == self.word(),
    {
        match self {
            MessageType::Error => "Error",
            MessageType::Warning => "Warning",
            MessageType::Checking => "Checking",
            MessageType::Compiling => "Compiling",
            MessageType::Running => "Running",
            MessageType::Ignoring => "Ignoring",
            MessageType::Aborting => "Aborting",
            MessageType::Fresh => "Fresh",
            MessageType::Note => "Note",
            MessageType::Debug => "Debug",
            MessageType::Blank => "",
        }
    }

    /// How the label is shown.
    pub fn style(&self) -> (l: LabelStyle)
        ensures
            l == self.look(),
    {
        match self {
            MessageType::Error => LabelStyle::Error,
            MessageType::Warning => LabelStyle::Warning,
            MessageType::Aborting => LabelStyle::Aborting,
            MessageType::Checking => LabelStyle::Status,
            MessageType::Compiling => LabelStyle::Status,
            MessageType::Running => LabelStyle::Status,
            MessageType::Fresh => LabelStyle::Status,
            MessageType::Ignoring => LabelStyle::Strong,
            MessageType::Note => LabelStyle::Strong,
            MessageType::Debug => LabelStyle::Plain,
            MessageType::Blank => LabelStyle::Plain,
        }
    }

    /// The spaces that stand before the word.
    pub fn padding(&self) -> (s: String)
        ensures
            s@ == repeat(' ', self.indent()),
    {
        let n = chars_of(self.label()).len();
        let k: usize = if n < MAX_MESSAGE_LEN + 2 {
            MAX_MESSAGE_LEN + 2 - n
        } else {
            0
        };
        let mut s = String::new();
        let mut i: usize = 0;
        while i < k
            invariant
                i <= k,
                s@ == repeat(' ', i as nat),
            decreases k - i,
        {
            s.push(' ');
            i += 1;
        }
        s
    }
}

} // verus!
