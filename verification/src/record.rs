//! The flat record that a launcher consumes, and its one-line rendering.

use vstd::prelude::*;
use vstd::string::*;

verus! {

/// One launchable thing: a desktop entry itself, or one of its actions.
#[derive(Debug, Clone, PartialEq, Eq)]
pub struct OutputRecord {
    /// Location of the entry file that the record was made from.
    pub path: String,
    /// Display name; `"<entry name> (<action name>)"` for an action.
    pub name: String,
    /// Description of the entry, empty if it has none.
    pub comment: String,
    /// Command line of the entry or of the action (its `Exec` value).
    pub command: String,
    /// Whether the command needs a terminal.
    pub terminal: bool,
}

/// What an [`OutputRecord`] holds, as mathematical values.
pub ghost struct RecordView {
    pub path: Seq<char>,
    pub name: Seq<char>,
    pub comment: Seq<char>,
    pub command: Seq<char>,
    pub terminal: bool,
}

impl View for OutputRecord {
    type V = RecordView;

    open spec fn view(&self) -> RecordView {
        RecordView {
            path: self.path@,
            name: self.name@,
            comment: self.comment@,
            command: self.command@,
            terminal: self.terminal,
        }
    }
}

impl DeepView for OutputRecord {
    type V = RecordView;

    open spec fn deep_view(&self) -> RecordView {
        self@
    }
}

/// The text of a boolean: `true` or `false`.
pub open spec fn bool_text(b: bool) -> Seq<char> {
    if b {
        seq!['t', 'r', 'u', 'e']
    } else {
        seq!['f', 'a', 'l', 's', 'e']
    }
}

/// The five fields of a record in order, with one tab between neighbours.
/// Tabs and newlines inside a field are not escaped.
pub open spec fn line_of(r: RecordView) -> Seq<char> {
    r.path + seq!['\t'] + r.name + seq!['\t'] + r.comment + seq!['\t'] + r.command + seq!['\t']
        + bool_text(r.terminal)
}

/// Renders the five fields as one tab-separated line.
pub fn format_line(
    path: &str,
    name: &str,
    comment: &str,
    command: &str,
    terminal: bool,
) -> (line: String)
    ensures
        line@ == line_of(
            RecordView { path: path@, name: name@, comment: comment@, command: command@, terminal },
        ),
{
    proof {
        reveal_strlit("\t");
        reveal_strlit("true");
        reveal_strlit("false");
    }
    let mut line = String::from_str(path);
    line.append("\t");
    line.append(name);
    line.append("\t");
    line.append(comment);
    line.append("\t");
    line.append(command);
    line.append("\t");
    if terminal {
        line.append("true");
    } else {
        line.append("false");
    }
    assert("\t"@ =~= seq!['\t']);
    assert("true"@ =~= seq!['t', 'r', 'u', 'e']);
    assert("false"@ =~= seq!['f', 'a', 'l', 's', 'e']);
    line
}

impl OutputRecord {
    /// The record as one output line, without a line terminator.
    pub fn to_line(&self) -> (line: String)
        ensures
            line@ == line_of(self@),
    {
        format_line(
            self.path.as_str(),
            self.name.as_str(),
            self.comment.as_str(),
            self.command.as_str(),
            self.terminal,
        )
    }
}

} // verus!
