//! What a launcher reads from one desktop entry, and how that is flattened
//! into records: one per declared action, then one for the entry itself.

use crate::record::{OutputRecord, RecordView};
use vstd::prelude::*;
use vstd::string::*;

verus! {

/// What a desktop entry says of one of the actions that it declares.
#[derive(Debug, Clone, PartialEq, Eq)]
pub struct ActionFields {
    /// The identifier under which the `Actions` list declares the action.
    pub id: String,
    /// Display name of the action, if it has one.
    pub name: Option<String>,
    /// Command line of the action (its `Exec` value), if it has one.
    pub command: Option<String>,
}

/// What a launcher reads from a desktop entry.
#[derive(Debug, Clone, PartialEq, Eq)]
pub struct EntryFields {
    /// Location of the entry file.
    pub path: String,
    /// Display name; every entry is required to have one.
    pub name: Option<String>,
    /// Description of the entry, if it has one.
    pub comment: Option<String>,
    /// Command line of the entry (its `Exec` value), if it has one.
    pub command: Option<String>,
    /// Whether the command needs a terminal.
    pub terminal: bool,
    /// Whether the entry asks to be left out of listings.
    pub no_display: bool,
    /// The declared actions, in the order of the `Actions` list.
    pub actions: Vec<ActionFields>,
}

/// Why an entry cannot be flattened: the first required field that it lacks.
/// Actions are named by their position in the `Actions` list.
#[derive(Debug, Clone, Copy, PartialEq, Eq, Structural)]
pub enum Malformed {
    /// The entry has no `Name`.
    MissingName,
    /// The action at this position has no `Name`.
    MissingActionName(usize),
    /// The action at this position has no `Exec`.
    MissingActionExec(usize),
    /// The entry is displayed and has no `Exec`.
    MissingExec,
}

/// An [`ActionFields`] as mathematical values.
pub ghost struct ActionView {
    pub id: Seq<char>,
    pub name: Option<Seq<char>>,
    pub command: Option<Seq<char>>,
}

/// An [`EntryFields`] as mathematical values.
pub ghost struct EntryView {
    pub path: Seq<char>,
    pub name: Option<Seq<char>>,
    pub comment: Option<Seq<char>>,
    pub command: Option<Seq<char>>,
    pub terminal: bool,
    pub no_display: bool,
    pub actions: Seq<ActionView>,
}

impl View for ActionFields {
    type V = ActionView;

    open spec fn view(&self) -> ActionView {
        ActionView {
            id: self.id@,
            name: self.name.deep_view(),
            command: self.command.deep_view(),
        }
    }
}

impl DeepView for ActionFields {
    type V = ActionView;

    open spec fn deep_view(&self) -> ActionView {
        self@
    }
}

impl View for EntryFields {
    type V = EntryView;

    open spec fn view(&self) -> EntryView {
        EntryView {
            path: self.path@,
            name: self.name.deep_view(),
            comment: self.comment.deep_view(),
            command: self.command.deep_view(),
            terminal: self.terminal,
            no_display: self.no_display,
            actions: self.actions.deep_view(),
        }
    }
}

impl DeepView for EntryFields {
    type V = EntryView;

    open spec fn deep_view(&self) -> EntryView {
        self@
    }
}

/// An action that lacks its name or its command line.
pub open spec fn incomplete(a: ActionView) -> bool {
    a.name is None || a.command is None
}

/// Position `i` holds an incomplete action and no earlier position does.
pub open spec fn is_first_incomplete(actions: Seq<ActionView>, i: int) -> bool {
    &&& 0 <= i < actions.len()
    &&& incomplete(actions[i])
    &&& forall|j: int| 0 <= j < i ==> !incomplete(#[trigger] actions[j])
}

/// The first required field that the entry lacks, if it lacks any. The fields
/// are required in this order: the entry's name; for each action in turn its
/// name, then its command line; last, if the entry is displayed, its command
/// line.
pub open spec fn defect(e: EntryView) -> Option<Malformed> {
    if e.name is None {
        Some(Malformed::MissingName)
    } else if exists|i: int| is_first_incomplete(e.actions, i) {
        let i = choose|i: int| is_first_incomplete(e.actions, i);
        if e.actions[i].name is None {
            Some(Malformed::MissingActionName(i as usize))
        } else {
            Some(Malformed::MissingActionExec(i as usize))
        }
    } else if !e.no_display && e.command is None {
        Some(Malformed::MissingExec)
    } else {
        None
    }
}

/// The display name of an action's record: `<entry name> (<action name>)`.
pub open spec fn action_title(entry_name: Seq<char>, action_name: Seq<char>) -> Seq<char> {
    entry_name + seq![' ', '('] + action_name + seq![')']
}

/// The comment that every record of the entry carries: the entry's own, or
/// the empty text.
pub open spec fn comment_text(e: EntryView) -> Seq<char> {
    match e.comment {
        Some(c) => c,
        None => Seq::empty(),
    }
}

/// The record of the action at position `i`.
pub open spec fn action_record(e: EntryView, i: int) -> RecordView {
    RecordView {
        path: e.path,
        name: action_title(e.name->0, e.actions[i].name->0),
        comment: comment_text(e),
        command: e.actions[i].command->0,
        terminal: e.terminal,
    }
}

/// The records of the declared actions, in the order of their declaration.
pub open spec fn action_records(e: EntryView) -> Seq<RecordView> {
    Seq::new(e.actions.len(), |i: int| action_record(e, i))
}

/// The record of the entry itself.
pub open spec fn base_record(e: EntryView) -> RecordView {
    RecordView {
        path: e.path,
        name: e.name->0,
        comment: comment_text(e),
        command: e.command->0,
        terminal: e.terminal,
    }
}

/// The entry's own record, unless the entry asks not to be displayed.
pub open spec fn base_records(e: EntryView) -> Seq<RecordView> {
    if e.no_display {
        Seq::empty()
    } else {
        seq![base_record(e)]
    }
}

/// All records of an entry: those of its actions, then its own.
pub open spec fn records_of(e: EntryView) -> Seq<RecordView> {
    action_records(e) + base_records(e)
}

/// What flattening an entry gives: its records, or the first field missing.
pub open spec fn flattened(e: EntryView) -> Result<Seq<RecordView>, Malformed> {
    match defect(e) {
        Some(m) => Err(m),
        None => Ok(records_of(e)),
    }
}

/// Builds the display name of an action's record.
pub fn make_action_title(entry_name: &str, action_name: &str) -> (title: String)
    ensures
        title@ == action_title(entry_name@, action_name@),
{
    proof {
        reveal_strlit(" (");
        reveal_strlit(")");
    }
    assert(" ("@ =~= seq![' ', '(']);
    assert(")"@ =~= seq![')']);
    let mut title = String::from_str(entry_name);
    title.append(" (");
    title.append(action_name);
    title.append(")");
    title
}

/// Flattens an entry into its records: one for each declared action, in the
/// order of declaration, then one for the entry itself unless it asks not to
/// be displayed. Fails on the first required field that is missing.
pub fn flatten(entry: &EntryFields) -> (r: Result<Vec<OutputRecord>, Malformed>)
    ensures
        match r {
            Ok(records) => flattened(entry@) == Ok::<Seq<RecordView>, Malformed>(
                records.deep_view(),
            ),
            Err(m) => flattened(entry@) == Err::<Seq<RecordView>, Malformed>(m),
        },
{
    let name = match &entry.name {
        Some(name) => name,
        None => {
            return Err(Malformed::MissingName);
        },
    };
    let comment = match &entry.comment {
        Some(comment) => comment.clone(),
        None => String::new(),
    };
    let mut records: Vec<OutputRecord> = Vec::new();
    let mut i: usize = 0;
    while i < entry.actions.len()
        invariant
            i <= entry.actions.len(),
            entry.name == Some(*name),
            comment@ == comment_text(entry@),
            forall|j: int| 0 <= j < i ==> !incomplete(#[trigger] entry@.actions[j]),
            records.deep_view() == action_records(entry@).take(i as int),
        decreases entry.actions.len() - i,
    {
        let action = &entry.actions[i];
        assert(entry@.actions[i as int] == action@);
        let action_name = match &action.name {
            Some(action_name) => action_name,
            None => {
                assert(is_first_incomplete(entry@.actions, i as int));
                return Err(Malformed::MissingActionName(i));
            },
        };
        let command = match &action.command {
            Some(command) => command.clone(),
            None => {
                assert(is_first_incomplete(entry@.actions, i as int));
                return Err(Malformed::MissingActionExec(i));
            },
        };
        let record = OutputRecord {
            path: entry.path.clone(),
            name: make_action_title(name.as_str(), action_name.as_str()),
            comment: comment.clone(),
            command,
            terminal: entry.terminal,
        };
        let ghost before = records.deep_view();
        records.push(record);
        assert(records.deep_view() =~= before.push(record@));
        assert(action_records(entry@).take(i + 1) =~= action_records(entry@).take(i as int).push(
            action_record(entry@, i as int),
        ));
        i = i + 1;
    }
    assert(action_records(entry@).take(i as int) =~= action_records(entry@));
    assert(!exists|k: int| is_first_incomplete(entry@.actions, k));
    if !entry.no_display {
        let command = match &entry.command {
            Some(command) => command.clone(),
            None => {
                return Err(Malformed::MissingExec);
            },
        };
        let record = OutputRecord {
            path: entry.path.clone(),
            name: name.clone(),
            comment,
            command,
            terminal: entry.terminal,
        };
        let ghost before = records.deep_view();
        records.push(record);
        assert(records.deep_view() =~= before.push(record@));
        assert(records.deep_view() =~= records_of(entry@));
    } else {
        assert(records.deep_view() =~= records_of(entry@));
    }
    Ok(records)
}

/// Where some action is incomplete, one of them is the first.
pub proof fn lemma_some_incomplete_is_first(actions: Seq<ActionView>, i: int)
    requires
        0 <= i < actions.len(),
        incomplete(actions[i]),
    ensures
        exists|k: int| is_first_incomplete(actions, k),
    decreases i,
{
    if exists|j: int| 0 <= j < i && incomplete(actions[j]) {
        let j = choose|j: int| 0 <= j < i && incomplete(actions[j]);
        lemma_some_incomplete_is_first(actions, j);
    } else {
        assert(is_first_incomplete(actions, i));
    }
}

/// An entry is flattened exactly when it has a name, each of its actions has
/// a name and a command line, and it has a command line or asks not to be
/// displayed.
pub proof fn lemma_flattened_when_complete(e: EntryView)
    ensures
        flattened(e) is Ok <==> {
            &&& e.name is Some
            &&& forall|i: int| 0 <= i < e.actions.len() ==> !incomplete(#[trigger] e.actions[i])
            &&& e.no_display || e.command is Some
        },
        flattened(e) is Ok ==> flattened(e) == Ok::<Seq<RecordView>, Malformed>(records_of(e)),
{
    if flattened(e) is Ok {
        assert forall|i: int| 0 <= i < e.actions.len() implies !incomplete(
            #[trigger] e.actions[i],
        ) by {
            if incomplete(e.actions[i]) {
                lemma_some_incomplete_is_first(e.actions, i);
            }
        }
    }
}

/// An entry has as many action records as it declares actions. Within its
/// records those of the actions come first, in the order of declaration, and
/// its own record, if it has one, is the last.
pub proof fn lemma_actions_precede_entry(e: EntryView)
    ensures
        action_records(e).len() == e.actions.len(),
        records_of(e).len() == e.actions.len() + base_records(e).len(),
        forall|i: int|
            0 <= i < e.actions.len() ==> #[trigger] records_of(e)[i] == action_record(e, i),
        !e.no_display ==> records_of(e).last() == base_record(e),
{
}

/// An entry that asks not to be displayed has no record of its own, needs no
/// command line, and still has the records of its actions.
pub proof fn lemma_hidden_entry_lists_its_actions(e: EntryView)
    requires
        e.no_display,
    ensures
        records_of(e) == action_records(e),
        records_of(e).len() == e.actions.len(),
        defect(e) != Some(Malformed::MissingExec),
        e.name is Some && (forall|i: int| 0 <= i < e.actions.len() ==> !incomplete(
            #[trigger] e.actions[i],
        )) ==> flattened(e) == Ok::<Seq<RecordView>, Malformed>(action_records(e)),
{
    assert(records_of(e) =~= action_records(e));
}

} // verus!
