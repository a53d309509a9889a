//! Decoding the text of a desktop entry file, and reading from the decoded
//! entry what a launcher needs. The decoder is the crate
//! `freedesktop_desktop_entry`; what this module states of it is believed, not
//! proved.
//!
//! Display texts are read for the locale `en`: the text that the file gives
//! for `en`, else the plain text. Where an entry names a gettext domain and
//! gives no text for `en`, the decoder would ask the machine's message
//! catalogues; this module takes the plain text there too, so that what it
//! returns depends on the file alone.

use crate::actions::{action_ids, split_actions};
use crate::entry::{
    action_record, action_records, action_title, base_record, base_records, flattened,
    incomplete, lemma_flattened_when_complete, records_of, ActionFields, ActionView,
    EntryFields, EntryView,
};
use crate::record::RecordView;
use crate::syntax::{find_empty_key, has_empty_key};
use freedesktop_desktop_entry::{DecodeError, DesktopEntry};
use std::path::Path;
use vstd::prelude::*;
use vstd::string::*;

verus! {

/// A decoded desktop entry: groups of keys, each key with a value and with
/// any number of localized values.
#[verifier::external_type_specification]
#[verifier::external_body]
pub struct ExDesktopEntry<'a>(DesktopEntry<'a>);

/// The decoder's error.
#[verifier::external_type_specification]
#[verifier::external_body]
pub struct ExDecodeError(DecodeError);

/// The values of a decoded entry, by group, key and locale.
pub type Values = Map<(Seq<char>, Seq<char>, Option<Seq<char>>), Seq<char>>;

/// What a decoded entry holds. A key of a group is found under
/// `(group, key, None)` with its plain value, and under
/// `(group, key, Some(locale))` with its value for each locale that it is
/// localized for. A key that the file gives only localized values has the
/// empty text as its plain value.
pub uninterp spec fn entry_values(entry: DesktopEntry) -> Map<
    (Seq<char>, Seq<char>, Option<Seq<char>>),
    Seq<char>,
>;

/// The gettext domain that a decoded entry names for its translations
/// (`X-Ubuntu-Gettext-Domain`), if it names one.
pub uninterp spec fn entry_domain(entry: DesktopEntry) -> Option<Seq<char>>;

/// What decoding gives for a file at `path` with the text `contents`:
/// nothing where the decoder refuses the file, else what the decoded entry
/// holds.
pub uninterp spec fn decoded(path: Seq<char>, contents: Seq<char>) -> Option<
    Map<(Seq<char>, Seq<char>, Option<Seq<char>>), Seq<char>>,
>;

/// The plain value of a key, if the group has the key.
pub open spec fn plain_value(values: Values, group: Seq<char>, key: Seq<char>) -> Option<
    Seq<char>,
> {
    if values.contains_key((group, key, None::<Seq<char>>)) {
        Some(values[(group, key, None::<Seq<char>>)])
    } else {
        None
    }
}

/// The value of a key for a locale, if the group has the key: the localized
/// value where there is one, else the plain value.
pub open spec fn localized_value(
    values: Values,
    group: Seq<char>,
    key: Seq<char>,
    locale: Seq<char>,
) -> Option<Seq<char>> {
    if !values.contains_key((group, key, None::<Seq<char>>)) {
        None
    } else if values.contains_key((group, key, Some(locale))) {
        Some(values[(group, key, Some(locale))])
    } else {
        Some(values[(group, key, None::<Seq<char>>)])
    }
}

/// Whether the plain value of a key is the text `true`.
pub open spec fn flag_value(values: Values, group: Seq<char>, key: Seq<char>) -> bool {
    plain_value(values, group, key) == Some("true"@)
}

/// The group that holds the keys of an action.
pub open spec fn action_group(action: Seq<char>) -> Seq<char> {
    "Desktop Action "@ + action
}

/// `DesktopEntry::decode`. The decoder indexes the last byte of each key and
/// so panics on a line that has none: such texts are left out. Whether it
/// refuses the file, and what the entry holds if it does not, depends on the
/// path and the text alone.
#[verifier::external_body]
fn decode_entry<'a>(path: &'a str, contents: &'a str) -> (r: Result<DesktopEntry<'a>, DecodeError>)
    requires
        !has_empty_key(contents@),
    ensures
        match r {
            Ok(entry) => decoded(path@, contents@) == Some(entry_values(entry)),
            Err(_) => decoded(path@, contents@) is None,
        },
{
    DesktopEntry::decode(Path::new(path), contents)
}

/// The field `ubuntu_gettext_domain` of a decoded entry.
#[verifier::external_body]
fn entry_gettext_domain(entry: &DesktopEntry) -> (r: Option<String>)
    ensures
        r.deep_view() == entry_domain(*entry),
{
    entry.ubuntu_gettext_domain.map(String::from)
}

/// The field `groups` of a decoded entry: whether a key of a group has a
/// value for a locale.
#[verifier::external_body]
fn has_localized(entry: &DesktopEntry, group: &str, key: &str, locale: &str) -> (r: bool)
    ensures
        r == entry_values(*entry).contains_key((group@, key@, Some(locale@))),
{
    entry.groups.get(group).and_then(|keys| keys.get(key)).map_or(
        false,
        |value| value.1.contains_key(locale),
    )
}

/// `DesktopEntry::desktop_entry`: the plain value of a key of the group
/// `Desktop Entry`.
#[verifier::external_body]
fn entry_plain(entry: &DesktopEntry, key: &str) -> (r: Option<String>)
    ensures
        r.deep_view() == plain_value(entry_values(*entry), "Desktop Entry"@, key@),
{
    entry.desktop_entry(key).map(String::from)
}

/// `DesktopEntry::action_entry`: the plain value of a key of an action's
/// group.
#[verifier::external_body]
fn action_plain(entry: &DesktopEntry, action: &str, key: &str) -> (r: Option<String>)
    ensures
        r.deep_view() == plain_value(entry_values(*entry), action_group(action@), key@),
{
    entry.action_entry(action, key).map(String::from)
}

/// `DesktopEntry::name`: the value of `Name` in the group `Desktop Entry`
/// for a locale. Stated for a locale without `_`, of which the decoder would
/// also try the part before the `_`, and for an entry that names no gettext
/// domain or has a value for the locale: the decoder returns that value
/// before it looks at the domain, and asks gettext only where there is none.
#[verifier::external_body]
fn entry_name(entry: &DesktopEntry, locale: &str) -> (r: Option<String>)
    requires
        entry_domain(*entry) is None || entry_values(*entry).contains_key(
            ("Desktop Entry"@, "Name"@, Some(locale@)),
        ),
        !locale@.contains('_'),
    ensures
        r.deep_view() == localized_value(
            entry_values(*entry),
            "Desktop Entry"@,
            "Name"@,
            locale@,
        ),
{
    entry.name(Some(locale)).map(String::from)
}

/// `DesktopEntry::comment`: the value of `Comment` in the group
/// `Desktop Entry` for a locale, under the conditions of [`entry_name`].
#[verifier::external_body]
fn entry_comment(entry: &DesktopEntry, locale: &str) -> (r: Option<String>)
    requires
        entry_domain(*entry) is None || entry_values(*entry).contains_key(
            ("Desktop Entry"@, "Comment"@, Some(locale@)),
        ),
        !locale@.contains('_'),
    ensures
        r.deep_view() == localized_value(
            entry_values(*entry),
            "Desktop Entry"@,
            "Comment"@,
            locale@,
        ),
{
    entry.comment(Some(locale)).map(String::from)
}

/// `DesktopEntry::exec`: the plain value of `Exec` in the group
/// `Desktop Entry`.
#[verifier::external_body]
fn entry_exec(entry: &DesktopEntry) -> (r: Option<String>)
    ensures
        r.deep_view() == plain_value(entry_values(*entry), "Desktop Entry"@, "Exec"@),
{
    entry.exec().map(String::from)
}

/// `DesktopEntry::actions`: the plain value of `Actions` in the group
/// `Desktop Entry`.
#[verifier::external_body]
fn entry_actions(entry: &DesktopEntry) -> (r: Option<String>)
    ensures
        r.deep_view() == plain_value(entry_values(*entry), "Desktop Entry"@, "Actions"@),
{
    entry.actions().map(String::from)
}

/// `DesktopEntry::terminal`: whether `Terminal` in the group `Desktop Entry`
/// has the plain value `true`.
#[verifier::external_body]
fn entry_terminal(entry: &DesktopEntry) -> (r: bool)
    ensures
        r == flag_value(entry_values(*entry), "Desktop Entry"@, "Terminal"@),
{
    entry.terminal()
}

/// `DesktopEntry::no_display`: whether `NoDisplay` in the group
/// `Desktop Entry` has the plain value `true`.
#[verifier::external_body]
fn entry_no_display(entry: &DesktopEntry) -> (r: bool)
    ensures
        r == flag_value(entry_values(*entry), "Desktop Entry"@, "NoDisplay"@),
{
    entry.no_display()
}

/// `DesktopEntry::action_name`: the value of `Name` in an action's group for
/// a locale, under the conditions of [`entry_name`].
#[verifier::external_body]
fn action_name(entry: &DesktopEntry, action: &str, locale: &str) -> (r: Option<String>)
    requires
        entry_domain(*entry) is None || entry_values(*entry).contains_key(
            (action_group(action@), "Name"@, Some(locale@)),
        ),
        !locale@.contains('_'),
    ensures
        r.deep_view() == localized_value(
            entry_values(*entry),
            action_group(action@),
            "Name"@,
            locale@,
        ),
{
    entry.action_name(action, Some(locale)).map(String::from)
}

/// `DesktopEntry::action_exec`: the plain value of `Exec` in an action's
/// group.
#[verifier::external_body]
fn action_exec(entry: &DesktopEntry, action: &str) -> (r: Option<String>)
    ensures
        r.deep_view() == plain_value(entry_values(*entry), action_group(action@), "Exec"@),
{
    entry.action_exec(action).map(String::from)
}

/// The locale for which display texts are read.
pub open spec fn preferred_locale() -> Seq<char> {
    seq!['e', 'n']
}

/// The text that is shown for a key: its value for the preferred locale
/// where the file gives one, else its plain value.
pub open spec fn shown_value(values: Values, group: Seq<char>, key: Seq<char>) -> Option<
    Seq<char>,
> {
    localized_value(values, group, key, preferred_locale())
}

/// The identifiers of the actions that an entry declares.
pub open spec fn declared_actions(values: Values) -> Seq<Seq<char>> {
    match plain_value(values, "Desktop Entry"@, "Actions"@) {
        Some(list) => action_ids(list),
        None => Seq::empty(),
    }
}

/// What an entry says of the action `id`.
pub open spec fn action_of(values: Values, id: Seq<char>) -> ActionView {
    ActionView {
        id,
        name: shown_value(values, action_group(id), "Name"@),
        command: plain_value(values, action_group(id), "Exec"@),
    }
}

/// What a launcher reads from an entry at `path` that holds `values`.
pub open spec fn fields_of(path: Seq<char>, values: Values) -> EntryView {
    EntryView {
        path,
        name: shown_value(values, "Desktop Entry"@, "Name"@),
        comment: shown_value(values, "Desktop Entry"@, "Comment"@),
        command: plain_value(values, "Desktop Entry"@, "Exec"@),
        terminal: flag_value(values, "Desktop Entry"@, "Terminal"@),
        no_display: flag_value(values, "Desktop Entry"@, "NoDisplay"@),
        actions: declared_actions(values).map_values(|id: Seq<char>| action_of(values, id)),
    }
}

/// Why a file holds no desktop entry.
#[derive(Debug, Clone, Copy, PartialEq, Eq, Structural)]
pub enum Undecodable {
    /// A line assigns to no key: it starts with `=`.
    EmptyKey,
    /// The path names no application: the decoder finds no file name in it.
    NoAppId,
}

/// What reading a file at `path` with the text `contents` gives.
pub open spec fn reading(path: Seq<char>, contents: Seq<char>) -> Result<EntryView, Undecodable> {
    if has_empty_key(contents) {
        Err(Undecodable::EmptyKey)
    } else {
        match decoded(path, contents) {
            Some(values) => Ok(fields_of(path, values)),
            None => Err(Undecodable::NoAppId),
        }
    }
}

/// Reads the name to show for the entry. `named` tells whether the entry
/// names a gettext domain.
fn entry_shown_name(entry: &DesktopEntry, named: bool) -> (r: Option<String>)
    requires
        named == (entry_domain(*entry) is Some),
    ensures
        r.deep_view() == shown_value(entry_values(*entry), "Desktop Entry"@, "Name"@),
{
    proof {
        reveal_strlit("en");
    }
    assert("en"@ =~= preferred_locale());
    assert(!"en"@.contains('_'));
    if !named || has_localized(entry, "Desktop Entry", "Name", "en") {
        entry_name(entry, "en")
    } else {
        entry_plain(entry, "Name")
    }
}

/// Reads the comment to show for the entry.
fn entry_shown_comment(entry: &DesktopEntry, named: bool) -> (r: Option<String>)
    requires
        named == (entry_domain(*entry) is Some),
    ensures
        r.deep_view() == shown_value(entry_values(*entry), "Desktop Entry"@, "Comment"@),
{
    proof {
        reveal_strlit("en");
    }
    assert("en"@ =~= preferred_locale());
    assert(!"en"@.contains('_'));
    if !named || has_localized(entry, "Desktop Entry", "Comment", "en") {
        entry_comment(entry, "en")
    } else {
        entry_plain(entry, "Comment")
    }
}

/// Reads the name to show for an action.
fn action_shown(entry: &DesktopEntry, named: bool, action: &str) -> (r: Option<String>)
    requires
        named == (entry_domain(*entry) is Some),
    ensures
        r.deep_view() == shown_value(entry_values(*entry), action_group(action@), "Name"@),
{
    proof {
        reveal_strlit("en");
    }
    assert("en"@ =~= preferred_locale());
    assert(!"en"@.contains('_'));
    if !named {
        return action_name(entry, action, "en");
    }
    let mut group = String::from_str("Desktop Action ");
    group.append(action);
    assert(group@ == action_group(action@));
    if has_localized(entry, group.as_str(), "Name", "en") {
        action_name(entry, action, "en")
    } else {
        action_plain(entry, action, "Name")
    }
}

/// Reads from a decoded entry what a launcher needs. `path` is where the
/// entry was found.
pub fn read_fields(path: &str, entry: &DesktopEntry) -> (fields: EntryFields)
    ensures
        fields@ == fields_of(path@, entry_values(*entry)),
{
    let ghost values = entry_values(*entry);
    let named = entry_gettext_domain(entry).is_some();
    let name = entry_shown_name(entry, named);
    let comment = entry_shown_comment(entry, named);
    let mut actions: Vec<ActionFields> = Vec::new();
    match entry_actions(entry) {
        Some(list) => {
            let ids = split_actions(list.as_str());
            let mut i: usize = 0;
            while i < ids.len()
                invariant
                    i <= ids.len(),
                    named == (entry_domain(*entry) is Some),
                    values == entry_values(*entry),
                    ids.deep_view() == declared_actions(values),
                    actions.deep_view() == declared_actions(values).map_values(
                        |id: Seq<char>| action_of(values, id),
                    ).take(i as int),
                decreases ids.len() - i,
            {
                let id = &ids[i];
                assert(ids.deep_view()[i as int] == id@);
                let action = ActionFields {
                    id: id.clone(),
                    name: action_shown(entry, named, id.as_str()),
                    command: action_exec(entry, id.as_str()),
                };
                let ghost before = actions.deep_view();
                actions.push(action);
                assert(actions.deep_view() =~= before.push(action@));
                assert(actions.deep_view() =~= declared_actions(values).map_values(
                    |id: Seq<char>| action_of(values, id),
                ).take(i + 1));
                i = i + 1;
            }
            assert(actions.deep_view() =~= declared_actions(values).map_values(
                |id: Seq<char>| action_of(values, id),
            ));
        },
        None => {
            assert(actions.deep_view() =~= declared_actions(values).map_values(
                |id: Seq<char>| action_of(values, id),
            ));
        },
    }
    EntryFields {
        path: String::from_str(path),
        name,
        comment,
        command: entry_exec(entry),
        terminal: entry_terminal(entry),
        no_display: entry_no_display(entry),
        actions,
    }
}

/// Decodes the text of a desktop entry file and reads from it what a launcher
/// needs. A text with a line that assigns to no key is refused, and so is
/// what the decoder refuses.
pub fn read_entry(path: &str, contents: &str) -> (r: Result<EntryFields, Undecodable>)
    ensures
        match r {
            Ok(fields) => reading(path@, contents@) == Ok::<EntryView, Undecodable>(fields@),
            Err(e) => reading(path@, contents@) == Err::<EntryView, Undecodable>(e),
        },
{
    if find_empty_key(contents) {
        return Err(Undecodable::EmptyKey);
    }
    match decode_entry(path, contents) {
        Ok(entry) => Ok(read_fields(path, &entry)),
        Err(_) => Err(Undecodable::NoAppId),
    }
}

/// An entry whose `Actions` value is `list` has one action record for each
/// non-empty piece of `list` between semicolons, whether or not the entry is
/// displayed.
pub proof fn lemma_one_record_per_declared_action(path: Seq<char>, values: Values, list: Seq<char>)
    requires
        plain_value(values, "Desktop Entry"@, "Actions"@) == Some(list),
    ensures
        action_records(fields_of(path, values)).len() == action_ids(list).len(),
        flattened(fields_of(path, values)) matches Ok(records) ==> records.len()
            == action_ids(list).len() + base_records(fields_of(path, values)).len(),
{
}

/// The text that the file gives a key for `en` is the text shown, whether or
/// not the entry names a gettext domain; a key without one shows its plain
/// text.
pub proof fn lemma_english_text_is_shown(values: Values, group: Seq<char>, key: Seq<char>)
    requires
        values.contains_key((group, key, None::<Seq<char>>)),
    ensures
        values.contains_key((group, key, Some(preferred_locale()))) ==> shown_value(
            values,
            group,
            key,
        ) == Some(values[(group, key, Some(preferred_locale()))]),
        !values.contains_key((group, key, Some(preferred_locale()))) ==> shown_value(
            values,
            group,
            key,
        ) == Some(values[(group, key, None::<Seq<char>>)]),
{
}

/// The records of a decoded entry that lacks no required field, in terms of
/// what the entry holds. There is one record for each declared action, in
/// the order of the `Actions` value, with the entry's shown name before the
/// action's in parentheses and the action's command line. The entry's own
/// record follows as the last, with the entry's shown name and command line,
/// unless `NoDisplay` is `true`: then the action records are all there is.
/// Every record has the path, the entry's shown comment or the empty text,
/// and the entry's terminal flag.
pub proof fn lemma_records_of_decoded_entry(path: Seq<char>, values: Values)
    requires
        flattened(fields_of(path, values)) is Ok,
    ensures
        ({
            let records = flattened(fields_of(path, values))->Ok_0;
            let ids = declared_actions(values);
            let name = shown_value(values, "Desktop Entry"@, "Name"@);
            let comment = match shown_value(values, "Desktop Entry"@, "Comment"@) {
                Some(c) => c,
                None => Seq::empty(),
            };
            let terminal = flag_value(values, "Desktop Entry"@, "Terminal"@);
            let hidden = flag_value(values, "Desktop Entry"@, "NoDisplay"@);
            &&& name is Some
            &&& records.len() == ids.len() + if hidden {
                0int
            } else {
                1int
            }
            &&& forall|i: int|
                #![trigger ids[i]]
                0 <= i < ids.len() ==> {
                    &&& shown_value(values, action_group(ids[i]), "Name"@) is Some
                    &&& plain_value(values, action_group(ids[i]), "Exec"@) is Some
                    &&& records[i] == RecordView {
                        path,
                        name: action_title(
                            name->0,
                            shown_value(values, action_group(ids[i]), "Name"@)->0,
                        ),
                        comment,
                        command: plain_value(values, action_group(ids[i]), "Exec"@)->0,
                        terminal,
                    }
                }
            &&& !hidden ==> {
                &&& plain_value(values, "Desktop Entry"@, "Exec"@) is Some
                &&& records.last() == RecordView {
                    path,
                    name: name->0,
                    comment,
                    command: plain_value(values, "Desktop Entry"@, "Exec"@)->0,
                    terminal,
                }
            }
        }),
{
    let e = fields_of(path, values);
    let ids = declared_actions(values);
    let records = flattened(e)->Ok_0;
    lemma_flattened_when_complete(e);
    assert(records == records_of(e));
    assert(e.actions.len() == ids.len());
    assert(records.len() == ids.len() + base_records(e).len());
    assert forall|i: int| #![trigger ids[i]] 0 <= i < ids.len() implies {
        &&& shown_value(values, action_group(ids[i]), "Name"@) is Some
        &&& plain_value(values, action_group(ids[i]), "Exec"@) is Some
        &&& records[i] == action_record(e, i)
    } by {
        assert(e.actions[i] == action_of(values, ids[i]));
        assert(!incomplete(e.actions[i]));
        assert(action_records(e)[i] == action_record(e, i));
    }
    if !e.no_display {
        assert(records.last() == base_record(e));
    }
}

} // verus!
