//! The `Actions` value of a desktop entry: action identifiers, each followed
//! or separated by a semicolon.

use vstd::prelude::*;
use vstd::string::*;

verus! {

/// The pieces into which the separator cuts `s`, in order: one more piece than
/// `s` has separators, none of them holding a separator. A piece is empty
/// where two separators are neighbours, or where one starts or ends `s`.
pub open spec fn pieces(s: Seq<char>, sep: char) -> Seq<Seq<char>>
    decreases s.len(),
{
    if s.len() == 0 {
        seq![Seq::empty()]
    } else if s.last() == sep {
        pieces(s.drop_last(), sep).push(Seq::empty())
    } else {
        let before = pieces(s.drop_last(), sep);
        before.drop_last().push(before.last().push(s.last()))
    }
}

/// The parts written one after another, with the separator between
/// neighbours.
pub open spec fn joined(parts: Seq<Seq<char>>, sep: char) -> Seq<char>
    decreases parts.len(),
{
    if parts.len() == 0 {
        Seq::empty()
    } else if parts.len() == 1 {
        parts[0]
    } else {
        joined(parts.drop_last(), sep).push(sep) + parts.last()
    }
}

/// No part holds the separator.
pub open spec fn separator_free(parts: Seq<Seq<char>>, sep: char) -> bool {
    forall|i: int| 0 <= i < parts.len() ==> !(#[trigger] parts[i]).contains(sep)
}

/// The action identifiers that an `Actions` value declares: its non-empty
/// pieces between semicolons, in the order in which they are written.
pub open spec fn action_ids(list: Seq<char>) -> Seq<Seq<char>> {
    pieces(list, ';').filter(|p: Seq<char>| p.len() > 0)
}

/// Splits an `Actions` value into the identifiers that it declares.
pub fn split_actions(list: &str) -> (ids: Vec<String>)
    ensures
        ids.deep_view() == action_ids(list@),
{
    let total = list.unicode_len();
    let mut ids: Vec<String> = Vec::new();
    let mut start: usize = 0;
    let mut at: usize = 0;
    let ghost keep = |p: Seq<char>| p.len() > 0;
    assert(list@.take(0) =~= Seq::<char>::empty());
    assert(pieces(list@.take(0), ';').drop_last() =~= Seq::<Seq<char>>::empty());
    for c in it: list.chars()
        invariant
            it.seq() == list@,
            at == it.index(),
            start <= at <= total,
            total == list@.len(),
            keep == |p: Seq<char>| p.len() > 0,
            pieces(list@.take(at as int), ';').len() > 0,
            pieces(list@.take(at as int), ';').drop_last().filter(keep) == ids.deep_view(),
            pieces(list@.take(at as int), ';').last() == list@.subrange(start as int, at as int),
    {
        let ghost before = pieces(list@.take(at as int), ';');
        assert(list@.take(at + 1).drop_last() =~= list@.take(at as int));
        assert(list@.take(at + 1).last() == c);
        if c == ';' {
            if start < at {
                let id = String::from_str(list.substring_char(start, at));
                let ghost old_ids = ids.deep_view();
                ids.push(id);
                assert(ids.deep_view() =~= old_ids.push(id@));
            }
            proof {
                assert(before.push(Seq::empty()).drop_last() =~= before);
                assert(before =~= before.drop_last().push(before.last()));
                before.drop_last().lemma_filter_push(before.last(), keep);
            }
            start = at + 1;
            assert(list@.subrange(start as int, at + 1) =~= Seq::<char>::empty());
        } else {
            proof {
                let after = before.drop_last().push(before.last().push(c));
                assert(after.drop_last() =~= before.drop_last());
                assert(list@.subrange(start as int, at + 1) =~= list@.subrange(
                    start as int,
                    at as int,
                ).push(c));
            }
        }
        at = at + 1;
    }
    proof {
        let all = pieces(list@, ';');
        assert(list@.take(at as int) =~= list@);
        assert(all =~= all.drop_last().push(all.last()));
        all.drop_last().lemma_filter_push(all.last(), keep);
    }
    if start < at {
        let id = String::from_str(list.substring_char(start, at));
        let ghost old_ids = ids.deep_view();
        ids.push(id);
        assert(ids.deep_view() =~= old_ids.push(id@));
    }
    ids
}

/// Cutting a text gives at least one piece, no piece holds the separator, and
/// the pieces joined by the separator are the text again.
pub proof fn lemma_pieces_rejoin(s: Seq<char>, sep: char)
    ensures
        pieces(s, sep).len() >= 1,
        separator_free(pieces(s, sep), sep),
        joined(pieces(s, sep), sep) == s,
    decreases s.len(),
{
    if s.len() == 0 {
        assert(joined(pieces(s, sep), sep) =~= s);
    } else {
        let before = pieces(s.drop_last(), sep);
        lemma_pieces_rejoin(s.drop_last(), sep);
        if s.last() == sep {
            let all = before.push(Seq::empty());
            assert(all.drop_last() =~= before);
            assert(joined(all, sep) =~= s);
        } else {
            let grown = before.last().push(s.last());
            let all = before.drop_last().push(grown);
            assert(all.drop_last() =~= before.drop_last());
            assert(!grown.contains(sep)) by {
                if grown.contains(sep) {
                    let k = choose|k: int| 0 <= k < grown.len() && grown[k] == sep;
                    assert(before.last()[k] == sep);
                }
            }
            if before.len() > 1 {
                assert(joined(all, sep) =~= joined(before, sep).push(s.last()));
            }
            assert(joined(all, sep) =~= s);
        }
    }
}

/// Parts that hold no separator are the pieces of their joined text: cutting
/// undoes joining, as joining undoes cutting.
pub proof fn lemma_pieces_of_joined(parts: Seq<Seq<char>>, sep: char)
    requires
        parts.len() >= 1,
        separator_free(parts, sep),
    ensures
        pieces(joined(parts, sep), sep) == parts,
    decreases parts.len(), parts.last().len(),
{
    let s = joined(parts, sep);
    let end = parts.last();
    if end.len() == 0 {
        assert(end =~= Seq::<char>::empty());
        if parts.len() == 1 {
            assert(pieces(s, sep) =~= parts);
        } else {
            let head = parts.drop_last();
            assert(s =~= joined(head, sep).push(sep));
            assert(s.drop_last() =~= joined(head, sep));
            lemma_pieces_of_joined(head, sep);
            assert(pieces(s, sep) =~= parts);
        }
    } else {
        let shorter = parts.drop_last().push(end.drop_last());
        assert(shorter.drop_last() =~= parts.drop_last());
        assert(!end.contains(sep));
        assert(end.last() != sep);
        assert(separator_free(shorter, sep)) by {
            assert forall|i: int| 0 <= i < shorter.len() implies !(#[trigger] shorter[i]).contains(
                sep,
            ) by {
                if i == shorter.len() - 1 {
                    if shorter[i].contains(sep) {
                        let k = choose|k: int| 0 <= k < shorter[i].len() && shorter[i][k] == sep;
                        assert(end[k] == sep);
                    }
                } else {
                    assert(shorter[i] == parts[i]);
                }
            }
        }
        assert(s.drop_last() =~= joined(shorter, sep));
        assert(s.last() == end.last());
        lemma_pieces_of_joined(shorter, sep);
        assert(end.drop_last().push(end.last()) =~= end);
        assert(pieces(s, sep) =~= parts);
    }
}

} // verus!
