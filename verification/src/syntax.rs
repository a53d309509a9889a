//! Lines that no desktop entry may hold: an `=` with no key before it.

use vstd::prelude::*;
use vstd::string::*;

verus! {

/// White space as the Unicode standard defines it (the property `White_Space`).
pub open spec fn is_space(c: char) -> bool {
    ||| '\u{9}' <= c <= '\u{d}'
    ||| c == ' '
    ||| c == '\u{85}'
    ||| c == '\u{a0}'
    ||| c == '\u{1680}'
    ||| '\u{2000}' <= c <= '\u{200a}'
    ||| c == '\u{2028}'
    ||| c == '\u{2029}'
    ||| c == '\u{202f}'
    ||| c == '\u{205f}'
    ||| c == '\u{3000}'
}

/// Tells whether a character is white space.
pub fn char_is_space(c: char) -> (r: bool)
    ensures
        r == is_space(c),
{
    ('\u{9}' <= c && c <= '\u{d}') || c == ' ' || c == '\u{85}' || c == '\u{a0}' || c
        == '\u{1680}' || ('\u{2000}' <= c && c <= '\u{200a}') || c == '\u{2028}' || c
        == '\u{2029}' || c == '\u{202f}' || c == '\u{205f}' || c == '\u{3000}'
}

/// Every character of `s` is white space.
pub open spec fn blank(s: Seq<char>) -> bool {
    forall|i: int| 0 <= i < s.len() ==> is_space(#[trigger] s[i])
}

/// Position `start` begins a line of `text`: it is the start of the text or
/// follows a line feed.
pub open spec fn line_start(text: Seq<char>, start: int) -> bool {
    0 <= start <= text.len() && (start == 0 || text[start - 1] == '\n')
}

/// Nothing but white space stands between position `i` and the start of its
/// line.
pub open spec fn leads_line(text: Seq<char>, i: int) -> bool {
    exists|start: int|
        #![trigger line_start(text, start)]
        line_start(text, start) && start <= i && blank(text.subrange(start, i))
}

/// Position `i` holds an `=` that no key precedes on its line.
pub open spec fn empty_key_at(text: Seq<char>, i: int) -> bool {
    0 <= i < text.len() && text[i] == '=' && leads_line(text, i)
}

/// Some line of `text` is, but for white space around it, an `=` followed by
/// anything: an assignment to no key.
pub open spec fn has_empty_key(text: Seq<char>) -> bool {
    exists|i: int| empty_key_at(text, i)
}

/// Looks for a line that assigns to no key.
pub fn find_empty_key(text: &str) -> (found: bool)
    ensures
        found == has_empty_key(text@),
{
    let ghost mut at: int = 0;
    let mut leading = true;
    proof {
        assert(line_start(text@, 0));
        assert(text@.subrange(0, 0) =~= Seq::<char>::empty());
    }
    for c in it: text.chars()
        invariant
            it.seq() == text@,
            at == it.index(),
            0 <= at <= text@.len(),
            leading == leads_line(text@, at),
            forall|i: int| 0 <= i < at ==> !empty_key_at(text@, i),
    {
        if c == '=' && leading {
            assert(empty_key_at(text@, at));
            return true;
        }
        proof {
            let now = at + 1;
            if c == '\n' {
                assert(line_start(text@, now));
                assert(text@.subrange(now, now) =~= Seq::<char>::empty());
            } else if is_space(c) {
                if leading {
                    let start = choose|start: int|
                        #![trigger line_start(text@, start)]
                        line_start(text@, start) && start <= at && blank(
                            text@.subrange(start, at),
                        );
                    assert(text@.subrange(start, now) =~= text@.subrange(start, at).push(c));
                    assert(leads_line(text@, now));
                } else if leads_line(text@, now) {
                    let start = choose|start: int|
                        #![trigger line_start(text@, start)]
                        line_start(text@, start) && start <= now && blank(
                            text@.subrange(start, now),
                        );
                    assert(start <= at);
                    assert forall|j: int| 0 <= j < at - start implies is_space(
                        #[trigger] text@.subrange(start, at)[j],
                    ) by {
                        assert(text@.subrange(start, now)[j] == text@.subrange(start, at)[j]);
                    }
                    assert(line_start(text@, start));
                    assert(false);
                }
            } else if leads_line(text@, now) {
                let start = choose|start: int|
                    #![trigger line_start(text@, start)]
                    line_start(text@, start) && start <= now && blank(text@.subrange(start, now));
                assert(start <= at);
                assert(text@.subrange(start, now)[at - start] == c);
                assert(false);
            }
            at = now;
        }
        leading = c == '\n' || (leading && char_is_space(c));
    }
    false
}

} // verus!
