//! Deferred content: text that a template sets aside while it renders, to be
//! written out further down the page.
//!
//! Each open block scope may hold deferred text. Deferring puts new text in
//! front of what the outermost scope holds, so that what was deferred last
//! is written first: closing tags that are deferred as blocks open come out
//! in the order in which the blocks have to close. Flushing writes out what
//! the scopes hold, from the innermost to the outermost, and empties them.
//!
//! The scopes are given innermost first, each with the text it holds, if any.

use vstd::prelude::*;
use vstd::string::StringExecFns;

verus! {

/// The name of the local variable that holds a scope's deferred text.
pub const DELAYED_CONTENTS: &'static str = "_delayed_contents";

/// The text that each scope holds.
pub open spec fn scope_texts(scopes: Seq<Option<String>>) -> Seq<Option<Seq<char>>> {
    scopes.map_values(
        |scope: Option<String>|
            match scope {
                Some(text) => Some(text@),
                None => None,
            },
    )
}

/// The text of a scope; empty where it holds none.
pub open spec fn held(scope: Option<Seq<char>>) -> Seq<char> {
    match scope {
        Some(text) => text,
        None => Seq::empty(),
    }
}

/// The scopes after `rendered` was deferred: the outermost scope holds
/// `rendered` in front of what it held. Without any scope nothing is kept.
pub open spec fn deferred(scopes: Seq<Option<Seq<char>>>, rendered: Seq<char>) -> Seq<
    Option<Seq<char>>,
> {
    if scopes.len() == 0 {
        scopes
    } else {
        scopes.update(scopes.len() - 1, Some(rendered + held(scopes.last())))
    }
}

/// What a flush writes: the texts of the scopes, the innermost first.
pub open spec fn flushed_text(scopes: Seq<Option<Seq<char>>>) -> Seq<char>
    decreases scopes.len(),
{
    if scopes.len() == 0 {
        Seq::empty()
    } else {
        flushed_text(scopes.drop_last()) + held(scopes.last())
    }
}

/// The scopes after a flush: a scope that held text holds none; a scope
/// that held no text, or an empty one, is as it was.
pub open spec fn flushed_scopes(scopes: Seq<Option<Seq<char>>>) -> Seq<Option<Seq<char>>> {
    scopes.map_values(
        |scope: Option<Seq<char>>|
            if held(scope).len() > 0 {
                None
            } else {
                scope
            },
    )
}

/// Defers `rendered`: puts it in front of what the outermost scope holds.
pub fn delay(scopes: &mut Vec<Option<String>>, rendered: String)
    ensures
        scope_texts(final(scopes)@) == deferred(scope_texts(old(scopes)@), rendered@),
{
    let count = scopes.len();
    if count > 0 {
        let outermost = scopes.pop().unwrap();
        let joined = match outermost {
            Some(old_text) => rendered.concat(old_text.as_str()),
            None => {
                assert(rendered@ + Seq::<char>::empty() == rendered@);
                rendered
            },
        };
        scopes.push(Some(joined));
        assert(scope_texts(scopes@) =~= deferred(scope_texts(old(scopes)@), rendered@));
    }
}

/// Flushes the deferred content: hands back what the scopes hold, the
/// innermost scope's text first, and empties the scopes that held text.
pub fn flush_delayed(scopes: &mut Vec<Option<String>>) -> (r: String)
    ensures
        r@ == flushed_text(scope_texts(old(scopes)@)),
        scope_texts(final(scopes)@) == flushed_scopes(scope_texts(old(scopes)@)),
{
    let ghost before = scope_texts(scopes@);
    let mut written = String::new();
    let mut result: Vec<Option<String>> = Vec::new();
    let mut i: usize = 0;
    assert(before.take(0).len() == 0);
    while i < scopes.len()
        invariant
            i <= scopes.len(),
            before == scope_texts(scopes@),
            written@ == flushed_text(before.take(i as int)),
            result@.len() == i,
            scope_texts(result@) == flushed_scopes(before).take(i as int),
        decreases scopes.len() - i,
    {
        let ghost done = result@;
        proof {
            let next = before.take(i + 1);
            assert(next.drop_last() == before.take(i as int));
            assert(next.last() == before[i as int]);
        }
        match &scopes[i] {
            Some(text) => {
                if text.as_str().is_empty() {
                    result.push(Some(String::new()));
                    assert(written@ + Seq::<char>::empty() == written@);
                } else {
                    written.append(text.as_str());
                    result.push(None);
                }
            },
            None => {
                result.push(None);
                assert(written@ + Seq::<char>::empty() == written@);
            },
        }
        proof {
            let target = flushed_scopes(before);
            assert(before[i as int] == scope_texts(scopes@)[i as int]);
            assert(scope_texts(result@)[i as int] == target[i as int]);
            assert forall|j: int| 0 <= j < i implies scope_texts(result@)[j] == target[j] by {
                assert(scope_texts(done)[j] == target.take(i as int)[j]);
                assert(result@[j] == done[j]);
            }
            assert(scope_texts(result@) =~= target.take(i + 1));
        }
        i += 1;
    }
    assert(before.take(i as int) == before);
    assert(flushed_scopes(before).take(i as int) == flushed_scopes(before));
    *scopes = result;
    written
}

/// What is deferred last is written first: after one text and then another
/// were deferred in a page that held no deferred text, a flush writes the
/// second in front of the first, and leaves nothing behind.
pub proof fn lemma_deferred_in_reverse(first: Seq<char>, second: Seq<char>)
    requires
        first.len() > 0,
    ensures
        flushed_text(deferred(deferred(seq![None], first), second)) == second + first,
        flushed_scopes(deferred(deferred(seq![None], first), second)) == seq![
            None::<Seq<char>>,
        ],
{
    let empty: Seq<Option<Seq<char>>> = seq![None];
    let once = deferred(empty, first);
    let twice = deferred(once, second);
    assert(first + Seq::<char>::empty() == first);
    assert(once == seq![Some(first)]);
    assert(twice == seq![Some(second + first)]);
    assert(twice.drop_last().len() == 0);
    assert(flushed_text(twice) == flushed_text(twice.drop_last()) + held(twice.last()));
    assert(Seq::<char>::empty() + (second + first) == second + first);
    assert(flushed_scopes(twice) =~= seq![None::<Seq<char>>]);
}

} // verus!
