//! Rewriting a query string without its empty-valued parameters.

use crate::escape::{escaped_text, is_query_text, lemma_escaped_is_query_text, push_escaped};
use crate::params::{next_param, pending, query_params, text_of, Param};
use form_urlencoded::Parse;
use std::borrow::Cow;
use vstd::prelude::*;

verus! {

/// Whether some parameter in `params` has an empty value.
pub open spec fn has_empty_value(params: Seq<Param>) -> bool {
    exists|i: int| 0 <= i < params.len() && (#[trigger] params[i]).1.len() == 0
}

/// Decides whether the query `q` has a parameter with an empty value.
///
/// It walks the parameters once, stops at the first empty value, and builds
/// no string.
pub fn needs_modification(q: &str) -> (r: bool)
    ensures
        r == has_empty_value(query_params(q@)),
{
    let mut parse = form_urlencoded::parse(q.as_bytes());
    let ghost all = pending(parse);
    let ghost mut seen: int = 0;
    loop
        invariant
            0 <= seen <= all.len(),
            pending(parse) == all.skip(seen),
            all == query_params(q@),
            forall|i: int| 0 <= i < seen ==> (#[trigger] all[i]).1.len() > 0,
        decreases all.len() - seen,
    {
        match next_param(&mut parse) {
            None => {
                return false;
            },
            Some((_, value)) => {
                if text_of(&value).is_empty() {
                    assert(all[seen].1.len() == 0);
                    return true;
                }
                proof {
                    assert(all.skip(seen).drop_first() == all.skip(seen + 1));
                    seen = seen + 1;
                }
            },
        }
    }
}

/// Whether a parameter stays in a rewritten query: its value is not empty.
pub open spec fn is_kept(p: Param) -> bool {
    p.1.len() > 0
}

/// The parameters of `params` that stay, in their order.
pub open spec fn kept(params: Seq<Param>) -> Seq<Param> {
    params.filter(|p: Param| is_kept(p))
}

/// What is written for one parameter: its escaped key, `=`, its escaped value.
pub open spec fn param_text(p: Param) -> Seq<char> {
    escaped_text(p.0) + seq!['='] + escaped_text(p.1)
}

/// What is written for `params`: the text of each, with `&` between them.
pub open spec fn joined(params: Seq<Param>) -> Seq<char>
    decreases params.len(),
{
    if params.len() == 0 {
        Seq::empty()
    } else if params.len() == 1 {
        param_text(params[0])
    } else {
        joined(params.drop_last()) + seq!['&'] + param_text(params.last())
    }
}

/// The query `q` without its empty-valued parameters: `q` itself where it has
/// none, else its other parameters written anew.
pub open spec fn normalized(q: Seq<char>) -> Seq<char> {
    if has_empty_value(query_params(q)) {
        joined(kept(query_params(q)))
    } else {
        q
    }
}

/// The text written for a sequence of parameters is empty only for the empty
/// sequence.
pub proof fn lemma_joined_len(params: Seq<Param>)
    ensures
        joined(params).len() == 0 <==> params.len() == 0,
    decreases params.len(),
{
    if params.len() > 1 {
        lemma_joined_len(params.drop_last());
    }
}

/// The text written for a sequence of parameters holds only characters that
/// can stand in a query: what must not stand there is escaped.
pub proof fn lemma_joined_is_query_text(params: Seq<Param>)
    ensures
        is_query_text(joined(params)),
    decreases params.len(),
{
    if params.len() > 0 {
        let p = params.last();
        lemma_escaped_is_query_text(vstd::utf8::encode_utf8(p.0));
        lemma_escaped_is_query_text(vstd::utf8::encode_utf8(p.1));
        assert(is_query_text(param_text(p)));
        if params.len() > 1 {
            lemma_joined_is_query_text(params.drop_last());
        }
    }
}

/// What stays of a sequence with one more parameter: what stayed before, and
/// the new parameter where its value is not empty.
pub proof fn lemma_kept_push(params: Seq<Param>, p: Param)
    ensures
        kept(params.push(p)) == if is_kept(p) {
            kept(params).push(p)
        } else {
            kept(params)
        },
{
    params.lemma_filter_push(p, |p: Param| is_kept(p));
}

/// The query text `text` after the parameter `p` has been offered to it:
/// `text` as it was where the value of `p` is empty, else `text`, a `&` where
/// `text` holds anything, and the text of `p`.
pub open spec fn with_param(text: Seq<char>, p: Param) -> Seq<char> {
    if !is_kept(p) {
        text
    } else if text.len() == 0 {
        param_text(p)
    } else {
        text + seq!['&'] + param_text(p)
    }
}

/// Offering one more parameter to the text written for those that stay of
/// `params` gives the text written for those that stay of all of them.
pub proof fn lemma_with_param(params: Seq<Param>, p: Param)
    ensures
        joined(kept(params.push(p))) == with_param(joined(kept(params)), p),
{
    lemma_kept_push(params, p);
    lemma_joined_len(kept(params));
    if is_kept(p) {
        assert(kept(params).push(p).drop_last() == kept(params));
    }
}

/// Offers the parameter `key`, `value` to the query text `out`: appends it,
/// after a `&` where `out` holds text already, unless its value is empty.
pub fn push_param(out: &mut String, key: &str, value: &str)
    ensures
        final(out)@ == with_param(old(out)@, (key@, value@)),
{
    if value.is_empty() {
        return ;
    }
    if !out.as_str().is_empty() {
        out.push('&');
    }
    let ghost head = out@;
    push_escaped(out, key);
    out.push('=');
    push_escaped(out, value);
    proof {
        assert(out@ == head + param_text((key@, value@)));
    }
}

/// Writes the parameters that `parse` has yet to yield, but for those with an
/// empty value.
pub fn write_kept(parse: Parse<'_>) -> (out: String)
    ensures
        out@ == joined(kept(pending(parse))),
{
    let mut parse = parse;
    let mut out = String::new();
    let ghost all = pending(parse);
    let ghost mut seen: int = 0;
    loop
        invariant_except_break
            0 <= seen <= all.len(),
            pending(parse) == all.skip(seen),
            out@ == joined(kept(all.take(seen))),
        ensures
            out@ == joined(kept(all)),
        decreases all.len() - seen,
    {
        match next_param(&mut parse) {
            None => {
                proof {
                    assert(all.take(seen) == all);
                }
                break ;
            },
            Some((key, value)) => {
                push_param(&mut out, text_of(&key), text_of(&value));
                proof {
                    assert(all.take(seen + 1) == all.take(seen).push((key@, value@)));
                    assert(all.skip(seen).drop_first() == all.skip(seen + 1));
                    lemma_with_param(all.take(seen), (key@, value@));
                    seen = seen + 1;
                }
            },
        }
    }
    out
}

/// Returns `q` or a version of `q` where all empty parameters are removed.
///
/// Where no parameter of `q` has an empty value, the result borrows `q`
/// itself. Otherwise it owns a new text: the parameters with a value, in
/// their order, each key and value escaped anew.
pub fn remove_empty_query_params(q: &str) -> (out: Cow<'_, str>)
    ensures
        out@ == normalized(q@),
        has_empty_value(query_params(q@)) ==> out matches Cow::Owned(_),
        !has_empty_value(query_params(q@)) ==> out == Cow::<str>::Borrowed(q),
{
    if !needs_modification(q) {
        Cow::Borrowed(q)
    } else {
        Cow::Owned(write_kept(form_urlencoded::parse(q.as_bytes())))
    }
}

/// The positions in `params` of the parameters that stay, in increasing order.
pub open spec fn kept_positions(params: Seq<Param>) -> Seq<int>
    decreases params.len(),
{
    if params.len() == 0 {
        Seq::empty()
    } else if is_kept(params.last()) {
        kept_positions(params.drop_last()).push(params.len() - 1)
    } else {
        kept_positions(params.drop_last())
    }
}

/// Where no parameter has an empty value, all of them stay.
pub proof fn lemma_kept_all(params: Seq<Param>)
    requires
        !has_empty_value(params),
    ensures
        kept(params) == params,
    decreases params.len(),
{
    if params.len() == 0 {
        assert(kept(params).len() <= params.len()) by {
            params.lemma_filter_len(|p: Param| is_kept(p));
        }
        assert(kept(params) =~= params);
    } else {
        let front = params.drop_last();
        assert forall|i: int| 0 <= i < front.len() implies (#[trigger] front[i]).1.len() > 0 by {
            assert(front[i] == params[i]);
        }
        lemma_kept_all(front);
        assert(is_kept(params.last())) by {
            assert(params.last() == params[params.len() - 1]);
        }
        assert(front.push(params.last()) == params);
        lemma_kept_push(front, params.last());
    }
}

/// Removal keeps the order: the parameters that stay are those at the
/// positions `kept_positions(params)`, which lie in `params` and increase.
pub proof fn lemma_kept_order(params: Seq<Param>)
    ensures
        kept_positions(params).len() == kept(params).len(),
        forall|j: int|
            0 <= j < kept(params).len() ==> {
                &&& 0 <= #[trigger] kept_positions(params)[j] < params.len()
                &&& kept(params)[j] == params[kept_positions(params)[j]]
            },
        forall|i: int, j: int|
            0 <= i < j < kept(params).len() ==> kept_positions(params)[i] < kept_positions(
                params,
            )[j],
    decreases params.len(),
{
    if params.len() == 0 {
        assert(kept(params).len() <= params.len()) by {
            params.lemma_filter_len(|p: Param| is_kept(p));
        }
    } else {
        let front = params.drop_last();
        lemma_kept_order(front);
        assert(front.push(params.last()) == params);
        lemma_kept_push(front, params.last());
        assert forall|j: int| 0 <= j < kept(params).len() implies {
            &&& 0 <= #[trigger] kept_positions(params)[j] < params.len()
            &&& kept(params)[j] == params[kept_positions(params)[j]]
        } by {
            if j < kept(front).len() {
                assert(params[kept_positions(front)[j]] == front[kept_positions(front)[j]]);
            }
        }
    }
}

/// Removal takes the parameters with an empty value and no others: the
/// parameter at position `i` stays exactly when its value is not empty.
pub proof fn lemma_kept_exactly(params: Seq<Param>, i: int)
    requires
        0 <= i < params.len(),
    ensures
        kept_positions(params).contains(i) <==> params[i].1.len() > 0,
    decreases params.len(),
{
    let front = params.drop_last();
    lemma_kept_order(front);
    lemma_kept_order(params);
    if i < params.len() - 1 {
        lemma_kept_exactly(front, i);
        assert(front[i] == params[i]);
        if kept_positions(front).contains(i) {
            let j = choose|j: int|
                0 <= j < kept_positions(front).len() && kept_positions(front)[j] == i;
            assert(kept_positions(params)[j] == i);
        }
        if kept_positions(params).contains(i) {
            let j = choose|j: int|
                0 <= j < kept_positions(params).len() && kept_positions(params)[j] == i;
            assert(kept_positions(front)[j] == i);
        }
    } else {
        if is_kept(params.last()) {
            assert(kept_positions(params)[kept_positions(params).len() - 1] == i);
        } else {
            if kept_positions(params).contains(i) {
                let j = choose|j: int|
                    0 <= j < kept_positions(front).len() && kept_positions(front)[j] == i;
                assert(kept_positions(front)[j] < front.len());
            }
        }
    }
}

/// A parameter is among those that stay exactly when it is among `params` and
/// its value is not empty.
pub proof fn lemma_kept_contains(params: Seq<Param>, p: Param)
    ensures
        kept(params).contains(p) <==> params.contains(p) && p.1.len() > 0,
{
    let pred = |p: Param| is_kept(p);
    if kept(params).contains(p) {
        params.lemma_filter_contains_rev(pred, p);
        let j = choose|j: int| 0 <= j < kept(params).len() && kept(params)[j] == p;
        params.lemma_filter_pred(pred, j);
    }
    if params.contains(p) && p.1.len() > 0 {
        let i = choose|i: int| 0 <= i < params.len() && params[i] == p;
        params.lemma_filter_contains(pred, i);
    }
}

/// Normalizing a second time changes nothing, whenever the first pass gives a
/// query that decodes without an empty-valued parameter.
pub proof fn lemma_normalized_idempotent(q: Seq<char>)
    requires
        !has_empty_value(query_params(normalized(q))),
    ensures
        normalized(normalized(q)) == normalized(q),
{
}

/// A query without an empty-valued parameter decodes, once normalized, to the
/// parameters it held: all of them stay.
pub proof fn lemma_normalized_decodes_to_kept(q: Seq<char>)
    requires
        !has_empty_value(query_params(q)),
    ensures
        query_params(normalized(q)) == kept(query_params(q)),
{
    lemma_kept_all(query_params(q));
}

} // verus!
