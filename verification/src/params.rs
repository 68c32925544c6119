//! The parameters of a query string, as the form-urlencoded decoder reads them.
//!
//! Decoding is the work of the `form_urlencoded` crate. What it yields for
//! given bytes is known here by name only: the contracts of this module are
//! assumed of that crate, and everything else is proved from them.

use form_urlencoded::Parse;
use std::borrow::Cow;
use vstd::prelude::*;
use vstd::utf8::encode_utf8;

verus! {

/// A decoded parameter: its key and its value.
pub type Param = (Seq<char>, Seq<char>);

/// The iterator that `form_urlencoded::parse` returns. Nothing inside it is
/// visible here.
#[verifier::external_type_specification]
#[verifier::external_body]
pub struct ExParse<'a>(Parse<'a>);

/// The parameters that `form_urlencoded::parse` yields for `input`, in order.
pub uninterp spec fn form_pairs(input: Seq<u8>) -> Seq<Param>;

/// The parameters that the iterator `parse` has yet to yield, in order.
pub uninterp spec fn pending(parse: Parse) -> Seq<Param>;

/// The parameters of the query `q`, decoded, in order.
pub open spec fn query_params(q: Seq<char>) -> Seq<Param> {
    form_pairs(encode_utf8(q))
}

/// Assumed of `form_urlencoded::parse`, not proved: it returns an iterator
/// over the parameters of `input`, none of them yielded yet. What these
/// parameters are depends on the bytes of `input` alone.
pub assume_specification[ form_urlencoded::parse ](input: &[u8]) -> (parse: Parse<'_>)
    ensures
        pending(parse) == form_pairs(input@),
;

/// Assumed of `Parse::next`, not proved: it yields the first parameter that is
/// still pending and leaves the rest pending; it yields `None` only when none
/// is pending.
#[verifier::external_body]
pub(crate) fn next_param<'a>(parse: &mut Parse<'a>) -> (r: Option<(Cow<'a, str>, Cow<'a, str>)>)
    ensures
        match r {
            Some((key, value)) => {
                &&& pending(*old(parse)).len() > 0
                &&& pending(*old(parse))[0] == (key@, value@)
                &&& pending(*final(parse)) == pending(*old(parse)).drop_first()
            },
            None => pending(*old(parse)).len() == 0,
        },
{
    parse.next()
}

/// The text that `text` holds, borrowed or owned.
pub(crate) fn text_of<'a>(text: &'a Cow<'_, str>) -> (s: &'a str)
    ensures
        s@ == text@,
{
    match text {
        Cow::Borrowed(s) => s,
        Cow::Owned(s) => s.as_str(),
    }
}

} // verus!
