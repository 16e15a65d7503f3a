//! JSON text for the command bodies. The bodies have a fixed shape, which is
//! written out here; only the quoting of a string is left to `serde_json`.

use vstd::prelude::*;
use vstd::string::*;
use crate::error::ProtocolError;

verus! {

/// The error type of `serde_json`, carried through and never looked into.
#[verifier::external_type_specification]
#[verifier::external_body]
pub struct ExJsonError(serde_json::Error);

/// The JSON string literal that `serde_json::to_string` writes for the
/// string `s`: `s` between double quotes, with its quotes, backslashes and
/// control characters escaped. It depends on `s` alone.
pub uninterp spec fn json_string(s: Seq<char>) -> Seq<char>;

/// `serde_json::to_string` on a string slice. It succeeds, and the text is
/// the JSON string literal for `s`. It cannot fail on a string: the encoder
/// writes a string straight into a byte vector, and the two failures that it
/// knows, a value that refuses to be encoded and a map with a key that is no
/// string, belong to other types.
#[verifier::external_body]
fn quote(s: &str) -> (quoted: Result<String, serde_json::Error>)
    ensures
        quoted is Ok,
        quoted matches Ok(text) ==> text@ == json_string(s@),
{
    serde_json::to_string(s)
}

/// Appends a quoted string to `out`, or reports that the quoting failed and
/// leaves `out` as it was.
pub fn append_quoted(out: &mut String, quoted: Result<String, serde_json::Error>) -> (result:
    Result<(), ProtocolError>)
    ensures
        match quoted {
            Ok(text) => result is Ok && final(out)@ == old(out)@ + text@,
            Err(_) => result == Err::<(), ProtocolError>(ProtocolError::Serialize) && final(out)@
                == old(out)@,
        },
{
    match quoted {
        Ok(text) => {
            out.append(text.as_str());
            Ok(())
        },
        Err(_) => Err(ProtocolError::Serialize),
    }
}

/// Appends the JSON string literal for `s` to `out`. It always succeeds.
pub fn push_json_string(out: &mut String, s: &str) -> (result: Result<(), ProtocolError>)
    ensures
        result is Ok,
        final(out)@ == old(out)@ + json_string(s@),
{
    append_quoted(out, quote(s))
}

/// The JSON string literals for `items`, with a comma between neighbours.
pub open spec fn json_items(items: Seq<Seq<char>>) -> Seq<char>
    decreases items.len(),
{
    if items.len() == 0 {
        Seq::empty()
    } else if items.len() == 1 {
        json_string(items[0])
    } else {
        json_items(items.drop_last()) + ","@ + json_string(items.last())
    }
}

/// The JSON array of the strings `items`.
pub open spec fn json_list(items: Seq<Seq<char>>) -> Seq<char> {
    "["@ + json_items(items) + "]"@
}

/// Appends the JSON array of the strings `items` to `out`. It always
/// succeeds.
pub fn push_json_list(out: &mut String, items: &Vec<String>) -> (result: Result<
    (),
    ProtocolError,
>)
    ensures
        result is Ok,
        final(out)@ == old(out)@ + json_list(items.deep_view()),
{
    out.append("[");
    let ghost all = items.deep_view();
    let mut i: usize = 0;
    while i < items.len()
        invariant
            i <= items.len(),
            all == items.deep_view(),
            out@ == old(out)@ + "["@ + json_items(all.take(i as int)),
        decreases items.len() - i,
    {
        if i > 0 {
            out.append(",");
        }
        match push_json_string(out, items[i].as_str()) {
            Ok(_) => {},
            Err(e) => {
                return Err(e);
            },
        }
        proof {
            let next = all.take(i + 1);
            assert(next.drop_last() =~= all.take(i as int));
            assert(next.last() == items@[i as int]@);
            assert(out@ =~= old(out)@ + "["@ + json_items(next));
        }
        i = i + 1;
    }
    assert(all.take(i as int) =~= all);
    out.append("]");
    assert(final(out)@ =~= old(out)@ + json_list(all));
    Ok(())
}

} // verus!
