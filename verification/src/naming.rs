//! Turning the names users type into path components.

use crate::path::{component_ok, continues_identifier, starts_identifier, xid_continue, xid_start};
use crate::text::chars_of;
use crate::types::opt_text;
use vstd::prelude::*;
use vstd::string::*;

verus! {

/// The identifier a name is encoded as.
pub uninterp spec fn namecoded(name: Seq<char>) -> Seq<char>;

/// The name an identifier stands for, if it stands for one.
pub uninterp spec fn namedecoded(id: Seq<char>) -> Option<Seq<char>>;

/// Whether `s` starts as encoded names do.
pub open spec fn marked(s: Seq<char>) -> bool {
    s.len() >= 3 && s[0] == '_' && s[1] == 'N' && s[2] == '_'
}

/// Whether `s` is an identifier that does not look like an encoded name.
pub open spec fn plain_identifier(s: Seq<char>) -> bool {
    s.len() > 0 && (xid_start(s[0]) || s[0] == '_') && (forall|i: int|
        1 <= i < s.len() ==> xid_continue(#[trigger] s[i])) && !marked(s)
}

/// Whether `s` already stands for a name that cannot be stored as it is.
pub open spec fn stands_for_name(s: Seq<char>) -> bool {
    marked(s) && match namedecoded(s) {
        Some(name) => name.len() > 0 && !plain_identifier(name),
        None => false,
    }
}

/// Calls `namecode::encode`. Its result depends on the name alone and is named
/// `namecoded`; an identifier that does not start with `_N_` comes back as it
/// is, and any other name comes back as `_N_` followed by characters that
/// continue an identifier. So what comes back may stand in a path, but for the
/// empty name and a lone underscore, which come back as they are. Names that already stand for one are left out: builds with debug
/// assertions stop on those of them that are spelled in an unusual way.
#[verifier::external_body]
fn encode(name: &str) -> (r: String)
    requires
        !stands_for_name(name@),
    ensures
        r@ == namecoded(name@),
        plain_identifier(name@) ==> r@ == name@,
        name@.len() > 0 && name@ != seq!['_'] ==> component_ok(r@),
{
    namecode::encode(name)
}

/// Calls `namecode::decode`. Whether it succeeds, and with what, depends on the
/// text alone and is named `namedecoded`.
#[verifier::external_body]
fn decode(id: &str) -> (r: Option<String>)
    ensures
        opt_text(r) == namedecoded(id@),
{
    namecode::decode(id).ok()
}

fn is_marked(cs: &Vec<char>) -> (r: bool)
    ensures
        r == marked(cs@),
{
    cs.len() >= 3 && cs[0] == '_' && cs[1] == 'N' && cs[2] == '_'
}

fn is_plain_identifier(s: &str) -> (r: bool)
    ensures
        r == plain_identifier(s@),
{
    let cs: Vec<char> = chars_of(s);
    if cs.len() == 0 || is_marked(&cs) || !(starts_identifier(cs[0]) || cs[0] == '_') {
        return false;
    }
    let mut i: usize = 1;
    while i < cs.len()
        invariant
            cs@ == s@,
            1 <= i <= cs@.len(),
            forall|k: int| 1 <= k < i ==> xid_continue(#[trigger] cs@[k]),
        decreases cs@.len() - i,
    {
        if !continues_identifier(cs[i]) {
            proof {
                assert(!xid_continue(cs@[i as int]));
            }
            return false;
        }
        i += 1;
    }
    true
}

/// What a name is stored under: a text that already stands for a name stays as
/// it is, any other one is encoded.
pub open spec fn stored_id(name: Seq<char>) -> Seq<char> {
    if stands_for_name(name) {
        name
    } else {
        namecoded(name)
    }
}

/// What a name is stored under. A plain identifier is stored as it is, and what
/// an encoded name is stored under may stand in a path.
pub fn id_for_name(name: &str) -> (r: String)
    ensures
        r@ == stored_id(name@),
        plain_identifier(name@) ==> r@ == name@,
        name@.len() > 0 && name@ != seq!['_'] && !stands_for_name(name@) ==> component_ok(r@),
{
    let cs: Vec<char> = chars_of(name);
    if is_marked(&cs) {
        match decode(name) {
            Some(text) => {
                if chars_of(text.as_str()).len() > 0 && !is_plain_identifier(text.as_str()) {
                    return name.to_owned();
                }
            },
            None => {},
        }
    }
    encode(name)
}

} // verus!
