//! The identity of a client across restarts and reconnects.

use vstd::prelude::*;
use vstd::utf8::*;

use crate::ident::{is_random_uuid, is_uuid, is_uuid_text, new_uuid};
use crate::text::{from_chars, to_chars, trim, trimmed};

verus! {

/// Whether a stored text, without white space around it, can be used again.
pub open spec fn is_reusable(stored: Seq<char>, max_len: usize) -> bool {
    let s = trimmed(stored);
    s.len() > 0 && encode_utf8(s).len() <= max_len && is_uuid_text(s)
}

/// The identity in a stored text; `None` exactly where it cannot be used again.
pub fn stored_run_id(stored: &str, max_len: usize) -> (r: Option<String>)
    ensures
        match r {
            Some(id) => is_reusable(stored@, max_len) && id@ == trimmed(stored@),
            None => !is_reusable(stored@, max_len),
        },
{
    let s = from_chars(&trim(&to_chars(stored)));
    if !s.as_str().is_empty() && s.as_str().as_bytes().len() <= max_len && is_uuid(s.as_str()) {
        Some(s)
    } else {
        None
    }
}

/// Whether `id` is the identity to use, and `new` says that it is a new one.
pub open spec fn identity_for(
    id: Seq<char>,
    new: bool,
    stored: Option<Seq<char>>,
    max_len: usize,
) -> bool {
    if stored is Some && is_reusable(stored->0, max_len) {
        id == trimmed(stored->0) && !new
    } else {
        is_random_uuid(id) && new
    }
}

/// The file that keeps the identity, where one is named.
pub open spec fn identity_file(named: Option<Seq<char>>) -> Option<Seq<char>> {
    if named is Some && trimmed(named->0).len() > 0 {
        named
    } else {
        None
    }
}

/// The identity to use, and whether it is a new one that is to be stored. A new one
/// is random.
pub fn load_or_create_run_id(stored: Option<&str>, max_len: usize) -> (r: (String, bool))
    ensures
        identity_for(
            r.0@,
            r.1,
            match stored {
                Some(s) => Some(s@),
                None => None,
            },
            max_len,
        ),
        match stored {
            Some(s) => if is_reusable(s@, max_len) {
                r.0@ == trimmed(s@) && !r.1
            } else {
                is_random_uuid(r.0@) && r.1
            },
            None => is_random_uuid(r.0@) && r.1,
        },
        is_uuid_text(r.0@),
{
    if let Some(s) = stored {
        if let Some(id) = stored_run_id(s, max_len) {
            return (id, false);
        }
    }
    let id = new_uuid();
    proof {
        crate::ident::law_random_uuid_accepted(id@);
    }
    (id, true)
}

/// The file that keeps the identity, where the configuration names one; a blank
/// name counts as none.
pub fn resolve_run_id_path(run_id_file: &Option<String>) -> (r: Option<String>)
    ensures
        r.deep_view() == identity_file(run_id_file.deep_view()),
        r.deep_view() == (match run_id_file.deep_view() {
            Some(p) => if trimmed(p).len() > 0 {
                Some(p)
            } else {
                None
            },
            None => None,
        }),
{
    match run_id_file {
        Some(p) => if trim(&to_chars(p.as_str())).len() > 0 {
            Some(p.clone())
        } else {
            None
        },
        None => None,
    }
}

/// A new identity that was stored is the one that is used after a restart, where
/// identities may have 36 bytes.
pub proof fn law_stored_identity_is_reused(id: Seq<char>, max_len: usize)
    requires
        is_random_uuid(id),
        max_len >= 36,
    ensures
        is_reusable(id, max_len),
        trimmed(id) == id,
{
    crate::ident::law_random_uuid_accepted(id);
    assert(!crate::ident::is_hyphen_place(0) && !crate::ident::is_hyphen_place(35));
    assert(crate::ident::is_lower_hex(id[0]) && crate::ident::is_lower_hex(id[35]));
    assert(crate::text::trimmed_start(id) == id);
    assert(crate::text::trimmed_end(id) == id);
}

/// A stored identity is used again whatever white space stands around it, such as the end
/// of its line, exactly where it is a UUID that is not too long.
pub proof fn law_identity_is_reused(
    before: Seq<char>,
    id: Seq<char>,
    behind: Seq<char>,
    max_len: usize,
)
    requires
        forall|i: int| 0 <= i < before.len() ==> crate::text::is_white_space(#[trigger] before[i]),
        forall|i: int| 0 <= i < behind.len() ==> crate::text::is_white_space(#[trigger] behind[i]),
        id.len() > 0,
        !crate::text::is_white_space(id[0]),
        !crate::text::is_white_space(id.last()),
    ensures
        is_reusable(before + id + behind, max_len) <==> encode_utf8(id).len() <= max_len
            && is_uuid_text(id),
        trimmed(before + id + behind) == id,
{
    crate::text::law_white_space_is_taken_off(before, id, behind);
}

/// A client keeps its identity: what one start has stored, the next one uses, and stores
/// nothing. Only where nothing that can be used is stored is there a new one.
pub proof fn law_identity_survives_restart(
    id: Seq<char>,
    again: Seq<char>,
    new: bool,
    max_len: usize,
)
    requires
        max_len >= 36,
        identity_for(id, true, None, max_len),
        identity_for(again, new, Some(id), max_len),
    ensures
        again == id && !new,
        is_uuid_text(id),
{
    law_stored_identity_is_reused(id, max_len);
    crate::ident::law_random_uuid_accepted(id);
}

/// A blank name of the file counts as none, and any other is used as it is.
pub proof fn law_identity_file_is_used(name: Seq<char>)
    ensures
        identity_file(None) is None,
        name.len() == 0 ==> identity_file(Some(name)) is None,
        name.len() > 0 && !crate::text::is_white_space(name[0])
            && !crate::text::is_white_space(name.last()) ==> identity_file(Some(name)) == Some(
            name,
        ),
{
    if name.len() > 0 && !crate::text::is_white_space(name[0])
        && !crate::text::is_white_space(name.last()) {
        crate::text::law_white_space_is_taken_off(Seq::empty(), name, Seq::empty());
        assert(Seq::<char>::empty() + name + Seq::<char>::empty() =~= name);
    }
}

} // verus!
