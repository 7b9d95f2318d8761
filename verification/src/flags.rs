//! IMAP flag lists of stored emails (`\Seen`, `\Flagged`, ...), kept as JSON arrays.

use vstd::prelude::*;

use crate::json::{decode_string_list, encode_string_list, json_of_string_list, json_string_list, strings_view};
use crate::text::{owned, str_equal};

verus! {

/// A message flag as an IMAP server reports it: a system flag or a keyword.
#[derive(Debug, PartialEq, Eq)]
pub enum MessageFlag {
    Seen,
    Answered,
    Flagged,
    Deleted,
    Draft,
    Recent,
    /// `\*`: new keywords may be created.
    MayCreate,
    Keyword(String),
}

/// The spelling under which a flag is stored: the IMAP name of a system flag
/// (`\Seen`, `\Answered`, ...), or the keyword itself. Marking read or unread,
/// starring and unstarring use the same spelling.
pub open spec fn flag_name_text(f: MessageFlag) -> Seq<char> {
    match f {
        MessageFlag::Seen => "\\Seen"@,
        MessageFlag::Answered => "\\Answered"@,
        MessageFlag::Flagged => "\\Flagged"@,
        MessageFlag::Deleted => "\\Deleted"@,
        MessageFlag::Draft => "\\Draft"@,
        MessageFlag::Recent => "\\Recent"@,
        MessageFlag::MayCreate => "\\*"@,
        MessageFlag::Keyword(k) => k@,
    }
}

/// The stored spelling of a flag.
pub fn flag_name(f: &MessageFlag) -> (r: String)
    ensures
        r@ == flag_name_text(*f),
{
    match f {
        MessageFlag::Seen => owned("\\Seen"),
        MessageFlag::Answered => owned("\\Answered"),
        MessageFlag::Flagged => owned("\\Flagged"),
        MessageFlag::Deleted => owned("\\Deleted"),
        MessageFlag::Draft => owned("\\Draft"),
        MessageFlag::Recent => owned("\\Recent"),
        MessageFlag::MayCreate => owned("\\*"),
        MessageFlag::Keyword(k) => k.clone(),
    }
}

/// The stored spellings of a message's flags, in order.
pub open spec fn flag_name_texts(fs: Seq<MessageFlag>) -> Seq<Seq<char>> {
    fs.map_values(|f: MessageFlag| flag_name_text(f))
}

/// The stored spellings of a message's flags.
pub fn flag_names(fs: &Vec<MessageFlag>) -> (r: Vec<String>)
    ensures
        strings_view(r@) == flag_name_texts(fs@),
{
    let mut r: Vec<String> = Vec::new();
    let mut i: usize = 0;
    while i < fs.len()
        invariant
            i <= fs@.len(),
            strings_view(r@) == flag_name_texts(fs@.take(i as int)),
        decreases fs@.len() - i,
    {
        let n = flag_name(&fs[i]);
        let ghost before = r@;
        r.push(n);
        assert(strings_view(r@) =~= strings_view(before).push(flag_name_text(fs@[i as int])));
        assert(flag_name_texts(fs@.take(i + 1)) =~= flag_name_texts(fs@.take(i as int)).push(
            flag_name_text(fs@[i as int]),
        ));
        i = i + 1;
    }
    assert(fs@.take(i as int) =~= fs@);
    r
}

/// The flag list that a stored flags field denotes: the decoded JSON array (an absent
/// field is read as `[]`), or the empty list when the text does not decode.
pub open spec fn stored_flags(flags_json: Option<String>) -> Seq<Seq<char>> {
    let text = match flags_json {
        Some(s) => s@,
        None => "[]"@,
    };
    match json_string_list(text) {
        Some(v) => v,
        None => Seq::empty(),
    }
}

/// The list with flag `f` appended, unless it already holds it.
pub open spec fn with_flag(flags: Seq<Seq<char>>, f: Seq<char>) -> Seq<Seq<char>> {
    if flags.contains(f) {
        flags
    } else {
        flags.push(f)
    }
}

/// The list without any occurrence of flag `f`, others kept in order.
pub open spec fn without_flag(flags: Seq<Seq<char>>, f: Seq<char>) -> Seq<Seq<char>>
    decreases flags.len(),
{
    if flags.len() == 0 {
        flags
    } else {
        let rest = without_flag(flags.drop_last(), f);
        if flags.last() == f {
            rest
        } else {
            rest.push(flags.last())
        }
    }
}

/// The list after adding `add` (when given) and then removing `remove` (when given).
pub open spec fn changed_flags(flags: Seq<Seq<char>>, add: Option<Seq<char>>, remove: Option<Seq<char>>) -> Seq<Seq<char>> {
    let added = match add {
        Some(f) => with_flag(flags, f),
        None => flags,
    };
    match remove {
        Some(f) => without_flag(added, f),
        None => added,
    }
}

pub open spec fn opt_str_view(o: Option<&str>) -> Option<Seq<char>> {
    match o {
        Some(s) => Some(s@),
        None => None,
    }
}

/// Decoded flag list of a stored flags field.
fn decode_flags(flags_json: &Option<String>) -> (v: Vec<String>)
    ensures
        strings_view(v@) == stored_flags(*flags_json),
{
    let text: &str = match flags_json {
        Some(s) => s.as_str(),
        None => "[]",
    };
    match decode_string_list(text) {
        Some(v) => v,
        None => {
            let v: Vec<String> = Vec::new();
            assert(strings_view(v@) =~= Seq::<Seq<char>>::empty());
            v
        },
    }
}

/// Whether the list holds `flag`.
fn holds_flag(flags: &Vec<String>, flag: &str) -> (r: bool)
    ensures
        r == strings_view(flags@).contains(flag@),
{
    let mut i: usize = 0;
    while i < flags.len()
        invariant
            i <= flags@.len(),
            forall|j: int| 0 <= j < i ==> flags@[j]@ != flag@,
        decreases flags@.len() - i,
    {
        if str_equal(flags[i].as_str(), flag) {
            assert(strings_view(flags@)[i as int] == flag@);
            return true;
        }
        i = i + 1;
    }
    assert forall|j: int| 0 <= j < strings_view(flags@).len() implies strings_view(flags@)[j] != flag@ by {
        assert(strings_view(flags@)[j] == flags@[j]@);
    }
    false
}

/// The list without `flag` (`retain(|f| f != flag)`).
fn drop_flag(flags: Vec<String>, flag: &str) -> (r: Vec<String>)
    ensures
        strings_view(r@) == without_flag(strings_view(flags@), flag@),
{
    let mut out: Vec<String> = Vec::new();
    let mut i: usize = 0;
    while i < flags.len()
        invariant
            i <= flags@.len(),
            strings_view(out@) == without_flag(strings_view(flags@.take(i as int)), flag@),
        decreases flags@.len() - i,
    {
        assert(strings_view(flags@.take(i + 1)).drop_last() =~= strings_view(flags@.take(i as int)));
        assert(strings_view(flags@.take(i + 1)).last() == flags@[i as int]@);
        if !str_equal(flags[i].as_str(), flag) {
            let ghost before = out@;
            out.push(flags[i].clone());
            assert(strings_view(out@) =~= strings_view(before).push(flags@[i as int]@));
        }
        i = i + 1;
    }
    assert(flags@.take(i as int) =~= flags@);
    out
}

/// The new flags field of a stored email after adding and removing flags: the stored
/// list is decoded (unreadable text counts as no flags), `add` is appended when
/// absent, every `remove` is dropped, and the list is encoded as JSON again.
pub fn flags_after_change(flags_json: &Option<String>, add: Option<&str>, remove: Option<&str>) -> (r: String)
    ensures
        r@ == json_of_string_list(changed_flags(stored_flags(*flags_json), opt_str_view(add), opt_str_view(remove))),
        json_string_list(r@) == Some(changed_flags(stored_flags(*flags_json), opt_str_view(add), opt_str_view(remove))),
{
    let mut flags = decode_flags(flags_json);
    if let Some(flag) = add {
        if !holds_flag(&flags, flag) {
            let ghost before = flags@;
            flags.push(owned(flag));
            assert(strings_view(flags@) =~= strings_view(before).push(flag@));
        }
    }
    if let Some(flag) = remove {
        flags = drop_flag(flags, flag);
    }
    match encode_string_list(&flags) {
        Ok(s) => s,
        Err(e) => e,
    }
}

proof fn lemma_without_flag_contains(flags: Seq<Seq<char>>, f: Seq<char>, g: Seq<char>)
    ensures
        without_flag(flags, f).contains(g) <==> (flags.contains(g) && g != f),
    decreases flags.len(),
{
    if flags.len() > 0 {
        let init = flags.drop_last();
        let l = flags.last();
        lemma_without_flag_contains(init, f, g);
        let rest = without_flag(init, f);
        let res = without_flag(flags, f);
        assert(flags =~= init.push(l));
        if rest.contains(g) {
            let k = choose|k: int| 0 <= k < rest.len() && rest[k] == g;
            assert(rest.push(l)[k] == g);
        }
        if init.contains(g) {
            let k = choose|k: int| 0 <= k < init.len() && init[k] == g;
            assert(flags[k] == g);
        }
        if flags.contains(g) && g != f {
            let k = choose|k: int| 0 <= k < flags.len() && flags[k] == g;
            if k < flags.len() - 1 {
                assert(init[k] == g);
            } else {
                assert(l == g);
                assert(rest.push(l)[rest.len() as int] == g);
            }
            assert(res.contains(g));
        }
        if res.contains(g) {
            if l == f {
                assert(rest.contains(g));
            } else {
                let k = choose|k: int| 0 <= k < res.len() && res[k] == g;
                if k < rest.len() {
                    assert(rest[k] == g);
                    assert(rest.contains(g));
                } else {
                    assert(g == l);
                    assert(flags[flags.len() - 1] == g);
                }
            }
            assert(flags.contains(g) && g != f);
        }
    }
}

proof fn lemma_without_absent_flag(flags: Seq<Seq<char>>, f: Seq<char>)
    requires
        !flags.contains(f),
    ensures
        without_flag(flags, f) == flags,
    decreases flags.len(),
{
    if flags.len() > 0 {
        let init = flags.drop_last();
        assert(!init.contains(f)) by {
            if init.contains(f) {
                let k = choose|k: int| 0 <= k < init.len() && init[k] == f;
                assert(flags[k] == f);
            }
        }
        lemma_without_absent_flag(init, f);
        assert(flags.last() != f) by {
            assert(flags[flags.len() - 1] == flags.last());
        }
        assert(init.push(flags.last()) =~= flags);
    }
}

/// After a flag is added, the list holds it; after a flag is removed, the list no
/// longer holds it; every other flag is held afterwards exactly when it was before.
pub proof fn law_flag_changes(flags: Seq<Seq<char>>, f: Seq<char>, g: Seq<char>)
    requires
        g != f,
    ensures
        changed_flags(flags, Some(f), None).contains(f),
        !changed_flags(flags, None, Some(f)).contains(f),
        changed_flags(flags, Some(f), None).contains(g) <==> flags.contains(g),
        changed_flags(flags, None, Some(f)).contains(g) <==> flags.contains(g),
{
    lemma_without_flag_contains(flags, f, f);
    lemma_without_flag_contains(flags, f, g);
    if !flags.contains(f) {
        assert(flags.push(f)[flags.len() as int] == f);
        if flags.push(f).contains(g) {
            let k = choose|k: int| 0 <= k < flags.push(f).len() && flags.push(f)[k] == g;
            assert(flags[k] == g);
        }
        if flags.contains(g) {
            let k = choose|k: int| 0 <= k < flags.len() && flags[k] == g;
            assert(flags.push(f)[k] == g);
        }
    }
}

/// Adding a flag twice is the same as adding it once, and removing it twice the same
/// as removing it once.
pub proof fn law_flag_changes_idempotent(flags: Seq<Seq<char>>, f: Seq<char>)
    ensures
        with_flag(with_flag(flags, f), f) == with_flag(flags, f),
        without_flag(without_flag(flags, f), f) == without_flag(flags, f),
{
    if !flags.contains(f) {
        assert(flags.push(f)[flags.len() as int] == f);
    }
    lemma_without_flag_contains(flags, f, f);
    lemma_without_absent_flag(without_flag(flags, f), f);
}

/// Removing a flag undoes adding it to a list that did not hold it (starring then
/// unstarring, or marking read then unread, restores the flag list).
pub proof fn law_remove_undoes_add(flags: Seq<Seq<char>>, f: Seq<char>)
    requires
        !flags.contains(f),
    ensures
        changed_flags(changed_flags(flags, Some(f), None), None, Some(f)) == flags,
{
    lemma_without_absent_flag(flags, f);
    assert(flags.push(f).drop_last() =~= flags);
}

} // verus!
