use vstd::prelude::*;
use crate::text::{find_char, first_index};

verus! {

/// The text of the embedded JSON array: everything from the first `[` on.
pub open spec fn array_text(raw: Seq<char>) -> Option<Seq<char>> {
    match first_index(raw, '[') {
        Some(i) => Some(raw.skip(i)),
        None => None,
    }
}

/// The embedded JSON array of an archive fragment, which starts at the first
/// `[` of the text; `None` when the text holds no `[`.
pub fn json_array_slice(raw: &str) -> (r: Option<&str>)
    ensures
        r matches Some(t) ==> array_text(raw@) == Some(t@),
        r is None <==> array_text(raw@) is None,
{
    match find_char(raw, '[') {
        Some(start) => {
            let t = raw.substring_char(start, raw.unicode_len());
            assert(t@ =~= raw@.skip(start as int));
            Some(t)
        },
        None => None,
    }
}

/// The identifiers in the order they are deleted: the archive lists the most
/// recent tweet first, and the run goes oldest first, so the order of the
/// records is reversed. Nothing is dropped or added.
pub fn deletion_order(record_ids: Vec<String>) -> (r: Vec<String>)
    ensures
        r@ == record_ids@.reverse(),
        r@.len() == record_ids@.len(),
{
    let ghost all = record_ids@;
    let mut rest = record_ids;
    let mut out: Vec<String> = Vec::new();
    while rest.len() > 0
        invariant
            rest@ == all.take(rest@.len() as int),
            out@.len() + rest@.len() == all.len(),
            forall|i: int| 0 <= i < out@.len() ==> out@[i] == all[all.len() - 1 - i],
        decreases rest@.len(),
    {
        let ghost before = rest@;
        match rest.pop() {
            Some(id) => {
                assert(id == all[before.len() - 1]);
                out.push(id);
            },
            None => {},
        }
        assert(rest@ =~= all.take(rest@.len() as int));
    }
    assert(out@ =~= all.reverse());
    out
}

} // verus!
