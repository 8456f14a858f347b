//! What holds of every well-formed table, across its lookups.

use vstd::prelude::*;
use vstd::string::StringSliceAdditionalSpecFns;
use crate::bytes::{
    last_segment, lemma_lex_lt_irreflexive, lemma_normalize_idempotent,
    lemma_normalize_without_backslash, lex_lt, normalize_separators,
};
use crate::table::{lemma_first_payload_at, lookup, lookup_name, AssetTable};

verus! {

/// Every file in the table is found again under its own path, with the
/// contents it was stored with.
pub proof fn law_get_finds_every_entry(t: &AssetTable, i: int)
    requires
        t.wf(),
        0 <= i < t@.len(),
    ensures
        lookup(t@, normalize_separators(t@[i].0)) == Some(t@[i].1),
{
    let s = t@;
    lemma_normalize_without_backslash(s[i].0);
    assert forall|j: int| 0 <= j < i implies s[j].0 != s[i].0 by {
        lemma_lex_lt_irreflexive(s[i].0);
    }
    lemma_first_payload_at(s, |p: Seq<u8>| p == s[i].0, i);
}

/// A path written with backslashes finds what the same path written with
/// forward slashes finds.
pub proof fn law_backslash_reads_as_slash(t: &AssetTable, a: &str, b: &str)
    requires
        b.spec_bytes() == normalize_separators(a.spec_bytes()),
    ensures
        lookup(t@, normalize_separators(a.spec_bytes())) == lookup(
            t@,
            normalize_separators(b.spec_bytes()),
        ),
{
    lemma_normalize_idempotent(a.spec_bytes());
}

/// Where no earlier file has the same name, looking a file up by its name
/// gives what looking it up by its path gives.
pub proof fn law_name_agrees_with_path(t: &AssetTable, i: int)
    requires
        t.wf(),
        0 <= i < t@.len(),
        forall|j: int| 0 <= j < i ==> last_segment(#[trigger] t@[j].0) != last_segment(t@[i].0),
    ensures
        lookup_name(t@, last_segment(t@[i].0)) == lookup(t@, normalize_separators(t@[i].0)),
{
    let s = t@;
    law_get_finds_every_entry(t, i);
    lemma_first_payload_at(s, |p: Seq<u8>| last_segment(p) == last_segment(s[i].0), i);
}

/// The paths of a table strictly ascend in byte-wise order: no path occurs
/// twice.
pub proof fn law_paths_strictly_ascending(t: &AssetTable)
    requires
        t.wf(),
    ensures
        forall|i: int, j: int|
            0 <= i < j < t@.len() ==> lex_lt(t@[i].0, t@[j].0) && t@[i].0 != t@[j].0,
{
    assert forall|i: int, j: int| 0 <= i < j < t@.len() implies lex_lt(t@[i].0, t@[j].0)
        && t@[i].0 != t@[j].0 by {
        lemma_lex_lt_irreflexive(t@[i].0);
    }
}

} // verus!
