//! The asset table: bundled files ordered by path, and the three ways to read
//! them.

use vstd::prelude::*;
use vstd::string::StringSliceAdditionalSpecFns;
use vstd::utf8::encode_utf8;
use crate::paths::{
    asset_paths, bundled_paths, encoded_paths, lemma_bundled_paths_well_formed, BUNDLED_COUNT,
};
use crate::bytes::{
    BACKSLASH, equal_from, has_backslash, in_font_dir, is_font_path, last_segment, less_than,
    lex_lt, normalize_separators, normalized, segment_start,
};

verus! {

/// One bundled file: its path relative to the asset root, with `/` between
/// directories, and its contents.
pub struct Entry {
    pub path: String,
    pub data: Vec<u8>,
}

impl View for Entry {
    /// The UTF-8 bytes of the path, and the contents.
    type V = (Seq<u8>, Seq<u8>);

    open spec fn view(&self) -> (Seq<u8>, Seq<u8>) {
        (encode_utf8(self.path@), self.data@)
    }
}

/// The (path, contents) pairs of `entries`, in order.
pub open spec fn entries_view(entries: Seq<Entry>) -> Seq<(Seq<u8>, Seq<u8>)> {
    entries.map_values(|e: Entry| e@)
}

/// The paths strictly ascend in byte-wise order (so no two are equal), and
/// none holds a backslash.
pub open spec fn well_formed(s: Seq<(Seq<u8>, Seq<u8>)>) -> bool {
    &&& forall|i: int, j: int| 0 <= i < j < s.len() ==> lex_lt(#[trigger] s[i].0, #[trigger] s[j].0)
    &&& forall|i: int| 0 <= i < s.len() ==> !(#[trigger] s[i].0).contains(BACKSLASH)
}

/// The contents of the first entry, in table order, whose path satisfies
/// `wanted`.
pub open spec fn first_payload(
    s: Seq<(Seq<u8>, Seq<u8>)>,
    wanted: spec_fn(Seq<u8>) -> bool,
) -> Option<Seq<u8>>
    decreases s.len(),
{
    if s.len() == 0 {
        None
    } else {
        match first_payload(s.drop_last(), wanted) {
            Some(d) => Some(d),
            None => if wanted(s.last().0) {
                Some(s.last().1)
            } else {
                None
            },
        }
    }
}

/// The contents stored under exactly the path `key`.
pub open spec fn lookup(s: Seq<(Seq<u8>, Seq<u8>)>, key: Seq<u8>) -> Option<Seq<u8>> {
    first_payload(s, |p: Seq<u8>| p == key)
}

/// The contents of the first entry whose last path segment is `name`.
pub open spec fn lookup_name(s: Seq<(Seq<u8>, Seq<u8>)>, name: Seq<u8>) -> Option<Seq<u8>> {
    first_payload(s, |p: Seq<u8>| last_segment(p) == name)
}

/// The contents of every entry under `fonts/`, in table order.
pub open spec fn font_payloads(s: Seq<(Seq<u8>, Seq<u8>)>) -> Seq<Seq<u8>> {
    s.filter_map(
        |e: (Seq<u8>, Seq<u8>)|
            if in_font_dir(e.0) {
                Some(e.1)
            } else {
                None
            },
    )
}

/// What a borrowed result holds.
pub open spec fn payload_of(r: Option<&[u8]>) -> Option<Seq<u8>> {
    match r {
        Some(d) => Some(d@),
        None => None,
    }
}

/// What each borrowed item holds.
pub open spec fn payloads_of(r: Seq<&[u8]>) -> Seq<Seq<u8>> {
    r.map_values(|d: &[u8]| d@)
}

/// An immutable table of bundled files, ordered by path.
pub struct AssetTable {
    entries: Vec<Entry>,
}

impl View for AssetTable {
    type V = Seq<(Seq<u8>, Seq<u8>)>;

    closed spec fn view(&self) -> Seq<(Seq<u8>, Seq<u8>)> {
        entries_view(self.entries@)
    }
}

impl AssetTable {
    /// Every table that the constructor hands out is well formed.
    pub open spec fn wf(&self) -> bool {
        well_formed(self@)
    }

    /// Builds a table from its entries, given in ascending order of path.
    /// Refuses (with `None`) entries whose paths are out of order, repeated,
    /// or hold a backslash.
    pub fn new(entries: Vec<Entry>) -> (r: Option<AssetTable>)
        ensures
            r is Some <==> well_formed(entries_view(entries@)),
            r is Some ==> r->0@ == entries_view(entries@),
            r is Some ==> r->0.wf(),
    {
        let ghost s = entries_view(entries@);
        let mut i: usize = 0;
        while i < entries.len()
            invariant
                i <= entries@.len(),
                s == entries_view(entries@),
                well_formed(s.take(i as int)),
            decreases entries@.len() - i,
        {
            let p = entries[i].path.as_str().as_bytes();
            assert(p@ == s[i as int].0);
            if has_backslash(p) {
                return None;
            }
            if i > 0 {
                let q = entries[i - 1].path.as_str().as_bytes();
                assert(q@ == s[i - 1].0);
                if !less_than(q, p) {
                    return None;
                }
                assert forall|j: int| 0 <= j < i implies lex_lt(s[j].0, s[i as int].0) by {
                    if j < i - 1 {
                        assert(lex_lt(s.take(i as int)[j].0, s.take(i as int)[i - 1].0));
                        crate::bytes::lemma_lex_lt_transitive(s[j].0, s[i - 1].0, s[i as int].0);
                    }
                }
            }
            assert(s.take(i + 1) =~= s.take(i as int).push(s[i as int]));
            i = i + 1;
        }
        assert(s.take(i as int) =~= s);
        let r = AssetTable { entries };
        assert(r@ == s);
        Some(r)
    }

    /// Builds the table of the bundled files: `contents[i]` is the contents
    /// of the `i`-th bundled path. The result is well formed by construction.
    pub fn bundled(contents: Vec<Vec<u8>>) -> (r: AssetTable)
        requires
            contents@.len() == BUNDLED_COUNT,
        ensures
            r.wf(),
            r@.len() == BUNDLED_COUNT,
            forall|i: int| 0 <= i < BUNDLED_COUNT ==> #[trigger] r@[i] == (encoded_paths()[i], contents@[i]@),
    {
        let paths = asset_paths();
        let ghost given = contents@;
        let mut rest = contents;
        let mut entries: Vec<Entry> = Vec::new();
        let mut i: usize = 0;
        while i < paths.len()
            invariant
                paths@.len() == BUNDLED_COUNT,
                given.len() == BUNDLED_COUNT,
                forall|j: int| 0 <= j < paths@.len() ==> paths@[j]@ == bundled_paths()[j],
                i <= paths@.len(),
                rest@ == given.skip(i as int),
                entries@.len() == i,
                forall|j: int| 0 <= j < i ==> #[trigger] entries@[j]@ == (encoded_paths()[j], given[j]@),
            decreases paths@.len() - i,
        {
            let data = rest.remove(0);
            let path = paths[i].to_owned();
            entries.push(Entry { path, data });
            assert(rest@ =~= given.skip(i + 1));
            i = i + 1;
        }
        proof {
            lemma_bundled_paths_well_formed();
            let s = entries_view(entries@);
            assert forall|j: int| 0 <= j < BUNDLED_COUNT implies #[trigger] s[j] == (encoded_paths()[j], given[j]@) by {
                assert(s[j] == entries@[j]@);
            }
            assert forall|a: int, b: int| 0 <= a < b < s.len() implies lex_lt(#[trigger] s[a].0, #[trigger] s[b].0) by {
                assert(s[a].0 == encoded_paths()[a] && s[b].0 == encoded_paths()[b]);
            }
            assert forall|a: int| 0 <= a < s.len() implies !(#[trigger] s[a].0).contains(BACKSLASH) by {
                assert(s[a].0 == encoded_paths()[a]);
            }
        }
        AssetTable { entries }
    }

    /// The number of bundled files.
    pub fn len(&self) -> (r: usize)
        ensures
            r == self@.len(),
    {
        self.entries.len()
    }
}

/// A prefix that already has a match decides the whole.
proof fn lemma_first_payload_prefix(
    s: Seq<(Seq<u8>, Seq<u8>)>,
    wanted: spec_fn(Seq<u8>) -> bool,
    n: int,
)
    requires
        0 <= n <= s.len(),
        first_payload(s.take(n), wanted) is Some,
    ensures
        first_payload(s, wanted) == first_payload(s.take(n), wanted),
    decreases s.len() - n,
{
    if n < s.len() {
        assert(s.drop_last().take(n) =~= s.take(n));
        lemma_first_payload_prefix(s.drop_last(), wanted, n);
    } else {
        assert(s.take(n) =~= s);
    }
}

/// One step of a scan from the front.
proof fn lemma_first_payload_step(
    s: Seq<(Seq<u8>, Seq<u8>)>,
    wanted: spec_fn(Seq<u8>) -> bool,
    i: int,
)
    requires
        0 <= i < s.len(),
        first_payload(s.take(i), wanted) is None,
    ensures
        first_payload(s.take(i + 1), wanted) == (if wanted(s[i].0) {
            Some(s[i].1)
        } else {
            None::<Seq<u8>>
        }),
{
    assert(s.take(i + 1).drop_last() =~= s.take(i));
}

/// The first match is at `i` when the path there satisfies `wanted` and no
/// earlier path does.
pub(crate) proof fn lemma_first_payload_at(
    s: Seq<(Seq<u8>, Seq<u8>)>,
    wanted: spec_fn(Seq<u8>) -> bool,
    i: int,
)
    requires
        0 <= i < s.len(),
        wanted(s[i].0),
        forall|j: int| 0 <= j < i ==> !wanted(#[trigger] s[j].0),
    ensures
        first_payload(s, wanted) == Some(s[i].1),
    decreases i,
{
    lemma_first_payload_none(s.take(i), wanted);
    lemma_first_payload_step(s, wanted, i);
    lemma_first_payload_prefix(s, wanted, i + 1);
}

/// With nothing that satisfies `wanted`, there is no first match.
proof fn lemma_first_payload_none(s: Seq<(Seq<u8>, Seq<u8>)>, wanted: spec_fn(Seq<u8>) -> bool)
    requires
        forall|j: int| 0 <= j < s.len() ==> !wanted(#[trigger] s[j].0),
    ensures
        first_payload(s, wanted) is None,
    decreases s.len(),
{
    if s.len() > 0 {
        lemma_first_payload_none(s.drop_last(), wanted);
    }
}

/// The file stored under `path`. Backslashes in `path` are read as forward
/// slashes; otherwise the match is exact. `None` where no file has that path.
pub fn get<'a>(table: &'a AssetTable, path: &str) -> (r: Option<&'a [u8]>)
    ensures
        payload_of(r) == lookup(table@, normalize_separators(path.spec_bytes())),
{
    let key = normalized(path.as_bytes());
    let ghost s = table@;
    let ghost wanted = |p: Seq<u8>| p == key@;
    let mut i: usize = 0;
    while i < table.entries.len()
        invariant
            i <= s.len(),
            s == table@,
            s.len() == table.entries@.len(),
            wanted == (|p: Seq<u8>| p == key@),
            key@ == normalize_separators(path.spec_bytes()),
            first_payload(s.take(i as int), wanted) is None,
        decreases s.len() - i,
    {
        let e = &table.entries[i];
        let p = e.path.as_str().as_bytes();
        assert(p@ == s[i as int].0);
        let found = equal_from(p, 0, key.as_slice());
        assert(p@.subrange(0, p@.len() as int) =~= p@);
        proof {
            lemma_first_payload_step(s, wanted, i as int);
        }
        if found {
            proof {
                lemma_first_payload_prefix(s, wanted, i + 1);
            }
            return Some(e.data.as_slice());
        }
        i = i + 1;
    }
    assert(s.take(i as int) =~= s);
    None
}

/// The first file, in table order, whose last path segment is `filename`.
/// `None` where no file has that name.
pub fn get_by_name<'a>(table: &'a AssetTable, filename: &str) -> (r: Option<&'a [u8]>)
    ensures
        payload_of(r) == lookup_name(table@, filename.spec_bytes()),
{
    let name = filename.as_bytes();
    let ghost s = table@;
    let ghost wanted = |p: Seq<u8>| last_segment(p) == name@;
    let mut i: usize = 0;
    while i < table.entries.len()
        invariant
            i <= s.len(),
            s == table@,
            s.len() == table.entries@.len(),
            wanted == (|p: Seq<u8>| last_segment(p) == name@),
            name@ == filename.spec_bytes(),
            first_payload(s.take(i as int), wanted) is None,
        decreases s.len() - i,
    {
        let e = &table.entries[i];
        let p = e.path.as_str().as_bytes();
        assert(p@ == s[i as int].0);
        let k = segment_start(p);
        let found = equal_from(p, k, name);
        proof {
            lemma_first_payload_step(s, wanted, i as int);
        }
        if found {
            proof {
                lemma_first_payload_prefix(s, wanted, i + 1);
            }
            return Some(e.data.as_slice());
        }
        i = i + 1;
    }
    assert(s.take(i as int) =~= s);
    None
}

/// The contents of every file under `fonts/`, in table order.
pub fn fonts<'a>(table: &'a AssetTable) -> (r: Vec<&'a [u8]>)
    ensures
        payloads_of(r@) == font_payloads(table@),
{
    let ghost s = table@;
    let mut r: Vec<&'a [u8]> = Vec::new();
    let mut i: usize = 0;
    while i < table.entries.len()
        invariant
            i <= s.len(),
            s == table@,
            s.len() == table.entries@.len(),
            payloads_of(r@) == font_payloads(s.take(i as int)),
        decreases s.len() - i,
    {
        let e = &table.entries[i];
        let p = e.path.as_str().as_bytes();
        assert(p@ == s[i as int].0);
        assert(s.take(i + 1).drop_last() =~= s.take(i as int));
        if is_font_path(p) {
            let d = e.data.as_slice();
            let ghost before = r@;
            r.push(d);
            assert(payloads_of(r@) =~= payloads_of(before) + seq![d@]);
        }
        i = i + 1;
    }
    assert(s.take(i as int) =~= s);
    r
}

} // verus!
