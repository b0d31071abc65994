//! The order of a directory listing.
//!
//! The entry for the directory itself comes first, the entry for its parent
//! next, then the directories, then the files. Directories and files are
//! each ordered by the lower-case form of their names.

use crate::entry::{views, EntryView, FileEntry};
use crate::text::{
    bytes_le, lemma_lex_le_total, lemma_lex_le_transitive, lex_le, lowercase, str_eq, to_lowercase,
};
use vstd::prelude::*;
use vstd::string::*;
use vstd::utf8::encode_utf8;

verus! {

/// The group of an entry: 0 for `.`, 1 for `..`, 2 for a directory, 3 for
/// anything else.
pub open spec fn rank(e: EntryView) -> int {
    if e.name == "."@ {
        0
    } else if e.name == ".."@ {
        1
    } else if e.is_dir {
        2
    } else {
        3
    }
}

/// The bytes by which the names of a group are ordered.
pub open spec fn name_key(e: EntryView) -> Seq<u8> {
    encode_utf8(lowercase(e.name))
}

/// `a` may stand before `b` in a listing.
pub open spec fn entry_le(a: EntryView, b: EntryView) -> bool {
    rank(a) < rank(b) || (rank(a) == rank(b) && (rank(a) < 2 || lex_le(name_key(a), name_key(b))))
}

/// Every entry may stand before all that follow it.
pub open spec fn is_ordered(s: Seq<EntryView>) -> bool {
    forall|i: int, j: int| 0 <= i < j < s.len() ==> entry_le(#[trigger] s[i], #[trigger] s[j])
}

/// Where `e` goes into an ordered sequence: before the first entry that it
/// may stand before, so behind every entry that has to precede it.
pub open spec fn insert_position(e: EntryView, sorted: Seq<EntryView>) -> int
    decreases sorted.len(),
{
    if sorted.len() == 0 || entry_le(e, sorted.first()) {
        0
    } else {
        1 + insert_position(e, sorted.drop_first())
    }
}

/// The entries of `s` in listing order. Entries that may stand either way
/// round keep the order they had in `s`.
pub open spec fn sorted_entries(s: Seq<EntryView>) -> Seq<EntryView>
    decreases s.len(),
{
    if s.len() == 0 {
        Seq::empty()
    } else {
        let rest = sorted_entries(s.drop_first());
        rest.insert(insert_position(s.first(), rest), s.first())
    }
}

/// Of two entries one may stand before the other.
pub proof fn lemma_entry_le_total(a: EntryView, b: EntryView)
    ensures
        entry_le(a, b) || entry_le(b, a),
{
    lemma_lex_le_total(name_key(a), name_key(b));
}

/// The order carries over an entry in the middle.
pub proof fn lemma_entry_le_transitive(a: EntryView, b: EntryView, c: EntryView)
    requires
        entry_le(a, b),
        entry_le(b, c),
    ensures
        entry_le(a, c),
{
    if rank(a) == rank(b) && rank(b) == rank(c) && rank(a) >= 2 {
        lemma_lex_le_transitive(name_key(a), name_key(b), name_key(c));
    }
}

/// The insert position is the one index that has only entries before it
/// that `e` may not precede, and an entry at it that `e` may precede.
pub proof fn lemma_insert_position(e: EntryView, sorted: Seq<EntryView>, p: int)
    ensures
        0 <= insert_position(e, sorted) <= sorted.len(),
        forall|j: int| 0 <= j < insert_position(e, sorted) ==> !entry_le(e, #[trigger] sorted[j]),
        insert_position(e, sorted) < sorted.len() ==> entry_le(
            e,
            sorted[insert_position(e, sorted)],
        ),
        (0 <= p <= sorted.len() && (forall|j: int| 0 <= j < p ==> !entry_le(e, #[trigger] sorted[j]))
            && (p < sorted.len() ==> entry_le(e, sorted[p]))) ==> p == insert_position(e, sorted),
    decreases sorted.len(),
{
    if sorted.len() == 0 || entry_le(e, sorted.first()) {
    } else {
        let tail = sorted.drop_first();
        lemma_insert_position(e, tail, p - 1);
        let q = insert_position(e, tail);
        assert forall|j: int| 0 <= j < q + 1 implies !entry_le(e, #[trigger] sorted[j]) by {
            if j > 0 {
                assert(sorted[j] == tail[j - 1]);
            }
        }
        if q < tail.len() {
            assert(sorted[q + 1] == tail[q]);
        }
        if 0 <= p <= sorted.len() && (forall|j: int|
            0 <= j < p ==> !entry_le(e, #[trigger] sorted[j])) && (p < sorted.len() ==> entry_le(
            e,
            sorted[p],
        )) {
            assert(p > 0);
            assert forall|j: int| 0 <= j < p - 1 implies !entry_le(e, #[trigger] tail[j]) by {
                assert(tail[j] == sorted[j + 1]);
            }
            if p - 1 < tail.len() {
                assert(tail[p - 1] == sorted[p]);
            }
        }
    }
}

/// Putting an entry at its insert position keeps an ordered sequence
/// ordered.
pub proof fn lemma_insert_keeps_order(e: EntryView, sorted: Seq<EntryView>)
    requires
        is_ordered(sorted),
    ensures
        is_ordered(sorted.insert(insert_position(e, sorted), e)),
{
    let p = insert_position(e, sorted);
    lemma_insert_position(e, sorted, p);
    let out = sorted.insert(p, e);
    assert forall|i: int, j: int| 0 <= i < j < out.len() implies entry_le(
        #[trigger] out[i],
        #[trigger] out[j],
    ) by {
        if j < p {
            assert(out[i] == sorted[i] && out[j] == sorted[j]);
        } else if j == p {
            assert(out[i] == sorted[i]);
            lemma_entry_le_total(e, sorted[i]);
        } else if i == p {
            assert(out[j] == sorted[j - 1]);
            if j - 1 > p {
                lemma_entry_le_transitive(e, sorted[p], sorted[j - 1]);
            }
        } else if i > p {
            assert(out[i] == sorted[i - 1] && out[j] == sorted[j - 1]);
        } else {
            assert(out[i] == sorted[i] && out[j] == sorted[j - 1]);
            if i == j - 1 {
                lemma_entry_le_total(e, sorted[i]);
                lemma_entry_le_transitive(sorted[i], e, sorted[p]);
            }
        }
    }
}

/// A sorted listing is ordered and holds the same entries, each as often as
/// before.
pub proof fn lemma_sorted_entries(s: Seq<EntryView>)
    ensures
        is_ordered(sorted_entries(s)),
        sorted_entries(s).len() == s.len(),
        sorted_entries(s).to_multiset() == s.to_multiset(),
    decreases s.len(),
{
    broadcast use vstd::seq_lib::group_to_multiset_ensures;

    if s.len() == 0 {
        assert(sorted_entries(s).to_multiset() =~= s.to_multiset());
    } else {
        let rest = sorted_entries(s.drop_first());
        lemma_sorted_entries(s.drop_first());
        lemma_insert_position(s.first(), rest, 0);
        lemma_insert_keeps_order(s.first(), rest);
        assert(s =~= s.drop_first().insert(0, s.first()));
        assert(sorted_entries(s).to_multiset() =~= s.to_multiset());
    }
}

/// The key by which the entries are compared while they are sorted.
struct SortKey {
    rank: u8,
    folded: String,
}

impl SortKey {
    spec fn belongs_to(&self, e: EntryView) -> bool {
        self.rank == rank(e) && self.folded@ == lowercase(e.name)
    }
}

fn sort_key(e: &FileEntry) -> (k: SortKey)
    ensures
        k.belongs_to(e@),
{
    let rank: u8 = if str_eq(e.name.as_str(), ".") {
        0
    } else if str_eq(e.name.as_str(), "..") {
        1
    } else if e.is_dir {
        2
    } else {
        3
    };
    SortKey { rank, folded: to_lowercase(e.name.as_str()) }
}

fn key_le(a: &SortKey, b: &SortKey, Ghost(x): Ghost<EntryView>, Ghost(y): Ghost<EntryView>) -> (r: bool)
    requires
        a.belongs_to(x),
        b.belongs_to(y),
    ensures
        r == entry_le(x, y),
{
    if a.rank != b.rank {
        a.rank < b.rank
    } else if a.rank < 2 {
        true
    } else {
        bytes_le(a.folded.as_str().as_bytes(), b.folded.as_str().as_bytes())
    }
}

/// Puts the entries into listing order. Entries that may stand either way
/// round keep the order in which they came.
pub fn sort_entries(entries: Vec<FileEntry>) -> (r: Vec<FileEntry>)
    ensures
        views(r@) == sorted_entries(views(entries@)),
        is_ordered(views(r@)),
        views(r@).to_multiset() == views(entries@).to_multiset(),
{
    let ghost all = views(entries@);
    let mut input = entries;
    let mut out: Vec<FileEntry> = Vec::new();
    let mut keys: Vec<SortKey> = Vec::new();
    proof {
        assert(all.skip(all.len() as int) =~= Seq::<EntryView>::empty());
    }
    while input.len() > 0
        invariant
            input@.len() <= all.len(),
            views(input@) == all.take(input@.len() as int),
            views(out@) == sorted_entries(all.skip(input@.len() as int)),
            keys@.len() == out@.len(),
            forall|j: int| 0 <= j < keys@.len() ==> (#[trigger] keys@[j]).belongs_to(out@[j]@),
        decreases input@.len(),
    {
        let ghost n = input@.len() as int;
        let ghost before = input@;
        let e = input.pop().unwrap();
        let k = sort_key(&e);
        let mut p: usize = 0;
        while p < out.len() && !key_le(&k, &keys[p], Ghost(e@), Ghost(out@[p as int]@))
            invariant
                p <= out@.len(),
                keys@.len() == out@.len(),
                k.belongs_to(e@),
                forall|j: int| 0 <= j < keys@.len() ==> (#[trigger] keys@[j]).belongs_to(out@[j]@),
                forall|j: int| 0 <= j < p ==> !entry_le(e@, #[trigger] views(out@)[j]),
            decreases out@.len() - p,
        {
            p += 1;
        }
        proof {
            let sorted = views(out@);
            assert(p < sorted.len() ==> sorted[p as int] == out@[p as int]@);
            lemma_insert_position(e@, sorted, p as int);
            assert(views(before) == all.take(n));
            assert(views(input@) =~= all.take(n - 1));
            assert(e@ == all[n - 1]) by {
                assert(views(before)[n - 1] == before[n - 1]@);
                assert(all.take(n)[n - 1] == all[n - 1]);
            }
            assert(all.skip(n - 1).first() == all[n - 1]);
            assert(all.skip(n - 1).drop_first() =~= all.skip(n));
            assert(views(out@.insert(p as int, e)) =~= sorted.insert(p as int, e@));
        }
        out.insert(p, e);
        keys.insert(p, k);
    }
    proof {
        assert(all.skip(0) =~= all);
        lemma_sorted_entries(all);
    }
    out
}

} // verus!
