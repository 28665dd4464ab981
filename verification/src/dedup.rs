//! Content-addressed deduplication: files are processed in a deterministic
//! path-sorted order and every file whose content digest was already seen is
//! removed, keeping exactly the first occurrence of each distinct content.

use vstd::prelude::*;

use crate::text::lemma_lex_le_antisymmetric;
use crate::text::lemma_lex_le_total;
use crate::text::lemma_lex_le_trans;
use crate::text::lex_le;
use crate::text::str_le;

verus! {

/// One file of the flat pool: its path and the uppercase-hexadecimal content
/// digest computed for it.
pub struct FileRecord {
    pub path: String,
    pub digest: String,
}

impl FileRecord {
    /// An owned copy of this record.
    pub fn duplicate(&self) -> (r: FileRecord)
        ensures
            r == *self,
    {
        FileRecord { path: self.path.clone(), digest: self.digest.clone() }
    }
}

/// The set of digests occurring in `ks`.
pub open spec fn digests_of(ks: Seq<FileRecord>) -> Set<Seq<char>> {
    Set::new(|d: Seq<char>| exists|j: int| 0 <= j < ks.len() && ks[j].digest@ == d)
}

/// The records that survive deduplication of `s` when the digests in `seen`
/// were already encountered: the first occurrence of each distinct digest,
/// in order.
pub open spec fn spec_dedup(s: Seq<FileRecord>, seen: Set<Seq<char>>) -> Seq<FileRecord>
    decreases s.len(),
{
    if s.len() == 0 {
        Seq::<FileRecord>::empty()
    } else if seen.contains(s.first().digest@) {
        spec_dedup(s.drop_first(), seen)
    } else {
        seq![s.first()] + spec_dedup(s.drop_first(), seen.insert(s.first().digest@))
    }
}

/// The records that deduplication of `s` deletes: every record whose digest
/// was seen on an earlier record (or in `seen`), in order.
pub open spec fn spec_removed(s: Seq<FileRecord>, seen: Set<Seq<char>>) -> Seq<FileRecord>
    decreases s.len(),
{
    if s.len() == 0 {
        Seq::<FileRecord>::empty()
    } else if seen.contains(s.first().digest@) {
        seq![s.first()] + spec_removed(s.drop_first(), seen)
    } else {
        spec_removed(s.drop_first(), seen.insert(s.first().digest@))
    }
}

/// Records sorted by path, pairwise.
pub open spec fn sorted_by_path(s: Seq<FileRecord>) -> bool {
    forall|i: int, j: int| 0 <= i < j < s.len() ==> lex_le(#[trigger] s[i].path@, #[trigger] s[j].path@)
}

/// Whether `digest` occurs among the digests of `keep`.
fn digest_seen(keep: &Vec<FileRecord>, digest: &String) -> (r: bool)
    ensures
        r == digests_of(keep@).contains(digest@),
{
    let n = keep.len();
    let mut i: usize = 0;
    let mut hit = false;
    while i < n && !hit
        invariant
            n == keep@.len(),
            i <= n,
            hit ==> i > 0 && keep@[i - 1].digest@ == digest@,
            !hit ==> forall|j: int| 0 <= j < i ==> keep@[j].digest@ != digest@,
        decreases n - i,
    {
        if keep[i].digest.eq(digest) {
            hit = true;
        }
        i = i + 1;
    }
    proof {
        if !hit && digests_of(keep@).contains(digest@) {
            let j = choose|j: int| 0 <= j < keep@.len() && keep@[j].digest@ == digest@;
            assert(false);
        }
    }
    hit
}

/// The deduplication plan for one pool: the records kept and the records
/// whose files are to be deleted.
pub struct DedupPlan {
    pub keep: Vec<FileRecord>,
    pub remove: Vec<FileRecord>,
}

/// Deduplicate a pool of file records, processed in the given order: a
/// record is deleted exactly when an earlier record carries the same
/// digest, so the first occurrence of each distinct content survives.
pub fn remove_duplicates(entries: &Vec<FileRecord>) -> (plan: DedupPlan)
    ensures
        plan.keep@ == spec_dedup(entries@, Set::<Seq<char>>::empty()),
        plan.remove@ == spec_removed(entries@, Set::<Seq<char>>::empty()),
{
    let ghost e0: Set<Seq<char>> = Set::empty();
    let n = entries.len();
    let mut keep: Vec<FileRecord> = Vec::new();
    let mut remove: Vec<FileRecord> = Vec::new();
    let mut i: usize = 0;
    proof {
        assert(entries@.skip(0) =~= entries@);
        assert(digests_of(keep@) =~= e0);
    }
    while i < n
        invariant
            n == entries@.len(),
            i <= n,
            spec_dedup(entries@, Set::<Seq<char>>::empty()) == keep@ + spec_dedup(
                entries@.skip(i as int),
                digests_of(keep@),
            ),
            spec_removed(entries@, Set::<Seq<char>>::empty()) == remove@ + spec_removed(
                entries@.skip(i as int),
                digests_of(keep@),
            ),
        decreases n - i,
    {
        let ghost suffix = entries@.skip(i as int);
        let ghost dg = digests_of(keep@);
        proof {
            assert(suffix.len() > 0);
            assert(suffix.first() == entries@[i as int]);
            assert(suffix.drop_first() =~= entries@.skip(i + 1));
        }
        let rec = entries[i].duplicate();
        if digest_seen(&keep, &rec.digest) {
            remove.push(rec);
            proof {
                assert(spec_removed(suffix, dg) == seq![entries@[i as int]] + spec_removed(
                    entries@.skip(i + 1),
                    dg,
                ));
                assert(remove@ + spec_removed(entries@.skip(i + 1), dg) =~= (
                remove@.drop_last() + (seq![entries@[i as int]] + spec_removed(
                    entries@.skip(i + 1),
                    dg,
                ))));
            }
        } else {
            let ghost kpre = keep@;
            keep.push(rec);
            proof {
                let ghost x = entries@[i as int];
                assert(keep@ == kpre.push(x));
                assert forall|d: Seq<char>| digests_of(keep@).contains(d) implies dg.insert(
                    x.digest@,
                ).contains(d) by {
                    let j = choose|j: int| 0 <= j < keep@.len() && keep@[j].digest@ == d;
                    if j < kpre.len() {
                        assert(kpre[j].digest@ == d);
                    }
                }
                assert forall|d: Seq<char>| dg.insert(x.digest@).contains(d) implies digests_of(
                    keep@,
                ).contains(d) by {
                    if dg.contains(d) {
                        let j = choose|j: int| 0 <= j < kpre.len() && kpre[j].digest@ == d;
                        assert(keep@[j].digest@ == d);
                    } else {
                        assert(keep@[kpre.len() as int].digest@ == d);
                    }
                }
                assert(digests_of(keep@) =~= dg.insert(entries@[i as int].digest@));
                assert(spec_dedup(suffix, dg) == seq![entries@[i as int]] + spec_dedup(
                    entries@.skip(i + 1),
                    digests_of(keep@),
                ));
                assert(keep@ + spec_dedup(entries@.skip(i + 1), digests_of(keep@)) =~= (
                keep@.drop_last() + (seq![entries@[i as int]] + spec_dedup(
                    entries@.skip(i + 1),
                    digests_of(keep@),
                ))));
                assert(spec_removed(suffix, dg) == spec_removed(
                    entries@.skip(i + 1),
                    digests_of(keep@),
                ));
            }
        }
        i = i + 1;
    }
    proof {
        assert(entries@.skip(n as int) =~= Seq::<FileRecord>::empty());
        assert(keep@ + Seq::<FileRecord>::empty() =~= keep@);
        assert(remove@ + Seq::<FileRecord>::empty() =~= remove@);
    }
    DedupPlan { keep, remove }
}

/// No two digests in `ks` coincide.
pub open spec fn distinct_digests(ks: Seq<FileRecord>) -> bool {
    forall|i: int, j: int|
        0 <= i < j < ks.len() ==> (#[trigger] ks[i].digest)@ != (#[trigger] ks[j].digest)@
}

/// After deduplication no two surviving records share a content digest, no
/// surviving digest was in `seen`, and every survivor comes from the input.
pub proof fn lemma_dedup_distinct(s: Seq<FileRecord>, seen: Set<Seq<char>>)
    ensures
        distinct_digests(spec_dedup(s, seen)),
        forall|j: int|
            0 <= j < spec_dedup(s, seen).len() ==> !seen.contains(
                (#[trigger] spec_dedup(s, seen)[j].digest)@,
            ),
        forall|j: int|
            0 <= j < spec_dedup(s, seen).len() ==> s.contains(#[trigger] spec_dedup(s, seen)[j]),
    decreases s.len(),
{
    if s.len() == 0 {
    } else {
        let rest = s.drop_first();
        if seen.contains(s.first().digest@) {
            lemma_dedup_distinct(rest, seen);
        } else {
            lemma_dedup_distinct(rest, seen.insert(s.first().digest@));
            let result = spec_dedup(s, seen);
            let sub = spec_dedup(rest, seen.insert(s.first().digest@));
            assert forall|j: int| 0 <= j < result.len() implies s.contains(
                #[trigger] result[j],
            ) by {
                if j == 0 {
                    assert(s[0] == s.first());
                } else {
                    assert(sub[j - 1] == result[j]);
                    assert(rest.contains(sub[j - 1]));
                    let k = choose|k: int| 0 <= k < rest.len() && rest[k] == sub[j - 1];
                    assert(s[k + 1] == rest[k]);
                }
            }
        }
    }
}

/// Deduplicating an already-deduplicated pool changes nothing: every record
/// is kept and nothing is deleted.
pub proof fn lemma_dedup_fixed_point(ks: Seq<FileRecord>, seen: Set<Seq<char>>)
    requires
        distinct_digests(ks),
        forall|j: int| 0 <= j < ks.len() ==> !seen.contains((#[trigger] ks[j].digest)@),
    ensures
        spec_dedup(ks, seen) == ks,
        spec_removed(ks, seen) == Seq::<FileRecord>::empty(),
    decreases ks.len(),
{
    if ks.len() == 0 {
        assert(spec_dedup(ks, seen) =~= ks);
    } else {
        let rest = ks.drop_first();
        assert(!seen.contains(ks[0].digest@));
        assert forall|j: int| 0 <= j < rest.len() implies !seen.insert(ks.first().digest@).contains(
            (#[trigger] rest[j].digest)@,
        ) by {
            assert(rest[j] == ks[j + 1]);
        }
        lemma_dedup_fixed_point(rest, seen.insert(ks.first().digest@));
        assert(spec_dedup(ks, seen) =~= seq![ks.first()] + rest);
        assert(seq![ks.first()] + rest =~= ks);
    }
}

/// Running deduplication twice in a row is idempotent: the second run keeps
/// every survivor of the first and deletes nothing.
pub proof fn lemma_dedup_idempotent(s: Seq<FileRecord>, seen: Set<Seq<char>>)
    ensures
        spec_dedup(spec_dedup(s, seen), seen) == spec_dedup(s, seen),
        spec_removed(spec_dedup(s, seen), seen) == Seq::<FileRecord>::empty(),
{
    lemma_dedup_distinct(s, seen);
    lemma_dedup_fixed_point(spec_dedup(s, seen), seen);
}

/// The first record of each digest group survives: a record preceded by no
/// record of the same digest is kept.
pub proof fn lemma_dedup_keeps_first_occurrence(s: Seq<FileRecord>, seen: Set<Seq<char>>, i: int)
    requires
        0 <= i < s.len(),
        !seen.contains(s[i].digest@),
        forall|j: int| 0 <= j < i ==> (#[trigger] s[j].digest)@ != s[i].digest@,
    ensures
        spec_dedup(s, seen).contains(s[i]),
    decreases s.len(),
{
    let rest = s.drop_first();
    if seen.contains(s.first().digest@) {
        assert(i != 0);
        assert forall|j: int| 0 <= j < i - 1 implies (#[trigger] rest[j].digest)@
            != rest[i - 1].digest@ by {
            assert(rest[j] == s[j + 1]);
        }
        assert(rest[i - 1] == s[i]);
        lemma_dedup_keeps_first_occurrence(rest, seen, i - 1);
    } else {
        if i == 0 {
            assert(spec_dedup(s, seen)[0] == s.first());
        } else {
            let seen2 = seen.insert(s.first().digest@);
            assert(s[0].digest@ != s[i].digest@);
            assert(!seen2.contains(s[i].digest@));
            assert forall|j: int| 0 <= j < i - 1 implies (#[trigger] rest[j].digest)@
                != rest[i - 1].digest@ by {
                assert(rest[j] == s[j + 1]);
            }
            assert(rest[i - 1] == s[i]);
            lemma_dedup_keeps_first_occurrence(rest, seen2, i - 1);
            let sub = spec_dedup(rest, seen2);
            let k = choose|k: int| 0 <= k < sub.len() && sub[k] == s[i];
            assert(spec_dedup(s, seen)[k + 1] == sub[k]);
        }
    }
}

/// Sort file records by path, lexicographically: the deterministic order
/// deduplication processes a pool in.
pub fn sort_records(entries: &Vec<FileRecord>) -> (r: Vec<FileRecord>)
    ensures
        sorted_by_path(r@),
        r@.to_multiset() == entries@.to_multiset(),
{
    broadcast use vstd::seq_lib::to_multiset_insert;
    broadcast use vstd::seq_lib::to_multiset_build;

    let n = entries.len();
    let mut out: Vec<FileRecord> = Vec::new();
    let mut i: usize = 0;
    proof {
        assert(entries@.take(0) =~= Seq::<FileRecord>::empty());
        assert(out@.to_multiset() =~= entries@.take(0).to_multiset());
    }
    while i < n
        invariant
            n == entries@.len(),
            i <= n,
            sorted_by_path(out@),
            out@.to_multiset() == entries@.take(i as int).to_multiset(),
        decreases n - i,
    {
        let rec = entries[i].duplicate();
        let m = out.len();
        let mut pos: usize = 0;
        loop
            invariant
                n == entries@.len(),
                i < n,
                m == out@.len(),
                pos <= m,
                rec == entries@[i as int],
                forall|k: int| 0 <= k < pos ==> lex_le((#[trigger] out@[k].path)@, rec.path@),
            ensures
                pos <= m,
                forall|k: int| 0 <= k < pos ==> lex_le((#[trigger] out@[k].path)@, rec.path@),
                pos < m ==> lex_le(rec.path@, out@[pos as int].path@),
            decreases m - pos,
        {
            if pos >= m {
                break;
            }
            if !str_le(&out[pos].path, &rec.path) {
                proof {
                    lemma_lex_le_total(out@[pos as int].path@, rec.path@);
                }
                break;
            }
            pos = pos + 1;
        }
        let ghost old_out = out@;
        out.insert(pos, rec);
        proof {
            let ghost x = entries@[i as int];
            assert(out@ == old_out.insert(pos as int, x));
            assert forall|a: int, b: int| 0 <= a < b < out@.len() implies lex_le(
                (#[trigger] out@[a].path)@,
                (#[trigger] out@[b].path)@,
            ) by {
                let p = pos as int;
                if a < p && b == p {
                } else if a == p && b > p {
                    if b - 1 > p {
                        lemma_lex_le_trans(x.path@, old_out[p].path@, old_out[b - 1].path@);
                    }
                } else if a < p && b > p {
                    assert(lex_le(old_out[a].path@, old_out[b - 1].path@));
                } else if a > p && b > p {
                    assert(lex_le(old_out[a - 1].path@, old_out[b - 1].path@));
                }
            }
            vstd::seq_lib::to_multiset_insert(old_out, pos as int, x);
            assert(entries@.take(i + 1).drop_last() =~= entries@.take(i as int));
            assert(entries@.take(i + 1) == entries@.take(i as int).push(x));
            vstd::seq_lib::to_multiset_build(entries@.take(i as int), x);
        }
        i = i + 1;
    }
    proof {
        assert(entries@.take(n as int) =~= entries@);
    }
    out
}

/// No two paths in `s` coincide: true of any real file pool, whose entries
/// come from one directory listing.
pub open spec fn distinct_paths(s: Seq<FileRecord>) -> bool {
    forall|i: int, j: int|
        0 <= i < j < s.len() ==> (#[trigger] s[i].path)@ != (#[trigger] s[j].path)@
}

/// The deterministic processing order is well-defined: two path-sorted
/// arrangements of the same distinct-path pool are equal element by
/// element, so sorting the pool gives the same order on every run,
/// whatever discovery order the file system produced.
pub proof fn lemma_sorted_arrangement_unique(a: Seq<FileRecord>, b: Seq<FileRecord>)
    requires
        sorted_by_path(a),
        sorted_by_path(b),
        distinct_paths(a),
        a.to_multiset() == b.to_multiset(),
    ensures
        a == b,
    decreases a.len(),
{
    broadcast use vstd::seq_lib::group_to_multiset_ensures;

    if a.len() == 0 {
        assert(a.to_multiset().len() == 0);
        assert(b.len() == 0);
        assert(a =~= b);
    } else {
        assert(b.to_multiset().len() > 0);
        assert(b.len() > 0);
        // each head occurs in the other arrangement
        assert(a.to_multiset().contains(a[0]));
        assert(b.contains(a[0]));
        let j = choose|j: int| 0 <= j < b.len() && b[j] == a[0];
        assert(b.to_multiset().contains(b[0]));
        assert(a.contains(b[0]));
        let k = choose|k: int| 0 <= k < a.len() && a[k] == b[0];
        // the heads are both minimal, so with distinct paths they coincide
        if k != 0 {
            assert(lex_le(a[0].path@, a[k].path@));
            if j == 0 {
                assert(a[k].path@ == a[0].path@);
            } else {
                assert(lex_le(b[0].path@, b[j].path@));
                lemma_lex_le_antisymmetric(a[0].path@, b[0].path@);
                assert(a[k].path@ == a[0].path@);
            }
            assert(false);
        }
        assert(a[0] == b[0]);
        let arest = a.drop_first();
        let brest = b.drop_first();
        assert(arest =~= a.remove(0));
        assert(brest =~= b.remove(0));
        assert(arest.to_multiset() == a.to_multiset().remove(a[0]));
        assert(brest.to_multiset() == b.to_multiset().remove(b[0]));
        assert forall|i: int, j2: int|
            0 <= i < j2 < arest.len() implies (#[trigger] arest[i].path)@ != (
        #[trigger] arest[j2].path)@ by {
            assert(arest[i] == a[i + 1]);
            assert(arest[j2] == a[j2 + 1]);
        }
        assert forall|i: int, j2: int| 0 <= i < j2 < arest.len() implies lex_le(
            (#[trigger] arest[i].path)@,
            (#[trigger] arest[j2].path)@,
        ) by {
            assert(arest[i] == a[i + 1]);
            assert(arest[j2] == a[j2 + 1]);
        }
        assert forall|i: int, j2: int| 0 <= i < j2 < brest.len() implies lex_le(
            (#[trigger] brest[i].path)@,
            (#[trigger] brest[j2].path)@,
        ) by {
            assert(brest[i] == b[i + 1]);
            assert(brest[j2] == b[j2 + 1]);
        }
        lemma_sorted_arrangement_unique(arest, brest);
        assert(a =~= seq![a[0]] + arest);
        assert(b =~= seq![b[0]] + brest);
        assert(a =~= b);
    }
}

} // verus!
