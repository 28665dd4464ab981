//! The file scanner's decisions: which directory entries count (by
//! extension, case-insensitively) and the deterministic order they are
//! processed in.

use vstd::prelude::*;
use vstd::string::StrSliceExecFns;
use vstd::string::StringExecFns;

use crate::game_extractor::views_of;
use crate::paths::rfind_dot_str;
use crate::paths::spec_rfind_dot;
use crate::text::eq_ignore_ascii_case;
use crate::text::lemma_lex_le_total;
use crate::text::lemma_lex_le_trans;
use crate::text::lex_le;
use crate::text::str_eq_ignore_ascii_case;
use crate::text::str_le;

verus! {

broadcast use vstd::seq::Seq::lemma_push_map_commute;

/// Whether the filename carries the extension `ext` (given without its
/// dot), compared ignoring ASCII case, a dot at the very front not counting
/// as an extension separator.
pub open spec fn spec_has_extension(name: Seq<char>, ext: Seq<char>) -> bool {
    let d = spec_rfind_dot(name);
    d > 0 && eq_ignore_ascii_case(name.subrange(d + 1, name.len() as int), ext)
}

/// Whether the filename carries any of the extensions.
pub open spec fn spec_matches_any(name: Seq<char>, exts: Seq<Seq<char>>) -> bool {
    exists|k: int| 0 <= k < exts.len() && spec_has_extension(name, #[trigger] exts[k])
}

/// The views of a list of borrowed extension strings.
pub open spec fn ext_views(exts: Seq<&str>) -> Seq<Seq<char>> {
    exts.map_values(|e: &str| e@)
}

/// Test whether a filename carries one of the extensions,
/// case-insensitively.
pub fn has_extension_in(name: &str, extensions: &Vec<&str>) -> (r: bool)
    ensures
        r == spec_matches_any(name@, ext_views(extensions@)),
{
    let d = match rfind_dot_str(name) {
        Some(d) => d,
        None => {
            return false;
        },
    };
    if d == 0 {
        return false;
    }
    let n = name.unicode_len();
    let suffix = name.substring_char(d + 1, n);
    let m = extensions.len();
    let mut k: usize = 0;
    while k < m
        invariant
            m == extensions@.len(),
            k <= m,
            suffix@ == name@.subrange(spec_rfind_dot(name@) + 1, name@.len() as int),
            spec_rfind_dot(name@) == d,
            0 < d < name@.len(),
            forall|j: int| 0 <= j < k ==> !spec_has_extension(name@, #[trigger] ext_views(
                extensions@,
            )[j]),
        decreases m - k,
    {
        if str_eq_ignore_ascii_case(suffix, extensions[k]) {
            proof {
                assert(spec_has_extension(name@, ext_views(extensions@)[k as int]));
            }
            return true;
        }
        k = k + 1;
    }
    false
}

/// Sorted lexicographically, pairwise.
pub open spec fn sorted_names(s: Seq<Seq<char>>) -> bool {
    forall|i: int, j: int| 0 <= i < j < s.len() ==> lex_le(#[trigger] s[i], #[trigger] s[j])
}

/// The filenames that carry one of the wanted extensions, in a sorted,
/// deterministic processing order: the verified core of the directory
/// scanner.
pub fn find_files(names: &Vec<String>, extensions: &Vec<&str>) -> (r: Vec<String>)
    ensures
        sorted_names(views_of(r@)),
        views_of(r@).to_multiset() == views_of(names@).filter(
            |n: Seq<char>| spec_matches_any(n, ext_views(extensions@)),
        ).to_multiset(),
        forall|i: int|
            0 <= i < r@.len() ==> spec_matches_any(#[trigger] views_of(r@)[i], ext_views(
                extensions@,
            )),
{
    let ghost pred = |n: Seq<char>| spec_matches_any(n, ext_views(extensions@));
    let n = names.len();
    let mut kept: Vec<String> = Vec::new();
    let mut i: usize = 0;
    proof {
        reveal(Seq::filter);
        assert(views_of(names@).take(0) =~= Seq::<Seq<char>>::empty());
        assert(Seq::<Seq<char>>::empty().filter(pred) =~= Seq::<Seq<char>>::empty());
        assert(views_of(kept@) =~= Seq::<Seq<char>>::empty());
    }
    while i < n
        invariant
            n == names@.len(),
            i <= n,
            pred == (|n: Seq<char>| spec_matches_any(n, ext_views(extensions@))),
            views_of(kept@) == views_of(names@).take(i as int).filter(pred),
        decreases n - i,
    {
        proof {
            assert(views_of(names@).take(i + 1).drop_last() =~= views_of(names@).take(i as int));
            assert(views_of(names@).take(i + 1).last() == views_of(names@)[i as int]);
        }
        if has_extension_in(names[i].as_str(), extensions) {
            kept.push(names[i].clone());
            proof {
                reveal(Seq::filter);
                assert(views_of(kept@) =~= views_of(kept@.drop_last()).push(names@[i as int]@));
                assert(views_of(names@).take(i + 1).filter(pred) == views_of(names@).take(
                    i as int,
                ).filter(pred).push(names@[i as int]@));
            }
        } else {
            proof {
                reveal(Seq::filter);
                assert(views_of(names@).take(i + 1).filter(pred) == views_of(names@).take(
                    i as int,
                ).filter(pred));
            }
        }
        i = i + 1;
    }
    proof {
        assert(views_of(names@).take(n as int) =~= views_of(names@));
    }
    let sorted = sort_names(&kept);
    proof {
        assert forall|j: int| 0 <= j < sorted@.len() implies spec_matches_any(
            #[trigger] views_of(sorted@)[j],
            ext_views(extensions@),
        ) by {
            assert(views_of(sorted@).to_multiset().contains(views_of(sorted@)[j])) by {
                views_of(sorted@).to_multiset_ensures();
            }
            assert(views_of(kept@).to_multiset().contains(views_of(sorted@)[j]));
            assert(views_of(kept@).contains(views_of(sorted@)[j])) by {
                views_of(kept@).to_multiset_ensures();
            }
            let k = choose|k: int|
                0 <= k < views_of(kept@).len() && views_of(kept@)[k] == views_of(sorted@)[j];
            views_of(names@).lemma_filter_pred(pred, k);
        }
    }
    sorted
}

/// Sort filenames lexicographically.
pub fn sort_names(names: &Vec<String>) -> (r: Vec<String>)
    ensures
        sorted_names(views_of(r@)),
        views_of(r@).to_multiset() == views_of(names@).to_multiset(),
{
    let n = names.len();
    let mut out: Vec<String> = Vec::new();
    let mut i: usize = 0;
    proof {
        assert(views_of(names@).take(0) =~= Seq::<Seq<char>>::empty());
        assert(views_of(out@) =~= Seq::<Seq<char>>::empty());
        assert(views_of(out@).to_multiset() =~= views_of(names@).take(0).to_multiset());
    }
    while i < n
        invariant
            n == names@.len(),
            i <= n,
            sorted_names(views_of(out@)),
            views_of(out@).to_multiset() == views_of(names@).take(i as int).to_multiset(),
        decreases n - i,
    {
        let item = names[i].clone();
        let m = out.len();
        let mut pos: usize = 0;
        loop
            invariant
                n == names@.len(),
                i < n,
                m == out@.len(),
                pos <= m,
                item@ == names@[i as int]@,
                forall|k: int| 0 <= k < pos ==> lex_le(#[trigger] views_of(out@)[k], item@),
            ensures
                pos <= m,
                forall|k: int| 0 <= k < pos ==> lex_le(#[trigger] views_of(out@)[k], item@),
                pos < m ==> lex_le(item@, views_of(out@)[pos as int]),
            decreases m - pos,
        {
            if pos >= m {
                break;
            }
            if !str_le(out[pos].as_str(), item.as_str()) {
                proof {
                    lemma_lex_le_total(out@[pos as int]@, item@);
                }
                break;
            }
            pos = pos + 1;
        }
        let ghost old_out = out@;
        let ghost x = names@[i as int]@;
        out.insert(pos, item);
        proof {
            assert(out@ == old_out.insert(pos as int, names@[i as int]));
            assert(views_of(out@) =~= views_of(old_out).insert(pos as int, x));
            assert forall|a: int, b: int| 0 <= a < b < views_of(out@).len() implies lex_le(
                #[trigger] views_of(out@)[a],
                #[trigger] views_of(out@)[b],
            ) by {
                let p = pos as int;
                let vo = views_of(old_out);
                if a < p && b == p {
                } else if a == p && b > p {
                    if b - 1 > p {
                        lemma_lex_le_trans(x, vo[p], vo[b - 1]);
                    }
                } else if a < p && b > p {
                    assert(lex_le(vo[a], vo[b - 1]));
                } else if a > p && b > p {
                    assert(lex_le(vo[a - 1], vo[b - 1]));
                }
            }
            vstd::seq_lib::to_multiset_insert(views_of(old_out), pos as int, x);
            assert(views_of(names@).take(i + 1).drop_last() =~= views_of(names@).take(i as int));
            assert(views_of(names@).take(i + 1) == views_of(names@).take(i as int).push(x));
            vstd::seq_lib::to_multiset_build(views_of(names@).take(i as int), x);
        }
        i = i + 1;
    }
    proof {
        assert(views_of(names@).take(n as int) =~= views_of(names@));
    }
    out
}

} // verus!
