//! The path demangler: the external extractor writes every asset as a flat
//! file whose name encodes its intended hierarchical path, `"--"` delimiting
//! directory segments and `"__"` delimiting the leaf name's compound parts.
//! Decoding that convention exactly, including the one leading-dash
//! artifact, is this module's job.

use vstd::prelude::*;
use vstd::string::StrSliceExecFns;
use vstd::string::StringExecFns;

verus! {

broadcast use vstd::seq::Seq::lemma_push_map_commute;

/// Whether `sep` occurs in `s` starting at index `j`.
pub open spec fn occurs_at(s: Seq<char>, sep: Seq<char>, j: int) -> bool {
    0 <= j && j + sep.len() <= s.len() && s.subrange(j, j + sep.len()) == sep
}

/// Whether `sep` occurs anywhere in `s`.
pub open spec fn contains_sub(s: Seq<char>, sep: Seq<char>) -> bool {
    exists|j: int| occurs_at(s, sep, j)
}

/// The first index at or after `i` where `sep` occurs in `s`, or -1 when it
/// occurs nowhere at or after `i`.
pub open spec fn spec_find(s: Seq<char>, sep: Seq<char>, i: int) -> int
    decreases s.len() - i,
{
    if sep.len() == 0 || i + sep.len() > s.len() {
        -1
    } else if s.subrange(i, i + sep.len()) == sep {
        i
    } else {
        spec_find(s, sep, i + 1)
    }
}

/// `s`, split on every non-overlapping occurrence of `sep`, left to right.
pub open spec fn spec_split(s: Seq<char>, sep: Seq<char>) -> Seq<Seq<char>>
    decreases s.len(),
{
    if sep.len() == 0 {
        seq![s]
    } else {
        let k = spec_find(s, sep, 0);
        if k < 0 {
            seq![s]
        } else if k + sep.len() >= s.len() {
            seq![s.subrange(0, k), s.subrange(k + sep.len(), s.len() as int)]
        } else {
            seq![s.subrange(0, k)] + spec_split(s.subrange(k + sep.len(), s.len() as int), sep)
        }
    }
}

/// The parts, rejoined with `sep` between them.
pub open spec fn spec_join(parts: Seq<Seq<char>>, sep: Seq<char>) -> Seq<char>
    decreases parts.len(),
{
    if parts.len() == 0 {
        Seq::<char>::empty()
    } else if parts.len() == 1 {
        parts[0]
    } else {
        parts[0] + sep + spec_join(parts.drop_first(), sep)
    }
}

/// Where `spec_find` lands: either nowhere, or on the first occurrence of
/// `sep` at or after `i`.
pub proof fn lemma_find_spec(s: Seq<char>, sep: Seq<char>, i: int)
    requires
        0 <= i,
        sep.len() >= 1,
    ensures
        spec_find(s, sep, i) == -1 ==> forall|j: int| i <= j ==> !(#[trigger] occurs_at(s, sep, j)),
        spec_find(s, sep, i) >= 0 ==> {
            &&& i <= spec_find(s, sep, i)
            &&& occurs_at(s, sep, spec_find(s, sep, i))
            &&& forall|j: int|
                i <= j < spec_find(s, sep, i) ==> !(#[trigger] occurs_at(s, sep, j))
        },
    decreases s.len() - i,
{
    if i + sep.len() > s.len() {
        assert forall|j: int| i <= j implies !(#[trigger] occurs_at(s, sep, j)) by {}
    } else if sep.len() == 0 {
    } else if s.subrange(i, i + sep.len()) == sep {
    } else {
        lemma_find_spec(s, sep, i + 1);
        assert(!occurs_at(s, sep, i));
    }
}

/// `spec_find` lands exactly on a known first occurrence.
pub proof fn lemma_find_first_at(s: Seq<char>, sep: Seq<char>, i: int, q: int)
    requires
        sep.len() >= 1,
        0 <= i <= q,
        occurs_at(s, sep, q),
        forall|j: int| i <= j < q ==> !(#[trigger] occurs_at(s, sep, j)),
    ensures
        spec_find(s, sep, i) == q,
    decreases q - i,
{
    if i < q {
        assert(!occurs_at(s, sep, i));
        lemma_find_first_at(s, sep, i + 1, q);
    }
}

/// A string without the separator splits into itself alone.
pub proof fn lemma_none_splits_whole(s: Seq<char>, sep: Seq<char>)
    requires
        sep.len() >= 1,
        !contains_sub(s, sep),
    ensures
        spec_split(s, sep) == seq![s],
{
    lemma_find_spec(s, sep, 0);
    if spec_find(s, sep, 0) >= 0 {
        assert(occurs_at(s, sep, spec_find(s, sep, 0)));
        assert(false);
    }
}

/// How splitting unfolds at a known first occurrence `q`: one part before
/// the separator, then the split of what follows it.
pub proof fn lemma_split_at_first(s: Seq<char>, sep: Seq<char>, q: int)
    requires
        sep.len() >= 1,
        occurs_at(s, sep, q),
        forall|j: int| 0 <= j < q ==> !(#[trigger] occurs_at(s, sep, j)),
    ensures
        spec_split(s, sep) == seq![s.subrange(0, q)] + spec_split(
            s.subrange(q + sep.len(), s.len() as int),
            sep,
        ),
{
    lemma_find_first_at(s, sep, 0, q);
    let rest = s.subrange(q + sep.len(), s.len() as int);
    if q + sep.len() >= s.len() {
        assert(rest =~= Seq::<char>::empty());
        assert(spec_find(rest, sep, 0) == -1);
        assert(spec_split(rest, sep) == seq![rest]);
        assert(seq![s.subrange(0, q), rest] =~= seq![s.subrange(0, q)] + seq![rest]);
    }
}

/// Split a string on every occurrence of a non-empty separator.
pub fn split_on(s: &str, sep: &str) -> (parts: Vec<String>)
    requires
        sep@.len() >= 1,
    ensures
        parts@.map_values(|p: String| p@) == spec_split(s@, sep@),
{
    let slen = s.unicode_len();
    let seplen = sep.unicode_len();
    let mut parts: Vec<String> = Vec::new();
    let mut pos: usize = 0;
    let mut i: usize = 0;
    proof {
        assert(s@.subrange(0, slen as int) =~= s@);
    }
    loop
        invariant
            slen == s@.len(),
            seplen == sep@.len(),
            seplen >= 1,
            pos <= i <= slen,
            spec_split(s@, sep@) == parts@.map_values(|p: String| p@) + spec_split(
                s@.subrange(pos as int, slen as int),
                sep@,
            ),
            forall|j: int| pos <= j < i ==> !(#[trigger] occurs_at(s@, sep@, j)),
        ensures
            parts@.map_values(|p: String| p@) == spec_split(s@, sep@),
        decreases slen - i,
    {
        let ghost suffix = s@.subrange(pos as int, slen as int);
        if seplen > slen - i {
            // no further occurrence: the rest is the final part
            proof {
                assert forall|j: int| 0 <= j implies !(#[trigger] occurs_at(suffix, sep@, j)) by {
                    if j + seplen <= suffix.len() {
                        assert(suffix.subrange(j, j + seplen as int) =~= s@.subrange(
                            pos + j,
                            pos + j + seplen,
                        ));
                        assert(!occurs_at(s@, sep@, pos + j));
                    }
                }
                lemma_none_splits_whole(suffix, sep@);
            }
            let tail = s.substring_char(pos, slen);
            parts.push(String::from_str(tail));
            proof {
                assert(parts@.map_values(|p: String| p@) =~= parts@.drop_last().map_values(
                    |p: String| p@,
                ) + seq![suffix]);
            }
            return parts;
        }
        let mut k: usize = 0;
        let mut matched = true;
        while k < seplen
            invariant
                slen == s@.len(),
                seplen == sep@.len(),
                i + seplen <= slen,
                k <= seplen,
                matched ==> forall|j: int| 0 <= j < k ==> s@[i + j] == sep@[j],
                !matched ==> exists|j: int| 0 <= j < seplen && s@[i + j] != sep@[j],
            ensures
                matched ==> forall|j: int| 0 <= j < seplen ==> s@[i + j] == sep@[j],
                !matched ==> exists|j: int| 0 <= j < seplen && s@[i + j] != sep@[j],
            decreases seplen - k,
        {
            if s.get_char(i + k) != sep.get_char(k) {
                matched = false;
                proof {
                    assert(s@.subrange(i as int, i + seplen)[k as int] == s@[i + k]);
                }
                break;
            }
            k = k + 1;
        }
        if matched {
            proof {
                assert forall|m: int| 0 <= m < seplen implies s@.subrange(i as int, i + seplen)[m]
                    == sep@[m] by {
                    assert(s@[i + m] == sep@[m]);
                }
                assert(s@.subrange(i as int, i + seplen) =~= sep@);
                assert(occurs_at(s@, sep@, i as int));
                assert forall|j: int| 0 <= j < i - pos implies !(#[trigger] occurs_at(
                    suffix,
                    sep@,
                    j,
                )) by {
                    if j + seplen <= suffix.len() {
                        assert(suffix.subrange(j, j + seplen as int) =~= s@.subrange(
                            pos + j,
                            pos + j + seplen,
                        ));
                        assert(!occurs_at(s@, sep@, pos + j));
                    }
                }
                assert(suffix.subrange(i - pos, i - pos + seplen) =~= s@.subrange(
                    i as int,
                    i + seplen,
                ));
                assert(occurs_at(suffix, sep@, i - pos));
                lemma_split_at_first(suffix, sep@, i - pos);
            }
            let part = s.substring_char(pos, i);
            parts.push(String::from_str(part));
            proof {
                let ghost rest = s@.subrange(i + seplen, slen as int);
                assert(suffix.subrange(0, i - pos) =~= s@.subrange(pos as int, i as int));
                assert(suffix.subrange(i - pos + seplen as int, suffix.len() as int) =~= rest);
                assert(parts@.map_values(|p: String| p@) =~= parts@.drop_last().map_values(
                    |p: String| p@,
                ) + seq![s@.subrange(pos as int, i as int)]);
                assert(parts@.drop_last().map_values(|p: String| p@) + (seq![
                    s@.subrange(pos as int, i as int),
                ] + spec_split(rest, sep@)) =~= (parts@.drop_last().map_values(|p: String| p@)
                    + seq![s@.subrange(pos as int, i as int)]) + spec_split(rest, sep@));
            }
            pos = i + seplen;
            i = pos;
        } else {
            proof {
                let j = choose|j: int| 0 <= j < seplen && s@[i + j] != sep@[j];
                if occurs_at(s@, sep@, i as int) {
                    assert(s@.subrange(i as int, i + seplen)[j] == s@[i + j]);
                    assert(false);
                }
            }
            i = i + 1;
        }
    }
}

/// Joining after pushing one more part appends a separator and the part.
pub proof fn lemma_join_push(parts: Seq<Seq<char>>, x: Seq<char>, sep: Seq<char>)
    ensures
        parts.len() == 0 ==> spec_join(parts.push(x), sep) == x,
        parts.len() > 0 ==> spec_join(parts.push(x), sep) == spec_join(parts, sep) + sep + x,
    decreases parts.len(),
{
    if parts.len() == 0 {
        assert(spec_join(parts.push(x), sep) == parts.push(x)[0]);
    } else if parts.len() == 1 {
        assert(parts.push(x).drop_first() =~= seq![x]);
        assert(spec_join(seq![x], sep) == x);
        assert(spec_join(parts.push(x), sep) == parts[0] + sep + x);
    } else {
        lemma_join_push(parts.drop_first(), x, sep);
        assert(parts.push(x).drop_first() =~= parts.drop_first().push(x));
        assert((parts[0] + sep + spec_join(parts.drop_first(), sep)) + sep + x =~= parts[0] + sep
            + (spec_join(parts.drop_first(), sep) + sep + x));
    }
}

/// A split has at least one part.
pub proof fn lemma_split_len_pos(s: Seq<char>, sep: Seq<char>)
    ensures
        spec_split(s, sep).len() >= 1,
{
}

/// Rejoin the parts of a string from index `st` on with `sep` between them.
pub fn join_from(parts: &Vec<String>, st: usize, sep: &str) -> (r: String)
    requires
        st < parts@.len(),
    ensures
        r@ == spec_join(parts@.map_values(|p: String| p@).skip(st as int), sep@),
{
    let ghost views = parts@.map_values(|p: String| p@);
    let n = parts.len();
    let mut r = parts[st].clone();
    let mut i: usize = st + 1;
    proof {
        assert(views.subrange(st as int, st + 1) =~= seq![views[st as int]]);
    }
    while i < n
        invariant
            n == parts@.len(),
            views == parts@.map_values(|p: String| p@),
            st < i <= n,
            r@ == spec_join(views.subrange(st as int, i as int), sep@),
        decreases n - i,
    {
        r.append(sep);
        r.append(parts[i].as_str());
        proof {
            assert(views.subrange(st as int, i + 1) =~= views.subrange(st as int, i as int).push(
                views[i as int],
            ));
            lemma_join_push(views.subrange(st as int, i as int), views[i as int], sep@);
        }
        i = i + 1;
    }
    proof {
        assert(views.subrange(st as int, n as int) =~= views.skip(st as int));
    }
    r
}

/// The index of the last `'.'` in `s`, or -1 when there is none.
pub open spec fn spec_rfind_dot(s: Seq<char>) -> int
    decreases s.len(),
{
    if s.len() == 0 {
        -1
    } else if s.last() == '.' {
        s.len() - 1
    } else {
        spec_rfind_dot(s.drop_last())
    }
}

/// A leaf filename with its extension replaced by `ext`: everything after
/// the last dot is replaced, or `.ext` is appended when the name has no
/// extension of its own (no dot, or only a leading one).
pub open spec fn spec_set_extension(leaf: Seq<char>, ext: Seq<char>) -> Seq<char> {
    let d = spec_rfind_dot(leaf);
    if d > 0 {
        leaf.subrange(0, d) + seq!['.'] + ext
    } else {
        leaf + seq!['.'] + ext
    }
}

/// The position of the last dot of a filename, if any.
pub fn rfind_dot_str(s: &str) -> (r: Option<usize>)
    ensures
        r is None ==> spec_rfind_dot(s@) == -1,
        r matches Some(d) ==> spec_rfind_dot(s@) == d && d < s@.len(),
{
    let n = s.unicode_len();
    let mut j: usize = n;
    let mut dot: usize = 0;
    let mut has_dot = false;
    proof {
        assert(s@.take(n as int) =~= s@);
    }
    loop
        invariant_except_break
            !has_dot,
        invariant
            n == s@.len(),
            j <= n,
            spec_rfind_dot(s@) == spec_rfind_dot(s@.take(j as int)),
        ensures
            has_dot ==> spec_rfind_dot(s@) == dot && dot < n,
            !has_dot ==> spec_rfind_dot(s@) == -1,
        decreases j,
    {
        if j == 0 {
            proof {
                assert(s@.take(0) =~= Seq::<char>::empty());
            }
            break;
        }
        let c = s.get_char(j - 1);
        proof {
            assert(s@.take(j as int).last() == s@[j - 1]);
        }
        if c == '.' {
            dot = j - 1;
            has_dot = true;
            proof {
                assert(spec_rfind_dot(s@.take(j as int)) == j - 1);
            }
            break;
        }
        proof {
            assert(s@.take(j as int).drop_last() =~= s@.take(j - 1));
        }
        j = j - 1;
    }
    if has_dot {
        Some(dot)
    } else {
        None
    }
}

/// Replace (or append) the extension of a leaf filename.
pub fn set_extension(leaf: &str, ext: &str) -> (r: String)
    ensures
        r@ == spec_set_extension(leaf@, ext@),
{
    let found = rfind_dot_str(leaf);
    proof {
        reveal_strlit(".");
        assert("."@ =~= seq!['.']);
    }
    match found {
        Some(dot) if dot > 0 => {
            let stem = leaf.substring_char(0, dot);
            let mut r = String::from_str(stem);
            r.append(".");
            r.append(ext);
            proof {
                assert(r@ =~= leaf@.subrange(0, dot as int) + seq!['.'] + ext@);
            }
            r
        },
        _ => {
            let mut r = String::from_str(leaf);
            r.append(".");
            r.append(ext);
            proof {
                assert(r@ =~= leaf@ + seq!['.'] + ext@);
            }
            r
        },
    }
}

/// One leading dash, an artifact of the encoding scheme, stripped.
pub open spec fn spec_strip_dash(leaf: Seq<char>) -> Seq<char> {
    if leaf.len() > 0 && leaf[0] == '-' {
        leaf.drop_first()
    } else {
        leaf
    }
}

/// The hierarchical path components an encoded flat filename decodes to:
/// `"--"` segments become directories; the final segment's first `"__"`
/// part becomes one more directory and the rest, rejoined, the leaf name,
/// with a single leading dash stripped.
pub open spec fn spec_demangle(name: Seq<char>) -> Seq<Seq<char>> {
    let parts = spec_split(name, "--"@);
    if parts.len() <= 1 {
        seq![name]
    } else {
        let fparts = spec_split(parts.last(), "__"@);
        if fparts.len() > 1 {
            parts.drop_last() + seq![
                fparts[0],
                spec_strip_dash(spec_join(fparts.drop_first(), "__"@)),
            ]
        } else {
            parts.drop_last() + seq![parts.last()]
        }
    }
}

/// The demangled path with the extension override applied to its leaf.
pub open spec fn spec_demangled_path(name: Seq<char>, ext: Option<Seq<char>>) -> Seq<Seq<char>> {
    let comps = spec_demangle(name);
    match ext {
        Option::None => comps,
        Option::Some(e) => comps.update(comps.len() - 1, spec_set_extension(comps.last(), e)),
    }
}

/// Decode an encoded flat filename into its output path components,
/// normalizing the leaf's extension when an override is given.
pub fn demangle_name(file_name: &str, extension: Option<&str>) -> (r: Vec<String>)
    ensures
        r@.len() >= 1,
        extension is None ==> r@.map_values(|p: String| p@) == spec_demangled_path(
            file_name@,
            Option::None,
        ),
        extension matches Some(e) ==> r@.map_values(|p: String| p@) == spec_demangled_path(
            file_name@,
            Option::Some(e@),
        ),
{
    proof {
        reveal_strlit("--");
        reveal_strlit("__");
    }
    let parts = split_on(file_name, "--");
    let ghost pviews = parts@.map_values(|p: String| p@);
    let np = parts.len();
    let mut comps: Vec<String> = Vec::new();
    if np > 1 {
        let mut i: usize = 0;
        while i < np - 1
            invariant
                np == parts@.len(),
                np > 1,
                pviews == parts@.map_values(|p: String| p@),
                i <= np - 1,
                comps@.map_values(|p: String| p@) == pviews.take(i as int),
            decreases np - 1 - i,
        {
            comps.push(parts[i].clone());
            proof {
                assert(comps@.map_values(|p: String| p@) =~= pviews.take(i + 1));
            }
            i = i + 1;
        }
        proof {
            assert(pviews.take(np - 1) =~= pviews.drop_last());
            assert(pviews.last() == parts@[np - 1]@);
        }
        let fparts = split_on(parts[np - 1].as_str(), "__");
        let ghost fviews = fparts@.map_values(|p: String| p@);
        if fparts.len() > 1 {
            comps.push(fparts[0].clone());
            let joined = join_from(&fparts, 1, "__");
            proof {
                assert(fviews.skip(1) =~= fviews.drop_first());
            }
            let jlen = joined.unicode_len();
            let first_dash = jlen > 0 && joined.as_str().get_char(0) == '-';
            let stripped: String = if first_dash {
                let sub = joined.as_str().substring_char(1, jlen);
                proof {
                    assert(sub@ =~= joined@.drop_first());
                }
                String::from_str(sub)
            } else {
                joined
            };
            comps.push(stripped);
            proof {
                assert(comps@.map_values(|p: String| p@) =~= pviews.drop_last() + seq![
                    fviews[0],
                    spec_strip_dash(spec_join(fviews.drop_first(), "__"@)),
                ]);
            }
        } else {
            comps.push(parts[np - 1].clone());
            proof {
                assert(comps@.map_values(|p: String| p@) =~= pviews.drop_last() + seq![
                    pviews.last(),
                ]);
            }
        }
    } else {
        comps.push(String::from_str(file_name));
        proof {
            assert(comps@.map_values(|p: String| p@) =~= seq![file_name@]);
        }
    }
    let ghost base = comps@.map_values(|p: String| p@);
    match extension {
        None => comps,
        Some(ext) => {
            let last = comps.pop().unwrap();
            let replaced = set_extension(last.as_str(), ext);
            comps.push(replaced);
            proof {
                assert(comps@.map_values(|p: String| p@) =~= base.update(
                    base.len() - 1,
                    spec_set_extension(base.last(), ext@),
                ));
            }
            comps
        },
    }
}

/// Rejoining a split with the same separator reconstructs the string.
pub proof fn lemma_join_split_id(s: Seq<char>, sep: Seq<char>)
    requires
        sep.len() >= 1,
    ensures
        spec_join(spec_split(s, sep), sep) == s,
    decreases s.len(),
{
    lemma_find_spec(s, sep, 0);
    let k = spec_find(s, sep, 0);
    if k >= 0 {
        assert(occurs_at(s, sep, k));
        let head = s.subrange(0, k);
        let rest = s.subrange(k + sep.len(), s.len() as int);
        assert forall|m: int| k <= m < k + sep.len() implies s[m] == sep[m - k] by {
            assert(s.subrange(k, k + sep.len())[m - k] == s[m]);
        }
        assert(s =~= head + sep + rest);
        if k + sep.len() >= s.len() {
            assert(rest =~= Seq::<char>::empty());
            let parts = seq![head, rest];
            assert(spec_split(s, sep) == parts);
            assert(parts.drop_first() =~= seq![rest]);
            assert(spec_join(seq![rest], sep) == rest);
            assert(spec_join(parts, sep) == head + sep + rest);
        } else {
            lemma_join_split_id(rest, sep);
            lemma_split_len_pos(rest, sep);
            let parts = seq![head] + spec_split(rest, sep);
            assert(spec_split(s, sep) == parts);
            assert(parts.len() >= 2);
            assert(parts[0] == head);
            assert(parts.drop_first() =~= spec_split(rest, sep));
            assert(spec_join(parts, sep) == head + sep + spec_join(spec_split(rest, sep), sep));
        }
    }
}

/// Splitting a string of the shape `p ++ sep ++ t` on a doubled-character
/// separator `sep = [c, c]`, where `p` holds no occurrence of it and does
/// not end in `c`, cuts first exactly at the end of `p`.
pub proof fn lemma_split_prefixed(p: Seq<char>, t: Seq<char>, c: char)
    requires
        !contains_sub(p, seq![c, c]),
        p.len() == 0 || p.last() != c,
    ensures
        spec_split(p + seq![c, c] + t, seq![c, c]) == seq![p] + spec_split(t, seq![c, c]),
{
    let sep = seq![c, c];
    let s = p + sep + t;
    let n = p.len() as int;
    assert(s.len() == p.len() + 2 + t.len());
    assert(s.subrange(n, n + 2) =~= sep);
    assert(occurs_at(s, sep, n));
    assert forall|j: int| 0 <= j < n implies !(#[trigger] occurs_at(s, sep, j)) by {
        if occurs_at(s, sep, j) {
            assert(s.subrange(j, j + 2)[0] == s[j]);
            assert(s.subrange(j, j + 2)[1] == s[j + 1]);
            assert(s[j] == c && s[j + 1] == c);
            if j + 2 <= n {
                assert(p.subrange(j, j + 2) =~= sep);
                assert(occurs_at(p, sep, j));
                assert(contains_sub(p, sep));
                assert(false);
            } else {
                assert(j == n - 1);
                assert(s[j] == p.last());
                assert(false);
            }
        }
    }
    lemma_split_at_first(s, sep, n);
    assert(s.subrange(0, n) =~= p);
    assert(s.subrange(n + 2, s.len() as int) =~= t);
}

/// Splitting the `sep`-joined directory chain with a tail appended to its
/// last entry: every directory becomes one part, the tail staying attached
/// to the last. Holds when no directory holds the separator or ends in its
/// character, and the tail holds no separator either.
pub proof fn lemma_split_join_chain(dirs: Seq<Seq<char>>, tail: Seq<char>, c: char)
    requires
        dirs.len() >= 1,
        forall|i: int| 0 <= i < dirs.len() ==> !contains_sub(#[trigger] dirs[i], seq![c, c]),
        forall|i: int|
            0 <= i < dirs.len() ==> ((#[trigger] dirs[i]).len() == 0 || dirs[i].last() != c),
        !contains_sub(tail, seq![c, c]),
    ensures
        spec_split(spec_join(dirs, seq![c, c]) + tail, seq![c, c]) == dirs.drop_last() + seq![
            dirs.last() + tail,
        ],
    decreases dirs.len(),
{
    let sep = seq![c, c];
    if dirs.len() == 1 {
        let d0 = dirs[0];
        let s = spec_join(dirs, sep) + tail;
        assert(s == d0 + tail);
        assert forall|j: int| !(#[trigger] occurs_at(s, sep, j)) by {
            if occurs_at(s, sep, j) {
                assert(s.subrange(j, j + 2)[0] == s[j]);
                assert(s.subrange(j, j + 2)[1] == s[j + 1]);
                assert(s[j] == c && s[j + 1] == c);
                if j + 2 <= d0.len() {
                    assert(d0.subrange(j, j + 2) =~= sep);
                    assert(occurs_at(d0, sep, j));
                    assert(false);
                } else if j >= d0.len() {
                    assert(tail.subrange(j - d0.len(), j - d0.len() + 2) =~= sep);
                    assert(occurs_at(tail, sep, j - d0.len()));
                    assert(false);
                } else {
                    assert(j == d0.len() - 1);
                    assert(s[j] == d0.last());
                    assert(false);
                }
            }
        }
        lemma_none_splits_whole(s, sep);
        assert(dirs.drop_last() + seq![dirs.last() + tail] =~= seq![s]);
    } else {
        let rest = dirs.drop_first();
        let d0 = dirs[0];
        let t2 = spec_join(rest, sep) + tail;
        assert(spec_join(dirs, sep) == d0 + sep + spec_join(rest, sep));
        assert((d0 + sep + spec_join(rest, sep)) + tail =~= d0 + sep + t2);
        lemma_split_prefixed(d0, t2, c);
        assert forall|i: int| 0 <= i < rest.len() implies !contains_sub(
            #[trigger] rest[i],
            seq![c, c],
        ) && (rest[i].len() == 0 || rest[i].last() != c) by {
            assert(rest[i] == dirs[i + 1]);
        }
        lemma_split_join_chain(rest, tail, c);
        assert(rest.last() == dirs.last());
        assert(seq![d0] + (rest.drop_last() + seq![rest.last() + tail]) =~= dirs.drop_last()
            + seq![dirs.last() + tail]);
    }
}

/// The flat name the extractor emits for an asset at directory path `dirs`
/// with leaf name `leaf`: the directories joined by `"--"`, then `"__"`,
/// then the leaf.
pub open spec fn spec_flat_name(dirs: Seq<Seq<char>>, leaf: Seq<char>) -> Seq<char> {
    spec_join(dirs, "--"@) + "__"@ + leaf
}

/// A directory segment the flat-naming convention can carry: free of the
/// doubled separator and not ending in its character.
pub open spec fn clean_segment(d: Seq<char>, c: char) -> bool {
    &&& !contains_sub(d, seq![c, c])
    &&& (d.len() == 0 || d.last() != c)
}

/// Path demangling is a left-inverse of the extractor's flat-naming
/// convention: the flat name built from a directory chain and a leaf
/// decodes back to exactly that chain with the leaf under it, one leading
/// dash of the leaf stripped. Holds for chains of at least two directories
/// whose segments are free of `"--"` and do not end in `'-'`, the last one
/// also free of `"__"` and not ending in `'_'`, and a leaf free of `"--"`.
pub proof fn lemma_demangle_inverts_flat_name(dirs: Seq<Seq<char>>, leaf: Seq<char>)
    requires
        dirs.len() >= 2,
        forall|i: int| 0 <= i < dirs.len() ==> clean_segment(#[trigger] dirs[i], '-'),
        clean_segment(dirs.last(), '_'),
        !contains_sub(leaf, "--"@),
    ensures
        spec_demangle(spec_flat_name(dirs, leaf)) == dirs + seq![spec_strip_dash(leaf)],
{
    reveal_strlit("--");
    reveal_strlit("__");
    assert("--"@ =~= seq!['-', '-']);
    assert("__"@ =~= seq!['_', '_']);
    let dash2 = seq!['-', '-'];
    let under2 = seq!['_', '_'];
    let flat = spec_flat_name(dirs, leaf);
    let tail0 = under2 + leaf;
    assert(flat =~= spec_join(dirs, dash2) + tail0);
    assert forall|j: int| !(#[trigger] occurs_at(tail0, dash2, j)) by {
        if occurs_at(tail0, dash2, j) {
            assert(tail0.subrange(j, j + 2)[0] == tail0[j]);
            assert(tail0.subrange(j, j + 2)[1] == tail0[j + 1]);
            assert(tail0[j] == '-' && tail0[j + 1] == '-');
            if j >= 2 {
                assert(leaf.subrange(j - 2, j) =~= dash2);
                assert(occurs_at(leaf, dash2, j - 2));
                assert(false);
            } else {
                assert(tail0[0] == '_' && tail0[1] == '_');
                assert(false);
            }
        }
    }
    lemma_split_join_chain(dirs, tail0, '-');
    let parts = spec_split(flat, dash2);
    assert(parts == dirs.drop_last() + seq![dirs.last() + tail0]);
    assert(parts.len() == dirs.len());
    assert(parts.last() == dirs.last() + tail0);
    assert(dirs.last() + tail0 =~= dirs.last() + under2 + leaf);
    lemma_split_prefixed(dirs.last(), leaf, '_');
    let fparts = spec_split(parts.last(), under2);
    assert(fparts == seq![dirs.last()] + spec_split(leaf, under2));
    lemma_split_len_pos(leaf, under2);
    assert(fparts.len() >= 2);
    assert(fparts[0] == dirs.last());
    assert(fparts.drop_first() =~= spec_split(leaf, under2));
    lemma_join_split_id(leaf, under2);
    assert(spec_join(fparts.drop_first(), under2) == leaf);
    assert(parts.drop_last() =~= dirs.drop_last());
    assert(spec_demangle(flat) == dirs.drop_last() + seq![dirs.last(), spec_strip_dash(leaf)]);
    assert(dirs.drop_last() + seq![dirs.last(), spec_strip_dash(leaf)] =~= dirs + seq![
        spec_strip_dash(leaf),
    ]);
}

/// The left-inverse proper: for a leaf that does not begin with a dash, the
/// decoded path is exactly the directory chain with the leaf under it.
pub proof fn lemma_demangle_left_inverse(dirs: Seq<Seq<char>>, leaf: Seq<char>)
    requires
        dirs.len() >= 2,
        forall|i: int| 0 <= i < dirs.len() ==> clean_segment(#[trigger] dirs[i], '-'),
        clean_segment(dirs.last(), '_'),
        !contains_sub(leaf, "--"@),
        leaf.len() == 0 || leaf[0] != '-',
    ensures
        spec_demangle(spec_flat_name(dirs, leaf)) == dirs + seq![leaf],
{
    lemma_demangle_inverts_flat_name(dirs, leaf);
}

/// A name without `"--"` decodes to itself alone, under the output root.
pub proof fn lemma_demangle_plain(name: Seq<char>)
    requires
        !contains_sub(name, "--"@),
    ensures
        spec_demangle(name) == seq![name],
{
    reveal_strlit("--");
    lemma_none_splits_whole(name, "--"@);
}

} // verus!
