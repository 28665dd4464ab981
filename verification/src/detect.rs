//! Variant detection: score every registered variant by how many of its
//! expected archive filenames were found under the input root, and select
//! the variant with the strictly greatest score, earlier registry entries
//! winning ties.

use vstd::prelude::*;

use crate::game_extractor::GameKind;
use crate::game_extractor::JonssonDjupet;
use crate::game_extractor::JonssonMjolner;
use crate::game_extractor::MulleBil;
use crate::game_extractor::bil_expected_files;
use crate::game_extractor::djupet_expected_files;
use crate::game_extractor::mjolner_expected_files;
use crate::game_extractor::spec_expected_files;
use crate::game_extractor::views_of;

verus! {

/// The found archive filenames, as a set of character sequences.
pub open spec fn found_set(found: Seq<String>) -> Set<Seq<char>> {
    views_of(found).to_set()
}

/// How many entries of `names` are in `found`. On a duplicate-free name list
/// this is the cardinality of the intersection of the two sets
/// ([`lemma_score_counts_intersection`]).
pub open spec fn spec_score(names: Seq<Seq<char>>, found: Set<Seq<char>>) -> nat
    decreases names.len(),
{
    if names.len() == 0 {
        0
    } else {
        spec_score(names.drop_last(), found) + (if found.contains(names.last()) {
            1nat
        } else {
            0nat
        })
    }
}

/// The variant the detector selects for a found-file set: the greatest score
/// wins, earlier registry entries win ties, and no variant is selected when
/// every score is zero.
pub open spec fn spec_detect(found: Set<Seq<char>>) -> Option<GameKind> {
    let sm = spec_score(spec_expected_files(GameKind::Mjolner), found);
    let sd = spec_score(spec_expected_files(GameKind::Djupet), found);
    let sb = spec_score(spec_expected_files(GameKind::Bil), found);
    if sm == 0 && sd == 0 && sb == 0 {
        None
    } else if sm >= sd && sm >= sb {
        Some(GameKind::Mjolner)
    } else if sd >= sb {
        Some(GameKind::Djupet)
    } else {
        Some(GameKind::Bil)
    }
}

/// What the detector decides: the selected variant, how many of its expected files
/// were found, and how many it expects in all. A shortfall
/// (`match_count < expected_count`) is reported as a warning by the caller
/// and does not stop the run.
#[derive(Debug)]
pub struct Detection {
    pub game: GameKind,
    pub match_count: usize,
    pub expected_count: usize,
}

/// Detection failure: no registered variant matched any found file. This is
/// fatal; there is no sensible default variant.
#[derive(Clone, Copy, Debug, PartialEq, Eq, Structural)]
pub enum DetectError {
    NoMatchingVariant,
}

impl DetectError {
    /// The human-readable cause reported when the run aborts.
    pub fn message(&self) -> (r: &'static str)
        ensures
            r@ == "Unable to detect game type. No matching .dir files found."@,
    {
        "Unable to detect game type. No matching .dir files found."
    }
}

/// Whether `name` occurs in `found`.
fn contains_name(found: &Vec<String>, name: &String) -> (r: bool)
    ensures
        r == found_set(found@).contains(name@),
{
    let n = found.len();
    let mut i: usize = 0;
    let mut hit = false;
    while i < n && !hit
        invariant
            n == found@.len(),
            i <= n,
            hit ==> i > 0 && found@[i - 1]@ == name@,
            !hit ==> forall|j: int| 0 <= j < i ==> views_of(found@)[j] != name@,
        decreases n - i,
    {
        if found[i].eq(name) {
            hit = true;
        }
        i = i + 1;
    }
    proof {
        if hit {
            assert(views_of(found@)[i - 1] == name@);
            assert(views_of(found@).contains(name@));
        } else {
            assert(forall|j: int| 0 <= j < views_of(found@).len() ==> views_of(found@)[j] != name@);
            if found_set(found@).contains(name@) {
                assert(views_of(found@).contains(name@));
                let j = choose|j: int|
                    0 <= j < views_of(found@).len() && views_of(found@)[j] == name@;
                assert(false);
            }
        }
    }
    hit
}

/// Count how many of `names` occur in `found`.
fn score_of(names: &Vec<String>, found: &Vec<String>) -> (n: usize)
    ensures
        n == spec_score(views_of(names@), found_set(found@)),
{
    let len = names.len();
    let mut cnt: usize = 0;
    let mut i: usize = 0;
    while i < len
        invariant
            len == names@.len(),
            i <= len,
            cnt <= i,
            cnt == spec_score(views_of(names@).take(i as int), found_set(found@)),
        decreases len - i,
    {
        proof {
            assert(views_of(names@).take(i + 1).drop_last() =~= views_of(names@).take(i as int));
            assert(views_of(names@).take(i + 1).last() == views_of(names@)[i as int]);
        }
        if contains_name(found, &names[i]) {
            cnt = cnt + 1;
        }
        i = i + 1;
    }
    proof {
        assert(views_of(names@).take(len as int) =~= views_of(names@));
    }
    cnt
}

/// Detect which variant a directory of found archive filenames (already
/// case-folded) belongs to. Returns the registry's first best-scoring
/// variant together with its match and expected counts, or fails when no
/// variant matches any file at all.
pub fn detect_game(found: &Vec<String>) -> (r: Result<Detection, DetectError>)
    ensures
        r is Err <==> spec_detect(found_set(found@)) is None,
        r matches Ok(d) ==> {
            &&& Some(d.game) == spec_detect(found_set(found@))
            &&& d.match_count == spec_score(spec_expected_files(d.game), found_set(found@))
            &&& d.expected_count == spec_expected_files(d.game).len()
        },
{
    let mjolner_names = JonssonMjolner.get_expected_files();
    let djupet_names = JonssonDjupet.get_expected_files();
    let bil_names = MulleBil.get_expected_files();
    let sm = score_of(&mjolner_names, found);
    let sd = score_of(&djupet_names, found);
    let sb = score_of(&bil_names, found);
    if sm == 0 && sd == 0 && sb == 0 {
        Err(DetectError::NoMatchingVariant)
    } else if sm >= sd && sm >= sb {
        Ok(
            Detection {
                game: GameKind::Mjolner,
                match_count: sm,
                expected_count: mjolner_names.len(),
            },
        )
    } else if sd >= sb {
        Ok(Detection { game: GameKind::Djupet, match_count: sd, expected_count: djupet_names.len() })
    } else {
        Ok(Detection { game: GameKind::Bil, match_count: sb, expected_count: bil_names.len() })
    }
}

/// The selected variant maximizes the score over every registered variant,
/// and no variant is selected exactly when every variant scores zero.
pub proof fn lemma_detect_selects_max(found: Set<Seq<char>>)
    ensures
        spec_detect(found) matches Some(g) ==> forall|g2: GameKind|
            spec_score(spec_expected_files(g2), found) <= spec_score(
                spec_expected_files(g),
                found,
            ),
        spec_detect(found) is None <==> forall|g: GameKind|
            spec_score(#[trigger] spec_expected_files(g), found) == 0,
{
    if spec_detect(found) is Some {
        let g = spec_detect(found)->Some_0;
        assert forall|g2: GameKind|
            spec_score(spec_expected_files(g2), found) <= spec_score(
                spec_expected_files(g),
                found,
            ) by {
            assert(g2 is Mjolner || g2 is Djupet || g2 is Bil);
        }
    }
    if spec_detect(found) is None {
        assert forall|g: GameKind|
            spec_score(#[trigger] spec_expected_files(g), found) == 0 by {
            assert(g is Mjolner || g is Djupet || g is Bil);
        }
    }
}

/// Ties are resolved by registry order: a selected variant scores strictly
/// more than every variant registered before it.
pub proof fn lemma_detect_tie_break(found: Set<Seq<char>>)
    ensures
        spec_detect(found) == Some(GameKind::Djupet) ==> spec_score(
            spec_expected_files(GameKind::Mjolner),
            found,
        ) < spec_score(spec_expected_files(GameKind::Djupet), found),
        spec_detect(found) == Some(GameKind::Bil) ==> spec_score(
            spec_expected_files(GameKind::Mjolner),
            found,
        ) < spec_score(spec_expected_files(GameKind::Bil), found) && spec_score(
            spec_expected_files(GameKind::Djupet),
            found,
        ) < spec_score(spec_expected_files(GameKind::Bil), found),
{
}

/// On a duplicate-free name list the score is the cardinality of the
/// intersection of the names with the found set.
pub proof fn lemma_score_counts_intersection(names: Seq<Seq<char>>, found: Set<Seq<char>>)
    requires
        found.finite(),
        names.no_duplicates(),
    ensures
        spec_score(names, found) == names.to_set().intersect(found).len(),
    decreases names.len(),
{
    broadcast use vstd::seq_lib::seq_to_set_is_finite;

    if names.len() == 0 {
        assert(names.to_set() =~= Set::<Seq<char>>::empty());
        assert(names.to_set().intersect(found) =~= Set::<Seq<char>>::empty());
    } else {
        let prefix = names.drop_last();
        let last = names.last();
        assert(prefix.no_duplicates());
        lemma_score_counts_intersection(prefix, found);
        assert(!prefix.contains(last));
        assert(!prefix.to_set().contains(last));
        assert forall|a: Seq<char>| #[trigger] names.to_set().contains(a) implies prefix.to_set()
            .insert(last).contains(a) by {
            let j = choose|j: int| 0 <= j < names.len() && names[j] == a;
            if j < names.len() - 1 {
                assert(prefix[j] == a);
                assert(prefix.contains(a));
            }
        }
        assert forall|a: Seq<char>| #[trigger] prefix.to_set().insert(last).contains(a) implies
            names.to_set().contains(a) by {
            if a == last {
                assert(names[names.len() - 1] == a);
                assert(names.contains(a));
            } else {
                let j = choose|j: int| 0 <= j < prefix.len() && prefix[j] == a;
                assert(names[j] == a);
                assert(names.contains(a));
            }
        }
        assert(names.to_set() =~= prefix.to_set().insert(last));
        vstd::set_lib::lemma_len_subset(
            prefix.to_set().intersect(found),
            prefix.to_set(),
        );
        if found.contains(last) {
            assert(names.to_set().intersect(found) =~= prefix.to_set().intersect(found).insert(
                last,
            ));
            assert(!prefix.to_set().intersect(found).contains(last));
        } else {
            assert(names.to_set().intersect(found) =~= prefix.to_set().intersect(found));
        }
    }
}

/// A nonempty found-file set wholly inside one variant's expected files
/// selects that variant with a match count of exactly the found-file
/// count; a strict subset leaves the match count short of the expected
/// count, which the caller reports as a warning.
pub proof fn lemma_subset_selects_variant(found: Set<Seq<char>>, g: GameKind)
    requires
        found.finite(),
        found.len() > 0,
        found.subset_of(spec_expected_files(g).to_set()),
    ensures
        spec_detect(found) == Some(g),
        spec_score(spec_expected_files(g), found) == found.len(),
        found.len() < spec_expected_files(g).len() ==> spec_score(
            spec_expected_files(g),
            found,
        ) < spec_expected_files(g).len(),
{
    lemma_expected_files_no_duplicates();
    lemma_expected_files_disjoint();
    assert(g is Mjolner || g is Djupet || g is Bil);
    assert forall|n: Seq<char>| found.contains(n) implies spec_expected_files(g).contains(
        n,
    ) by {
        assert(spec_expected_files(g).to_set().contains(n));
    }
    assert forall|g2: GameKind| g2 != g implies spec_score(
        #[trigger] spec_expected_files(g2),
        found,
    ) == 0 by {
        assert(g2 is Mjolner || g2 is Djupet || g2 is Bil);
        assert forall|i: int, j: int|
            0 <= i < spec_expected_files(g2).len() && 0 <= j < spec_expected_files(g).len()
            implies spec_expected_files(g2)[i] != spec_expected_files(g)[j] by {
            assert(spec_expected_files(g2).disjoint(spec_expected_files(g)) || spec_expected_files(
                g,
            ).disjoint(spec_expected_files(g2)));
            if spec_expected_files(g).disjoint(spec_expected_files(g2)) {
                assert(spec_expected_files(g)[j] != spec_expected_files(g2)[i]);
            }
        }
        lemma_score_zero_when_disjoint(spec_expected_files(g2), found, spec_expected_files(g));
    }
    lemma_score_counts_intersection(spec_expected_files(g), found);
    assert(spec_expected_files(g).to_set().intersect(found) =~= found);
}

/// The registry's expected-file lists are duplicate-free: within each list
/// the names are told apart by their length and first characters alone.
#[verifier::rlimit(60)]
pub proof fn lemma_expected_files_no_duplicates()
    ensures
        spec_expected_files(GameKind::Mjolner).no_duplicates(),
        spec_expected_files(GameKind::Djupet).no_duplicates(),
        spec_expected_files(GameKind::Bil).no_duplicates(),
{
    reveal_strlit("anslagstavla.dir");
    reveal_strlit("block.dir");
    reveal_strlit("dorislapp.dir");
    reveal_strlit("glidflygare.dir");
    reveal_strlit("heden.dir");
    reveal_strlit("kassaskap.dir");
    reveal_strlit("monalisa.dir");
    reveal_strlit("paris.dir");
    reveal_strlit("setup.dir");
    reveal_strlit("souvenir.dir");
    reveal_strlit("tavla.dir");
    reveal_strlit("tidningsbutik.dir");
    reveal_strlit("wtavla.dir");
    reveal_strlit("berlin.dir");
    reveal_strlit("container.dir");
    reveal_strlit("drottningtavla.dir");
    reveal_strlit("gotland.dir");
    reveal_strlit("huvudmeny.dir");
    reveal_strlit("london.dir");
    reveal_strlit("nrspel.dir");
    reveal_strlit("rom.dir");
    reveal_strlit("sheild.dir");
    reveal_strlit("stockholm.dir");
    reveal_strlit("telefonbok.dir");
    reveal_strlit("wsafe.dir");
    reveal_strlit("avi.dir");
    reveal_strlit("game.dir");
    reveal_strlit("mainmenu.dir");
    reveal_strlit("qt.dir");
    reveal_strlit("02.dxr");
    reveal_strlit("03.dxr");
    reveal_strlit("04.dxr");
    reveal_strlit("05.dxr");
    reveal_strlit("06.dxr");
    reveal_strlit("08.dxr");
    reveal_strlit("10.dxr");
    reveal_strlit("12.dxr");
    reveal_strlit("13.dxr");
    reveal_strlit("18.dxr");
    reveal_strlit("82.dxr");
    reveal_strlit("83.dxr");
    reveal_strlit("84.dxr");
    reveal_strlit("85.dxr");
    reveal_strlit("86.dxr");
    reveal_strlit("87.dxr");
    reveal_strlit("88.dxr");
    reveal_strlit("89.dxr");
    reveal_strlit("90.dxr");
    reveal_strlit("91.dxr");
    reveal_strlit("92.dxr");
    reveal_strlit("93.dxr");
    reveal_strlit("94.dxr");
    reveal_strlit("lbstart.dxr");
    reveal_strlit("unload.dxr");
    assert(mjolner_expected_files()[0].len() == 16 && mjolner_expected_files()[0][0] == 'a');
    assert(mjolner_expected_files()[1].len() == 9 && mjolner_expected_files()[1][0] == 'b');
    assert(mjolner_expected_files()[2].len() == 13 && mjolner_expected_files()[2][0] == 'd');
    assert(mjolner_expected_files()[3].len() == 15 && mjolner_expected_files()[3][0] == 'g');
    assert(mjolner_expected_files()[4].len() == 9 && mjolner_expected_files()[4][0] == 'h');
    assert(mjolner_expected_files()[5].len() == 13 && mjolner_expected_files()[5][0] == 'k');
    assert(mjolner_expected_files()[6].len() == 12 && mjolner_expected_files()[6][0] == 'm');
    assert(mjolner_expected_files()[7].len() == 9 && mjolner_expected_files()[7][0] == 'p');
    assert(mjolner_expected_files()[8].len() == 9 && mjolner_expected_files()[8][0] == 's');
    assert(mjolner_expected_files()[9].len() == 12 && mjolner_expected_files()[9][0] == 's');
    assert(mjolner_expected_files()[10].len() == 9 && mjolner_expected_files()[10][0] == 't');
    assert(mjolner_expected_files()[11].len() == 17 && mjolner_expected_files()[11][0] == 't');
    assert(mjolner_expected_files()[12].len() == 10 && mjolner_expected_files()[12][0] == 'w');
    assert(mjolner_expected_files()[13].len() == 10 && mjolner_expected_files()[13][0] == 'b');
    assert(mjolner_expected_files()[14].len() == 13 && mjolner_expected_files()[14][0] == 'c');
    assert(mjolner_expected_files()[15].len() == 18 && mjolner_expected_files()[15][0] == 'd');
    assert(mjolner_expected_files()[16].len() == 11 && mjolner_expected_files()[16][0] == 'g');
    assert(mjolner_expected_files()[17].len() == 13 && mjolner_expected_files()[17][0] == 'h');
    assert(mjolner_expected_files()[18].len() == 10 && mjolner_expected_files()[18][0] == 'l');
    assert(mjolner_expected_files()[19].len() == 10 && mjolner_expected_files()[19][0] == 'n');
    assert(mjolner_expected_files()[20].len() == 7 && mjolner_expected_files()[20][0] == 'r');
    assert(mjolner_expected_files()[21].len() == 10 && mjolner_expected_files()[21][0] == 's');
    assert(mjolner_expected_files()[22].len() == 13 && mjolner_expected_files()[22][0] == 's');
    assert(mjolner_expected_files()[23].len() == 14 && mjolner_expected_files()[23][0] == 't');
    assert(mjolner_expected_files()[24].len() == 9 && mjolner_expected_files()[24][0] == 'w');
    assert forall|i: int, j: int|
        0 <= i < j < mjolner_expected_files().len() implies mjolner_expected_files()[i]
        != mjolner_expected_files()[j] by {}
    assert(djupet_expected_files()[0].len() == 7);
    assert(djupet_expected_files()[1].len() == 8);
    assert(djupet_expected_files()[2].len() == 12);
    assert(djupet_expected_files()[3].len() == 6);
    assert forall|i: int, j: int|
        0 <= i < j < djupet_expected_files().len() implies djupet_expected_files()[i]
        != djupet_expected_files()[j] by {}
    assert(bil_expected_files()[0].len() == 6 && bil_expected_files()[0][0] == '0' && bil_expected_files()[0][1] == '2');
    assert(bil_expected_files()[1].len() == 6 && bil_expected_files()[1][0] == '0' && bil_expected_files()[1][1] == '3');
    assert(bil_expected_files()[2].len() == 6 && bil_expected_files()[2][0] == '0' && bil_expected_files()[2][1] == '4');
    assert(bil_expected_files()[3].len() == 6 && bil_expected_files()[3][0] == '0' && bil_expected_files()[3][1] == '5');
    assert(bil_expected_files()[4].len() == 6 && bil_expected_files()[4][0] == '0' && bil_expected_files()[4][1] == '6');
    assert(bil_expected_files()[5].len() == 6 && bil_expected_files()[5][0] == '0' && bil_expected_files()[5][1] == '8');
    assert(bil_expected_files()[6].len() == 6 && bil_expected_files()[6][0] == '1' && bil_expected_files()[6][1] == '0');
    assert(bil_expected_files()[7].len() == 6 && bil_expected_files()[7][0] == '1' && bil_expected_files()[7][1] == '2');
    assert(bil_expected_files()[8].len() == 6 && bil_expected_files()[8][0] == '1' && bil_expected_files()[8][1] == '3');
    assert(bil_expected_files()[9].len() == 6 && bil_expected_files()[9][0] == '1' && bil_expected_files()[9][1] == '8');
    assert(bil_expected_files()[10].len() == 6 && bil_expected_files()[10][0] == '8' && bil_expected_files()[10][1] == '2');
    assert(bil_expected_files()[11].len() == 6 && bil_expected_files()[11][0] == '8' && bil_expected_files()[11][1] == '3');
    assert(bil_expected_files()[12].len() == 6 && bil_expected_files()[12][0] == '8' && bil_expected_files()[12][1] == '4');
    assert(bil_expected_files()[13].len() == 6 && bil_expected_files()[13][0] == '8' && bil_expected_files()[13][1] == '5');
    assert(bil_expected_files()[14].len() == 6 && bil_expected_files()[14][0] == '8' && bil_expected_files()[14][1] == '6');
    assert(bil_expected_files()[15].len() == 6 && bil_expected_files()[15][0] == '8' && bil_expected_files()[15][1] == '7');
    assert(bil_expected_files()[16].len() == 6 && bil_expected_files()[16][0] == '8' && bil_expected_files()[16][1] == '8');
    assert(bil_expected_files()[17].len() == 6 && bil_expected_files()[17][0] == '8' && bil_expected_files()[17][1] == '9');
    assert(bil_expected_files()[18].len() == 6 && bil_expected_files()[18][0] == '9' && bil_expected_files()[18][1] == '0');
    assert(bil_expected_files()[19].len() == 6 && bil_expected_files()[19][0] == '9' && bil_expected_files()[19][1] == '1');
    assert(bil_expected_files()[20].len() == 6 && bil_expected_files()[20][0] == '9' && bil_expected_files()[20][1] == '2');
    assert(bil_expected_files()[21].len() == 6 && bil_expected_files()[21][0] == '9' && bil_expected_files()[21][1] == '3');
    assert(bil_expected_files()[22].len() == 6 && bil_expected_files()[22][0] == '9' && bil_expected_files()[22][1] == '4');
    assert(bil_expected_files()[23].len() == 11 && bil_expected_files()[23][0] == 'l' && bil_expected_files()[23][1] == 'b');
    assert(bil_expected_files()[24].len() == 10 && bil_expected_files()[24][0] == 'u' && bil_expected_files()[24][1] == 'n');
    assert forall|i: int, j: int|
        0 <= i < j < bil_expected_files().len() implies bil_expected_files()[i]
        != bil_expected_files()[j] by {}
}


/// No archive filename is expected by two different variants: the three
/// expected-file lists are pairwise disjoint, told apart by length and
/// first characters alone.
#[verifier::rlimit(100)]
pub proof fn lemma_expected_files_disjoint()
    ensures
        mjolner_expected_files().disjoint(djupet_expected_files()),
        mjolner_expected_files().disjoint(bil_expected_files()),
        djupet_expected_files().disjoint(bil_expected_files()),
{
    reveal_strlit("anslagstavla.dir");
    reveal_strlit("block.dir");
    reveal_strlit("dorislapp.dir");
    reveal_strlit("glidflygare.dir");
    reveal_strlit("heden.dir");
    reveal_strlit("kassaskap.dir");
    reveal_strlit("monalisa.dir");
    reveal_strlit("paris.dir");
    reveal_strlit("setup.dir");
    reveal_strlit("souvenir.dir");
    reveal_strlit("tavla.dir");
    reveal_strlit("tidningsbutik.dir");
    reveal_strlit("wtavla.dir");
    reveal_strlit("berlin.dir");
    reveal_strlit("container.dir");
    reveal_strlit("drottningtavla.dir");
    reveal_strlit("gotland.dir");
    reveal_strlit("huvudmeny.dir");
    reveal_strlit("london.dir");
    reveal_strlit("nrspel.dir");
    reveal_strlit("rom.dir");
    reveal_strlit("sheild.dir");
    reveal_strlit("stockholm.dir");
    reveal_strlit("telefonbok.dir");
    reveal_strlit("wsafe.dir");
    reveal_strlit("avi.dir");
    reveal_strlit("game.dir");
    reveal_strlit("mainmenu.dir");
    reveal_strlit("qt.dir");
    reveal_strlit("02.dxr");
    reveal_strlit("03.dxr");
    reveal_strlit("04.dxr");
    reveal_strlit("05.dxr");
    reveal_strlit("06.dxr");
    reveal_strlit("08.dxr");
    reveal_strlit("10.dxr");
    reveal_strlit("12.dxr");
    reveal_strlit("13.dxr");
    reveal_strlit("18.dxr");
    reveal_strlit("82.dxr");
    reveal_strlit("83.dxr");
    reveal_strlit("84.dxr");
    reveal_strlit("85.dxr");
    reveal_strlit("86.dxr");
    reveal_strlit("87.dxr");
    reveal_strlit("88.dxr");
    reveal_strlit("89.dxr");
    reveal_strlit("90.dxr");
    reveal_strlit("91.dxr");
    reveal_strlit("92.dxr");
    reveal_strlit("93.dxr");
    reveal_strlit("94.dxr");
    reveal_strlit("lbstart.dxr");
    reveal_strlit("unload.dxr");
    assert(mjolner_expected_files()[0].len() == 16 && mjolner_expected_files()[0][0] == 'a' && mjolner_expected_files()[0][1] == 'n');
    assert(mjolner_expected_files()[1].len() == 9 && mjolner_expected_files()[1][0] == 'b' && mjolner_expected_files()[1][1] == 'l');
    assert(mjolner_expected_files()[2].len() == 13 && mjolner_expected_files()[2][0] == 'd' && mjolner_expected_files()[2][1] == 'o');
    assert(mjolner_expected_files()[3].len() == 15 && mjolner_expected_files()[3][0] == 'g' && mjolner_expected_files()[3][1] == 'l');
    assert(mjolner_expected_files()[4].len() == 9 && mjolner_expected_files()[4][0] == 'h' && mjolner_expected_files()[4][1] == 'e');
    assert(mjolner_expected_files()[5].len() == 13 && mjolner_expected_files()[5][0] == 'k' && mjolner_expected_files()[5][1] == 'a');
    assert(mjolner_expected_files()[6].len() == 12 && mjolner_expected_files()[6][0] == 'm' && mjolner_expected_files()[6][1] == 'o');
    assert(mjolner_expected_files()[7].len() == 9 && mjolner_expected_files()[7][0] == 'p' && mjolner_expected_files()[7][1] == 'a');
    assert(mjolner_expected_files()[8].len() == 9 && mjolner_expected_files()[8][0] == 's' && mjolner_expected_files()[8][1] == 'e');
    assert(mjolner_expected_files()[9].len() == 12 && mjolner_expected_files()[9][0] == 's' && mjolner_expected_files()[9][1] == 'o');
    assert(mjolner_expected_files()[10].len() == 9 && mjolner_expected_files()[10][0] == 't' && mjolner_expected_files()[10][1] == 'a');
    assert(mjolner_expected_files()[11].len() == 17 && mjolner_expected_files()[11][0] == 't' && mjolner_expected_files()[11][1] == 'i');
    assert(mjolner_expected_files()[12].len() == 10 && mjolner_expected_files()[12][0] == 'w' && mjolner_expected_files()[12][1] == 't');
    assert(mjolner_expected_files()[13].len() == 10 && mjolner_expected_files()[13][0] == 'b' && mjolner_expected_files()[13][1] == 'e');
    assert(mjolner_expected_files()[14].len() == 13 && mjolner_expected_files()[14][0] == 'c' && mjolner_expected_files()[14][1] == 'o');
    assert(mjolner_expected_files()[15].len() == 18 && mjolner_expected_files()[15][0] == 'd' && mjolner_expected_files()[15][1] == 'r');
    assert(mjolner_expected_files()[16].len() == 11 && mjolner_expected_files()[16][0] == 'g' && mjolner_expected_files()[16][1] == 'o');
    assert(mjolner_expected_files()[17].len() == 13 && mjolner_expected_files()[17][0] == 'h' && mjolner_expected_files()[17][1] == 'u');
    assert(mjolner_expected_files()[18].len() == 10 && mjolner_expected_files()[18][0] == 'l' && mjolner_expected_files()[18][1] == 'o');
    assert(mjolner_expected_files()[19].len() == 10 && mjolner_expected_files()[19][0] == 'n' && mjolner_expected_files()[19][1] == 'r');
    assert(mjolner_expected_files()[20].len() == 7 && mjolner_expected_files()[20][0] == 'r' && mjolner_expected_files()[20][1] == 'o');
    assert(mjolner_expected_files()[21].len() == 10 && mjolner_expected_files()[21][0] == 's' && mjolner_expected_files()[21][1] == 'h');
    assert(mjolner_expected_files()[22].len() == 13 && mjolner_expected_files()[22][0] == 's' && mjolner_expected_files()[22][1] == 't');
    assert(mjolner_expected_files()[23].len() == 14 && mjolner_expected_files()[23][0] == 't' && mjolner_expected_files()[23][1] == 'e');
    assert(mjolner_expected_files()[24].len() == 9 && mjolner_expected_files()[24][0] == 'w' && mjolner_expected_files()[24][1] == 's');
    assert(djupet_expected_files()[0].len() == 7 && djupet_expected_files()[0][0] == 'a' && djupet_expected_files()[0][1] == 'v');
    assert(djupet_expected_files()[1].len() == 8 && djupet_expected_files()[1][0] == 'g' && djupet_expected_files()[1][1] == 'a');
    assert(djupet_expected_files()[2].len() == 12 && djupet_expected_files()[2][0] == 'm' && djupet_expected_files()[2][1] == 'a');
    assert(djupet_expected_files()[3].len() == 6 && djupet_expected_files()[3][0] == 'q' && djupet_expected_files()[3][1] == 't');
    assert(bil_expected_files()[0].len() == 6 && bil_expected_files()[0][0] == '0' && bil_expected_files()[0][1] == '2');
    assert(bil_expected_files()[1].len() == 6 && bil_expected_files()[1][0] == '0' && bil_expected_files()[1][1] == '3');
    assert(bil_expected_files()[2].len() == 6 && bil_expected_files()[2][0] == '0' && bil_expected_files()[2][1] == '4');
    assert(bil_expected_files()[3].len() == 6 && bil_expected_files()[3][0] == '0' && bil_expected_files()[3][1] == '5');
    assert(bil_expected_files()[4].len() == 6 && bil_expected_files()[4][0] == '0' && bil_expected_files()[4][1] == '6');
    assert(bil_expected_files()[5].len() == 6 && bil_expected_files()[5][0] == '0' && bil_expected_files()[5][1] == '8');
    assert(bil_expected_files()[6].len() == 6 && bil_expected_files()[6][0] == '1' && bil_expected_files()[6][1] == '0');
    assert(bil_expected_files()[7].len() == 6 && bil_expected_files()[7][0] == '1' && bil_expected_files()[7][1] == '2');
    assert(bil_expected_files()[8].len() == 6 && bil_expected_files()[8][0] == '1' && bil_expected_files()[8][1] == '3');
    assert(bil_expected_files()[9].len() == 6 && bil_expected_files()[9][0] == '1' && bil_expected_files()[9][1] == '8');
    assert(bil_expected_files()[10].len() == 6 && bil_expected_files()[10][0] == '8' && bil_expected_files()[10][1] == '2');
    assert(bil_expected_files()[11].len() == 6 && bil_expected_files()[11][0] == '8' && bil_expected_files()[11][1] == '3');
    assert(bil_expected_files()[12].len() == 6 && bil_expected_files()[12][0] == '8' && bil_expected_files()[12][1] == '4');
    assert(bil_expected_files()[13].len() == 6 && bil_expected_files()[13][0] == '8' && bil_expected_files()[13][1] == '5');
    assert(bil_expected_files()[14].len() == 6 && bil_expected_files()[14][0] == '8' && bil_expected_files()[14][1] == '6');
    assert(bil_expected_files()[15].len() == 6 && bil_expected_files()[15][0] == '8' && bil_expected_files()[15][1] == '7');
    assert(bil_expected_files()[16].len() == 6 && bil_expected_files()[16][0] == '8' && bil_expected_files()[16][1] == '8');
    assert(bil_expected_files()[17].len() == 6 && bil_expected_files()[17][0] == '8' && bil_expected_files()[17][1] == '9');
    assert(bil_expected_files()[18].len() == 6 && bil_expected_files()[18][0] == '9' && bil_expected_files()[18][1] == '0');
    assert(bil_expected_files()[19].len() == 6 && bil_expected_files()[19][0] == '9' && bil_expected_files()[19][1] == '1');
    assert(bil_expected_files()[20].len() == 6 && bil_expected_files()[20][0] == '9' && bil_expected_files()[20][1] == '2');
    assert(bil_expected_files()[21].len() == 6 && bil_expected_files()[21][0] == '9' && bil_expected_files()[21][1] == '3');
    assert(bil_expected_files()[22].len() == 6 && bil_expected_files()[22][0] == '9' && bil_expected_files()[22][1] == '4');
    assert(bil_expected_files()[23].len() == 11 && bil_expected_files()[23][0] == 'l' && bil_expected_files()[23][1] == 'b');
    assert(bil_expected_files()[24].len() == 10 && bil_expected_files()[24][0] == 'u' && bil_expected_files()[24][1] == 'n');
    assert forall|i: int, j: int|
        0 <= i < mjolner_expected_files().len() && 0 <= j < djupet_expected_files().len()
        implies mjolner_expected_files()[i] != djupet_expected_files()[j] by {}
    assert forall|i: int, j: int|
        0 <= i < mjolner_expected_files().len() && 0 <= j < bil_expected_files().len()
        implies mjolner_expected_files()[i] != bil_expected_files()[j] by {}
    assert forall|i: int, j: int|
        0 <= i < djupet_expected_files().len() && 0 <= j < bil_expected_files().len()
        implies djupet_expected_files()[i] != bil_expected_files()[j] by {}
}

/// A name list disjoint from a superset of the found set scores zero.
proof fn lemma_score_zero_when_disjoint(
    names: Seq<Seq<char>>,
    found: Set<Seq<char>>,
    cover: Seq<Seq<char>>,
)
    requires
        forall|n: Seq<char>| found.contains(n) ==> cover.contains(n),
        names.disjoint(cover),
    ensures
        spec_score(names, found) == 0,
    decreases names.len(),
{
    if names.len() > 0 {
        assert forall|i: int, j: int|
            0 <= i < names.drop_last().len() && 0 <= j < cover.len()
            implies names.drop_last()[i] != cover[j] by {
            assert(names.drop_last()[i] == names[i]);
        }
        lemma_score_zero_when_disjoint(names.drop_last(), found, cover);
        if found.contains(names.last()) {
            assert(cover.contains(names.last()));
            let j = choose|j: int| 0 <= j < cover.len() && cover[j] == names.last();
            assert(names[names.len() - 1] != cover[j]);
            assert(false);
        }
    }
}

} // verus!
