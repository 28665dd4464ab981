//! The variant registry: one entry per supported title, each declaring its
//! expected archive-file set, transparent color key, and known-broken asset
//! list. A variant is immutable once constructed and one is selected per run
//! by the detector.

use vstd::prelude::*;
use vstd::string::StringExecFns;

use crate::compositor::CopyOp;
use crate::compositor::ProcessedImage;
use crate::compositor::copy_views;
use crate::compositor::processed_views;
use crate::compositor::spec_format_ext;
use crate::compositor::OutputFormat;
use crate::text::starts_with;
use crate::text::str_starts_with;

verus! {

/// The supported titles, in registry order. Detection ties are resolved in
/// this order, first wins.
#[derive(Clone, Copy, Debug, PartialEq, Eq, Structural)]
pub enum GameKind {
    Mjolner,
    Djupet,
    Bil,
}

pub struct JonssonMjolner;

pub struct JonssonDjupet;

pub struct MulleBil;

/// The archive filenames (lowercased) expected on a Jakten på Mjölner disc.
pub open spec fn mjolner_expected_files() -> Seq<Seq<char>> {
    seq![
        "anslagstavla.dir"@,
        "block.dir"@,
        "dorislapp.dir"@,
        "glidflygare.dir"@,
        "heden.dir"@,
        "kassaskap.dir"@,
        "monalisa.dir"@,
        "paris.dir"@,
        "setup.dir"@,
        "souvenir.dir"@,
        "tavla.dir"@,
        "tidningsbutik.dir"@,
        "wtavla.dir"@,
        "berlin.dir"@,
        "container.dir"@,
        "drottningtavla.dir"@,
        "gotland.dir"@,
        "huvudmeny.dir"@,
        "london.dir"@,
        "nrspel.dir"@,
        "rom.dir"@,
        "sheild.dir"@,
        "stockholm.dir"@,
        "telefonbok.dir"@,
        "wsafe.dir"@,
    ]
}

/// The archive filenames (lowercased) expected on a Går på djupet disc.
pub open spec fn djupet_expected_files() -> Seq<Seq<char>> {
    seq!["avi.dir"@, "game.dir"@, "mainmenu.dir"@, "qt.dir"@]
}

/// The archive filenames (lowercased) expected on a Mulle Meck bygger bilar
/// disc.
pub open spec fn bil_expected_files() -> Seq<Seq<char>> {
    seq![
        "02.dxr"@,
        "03.dxr"@,
        "04.dxr"@,
        "05.dxr"@,
        "06.dxr"@,
        "08.dxr"@,
        "10.dxr"@,
        "12.dxr"@,
        "13.dxr"@,
        "18.dxr"@,
        "82.dxr"@,
        "83.dxr"@,
        "84.dxr"@,
        "85.dxr"@,
        "86.dxr"@,
        "87.dxr"@,
        "88.dxr"@,
        "89.dxr"@,
        "90.dxr"@,
        "91.dxr"@,
        "92.dxr"@,
        "93.dxr"@,
        "94.dxr"@,
        "lbstart.dxr"@,
        "unload.dxr"@,
    ]
}

/// The expected archive-file set of a variant, in its declared order.
pub open spec fn spec_expected_files(game: GameKind) -> Seq<Seq<char>> {
    match game {
        GameKind::Mjolner => mjolner_expected_files(),
        GameKind::Djupet => djupet_expected_files(),
        GameKind::Bil => bil_expected_files(),
    }
}

/// The transparent color key of a variant's sprite sheets.
pub open spec fn spec_transparent_color(game: GameKind) -> [u8; 3] {
    match game {
        GameKind::Mjolner => [255u8, 255u8, 255u8],
        GameKind::Djupet => [255u8, 0u8, 255u8],
        GameKind::Bil => [0u8, 0u8, 0u8],
    }
}

/// The assets known to be corrupt in a variant's shipped media.
pub open spec fn spec_broken_images(game: GameKind) -> Seq<Seq<char>> {
    match game {
        GameKind::Mjolner => seq![
            "berlin--Animationer__harry0000-166.bmp"@,
            "berlin--Animationer__ingo0000-80.bmp"@,
            "berlin--Animationer__ingo0041-121.bmp"@,
            "berlin--Animationer__ingo0042-122.bmp"@,
            "berlin--Animationer__sickan0000-37.bmp"@,
            "berlin--Animationer__sickan0001-38.bmp"@,
            "berlin--Animationer__sickan0042.bmp"@,
            "berlin--Animationer__vanheden0000-123.bmp"@,
            "berlin--Animationer__vanheden0042-165.bmp"@,
        ],
        GameKind::Djupet => seq!["Mainmenu--Internal__m_birdanim2_12-473.bmp"@],
        GameKind::Bil => seq!["02--00__Dummy-2.bmp"@],
    }
}

/// The view of a list of owned strings.
pub open spec fn views_of(v: Seq<String>) -> Seq<Seq<char>> {
    v.map_values(|s: String| s@)
}

impl JonssonMjolner {
    pub fn get_name(&self) -> (r: &'static str)
        ensures
            r@ == "Jönssonligan: Jakten på Mjölner"@,
    {
        "Jönssonligan: Jakten på Mjölner"
    }

    pub fn get_transparent_color(&self) -> (c: [u8; 3])
        ensures
            c == spec_transparent_color(GameKind::Mjolner),
    {
        [255, 255, 255]
    }

    pub fn get_broken_images(&self) -> (r: Vec<&'static str>)
        ensures
            r@.map_values(|s: &'static str| s@) == spec_broken_images(GameKind::Mjolner),
    {
        let mut v: Vec<&'static str> = Vec::new();
        v.push("berlin--Animationer__harry0000-166.bmp");
        v.push("berlin--Animationer__ingo0000-80.bmp");
        v.push("berlin--Animationer__ingo0041-121.bmp");
        v.push("berlin--Animationer__ingo0042-122.bmp");
        v.push("berlin--Animationer__sickan0000-37.bmp");
        v.push("berlin--Animationer__sickan0001-38.bmp");
        v.push("berlin--Animationer__sickan0042.bmp");
        v.push("berlin--Animationer__vanheden0000-123.bmp");
        v.push("berlin--Animationer__vanheden0042-165.bmp");
        proof {
            assert(v@.map_values(|s: &'static str| s@) =~= spec_broken_images(GameKind::Mjolner));
        }
        v
    }

    pub fn get_expected_files(&self) -> (r: Vec<String>)
        ensures
            views_of(r@) == mjolner_expected_files(),
    {
        let mut v: Vec<String> = Vec::new();
        v.push(String::from_str("anslagstavla.dir"));
        v.push(String::from_str("block.dir"));
        v.push(String::from_str("dorislapp.dir"));
        v.push(String::from_str("glidflygare.dir"));
        v.push(String::from_str("heden.dir"));
        v.push(String::from_str("kassaskap.dir"));
        v.push(String::from_str("monalisa.dir"));
        v.push(String::from_str("paris.dir"));
        v.push(String::from_str("setup.dir"));
        v.push(String::from_str("souvenir.dir"));
        v.push(String::from_str("tavla.dir"));
        v.push(String::from_str("tidningsbutik.dir"));
        v.push(String::from_str("wtavla.dir"));
        v.push(String::from_str("berlin.dir"));
        v.push(String::from_str("container.dir"));
        v.push(String::from_str("drottningtavla.dir"));
        v.push(String::from_str("gotland.dir"));
        v.push(String::from_str("huvudmeny.dir"));
        v.push(String::from_str("london.dir"));
        v.push(String::from_str("nrspel.dir"));
        v.push(String::from_str("rom.dir"));
        v.push(String::from_str("sheild.dir"));
        v.push(String::from_str("stockholm.dir"));
        v.push(String::from_str("telefonbok.dir"));
        v.push(String::from_str("wsafe.dir"));
        proof {
            assert(views_of(v@) =~= mjolner_expected_files());
        }
        v
    }
}

impl JonssonDjupet {
    pub fn get_name(&self) -> (r: &'static str)
        ensures
            r@ == "Jönssonligan: Går på djupet"@,
    {
        "Jönssonligan: Går på djupet"
    }

    pub fn get_transparent_color(&self) -> (c: [u8; 3])
        ensures
            c == spec_transparent_color(GameKind::Djupet),
    {
        [255, 0, 255]
    }

    pub fn get_broken_images(&self) -> (r: Vec<&'static str>)
        ensures
            r@.map_values(|s: &'static str| s@) == spec_broken_images(GameKind::Djupet),
    {
        let mut v: Vec<&'static str> = Vec::new();
        v.push("Mainmenu--Internal__m_birdanim2_12-473.bmp");
        proof {
            assert(v@.map_values(|s: &'static str| s@) =~= spec_broken_images(GameKind::Djupet));
        }
        v
    }

    pub fn get_expected_files(&self) -> (r: Vec<String>)
        ensures
            views_of(r@) == djupet_expected_files(),
    {
        let mut v: Vec<String> = Vec::new();
        v.push(String::from_str("avi.dir"));
        v.push(String::from_str("game.dir"));
        v.push(String::from_str("mainmenu.dir"));
        v.push(String::from_str("qt.dir"));
        proof {
            assert(views_of(v@) =~= djupet_expected_files());
        }
        v
    }
}

impl MulleBil {
    pub fn get_name(&self) -> (r: &'static str)
        ensures
            r@ == "Mulle Meck bygger bilar"@,
    {
        "Mulle Meck bygger bilar"
    }

    pub fn get_transparent_color(&self) -> (c: [u8; 3])
        ensures
            c == spec_transparent_color(GameKind::Bil),
    {
        [0, 0, 0]
    }

    pub fn get_broken_images(&self) -> (r: Vec<&'static str>)
        ensures
            r@.map_values(|s: &'static str| s@) == spec_broken_images(GameKind::Bil),
    {
        let mut v: Vec<&'static str> = Vec::new();
        v.push("02--00__Dummy-2.bmp");
        proof {
            assert(v@.map_values(|s: &'static str| s@) =~= spec_broken_images(GameKind::Bil));
        }
        v
    }

    pub fn get_expected_files(&self) -> (r: Vec<String>)
        ensures
            views_of(r@) == bil_expected_files(),
    {
        let mut v: Vec<String> = Vec::new();
        v.push(String::from_str("02.dxr"));
        v.push(String::from_str("03.dxr"));
        v.push(String::from_str("04.dxr"));
        v.push(String::from_str("05.dxr"));
        v.push(String::from_str("06.dxr"));
        v.push(String::from_str("08.dxr"));
        v.push(String::from_str("10.dxr"));
        v.push(String::from_str("12.dxr"));
        v.push(String::from_str("13.dxr"));
        v.push(String::from_str("18.dxr"));
        v.push(String::from_str("82.dxr"));
        v.push(String::from_str("83.dxr"));
        v.push(String::from_str("84.dxr"));
        v.push(String::from_str("85.dxr"));
        v.push(String::from_str("86.dxr"));
        v.push(String::from_str("87.dxr"));
        v.push(String::from_str("88.dxr"));
        v.push(String::from_str("89.dxr"));
        v.push(String::from_str("90.dxr"));
        v.push(String::from_str("91.dxr"));
        v.push(String::from_str("92.dxr"));
        v.push(String::from_str("93.dxr"));
        v.push(String::from_str("94.dxr"));
        v.push(String::from_str("lbstart.dxr"));
        v.push(String::from_str("unload.dxr"));
        proof {
            assert(views_of(v@) =~= bil_expected_files());
        }
        v
    }
}

/// The expected archive-file set of a variant, by kind.
pub fn expected_files_of(game: GameKind) -> (r: Vec<String>)
    ensures
        views_of(r@) == spec_expected_files(game),
{
    match game {
        GameKind::Mjolner => JonssonMjolner.get_expected_files(),
        GameKind::Djupet => JonssonDjupet.get_expected_files(),
        GameKind::Bil => MulleBil.get_expected_files(),
    }
}

/// The transparent color key of a variant, by kind.
pub fn transparent_color_of(game: GameKind) -> (c: [u8; 3])
    ensures
        c == spec_transparent_color(game),
{
    match game {
        GameKind::Mjolner => JonssonMjolner.get_transparent_color(),
        GameKind::Djupet => JonssonDjupet.get_transparent_color(),
        GameKind::Bil => MulleBil.get_transparent_color(),
    }
}

/// The known-broken assets of a variant, by kind.
pub fn broken_images_of(game: GameKind) -> (r: Vec<&'static str>)
    ensures
        r@.map_values(|s: &'static str| s@) == spec_broken_images(game),
{
    match game {
        GameKind::Mjolner => JonssonMjolner.get_broken_images(),
        GameKind::Djupet => JonssonDjupet.get_broken_images(),
        GameKind::Bil => MulleBil.get_broken_images(),
    }
}

/// The display name of a variant, by kind.
pub fn name_of(game: GameKind) -> (r: &'static str)
    ensures
        game is Mjolner ==> r@ == "Jönssonligan: Jakten på Mjölner"@,
        game is Djupet ==> r@ == "Jönssonligan: Går på djupet"@,
        game is Bil ==> r@ == "Mulle Meck bygger bilar"@,
{
    match game {
        GameKind::Mjolner => JonssonMjolner.get_name(),
        GameKind::Djupet => JonssonDjupet.get_name(),
        GameKind::Bil => MulleBil.get_name(),
    }
}

/// The prefix of the processed frames that Jakten på Mjölner also expects
/// under an alternate name.
pub open spec fn mjolner_alias_prefix() -> Seq<char> {
    "berlin--Animationer__vanheden700"@
}

/// The copies the Jakten på Mjölner repair hook schedules: every processed
/// frame whose name starts with the alias prefix is duplicated under the
/// alternate frame name the legacy engine expects, with the same extension.
pub open spec fn spec_mjolner_copies(ps: Seq<(Seq<char>, OutputFormat)>) -> Seq<
    (Seq<char>, Seq<char>),
>
    decreases ps.len(),
{
    if ps.len() == 0 {
        Seq::<(Seq<char>, Seq<char>)>::empty()
    } else {
        spec_mjolner_copies(ps.drop_last()) + (if starts_with(
            ps.last().0,
            mjolner_alias_prefix(),
        ) {
            seq![
                (
                    ps.last().0,
                    "berlin--Animationer__vanheden707."@ + spec_format_ext(ps.last().1),
                ),
            ]
        } else {
            Seq::<(Seq<char>, Seq<char>)>::empty()
        })
    }
}

/// The copies a variant's post-processing hook schedules over the
/// successfully processed images.
pub open spec fn spec_post_copies(game: GameKind, ps: Seq<(Seq<char>, OutputFormat)>) -> Seq<
    (Seq<char>, Seq<char>),
> {
    match game {
        GameKind::Mjolner => spec_mjolner_copies(ps),
        GameKind::Djupet => Seq::<(Seq<char>, Seq<char>)>::empty(),
        GameKind::Bil => Seq::<(Seq<char>, Seq<char>)>::empty(),
    }
}

impl JonssonMjolner {
    /// Variant-specific asset repair after image processing: duplicate the
    /// matching processed frames under the alternate filename the legacy
    /// engine expects. Tolerating an absent source frame is the executor's
    /// side of the contract.
    pub fn post_extraction_setup(&self, processed: &Vec<ProcessedImage>) -> (copies: Vec<CopyOp>)
        ensures
            copy_views(copies@) == spec_mjolner_copies(processed_views(processed@)),
    {
        let n = processed.len();
        let mut copies: Vec<CopyOp> = Vec::new();
        let mut i: usize = 0;
        proof {
            assert(processed_views(processed@).take(0) =~= Seq::<(Seq<char>, OutputFormat)>::empty());
            assert(copy_views(copies@) =~= Seq::<(Seq<char>, Seq<char>)>::empty());
        }
        while i < n
            invariant
                n == processed@.len(),
                i <= n,
                copy_views(copies@) == spec_mjolner_copies(processed_views(processed@).take(i as int)),
            decreases n - i,
        {
            let ghost pviews = processed_views(processed@);
            proof {
                assert(pviews.take(i + 1).drop_last() =~= pviews.take(i as int));
                assert(pviews.take(i + 1).last() == pviews[i as int]);
            }
            let p = &processed[i];
            if str_starts_with(p.name.as_str(), "berlin--Animationer__vanheden700") {
                let mut dst = String::from_str("berlin--Animationer__vanheden707.");
                dst.append(p.format.extension());
                proof {
                    match p.format {
                        OutputFormat::OriginalRaster => {},
                        OutputFormat::CompressedRaster => {},
                        OutputFormat::LosslessUpscaled => {},
                        OutputFormat::CompressedUpscaled => {},
                    }
                    assert(dst@ == "berlin--Animationer__vanheden707."@ + spec_format_ext(
                        processed@[i as int].format,
                    ));
                }
                copies.push(CopyOp { src: p.name.clone(), dst });
                proof {
                    assert(copy_views(copies@) =~= copy_views(copies@.drop_last()).push(
                        (processed@[i as int].name@, copies@.last().dst@),
                    ));
                }
            }
            i = i + 1;
        }
        proof {
            assert(processed_views(processed@).take(n as int) =~= processed_views(processed@));
        }
        copies
    }
}

impl JonssonDjupet {
    /// No additional repair is needed for Går på djupet.
    pub fn post_extraction_setup(&self, _processed: &Vec<ProcessedImage>) -> (copies: Vec<CopyOp>)
        ensures
            copy_views(copies@) == Seq::<(Seq<char>, Seq<char>)>::empty(),
    {
        let copies: Vec<CopyOp> = Vec::new();
        proof {
            assert(copy_views(copies@) =~= Seq::<(Seq<char>, Seq<char>)>::empty());
        }
        copies
    }
}

impl MulleBil {
    /// No additional repair is needed for Mulle Meck bygger bilar.
    pub fn post_extraction_setup(&self, _processed: &Vec<ProcessedImage>) -> (copies: Vec<CopyOp>)
        ensures
            copy_views(copies@) == Seq::<(Seq<char>, Seq<char>)>::empty(),
    {
        let copies: Vec<CopyOp> = Vec::new();
        proof {
            assert(copy_views(copies@) =~= Seq::<(Seq<char>, Seq<char>)>::empty());
        }
        copies
    }
}

/// The post-processing copies of a variant, by kind.
pub fn post_copies_of(game: GameKind, processed: &Vec<ProcessedImage>) -> (copies: Vec<CopyOp>)
    ensures
        copy_views(copies@) == spec_post_copies(game, processed_views(processed@)),
{
    match game {
        GameKind::Mjolner => JonssonMjolner.post_extraction_setup(processed),
        GameKind::Djupet => JonssonDjupet.post_extraction_setup(processed),
        GameKind::Bil => MulleBil.post_extraction_setup(processed),
    }
}

} // verus!
