use cgex::detect::detect_game;
use cgex::detect::DetectError;
use cgex::game_extractor::GameKind;
use cgex::game_extractor::JonssonDjupet;
use cgex::game_extractor::JonssonMjolner;
use cgex::game_extractor::MulleBil;

fn names(v: &[&str]) -> Vec<String> {
    v.iter().map(|s| s.to_string()).collect()
}

#[test]
fn full_mjolner_set_selects_mjolner() {
    let found = JonssonMjolner.get_expected_files();
    let d = detect_game(&found).unwrap();
    assert_eq!(d.game, GameKind::Mjolner);
    assert_eq!(d.match_count, 25);
    assert_eq!(d.expected_count, 25);
}

#[test]
fn full_bil_set_selects_bil() {
    let found = MulleBil.get_expected_files();
    let d = detect_game(&found).unwrap();
    assert_eq!(d.game, GameKind::Bil);
    assert_eq!(d.match_count, 25);
    assert_eq!(d.expected_count, 25);
}

#[test]
fn strict_subset_still_selects_with_shortfall() {
    let found = names(&["avi.dir", "game.dir"]);
    let d = detect_game(&found).unwrap();
    assert_eq!(d.game, GameKind::Djupet);
    assert_eq!(d.match_count, 2);
    assert_eq!(d.expected_count, 4);
    assert!(d.match_count < d.expected_count);
}

#[test]
fn zero_overlap_fails_detection() {
    let found = names(&["x.dir"]);
    let e = detect_game(&found).unwrap_err();
    assert_eq!(e, DetectError::NoMatchingVariant);
    assert_eq!(
        e.message(),
        "Unable to detect game type. No matching .dir files found."
    );
}

#[test]
fn empty_input_fails_detection() {
    let found: Vec<String> = Vec::new();
    assert!(detect_game(&found).is_err());
}

#[test]
fn equal_scores_resolve_to_registry_order() {
    // one expected file of Mjolner's and one of Bil's: a tie, first registered wins
    let found = names(&["setup.dir", "02.dxr"]);
    let d = detect_game(&found).unwrap();
    assert_eq!(d.game, GameKind::Mjolner);
    assert_eq!(d.match_count, 1);
}

#[test]
fn greater_score_beats_registry_order() {
    let found = names(&["setup.dir", "02.dxr", "03.dxr"]);
    let d = detect_game(&found).unwrap();
    assert_eq!(d.game, GameKind::Bil);
    assert_eq!(d.match_count, 2);
}

#[test]
fn duplicate_found_names_count_once() {
    let found = names(&["avi.dir", "avi.dir", "x.dir"]);
    let d = detect_game(&found).unwrap();
    assert_eq!(d.game, GameKind::Djupet);
    assert_eq!(d.match_count, 1);
}

#[test]
fn variant_colors_match_their_titles() {
    assert_eq!(JonssonMjolner.get_transparent_color(), [255, 255, 255]);
    assert_eq!(JonssonDjupet.get_transparent_color(), [255, 0, 255]);
    assert_eq!(MulleBil.get_transparent_color(), [0, 0, 0]);
}

#[test]
fn variant_names() {
    assert_eq!(JonssonMjolner.get_name(), "Jönssonligan: Jakten på Mjölner");
    assert_eq!(JonssonDjupet.get_name(), "Jönssonligan: Går på djupet");
    assert_eq!(MulleBil.get_name(), "Mulle Meck bygger bilar");
}

#[test]
fn broken_image_lists() {
    assert_eq!(JonssonMjolner.get_broken_images().len(), 9);
    assert_eq!(
        JonssonDjupet.get_broken_images(),
        vec!["Mainmenu--Internal__m_birdanim2_12-473.bmp"]
    );
    assert_eq!(MulleBil.get_broken_images(), vec!["02--00__Dummy-2.bmp"]);
}
