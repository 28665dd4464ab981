use cgex::paths::demangle_name;
use cgex::paths::set_extension;
use cgex::paths::split_on;

fn comps(v: &[&str]) -> Vec<String> {
    v.iter().map(|s| s.to_string()).collect()
}

#[test]
fn demangle_nested_name() {
    let r = demangle_name("a--b__c__d.ext", None);
    assert_eq!(r, comps(&["a", "b", "c__d.ext"]));
}

#[test]
fn demangle_plain_name() {
    let r = demangle_name("plain.ext", None);
    assert_eq!(r, comps(&["plain.ext"]));
}

#[test]
fn demangle_strips_one_leading_dash() {
    let r = demangle_name("a--b__-leaf.ext", None);
    assert_eq!(r, comps(&["a", "b", "leaf.ext"]));
}

#[test]
fn demangle_strips_the_dash_only_once() {
    // the rejoined leaf is "-__x": exactly one leading dash goes
    let r = demangle_name("a--b__-__x", None);
    assert_eq!(r, comps(&["a", "b", "__x"]));
}

#[test]
fn demangle_single_separator_keeps_leaf_whole() {
    let r = demangle_name("dir--leaf.bmp", None);
    assert_eq!(r, comps(&["dir", "leaf.bmp"]));
}

#[test]
fn demangle_without_directories_keeps_compound_leaf() {
    // the leaf-part split only applies below at least one directory segment
    let r = demangle_name("b__x.ext", None);
    assert_eq!(r, comps(&["b__x.ext"]));
}

#[test]
fn demangle_applies_extension_override() {
    let r = demangle_name("berlin--Animationer__x0001.bmp", Some("png"));
    assert_eq!(r, comps(&["berlin", "Animationer", "x0001.png"]));
}

#[test]
fn demangle_extension_override_on_plain_name() {
    let r = demangle_name("foo.bmp", Some("webp"));
    assert_eq!(r, comps(&["foo.webp"]));
}

#[test]
fn demangle_real_extractor_name() {
    let r = demangle_name("02--00__Dummy-2.bmp", None);
    assert_eq!(r, comps(&["02", "00", "Dummy-2.bmp"]));
}

#[test]
fn set_extension_replaces_last() {
    assert_eq!(set_extension("a.b.bmp", "png"), "a.b.png".to_string());
}

#[test]
fn set_extension_appends_when_missing() {
    assert_eq!(set_extension("noext", "wav"), "noext.wav".to_string());
}

#[test]
fn set_extension_ignores_leading_dot() {
    assert_eq!(set_extension(".hidden", "txt"), ".hidden.txt".to_string());
}

#[test]
fn split_on_splits_every_occurrence() {
    let r = split_on("a--b--c", "--");
    assert_eq!(r, comps(&["a", "b", "c"]));
}

#[test]
fn split_on_keeps_empty_tail() {
    let r = split_on("a--", "--");
    assert_eq!(r, comps(&["a", ""]));
}

#[test]
fn split_on_without_separator_returns_whole() {
    let r = split_on("abc", "--");
    assert_eq!(r, comps(&["abc"]));
}
