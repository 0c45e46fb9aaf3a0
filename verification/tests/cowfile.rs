use cowsay::cowfile::pick_cowfile;
use cowsay::{list_builtin_cowfiles, locate_cowfile, random_cowfile, CowfileSource};

fn names(all: &[&str]) -> Vec<String> {
    all.iter().map(|name| name.to_string()).collect()
}

#[test]
fn plain_name_is_built_in() {
    assert_eq!(locate_cowfile("default", '/'), CowfileSource::Builtin("default.cow".to_string()));
    assert_eq!(locate_cowfile("", '/'), CowfileSource::Builtin(".cow".to_string()));
    assert_eq!(locate_cowfile("tux.cow", '/'), CowfileSource::Builtin("tux.cow.cow".to_string()));
}

#[test]
fn name_with_separator_is_a_path() {
    assert_eq!(locate_cowfile("./default", '/'), CowfileSource::Path("./default".to_string()));
    assert_eq!(
        locate_cowfile("/usr/share/cows/tux.cow", '/'),
        CowfileSource::Path("/usr/share/cows/tux.cow".to_string())
    );
    assert_eq!(locate_cowfile("cows/", '/'), CowfileSource::Path("cows/".to_string()));
}

#[test]
fn separator_is_that_of_the_platform() {
    assert_eq!(locate_cowfile("a\\b", '/'), CowfileSource::Builtin("a\\b.cow".to_string()));
    assert_eq!(locate_cowfile("a\\b", '\\'), CowfileSource::Path("a\\b".to_string()));
    assert_eq!(locate_cowfile("a/b", '\\'), CowfileSource::Builtin("a/b.cow".to_string()));
}

#[test]
fn listing_has_two_spaces_after_each_name() {
    assert_eq!(list_builtin_cowfiles(&names(&["default", "tux", "moose"])), "default  tux  moose  \n");
    assert_eq!(list_builtin_cowfiles(&names(&["default"])), "default  \n");
    assert_eq!(list_builtin_cowfiles(&names(&[])), "\n");
}

#[test]
fn picked_name_is_the_one_at_the_index() {
    let all = names(&["default", "tux", "moose"]);
    assert_eq!(pick_cowfile(&all, Some(0)), Some("default".to_string()));
    assert_eq!(pick_cowfile(&all, Some(2)), Some("moose".to_string()));
    assert_eq!(pick_cowfile(&all, Some(3)), None);
    assert_eq!(pick_cowfile(&all, None), None);
    assert_eq!(pick_cowfile(&names(&[]), Some(0)), None);
}

#[test]
fn random_name_is_one_of_the_names() {
    let all = names(&["default", "tux", "moose"]);
    let mut seen = [false, false, false];
    for _ in 0..400 {
        let name = random_cowfile(&all).unwrap();
        let index = all.iter().position(|other| *other == name).unwrap();
        seen[index] = true;
    }
    assert_eq!(seen, [true, true, true]);
}

#[test]
fn random_name_of_one() {
    assert_eq!(random_cowfile(&names(&["default"])), Some("default".to_string()));
}

#[test]
fn no_random_name_without_names() {
    assert_eq!(random_cowfile(&names(&[])), None);
}
