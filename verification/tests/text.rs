use dmtools::text::{chars_of, contains, starts_with, str_eq, string_of, subpath};

#[test]
fn chars_and_back() {
    let v = chars_of("a/b,ç");
    assert_eq!(v, vec!['a', '/', 'b', ',', 'ç']);
    assert_eq!(string_of(&v), "a/b,ç");
    assert_eq!(string_of(&chars_of("")), "");
}

#[test]
fn string_equality() {
    assert!(str_eq("plating", "plating"));
    assert!(!str_eq("plating", "platin"));
    assert!(!str_eq("plating", "plaTing"));
    assert!(str_eq("", ""));
}

#[test]
fn prefix_test() {
    assert!(starts_with("/turf/open", "/turf"));
    assert!(starts_with("/turf", "/turf"));
    assert!(starts_with("/turf", ""));
    assert!(!starts_with("/tur", "/turf"));
    assert!(!starts_with("/obj/turf", "/turf"));
}

#[test]
fn substring_test() {
    assert!(contains("/obj/machinery/atmospherics/pipe/simple/visible", "visible"));
    assert!(contains("visible", "visible"));
    assert!(contains("abc", ""));
    assert!(contains("", ""));
    assert!(!contains("/obj/machinery/atmospherics/pipe/simple/hidden", "visible"));
    assert!(!contains("visibl", "visible"));
    assert!(contains("xxvisibley", "visible"));
}

#[test]
fn subpath_of_itself_and_below() {
    assert!(subpath("/turf/open/space", "/turf/open/space/"));
    assert!(subpath("/turf/open/space/basic", "/turf/open/space/"));
    assert!(subpath("/turf/open/space", "/turf/"));
    assert!(subpath("/turf", "/turf/"));
}

#[test]
fn subpath_compares_whole_names() {
    assert!(!subpath("/turf/open/spaceship", "/turf/open/space/"));
    assert!(!subpath("/turf/open", "/turf/open/space/"));
    assert!(!subpath("/obj/turf/open/space", "/turf/open/space/"));
    assert!(!subpath("/area", "/turf/"));
}

#[test]
fn subpath_without_closing_slash() {
    assert!(subpath("/turf/open", "/turf"));
    assert!(subpath("/turf", "/turf"));
    assert!(!subpath("/turfs", "/turf"));
    assert!(!subpath("/tur", "/turf"));
}
