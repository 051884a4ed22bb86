use dmtools::config::{configure, names_contain, render_passes, select, split_list, Pass, RenderPassInfo};
use dmtools::error::Error;
use dmtools::text::chars_of;

const DEFAULTS: [Pass; 6] =
    [Pass::HideSpace, Pass::HideAreas, Pass::HideInvisible, Pass::Pretty, Pass::FakeGlass, Pass::FancyLayers];

#[test]
fn registry_lists_the_passes_in_order() {
    let infos = render_passes();
    let names: Vec<&str> = infos.iter().map(|i| i.name).collect();
    assert_eq!(
        names,
        vec!["hide-space", "hide-areas", "hide-invisible", "pretty", "fake-glass", "wires", "pipes", "fancy-layers"]
    );
    let defaults: Vec<bool> = infos.iter().map(|i| i.default).collect();
    assert_eq!(defaults, vec![true, true, true, true, true, false, false, true]);
    let passes: Vec<Pass> = infos.iter().map(|i| i.pass).collect();
    assert_eq!(
        passes,
        vec![
            Pass::HideSpace,
            Pass::HideAreas,
            Pass::HideInvisible,
            Pass::Pretty,
            Pass::FakeGlass,
            Pass::Wires,
            Pass::Pipes,
            Pass::FancyLayers
        ]
    );
    assert!(infos.iter().all(|i| !i.desc.is_empty()));
}

#[test]
fn lists_split_at_commas() {
    let views = |s: &str| -> Vec<String> { split_list(s).iter().map(|t| t.iter().collect()).collect() };
    assert_eq!(views(""), vec![""]);
    assert_eq!(views("wires"), vec!["wires"]);
    assert_eq!(views("a,b"), vec!["a", "b"]);
    assert_eq!(views("a,,b,"), vec!["a", "", "b", ""]);
    assert_eq!(views(","), vec!["", ""]);
    assert_eq!(views(" a , b"), vec![" a ", " b"]);
}

#[test]
fn names_are_found_in_lists() {
    let list = split_list("wires,all");
    assert!(names_contain(&list, &chars_of("all")));
    assert!(names_contain(&list, &chars_of("wires")));
    assert!(!names_contain(&list, &chars_of("wire")));
    assert!(!names_contain(&list, &chars_of("")));
}

#[test]
fn defaults_stand_where_nothing_is_said() {
    assert_eq!(configure("", ""), Ok(DEFAULTS.to_vec()));
}

#[test]
fn including_wires_adds_it_to_the_defaults() {
    assert_eq!(
        configure("wires", ""),
        Ok(vec![
            Pass::HideSpace,
            Pass::HideAreas,
            Pass::HideInvisible,
            Pass::Pretty,
            Pass::FakeGlass,
            Pass::Wires,
            Pass::FancyLayers
        ])
    );
}

#[test]
fn including_all_but_wires() {
    assert_eq!(
        configure("all", "wires"),
        Ok(vec![
            Pass::HideSpace,
            Pass::HideAreas,
            Pass::HideInvisible,
            Pass::Pretty,
            Pass::FakeGlass,
            Pass::Pipes,
            Pass::FancyLayers
        ])
    );
}

#[test]
fn explicit_exclusion_removes_a_default() {
    assert_eq!(
        configure("", "pretty,hide-space"),
        Ok(vec![Pass::HideAreas, Pass::HideInvisible, Pass::FakeGlass, Pass::FancyLayers])
    );
}

#[test]
fn excluding_all_leaves_only_what_is_named() {
    assert_eq!(configure("", "all"), Ok(vec![]));
    assert_eq!(configure("pipes,pretty", "all"), Ok(vec![Pass::Pretty, Pass::Pipes]));
}

#[test]
fn including_all_takes_every_pass() {
    assert_eq!(
        configure("all", ""),
        Ok(vec![
            Pass::HideSpace,
            Pass::HideAreas,
            Pass::HideInvisible,
            Pass::Pretty,
            Pass::FakeGlass,
            Pass::Wires,
            Pass::Pipes,
            Pass::FancyLayers
        ])
    );
}

#[test]
fn inclusion_wildcard_beats_exclusion_wildcard() {
    assert_eq!(configure("all", "all").map(|v| v.len()), Ok(8));
}

#[test]
fn explicit_inclusion_beats_explicit_exclusion() {
    assert_eq!(configure("wires", "wires").map(|v| v.contains(&Pass::Wires)), Ok(true));
}

#[test]
fn unknown_names_are_errors() {
    assert_eq!(configure("whires", ""), Err(Error::UnknownPass("whires".to_string())));
    assert_eq!(configure("", "only-powernet"), Err(Error::UnknownPass("only-powernet".to_string())));
    assert_eq!(configure("wires,nope", "neither"), Err(Error::UnknownPass("nope".to_string())));
    assert_eq!(configure("wires", "a,b"), Err(Error::UnknownPass("a".to_string())));
    assert_eq!(configure(" wires", ""), Err(Error::UnknownPass(" wires".to_string())));
}

#[test]
fn empty_names_are_passed_over() {
    assert_eq!(configure(",wires,", ",").map(|v| v.len()), Ok(7));
}

#[test]
fn selection_from_another_registry() {
    let infos = vec![
        RenderPassInfo { name: "a", desc: "first", default: false, pass: Pass::Pipes },
        RenderPassInfo { name: "b", desc: "second", default: true, pass: Pass::Wires },
    ];
    assert_eq!(select(&infos, "", ""), Ok(vec![Pass::Wires]));
    assert_eq!(select(&infos, "a", "b"), Ok(vec![Pass::Pipes]));
    assert_eq!(select(&infos, "all", ""), Ok(vec![Pass::Pipes, Pass::Wires]));
    assert_eq!(select(&infos, "wires", ""), Err(Error::UnknownPass("wires".to_string())));
    assert_eq!(select(&Vec::new(), "", ""), Ok(vec![]));
}
