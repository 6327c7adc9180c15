use jg::document::{Json, JsonNumber, Member};
use jg::input::enumeration::Enumeration;
use jg::input::{
    any_match, in_configured_case, match_line, Config, HighlightMatches, Rendering, Scan, Step,
};
use jg::selection::try_to_match_filters;
use jg::{invert_result, matched_filters};

fn text(value: &str) -> Json {
    Json::String(value.to_string())
}

fn object(members: Vec<(&str, Json)>) -> Json {
    Json::Object(
        members
            .into_iter()
            .map(|(name, value)| Member {
                name: name.to_string(),
                value,
            })
            .collect(),
    )
}

fn at<'a>(data: &'a Json, name: &str) -> &'a Json {
    match data {
        Json::Object(members) => {
            &members
                .iter()
                .find(|member| member.name == name)
                .unwrap()
                .value
        }
        _ => panic!("no object"),
    }
}

fn options<'a>(patterns: Vec<&'a str>) -> Config<'a> {
    Config {
        matchers: patterns,
        params: None,
        input: None,
        print_only_count: false,
        print_line_number: false,
        highlight_matches: HighlightMatches::Never,
        ignore_case: false,
        is_quiet_mode: false,
        invert_match: false,
        match_root_only: false,
        max_num: None,
    }
}

fn ok(line: &str) -> Result<String, String> {
    Ok(line.to_string())
}

fn err(line: &str) -> Result<String, String> {
    Err(line.to_string())
}

#[test]
fn inversion_swaps_success_and_failure() {
    assert_eq!(invert_result(false, Ok::<u8, u8>(1)), Ok(1));
    assert_eq!(invert_result(false, Err::<u8, u8>(2)), Err(2));
    assert_eq!(invert_result(true, Ok::<u8, u8>(1)), Err(1));
    assert_eq!(invert_result(true, Err::<u8, u8>(2)), Ok(2));
    assert_eq!(invert_result(true, ok("line")), err("line"));
    assert_eq!(
        invert_result(true, invert_result(true, ok("line"))),
        ok("line")
    );
}

#[test]
fn counters_count_what_they_were_asked_to_count() {
    let mut both = Enumeration::new(true, true);
    assert_eq!(both.enumerate(err("a")), (Some(1), None, err("a")));
    assert_eq!(both.enumerate(ok("b")), (Some(2), Some(1), ok("b")));
    assert_eq!(both.enumerate(err("c")), (Some(3), Some(1), err("c")));
    assert_eq!(both.enumerate(ok("d")), (Some(4), Some(2), ok("d")));

    let mut all = Enumeration::new(true, false);
    assert_eq!(all.enumerate(ok("a")), (Some(1), None, ok("a")));
    assert_eq!(all.enumerate(err("b")), (Some(2), None, err("b")));

    let mut oks = Enumeration::new(false, true);
    assert_eq!(oks.enumerate(err("a")), (None, None, err("a")));
    assert_eq!(oks.enumerate(ok("b")), (None, Some(1), ok("b")));
    assert_eq!(oks.enumerate(ok("c")), (None, Some(2), ok("c")));

    let mut none = Enumeration::new(false, false);
    assert_eq!(none.enumerate(ok("a")), (None, None, ok("a")));
    assert_eq!(none.enumerate(err("b")), (None, None, err("b")));
}

#[test]
fn the_case_is_lowered_only_where_case_is_ignored() {
    let mut config = options(vec![]);
    assert_eq!(in_configured_case("{\"NAME\":\"Jeff É\"}", &config), "{\"NAME\":\"Jeff É\"}");
    config.ignore_case = true;
    assert_eq!(in_configured_case("{\"NAME\":\"Jeff É\"}", &config), "{\"name\":\"jeff é\"}");
    assert_eq!(in_configured_case("ΣΑΣ", &config), "σας");
    assert_eq!(in_configured_case("", &config), "");
}

#[test]
fn every_pattern_searches_the_whole_document() {
    let document = object(vec![
        ("name", text("jeff goldblum")),
        ("middle_name", text("lynn")),
    ]);
    let chains = vec![
        try_to_match_filters(".middle_name").unwrap(),
        try_to_match_filters(".age").unwrap(),
        try_to_match_filters(".name").unwrap(),
        try_to_match_filters(".").unwrap(),
        try_to_match_filters(".name").unwrap(),
    ];
    let found = any_match(&chains, &document, false).unwrap();
    assert_eq!(found.len(), 4);
    assert!(std::ptr::eq(found[0], at(&document, "middle_name")));
    assert!(std::ptr::eq(found[1], at(&document, "name")));
    assert!(std::ptr::eq(found[2], &document));
    assert!(std::ptr::eq(found[3], at(&document, "name")));

    let misses = vec![
        try_to_match_filters(".age").unwrap(),
        try_to_match_filters("[0]").unwrap(),
    ];
    assert_eq!(any_match(&misses, &document, false), None);
    assert_eq!(any_match(&vec![], &document, false), None);

    let nested = object(vec![("person", object(vec![("name", text("x"))]))]);
    let chains = vec![try_to_match_filters(".name").unwrap()];
    assert_eq!(any_match(&chains, &nested, true), None);
    assert_eq!(any_match(&chains, &nested, false).unwrap(), vec![&text("x")]);
}

#[test]
fn a_line_is_matched_and_its_rendering_chosen() {
    let document = object(vec![("name", text("jeff goldblum"))]);
    let chains = vec![
        try_to_match_filters(".name").unwrap(),
        try_to_match_filters(".age").unwrap(),
    ];
    let mut config = options(vec![]);
    assert_eq!(
        match_line(&chains, &config, Some(&document)),
        Ok(Rendering::Plain)
    );
    assert_eq!(match_line(&chains, &config, None), Err(Rendering::Plain));
    config.highlight_matches = HighlightMatches::Single;
    assert_eq!(
        match_line(&chains, &config, Some(&document)),
        Ok(Rendering::Single(vec![at(&document, "name")]))
    );
    config.highlight_matches = HighlightMatches::Cycle;
    assert_eq!(
        match_line(&chains, &config, Some(&document)),
        Ok(Rendering::Cycle(vec![at(&document, "name")]))
    );
    assert_eq!(match_line(&chains, &config, None), Err(Rendering::Plain));
    let other = object(vec![("id", text("404"))]);
    assert_eq!(
        match_line(&chains, &config, Some(&other)),
        Err(Rendering::Plain)
    );
    let nested = object(vec![("person", object(vec![("name", text("x"))]))]);
    assert_eq!(
        match_line(&chains, &config, Some(&nested)),
        Ok(Rendering::Cycle(vec![at(at(&nested, "person"), "name")]))
    );
    config.match_root_only = true;
    assert_eq!(
        match_line(&chains, &config, Some(&nested)),
        Err(Rendering::Plain)
    );
}

fn report(index: Option<usize>, line: &str, print: bool, proceed: bool) -> Step {
    Step::Report {
        index,
        matched_line: line.to_string(),
        print,
        proceed,
    }
}

#[test]
fn a_scan_reports_the_selected_lines() {
    let config = options(vec![]);
    let mut scan = Scan::new(&config);
    assert_eq!(scan.finish(), Err(None));
    assert_eq!(scan.step(&config, err("a")), Step::Skip);
    assert_eq!(scan.finish(), Err(None));
    assert_eq!(scan.step(&config, ok("b")), report(None, "b", true, true));
    assert_eq!(scan.finish(), Ok(None));
    assert_eq!(scan.step(&config, err("c")), Step::Skip);
    assert_eq!(scan.finish(), Ok(None));
}

#[test]
fn a_scan_numbers_the_lines_it_reads() {
    let mut config = options(vec![]);
    config.print_line_number = true;
    let mut scan = Scan::new(&config);
    assert_eq!(scan.step(&config, err("a")), Step::Skip);
    assert_eq!(scan.step(&config, ok("b")), report(Some(2), "b", true, true));
    assert_eq!(scan.step(&config, err("c")), Step::Skip);
    assert_eq!(scan.step(&config, ok("d")), report(Some(4), "d", true, true));
    assert_eq!(scan.finish(), Ok(None));
}

#[test]
fn a_scan_counts_the_selected_lines() {
    let mut config = options(vec![]);
    config.print_only_count = true;
    let mut scan = Scan::new(&config);
    assert_eq!(scan.step(&config, ok("a")), report(None, "a", false, true));
    assert_eq!(scan.finish(), Ok(Some(1)));
    assert_eq!(scan.step(&config, err("b")), Step::Skip);
    assert_eq!(scan.step(&config, ok("c")), report(None, "c", false, true));
    assert_eq!(scan.finish(), Ok(Some(2)));

    let mut config = options(vec![]);
    config.is_quiet_mode = true;
    let mut scan = Scan::new(&config);
    assert_eq!(scan.step(&config, ok("a")), report(None, "a", false, true));
    assert_eq!(scan.finish(), Ok(None));
}

#[test]
fn a_scan_stops_at_the_limit() {
    let mut config = options(vec![]);
    config.max_num = Some(3);
    config.print_line_number = true;
    let mut scan = Scan::new(&config);
    assert_eq!(scan.step(&config, ok("a")), report(Some(1), "a", true, true));
    assert_eq!(scan.step(&config, err("b")), Step::Skip);
    assert_eq!(scan.step(&config, ok("c")), report(Some(3), "c", true, true));
    assert_eq!(scan.finish(), Ok(Some(2)));
    assert_eq!(scan.step(&config, ok("d")), report(Some(4), "d", true, false));
    assert_eq!(scan.finish(), Ok(Some(2)));

    config.max_num = Some(0);
    let mut scan = Scan::new(&config);
    assert_eq!(scan.step(&config, ok("a")), report(Some(1), "a", true, false));
    assert_eq!(scan.finish(), Err(None));
}

#[test]
fn the_patterns_of_a_run_are_prepared_and_parsed() {
    let mut config = options(vec![".Name", r#"{"{}":"{}"}"#, "[{}]"]);
    let filters = matched_filters(&config);
    assert_eq!(
        filters,
        Err(Some(String::from("Invalid filter: \"{\\\"{}\\\":\\\"{}\\\"}\"")))
    );
    config.params = Some(vec!["Job", "Clerk", "0"]);
    let filters = matched_filters(&config).unwrap();
    assert_eq!(
        filters,
        vec![
            try_to_match_filters(".Name").unwrap(),
            try_to_match_filters(r#"{"Job":"Clerk"}"#).unwrap(),
            try_to_match_filters("[0]").unwrap(),
        ]
    );
    config.ignore_case = true;
    let filters = matched_filters(&config).unwrap();
    assert_eq!(
        filters,
        vec![
            try_to_match_filters(".name").unwrap(),
            try_to_match_filters(r#"{"job":"clerk"}"#).unwrap(),
            try_to_match_filters("[0]").unwrap(),
        ]
    );
    config.params = Some(vec!["Job"]);
    assert_eq!(
        matched_filters(&config),
        Err(Some(String::from("Invalid filter: \"[{}]\"")))
    );
    let config = options(vec![]);
    assert_eq!(matched_filters(&config), Ok(vec![]));
    let config = options(vec![".a", "", ".b c"]);
    assert_eq!(
        matched_filters(&config),
        Err(Some(String::from("Invalid filter: \"\"")))
    );
}

#[test]
fn numbers_in_a_document_need_no_particular_form() {
    let document = object(vec![(
        "n",
        Json::Number(JsonNumber {
            positive: true,
            mantissa: 4800,
            exponent: -1,
        }),
    )]);
    let chains = vec![try_to_match_filters(r#"{"n":480}"#).unwrap()];
    assert_eq!(
        any_match(&chains, &document, true).unwrap(),
        vec![at(&document, "n")]
    );
}
