use jg::input::parameter_substitution::apply_substitution;

#[test]
fn substitution_should_return_string_as_is_if_no_parameters_are_present() {
    assert_eq!(vec!["Jeff"], apply_substitution(&vec!["Jeff"], &vec![]));
}

#[test]
fn substitution_should_return_string_as_is_if_no_substitution_flag_is_present() {
    assert_eq!(
        vec!["Jeff"],
        apply_substitution(&vec!["Jeff"], &vec!["Goldbloom"])
    );
}

#[test]
fn substitution_should_replace_a_single_substitution_flag() {
    assert_eq!(
        vec!["Jeff Goldbloom"],
        apply_substitution(&vec!["Jeff {}"], &vec!["Goldbloom"])
    );
}

#[test]
fn substitution_should_replace_multiple_substitution_flag() {
    assert_eq!(
        vec!["Jeff Goldbloom"],
        apply_substitution(&vec!["{} {}"], &vec!["Jeff", "Goldbloom"])
    );
}

#[test]
fn substitution_leave_substitution_flag_untouched_if_tere_are_no_more_parameters() {
    assert_eq!(
        vec!["Jeff {}"],
        apply_substitution(&vec!["{} {}"], &vec!["Jeff"])
    );
}

#[test]
fn substitution_should_replace_across_multiple_sources() {
    assert_eq!(
        vec!["Jeff", "Goldbloom"],
        apply_substitution(&vec!["{}", "{}"], &vec!["Jeff", "Goldbloom"])
    );
}

#[test]
fn substitution_of_no_patterns_gives_no_patterns() {
    let none: Vec<String> = Vec::new();
    assert_eq!(none, apply_substitution(&vec![], &vec!["Jeff"]));
}

#[test]
fn substitution_keeps_the_order_of_the_patterns() {
    assert_eq!(
        vec![".a", ".b1", ".c", ".d2{}"],
        apply_substitution(&vec![".a", ".b{}", ".c", ".d{}{}"], &vec!["1", "2"])
    );
}

#[test]
fn substitution_shares_one_cursor_across_patterns() {
    assert_eq!(
        vec!["1-2", "3-{}", "{}"],
        apply_substitution(&vec!["{}-{}", "{}-{}", "{}"], &vec!["1", "2", "3"])
    );
}

#[test]
fn substitution_leaves_spare_parameters_unused() {
    assert_eq!(
        vec!["a1", "b"],
        apply_substitution(&vec!["a{}", "b"], &vec!["1", "2", "3"])
    );
}

#[test]
fn substitution_reads_an_inserted_parameter_again() {
    assert_eq!(
        vec!["<x>"],
        apply_substitution(&vec!["<{}>"], &vec!["{}", "x"])
    );
    assert_eq!(
        vec!["[a{}]"],
        apply_substitution(&vec!["[{}]"], &vec!["{}{}", "a"])
    );
}

#[test]
fn substitution_replaces_the_first_placeholder_first() {
    assert_eq!(
        vec![r#".video.mimes[*="mp4"]"#, r#".audio{"format":"aac"}"#],
        apply_substitution(
            &vec![r#".video.mimes[*="{}"]"#, r#".audio{"format":"{}"}"#],
            &vec!["mp4", "aac"]
        )
    );
    assert_eq!(
        vec![r#".video.mimes[*="mp4"]"#, r#".audio{"format"*:"{}"}"#],
        apply_substitution(
            &vec![r#".video.mimes[*="{}"]"#, r#".audio{"format"*:"{}"}"#],
            &vec!["mp4"]
        )
    );
}

#[test]
fn substitution_takes_braces_apart_for_what_they_are() {
    assert_eq!(
        vec!["{ }", "}{", "{x}", "é→ü"],
        apply_substitution(&vec!["{ }", "}{", "{{}}", "é{}ü"], &vec!["x", "→"])
    );
}

#[test]
fn substitution_is_idempotent_once_no_placeholder_remains() {
    let patterns = vec!["{}.name", ".list[{}]", ".x"];
    let params = vec![".job", "0", "spare"];
    let once = apply_substitution(&patterns, &params);
    assert_eq!(vec![".job.name", ".list[0]", ".x"], once);
    let again: Vec<&str> = once.iter().map(|s| s.as_str()).collect();
    assert_eq!(once, apply_substitution(&again, &params));
}

#[test]
fn an_empty_parameter_lets_the_braces_around_it_meet() {
    assert_eq!(
        vec!["x"],
        apply_substitution(&vec!["{{}}"], &vec!["", "x"])
    );
    assert_eq!(
        vec!["{}"],
        apply_substitution(&vec!["{{}}"], &vec![""])
    );
    assert_eq!(vec!["ab"], apply_substitution(&vec!["a{}b"], &vec![""]));
}
