use jg::document::{Json, JsonNumber, Member};
use jg::selection::prop::{Prop, PropParser};
use jg::selection::value_matchers::{JsonValueMatcher, JsonValueMemberMatcher};
use jg::selection::Lens;

fn text(value: &str) -> Json {
    Json::String(value.to_string())
}

fn number(value: i64) -> Json {
    Json::Number(JsonNumber::from_integer(value))
}

fn object(members: Vec<(&str, Json)>) -> Json {
    Json::Object(
        members
            .into_iter()
            .map(|(name, value)| Member {
                name: name.to_string(),
                value,
            })
            .collect(),
    )
}

fn at<'a>(data: &'a Json, name: &str) -> &'a Json {
    match data {
        Json::Object(members) => {
            &members
                .iter()
                .find(|member| member.name == name)
                .unwrap()
                .value
        }
        _ => panic!("no object"),
    }
}

fn literal(value: &str) -> JsonValueMatcher {
    JsonValueMatcher::String(value.to_string())
}

#[test]
fn should_match_prop() {
    let prop_parser = PropParser {};
    let res = prop_parser.try_parse(Some(".name"));
    assert!(res.is_ok());

    let data = &object(vec![("name", text("John Doe")), ("age", number(30))]);

    match res {
        Ok((matcher, _)) => assert_eq!(matcher.select(Some(data)), Some(at(data, "name"))),
        _ => panic!("Invalid result"),
    }
}

#[test]
fn shouldnt_match_identity() {
    let prop_parser = PropParser {};
    let res = prop_parser.try_parse(Some("."));
    assert!(res.is_err());
    match res {
        Err(Some(selector)) => assert_eq!(selector, "."),
        _ => panic!("Invalid result"),
    }
}

#[test]
fn should_return_remainder_when_it_matches_prop() {
    let prop_parser = PropParser {};
    let res = prop_parser.try_parse(Some(".father.title"));
    assert!(res.is_ok());

    match res {
        Ok((_, umatched)) => assert_eq!(umatched, Some(".title")),
        _ => panic!("Invalid result"),
    }
}

#[test]
fn prop_should_return_none_when_json_isnt_present() {
    let prop = Prop {
        name: String::from(".id"),
        value: None,
    };
    assert_eq!(prop.select(None), None);
}

#[test]
fn should_return_json_prop_when_json_has_prop() {
    let data = &object(vec![("name", text("John Doe")), ("age", number(30))]);

    let prop = Prop {
        name: String::from("name"),
        value: None,
    };

    assert_eq!(prop.select(Some(data)), Some(at(data, "name")));
}

#[test]
fn should_match_number_prop() {
    let prop_parser = PropParser {};
    let res = prop_parser.try_parse(Some(r#"{"age":30}"#));
    assert!(res.is_ok());

    let data = &object(vec![("name", text("John Doe")), ("age", number(30))]);

    match res {
        Ok((matcher, _)) => assert_eq!(matcher.select(Some(data)), Some(at(data, "age"))),
        _ => panic!("Invalid result"),
    }
}

#[test]
fn should_match_string_property_value_when_using_exact_matching_strategy() {
    let prop_parser = PropParser {};
    let res = prop_parser.try_parse(Some(r#"{"country":"IRL"}"#));
    assert!(res.is_ok());

    let data = &object(vec![
        ("name", text("John Doe")),
        ("age", number(30)),
        ("country", text("IRL")),
    ]);

    match res {
        Ok((matcher, _)) => assert_eq!(matcher.select(Some(data)), Some(at(data, "country"))),
        _ => panic!("Invalid result"),
    }
}

#[test]
fn should_match_string_property_value_when_using_contains_exact_matching_strategy() {
    let prop_parser = PropParser {};
    let res = prop_parser.try_parse(Some(r#"{"country"~:"GBR"}"#));
    assert!(res.is_ok());

    let data = &object(vec![
        ("name", text("John Doe")),
        ("age", number(30)),
        ("country", text("IRL GBR")),
    ]);

    match res {
        Ok((matcher, _)) => assert_eq!(matcher.select(Some(data)), Some(at(data, "country"))),
        _ => panic!("Invalid result"),
    }
}

#[test]
fn should_match_string_property_value_when_using_prefixed_matching_strategy() {
    let prop_parser = PropParser {};
    let res = prop_parser.try_parse(Some(r#"{"country"^:"IRL"}"#));
    assert!(res.is_ok());

    let data = &object(vec![
        ("name", text("John Doe")),
        ("age", number(30)),
        ("country", text("IRL GBR")),
    ]);

    match res {
        Ok((matcher, _)) => assert_eq!(matcher.select(Some(data)), Some(at(data, "country"))),
        _ => panic!("Invalid result"),
    }
}

#[test]
fn should_match_string_property_value_when_using_suffixed_matching_strategy() {
    let prop_parser = PropParser {};
    let res = prop_parser.try_parse(Some(r#"{"country"$:"GBR"}"#));
    assert!(res.is_ok());

    let data = &object(vec![
        ("name", text("John Doe")),
        ("age", number(30)),
        ("country", text("IRL GBR")),
    ]);

    match res {
        Ok((matcher, _)) => assert_eq!(matcher.select(Some(data)), Some(at(data, "country"))),
        _ => panic!("Invalid result"),
    }
}

#[test]
fn should_match_boolean_false_prop() {
    let prop_parser = PropParser {};
    let res = prop_parser.try_parse(Some(r#"{"is_known":false}"#));
    assert!(res.is_ok());

    let data = &object(vec![
        ("name", text("John Doe")),
        ("age", number(30)),
        ("is_known", Json::Boolean(false)),
    ]);

    match res {
        Ok((matcher, _)) => assert_eq!(matcher.select(Some(data)), Some(at(data, "is_known"))),
        _ => panic!("Invalid result"),
    }
}

#[test]
fn should_match_boolean_true_prop() {
    let prop_parser = PropParser {};
    let res = prop_parser.try_parse(Some(r#"{"is_anonymous":true}"#));
    assert!(res.is_ok());

    let data = &object(vec![
        ("name", text("John Doe")),
        ("age", number(30)),
        ("is_anonymous", Json::Boolean(true)),
    ]);

    match res {
        Ok((matcher, _)) => {
            assert_eq!(matcher.select(Some(data)), Some(at(data, "is_anonymous")))
        }
        _ => panic!("Invalid result"),
    }
}

#[test]
fn should_match_null_prop() {
    let prop_parser = PropParser {};
    let res = prop_parser.try_parse(Some(r#"{"identity":null}"#));
    assert!(res.is_ok());

    let data = &object(vec![
        ("name", text("John Doe")),
        ("age", number(30)),
        ("identity", Json::Null),
    ]);

    match res {
        Ok((matcher, _)) => assert_eq!(matcher.select(Some(data)), Some(at(data, "identity"))),
        _ => panic!("Invalid result"),
    }
}

#[test]
fn prop_selects_the_member_itself() {
    let data = object(vec![("name", text("John Doe")), ("age", number(30))]);
    let prop = Prop {
        name: String::from("age"),
        value: None,
    };
    assert!(std::ptr::eq(prop.select(Some(&data)).unwrap(), at(&data, "age")));
}

#[test]
fn prop_finds_nothing_in_what_is_no_object() {
    let prop = Prop {
        name: String::from("name"),
        value: None,
    };
    assert_eq!(prop.select(Some(&Json::Null)), None);
    assert_eq!(prop.select(Some(&text("name"))), None);
    assert_eq!(prop.select(Some(&number(1))), None);
    assert_eq!(prop.select(Some(&Json::Boolean(true))), None);
    assert_eq!(
        prop.select(Some(&Json::Array(vec![object(vec![("name", text("x"))])]))),
        None
    );
    assert_eq!(prop.select(Some(&object(vec![]))), None);
    assert_eq!(prop.select(Some(&object(vec![("Name", text("x"))]))), None);
}

#[test]
fn prop_with_a_test_asks_it_of_the_value() {
    let data = &object(vec![("age", number(31)), ("country", text("IRL GBR"))]);
    let by = |name: &str, value: JsonValueMemberMatcher| Prop {
        name: String::from(name),
        value: Some(value),
    };
    let age = at(data, "age");
    let country = at(data, "country");

    let exact = |n: i64| JsonValueMemberMatcher::Exact(JsonValueMatcher::Number(n));
    assert_eq!(by("age", exact(30)).select(Some(data)), None);
    assert_eq!(by("age", exact(31)).select(Some(data)), Some(age));
    assert_eq!(by("missing", exact(31)).select(Some(data)), None);

    let exact_text = JsonValueMemberMatcher::Exact(literal("IRL"));
    assert_eq!(by("country", exact_text).select(Some(data)), None);
    let exact_text = JsonValueMemberMatcher::Exact(literal("IRL GBR"));
    assert_eq!(by("country", exact_text).select(Some(data)), Some(country));
    let kind = JsonValueMemberMatcher::Exact(literal("31"));
    assert_eq!(by("age", kind).select(Some(data)), None);

    let token = |t: &str| JsonValueMemberMatcher::ContainsExact(literal(t));
    assert_eq!(by("country", token("IRL")).select(Some(data)), Some(country));
    assert_eq!(by("country", token("GBR")).select(Some(data)), Some(country));
    assert_eq!(by("country", token("IR")).select(Some(data)), None);
    assert_eq!(by("country", token("IRL GBR")).select(Some(data)), None);
    assert_eq!(by("country", token("")).select(Some(data)), None);

    let prefix = |t: &str| JsonValueMemberMatcher::Prefixed(literal(t));
    assert_eq!(by("country", prefix("IRL ")).select(Some(data)), Some(country));
    assert_eq!(by("country", prefix("")).select(Some(data)), Some(country));
    assert_eq!(by("country", prefix("GBR")).select(Some(data)), None);
    assert_eq!(by("country", prefix("IRL GBR!")).select(Some(data)), None);

    let suffix = |t: &str| JsonValueMemberMatcher::Suffixed(literal(t));
    assert_eq!(by("country", suffix(" GBR")).select(Some(data)), Some(country));
    assert_eq!(by("country", suffix("")).select(Some(data)), Some(country));
    assert_eq!(by("country", suffix("IRL")).select(Some(data)), None);

    let part = |t: &str| JsonValueMemberMatcher::Contains(literal(t));
    assert_eq!(by("country", part("L G")).select(Some(data)), Some(country));
    assert_eq!(by("country", part("")).select(Some(data)), Some(country));
    assert_eq!(by("country", part("LG")).select(Some(data)), None);
    assert_eq!(by("age", part("3")).select(Some(data)), None);
}

#[test]
fn prop_value_tests_hand_back_the_value_or_nothing() {
    let country = text("IRL GBR");
    let age = number(30);
    let flag = Json::Boolean(true);

    assert_eq!(
        Prop::prop_value_matches_exact(&country, &literal("IRL GBR")),
        Some(&country)
    );
    assert_eq!(Prop::prop_value_matches_exact(&country, &literal("IRL")), None);
    assert_eq!(
        Prop::prop_value_matches_exact(&age, &JsonValueMatcher::Number(30)),
        Some(&age)
    );
    assert_eq!(
        Prop::prop_value_matches_exact(&age, &JsonValueMatcher::Number(-30)),
        None
    );
    assert_eq!(
        Prop::prop_value_matches_exact(&flag, &JsonValueMatcher::Boolean(true)),
        Some(&flag)
    );
    assert_eq!(
        Prop::prop_value_matches_exact(&flag, &JsonValueMatcher::Boolean(false)),
        None
    );
    assert_eq!(
        Prop::prop_value_matches_exact(&Json::Null, &JsonValueMatcher::Null),
        Some(&Json::Null)
    );
    assert_eq!(
        Prop::prop_value_matches_exact(&flag, &JsonValueMatcher::Null),
        None
    );
    assert_eq!(
        Prop::prop_value_matches_exact(&Json::Array(vec![]), &JsonValueMatcher::Null),
        None
    );

    assert_eq!(
        Prop::prop_value_contains_exact(&country, &literal("GBR")),
        Some(&country)
    );
    assert_eq!(Prop::prop_value_contains_exact(&country, &literal("GB")), None);
    assert_eq!(
        Prop::prop_value_contains_exact(&age, &JsonValueMatcher::Number(30)),
        None
    );
    assert_eq!(
        Prop::prop_value_is_prefixed_by(&country, &literal("IR")),
        Some(&country)
    );
    assert_eq!(Prop::prop_value_is_prefixed_by(&country, &literal("RL")), None);
    assert_eq!(
        Prop::prop_value_is_prefixed_by(&flag, &JsonValueMatcher::Boolean(true)),
        None
    );
    assert_eq!(
        Prop::prop_value_is_suffixed_by(&country, &literal("BR")),
        Some(&country)
    );
    assert_eq!(Prop::prop_value_is_suffixed_by(&country, &literal("GB")), None);
    assert_eq!(
        Prop::prop_value_is_suffixed_by(&Json::Null, &JsonValueMatcher::Null),
        None
    );
    assert_eq!(
        Prop::prop_value_contains(&country, &literal("L G")),
        Some(&country)
    );
    assert_eq!(Prop::prop_value_contains(&country, &literal("irl")), None);
    assert_eq!(
        Prop::prop_value_contains(&age, &JsonValueMatcher::Number(3)),
        None
    );
}

#[test]
fn tokens_are_split_on_every_kind_of_white_space() {
    let value = text("\tone  two\u{a0}three\nfour\u{3000}five ");
    for token in ["one", "two", "three", "four", "five"] {
        assert_eq!(
            Prop::prop_value_contains_exact(&value, &literal(token)),
            Some(&value)
        );
    }
    for token in ["", " ", "on", "ne", "two\u{a0}three", "one  two", "five "] {
        assert_eq!(Prop::prop_value_contains_exact(&value, &literal(token)), None);
    }
    let blank = text(" \t\n");
    assert_eq!(Prop::prop_value_contains_exact(&blank, &literal("")), None);
    let empty = text("");
    assert_eq!(Prop::prop_value_contains_exact(&empty, &literal("")), None);
    let single = text("alone");
    assert_eq!(
        Prop::prop_value_contains_exact(&single, &literal("alone")),
        Some(&single)
    );
}

#[test]
fn match_prop_reads_both_spellings() {
    assert_eq!(PropParser::match_prop(".name"), Some(("name", None, None)));
    assert_eq!(
        PropParser::match_prop(".job.title"),
        Some(("job", None, Some(".title")))
    );
    assert_eq!(
        PropParser::match_prop(r#"{"name"}"#),
        Some(("name", None, None))
    );
    assert_eq!(
        PropParser::match_prop(r#"{"name"}[0]"#),
        Some(("name", None, Some("[0]")))
    );
    assert_eq!(
        PropParser::match_prop(r#"{"name"*:"f "}.x"#),
        Some((
            "name",
            Some(JsonValueMemberMatcher::Contains(literal("f "))),
            Some(".x")
        ))
    );
    assert_eq!(
        PropParser::match_prop(r#"{"a_1":007}"#),
        Some((
            "a_1",
            Some(JsonValueMemberMatcher::Exact(JsonValueMatcher::Number(7))),
            None
        ))
    );
    assert_eq!(
        PropParser::match_prop(r#"{"a":9223372036854775807}"#),
        Some((
            "a",
            Some(JsonValueMemberMatcher::Exact(JsonValueMatcher::Number(
                i64::MAX
            ))),
            None
        ))
    );
}

#[test]
fn match_prop_refuses_what_is_no_property() {
    for pattern in [
        "",
        ".",
        "..a",
        ". a",
        ".-a",
        "name",
        "{}",
        r#"{""}"#,
        r#"{"a"#,
        r#"{"a""#,
        r#"{"a" }"#,
        r#"{"a b"}"#,
        r#"{"a":}"#,
        r#"{"a":""}"#,
        r#"{"a":"x}"#,
        r#"{"a":"x"y"}"#,
        r#"{"a"::"x"}"#,
        r#"{"a":~:"x"}"#,
        r#"{"a"~"x"}"#,
        r#"{"a"="x"}"#,
        r#"{"a":maybe}"#,
        r#"{"a":True}"#,
        r#"{"a":30x}"#,
        r#"{"a":-30}"#,
        r#"{"a":3.0}"#,
        r#"{"a":9223372036854775808}"#,
        r#"{"a":30"#,
        r#"{a:30}"#,
        r#"{'a':30}"#,
        r#"[0]"#,
    ] {
        assert_eq!(PropParser::match_prop(pattern), None, "{:?}", pattern);
        assert_eq!(
            PropParser {}.try_parse(Some(pattern)),
            Err(Some(pattern)),
            "{:?}",
            pattern
        );
    }
    assert_eq!(PropParser {}.try_parse(None), Err(None));
}

#[test]
fn try_parse_builds_the_property_lens() {
    let res = PropParser {}.try_parse(Some(r#"{"country"^:"IRL"}.rest"#));
    assert_eq!(
        res,
        Ok((
            Lens::Prop(Prop {
                name: String::from("country"),
                value: Some(JsonValueMemberMatcher::Prefixed(literal("IRL"))),
            }),
            Some(".rest")
        ))
    );
}
