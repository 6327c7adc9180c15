use jg::document::{Json, JsonNumber, Member};
use jg::selection::array::{array_index, greedily_matches, match_array_index};

fn text(value: &str) -> Json {
    Json::String(value.to_string())
}

fn number(value: i64) -> Json {
    Json::Number(JsonNumber::from_integer(value))
}

fn object(members: Vec<(&str, Json)>) -> Json {
    Json::Object(
        members
            .into_iter()
            .map(|(name, value)| Member {
                name: name.to_string(),
                value,
            })
            .collect(),
    )
}

fn element(data: &Json, index: usize) -> &Json {
    match data {
        Json::Array(elements) => &elements[index],
        _ => panic!("no array"),
    }
}

#[test]
fn array_should_match_array_index() {
    let res = greedily_matches(Some("[0]"));
    assert!(res.is_ok());

    let ref data = Json::Array(vec![object(vec![
        ("name", text("John Doe")),
        ("age", number(30)),
    ])]);

    match res {
        Ok((matcher, _)) => assert_eq!(matcher.select(Some(data)), Some(element(data, 0))),
        _ => panic!("Invalid result"),
    }
}

#[test]
fn array_should_return_remainder_when_it_matches_index() {
    let res = greedily_matches(Some("[0].title"));
    assert!(res.is_ok());

    match res {
        Ok((_, umatched)) => assert_eq!(umatched, Some(".title")),
        _ => panic!("Invalid result"),
    }
}

#[test]
fn array_should_return_node_when_json_is_present() {
    let ref data = Json::Array(vec![object(vec![
        ("name", text("John Doe")),
        ("age", number(30)),
    ])]);

    assert_eq!(array_index(0).select(Some(data)), Some(element(data, 0)));
}

#[test]
fn array_should_return_none_when_json_isnt_present() {
    assert_eq!(array_index(10).select(None), None);
}

#[test]
fn array_index_is_read_in_decimal() {
    assert_eq!(match_array_index("[10]"), Some((10, None)));
    assert_eq!(match_array_index("[007][1]"), Some((7, Some("[1]"))));
    assert_eq!(
        match_array_index("[18446744073709551615]"),
        Some((usize::MAX, None))
    );
    assert_eq!(match_array_index("[18446744073709551616]"), None);
    assert_eq!(match_array_index("[99999999999999999999999999]"), None);
}

#[test]
fn array_index_refuses_what_is_no_position() {
    for pattern in ["", "[", "[]", "[0", "0]", "[-1]", "[1.5]", "[ 1]", "[1 ]", "[a]", ".[0]"] {
        assert_eq!(match_array_index(pattern), None, "{:?}", pattern);
        assert_eq!(
            greedily_matches(Some(pattern)),
            Err(Some(pattern)),
            "{:?}",
            pattern
        );
    }
    assert_eq!(greedily_matches(None), Err(None));
}
