use lexicons::casing::{convert_casing_to_pascal, convert_casing_to_snake};

#[test]
fn camel_to_snake() {
    assert_eq!(convert_casing_to_snake("createSession"), "create_session");
}

#[test]
fn camel_to_pascal() {
    assert_eq!(convert_casing_to_pascal("createSession"), "CreateSession");
}

#[test]
fn screaming_to_pascal() {
    assert_eq!(convert_casing_to_pascal("SCREAMING_CASE"), "ScreamingCase");
}

#[test]
fn screaming_to_snake() {
    assert_eq!(convert_casing_to_snake("SCREAMING_SNAKE_CASE"), "screaming_snake_case");
}

#[test]
fn pascal_to_snake() {
    assert_eq!(convert_casing_to_snake("PascalCase"), "pascal_case");
}

#[test]
fn snake_to_pascal() {
    assert_eq!(convert_casing_to_pascal("snake_case_name"), "SnakeCaseName");
}

#[test]
fn empty_input() {
    assert_eq!(convert_casing_to_snake(""), "");
    assert_eq!(convert_casing_to_pascal(""), "");
}

#[test]
fn upper_run_then_word() {
    // An uppercase run takes every capital it meets.
    assert_eq!(convert_casing_to_snake("HTTPServer"), "https_erver");
    assert_eq!(convert_casing_to_pascal("getURL"), "GetUrl");
}

#[test]
fn digits_join_lowercase_runs() {
    assert_eq!(convert_casing_to_snake("utf8Decode"), "utf8_decode");
    assert_eq!(convert_casing_to_pascal("base64"), "Base64");
}

#[test]
fn other_characters_are_dropped() {
    assert_eq!(convert_casing_to_snake("com.atproto-server"), "com_atproto_server");
    assert_eq!(convert_casing_to_pascal("a b!c"), "ABC");
}

#[test]
fn single_letter_words_are_uppercased() {
    assert_eq!(convert_casing_to_pascal("a_b"), "AB");
}

#[test]
fn pascal_twice_is_stable() {
    for s in ["createSession", "SCREAMING_CASE", "snake_case", "getURL", "utf8Decode", "x"] {
        let once = convert_casing_to_pascal(s);
        assert_eq!(convert_casing_to_pascal(&once), once);
    }
}

#[test]
fn pascal_twice_changes_adjacent_capitals() {
    let once = convert_casing_to_pascal("a_b");
    assert_eq!(once, "AB");
    assert_eq!(convert_casing_to_pascal(&once), "Ab");
}

#[test]
fn pascal_of_snake_is_stable() {
    let s = convert_casing_to_snake("createSession");
    assert_eq!(convert_casing_to_pascal(&s), "CreateSession");
}
