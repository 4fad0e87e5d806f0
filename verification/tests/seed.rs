use tunebook::{
    add_tune, get_new_tunes_from_friends, get_original_tune, get_original_tune_list,
    get_tune_count, init, load_seed, SeedError, SeedText, Store, Tune,
};

fn z(text: &str) -> String {
    text.to_string()
}

#[test]
fn the_seed_fills_an_empty_tune_book() {
    let mut store = Store::new();
    let seed = r#"{"The Kesh": "X:1\nR:jig", "Drowsy Maggie": "X:2\nR:reel"}"#;
    assert_eq!(init(&mut store, 50, seed), Ok(2));
    assert_eq!(get_tune_count(&store), 2);
    assert_eq!(
        get_new_tunes_from_friends(&store, 50, z("x")),
        vec![
            Tune {
                origin: true,
                title: z("Drowsy Maggie"),
                tune_data: z("X:2\nR:reel"),
                timestamp: 50,
                principals: vec![],
                username: Some(z("Tunebook")),
            },
            Tune {
                origin: true,
                title: z("The Kesh"),
                tune_data: z("X:1\nR:jig"),
                timestamp: 50,
                principals: vec![],
                username: Some(z("Tunebook")),
            },
        ]
    );
}

#[test]
fn the_seed_is_loaded_once() {
    let mut store = Store::new();
    assert_eq!(init(&mut store, 50, r#"{"a": "1", "b": "2"}"#), Ok(2));
    let before = get_new_tunes_from_friends(&store, 50, z("x"));
    assert_eq!(init(&mut store, 60, r#"{"a": "changed", "c": "3"}"#), Ok(0));
    assert_eq!(get_new_tunes_from_friends(&store, 50, z("x")), before);
    assert_eq!(init(&mut store, 60, "not json"), Ok(0));
    assert_eq!(init(&mut store, 60, r#"{"a": "1", "b": "2"}"#), Ok(0));
    assert_eq!(get_new_tunes_from_friends(&store, 50, z("x")), before);
    assert_eq!(get_tune_count(&store), 2);
}

#[test]
fn a_tune_book_with_any_tune_is_not_seeded() {
    let mut store = Store::new();
    assert!(add_tune(&mut store, 1, z("p1"), z("Mine"), z("abc"), false, None));
    assert_eq!(init(&mut store, 50, r#"{"a": "1"}"#), Ok(0));
    assert_eq!(get_original_tune_list(&store, z("p1"), 0), (vec![z("Mine")], 1));
    let seed = SeedText::Object(vec![(z("a"), Some(z("1")))]);
    assert_eq!(load_seed(&mut store, 50, seed), Ok(0));
    assert_eq!(load_seed(&mut store, 50, SeedText::Malformed), Ok(0));
    assert_eq!(get_original_tune_list(&store, z("p1"), 0), (vec![z("Mine")], 1));
}

#[test]
fn a_seed_that_is_not_json_is_refused() {
    let mut store = Store::new();
    assert_eq!(init(&mut store, 1, "{"), Err(SeedError::Malformed));
    assert_eq!(init(&mut store, 1, ""), Err(SeedError::Malformed));
    assert_eq!(init(&mut store, 1, r#"{"a": "1",}"#), Err(SeedError::Malformed));
    assert_eq!(get_tune_count(&store), 0);
}

#[test]
fn a_seed_that_is_not_an_object_is_refused() {
    let mut store = Store::new();
    assert_eq!(init(&mut store, 1, r#"["a", "b"]"#), Err(SeedError::NotAnObject));
    assert_eq!(init(&mut store, 1, r#""text""#), Err(SeedError::NotAnObject));
    assert_eq!(init(&mut store, 1, "12"), Err(SeedError::NotAnObject));
    assert_eq!(init(&mut store, 1, "null"), Err(SeedError::NotAnObject));
    assert_eq!(get_tune_count(&store), 0);
}

#[test]
fn a_seed_with_a_value_that_is_not_text_writes_nothing() {
    let mut store = Store::new();
    assert_eq!(init(&mut store, 1, r#"{"a": "1", "b": 2, "c": "3"}"#), Err(SeedError::BodyNotText));
    assert_eq!(init(&mut store, 1, r#"{"z": {"nested": "x"}}"#), Err(SeedError::BodyNotText));
    assert_eq!(get_tune_count(&store), 0);
    let seed = SeedText::Object(vec![(z("a"), Some(z("1"))), (z("b"), None)]);
    assert_eq!(load_seed(&mut store, 1, seed), Err(SeedError::BodyNotText));
    assert_eq!(load_seed(&mut store, 1, SeedText::Malformed), Err(SeedError::Malformed));
    assert_eq!(load_seed(&mut store, 1, SeedText::NotAnObject), Err(SeedError::NotAnObject));
    assert_eq!(get_tune_count(&store), 0);
}

#[test]
fn a_refused_seed_says_why() {
    assert_eq!(SeedError::Malformed.message(), "Failed to parse JSON");
    assert_eq!(SeedError::NotAnObject.message(), "The seed is not in the expected format");
    assert_eq!(SeedError::BodyNotText.message(), "A tune of the seed is not a text");
}

#[test]
fn an_empty_seed_loads_nothing() {
    let mut store = Store::new();
    assert_eq!(init(&mut store, 1, "{}"), Ok(0));
    assert_eq!(get_tune_count(&store), 0);
    assert_eq!(init(&mut store, 2, r#"{"a": "1"}"#), Ok(1));
    assert_eq!(get_tune_count(&store), 1);
}

#[test]
fn a_title_given_twice_keeps_its_last_text() {
    let mut store = Store::new();
    assert_eq!(init(&mut store, 1, r#"{"a": "first", "b": "x", "a": "last"}"#), Ok(2));
    assert_eq!(get_original_tune(&store, z("a")), "last");
    let mut store = Store::new();
    let seed = SeedText::Object(vec![
        (z("a"), Some(z("first"))),
        (z("b"), Some(z("x"))),
        (z("a"), Some(z("last"))),
    ]);
    assert_eq!(load_seed(&mut store, 1, seed), Ok(3));
    assert_eq!(get_tune_count(&store), 2);
    assert_eq!(get_original_tune(&store, z("a")), "last");
    assert_eq!(get_original_tune(&store, z("b")), "x");
}

#[test]
fn seed_texts_keep_their_escapes_decoded() {
    let mut store = Store::new();
    assert_eq!(init(&mut store, 1, r#"{"T\u00e9a": "a\"b\\c\td"}"#), Ok(1));
    assert_eq!(get_original_tune(&store, z("T\u{e9}a")), "a\"b\\c\td");
}
