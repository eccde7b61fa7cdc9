use search::StopList;

#[test]
fn english_stoplist_resolves() {
    let stops = StopList::for_language("english").expect("english has a stopword table");
    assert!(stops.is_stopword("the"));
    assert!(stops.is_stopword("and"));
    assert!(!stops.is_stopword("brocolli"));
}

#[test]
fn stopword_membership_is_case_insensitive() {
    let stops = StopList::for_language("english").unwrap();
    let a = stops.is_stopword("The");
    let b = stops.is_stopword("the");
    let c = stops.is_stopword("THE");
    assert!(a);
    assert_eq!(a, b);
    assert_eq!(b, c);
}

#[test]
fn language_lookup_is_case_sensitive() {
    assert!(StopList::for_language("english").is_some());
    assert!(StopList::for_language("English").is_none());
    assert!(StopList::for_language("ENGLISH").is_none());
}

#[test]
fn unsupported_languages_have_no_stoplist() {
    assert!(StopList::for_language("klingon").is_none());
    // The language name parses, but the Spark tables carry no list for it.
    assert!(StopList::for_language("nepali").is_none());
}

#[test]
fn custom_word_lists_lowercase_and_collapse() {
    let words = vec![
        String::from("The"),
        String::from("AND"),
        String::from("and"),
    ];
    let stops = StopList::from_words(&words);
    assert!(stops.is_stopword("the"));
    assert!(stops.is_stopword("ThE"));
    assert!(stops.is_stopword("and"));
    assert!(stops.is_stopword("And"));
    assert!(!stops.is_stopword("or"));
}

#[test]
fn lowercasing_reaches_the_stored_words() {
    // If the words were stored as given, an upper-case list entry could
    // never match its lower-case query form.
    let words = vec![String::from("ONLY")];
    let stops = StopList::from_words(&words);
    assert!(stops.is_stopword("only"));
    assert!(stops.is_stopword("ONLY"));
}

#[test]
fn lowercasing_is_not_limited_to_ascii() {
    // Cyrillic capital letters lowercase too, on the stored and on the
    // queried side alike.
    let words = vec![String::from("И")];
    let stops = StopList::from_words(&words);
    assert!(stops.is_stopword("и"));
    assert!(stops.is_stopword("И"));

    let russian = StopList::for_language("russian").unwrap();
    assert!(russian.is_stopword("и"));
    assert!(russian.is_stopword("И"));
    assert!(!russian.is_stopword("бронтозавр"));
}
