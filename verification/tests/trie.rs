use revi::editor::trie::Trie;

fn words() -> Vec<&'static str> {
    vec![
        "cowboy",
        "color",
        "c",
        "cow",
        "collect",
        "hello",
        "hell",
        "has_value",
        "hey",
    ]
}

#[test]
fn get_all_words() {
    let trie = Trie::from(&words());
    assert_eq!(
        trie.get_all_words(),
        vec![
            "c",
            "cow",
            "cowboy",
            "color",
            "collect",
            "hell",
            "hello",
            "hey",
            "has_value"
        ]
    )
}

#[test]
fn trie_return_right_branch() {
    let trie = Trie::from(&words());
    assert_eq!(trie.lookup("ha"), vec!["has_value"]);
}

#[test]
fn trie_could_be_one_of() {
    let trie = Trie::from(&words());
    assert_eq!(
        trie.lookup("c"),
        vec!["c", "cow", "cowboy", "color", "collect"],
    );
}

#[test]
fn trie_contains() {
    let trie = Trie::from(&words());
    println!("{:#?}", trie);
    assert!(trie.contains("cowboy"));
    assert!(trie.contains("color"));
    assert!(trie.contains("c"));
    assert!(trie.contains("cow"));
    assert!(trie.contains("cow"));
    assert!(trie.contains("collect"));
    assert!(trie.contains("hello"));
    assert!(trie.contains("hell"));
    assert!(trie.contains("has_value"));
    assert!(trie.contains("hey"));
    assert!(!trie.contains("h"));
    assert!(!trie.contains("hlasdjfa"));
    assert!(!trie.contains("cowboybe"));
}
