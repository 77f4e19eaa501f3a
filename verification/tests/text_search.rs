use ident_remover::text::{chars_of, contains_text, same_text, trim_text};

#[test]
fn contains_finds_runs_of_characters() {
    assert!(contains_text("\"Inactive\"", "Inactive"));
    assert!(contains_text("Inactive", "Inactive"));
    assert!(contains_text("abc", ""));
    assert!(contains_text("", ""));
    assert!(!contains_text("\"inactive\"", "Inactive"));
    assert!(!contains_text("Inactiv", "Inactive"));
    assert!(contains_text("xxInactivexx", "Inactive"));
    assert!(contains_text("ééx", "éx"));
}

#[test]
fn same_text_compares_characters() {
    assert!(same_text("status", "status"));
    assert!(!same_text("status", "Status"));
    assert!(!same_text("status", "statu"));
    assert!(same_text("", ""));
}

#[test]
fn trim_takes_white_space_off_both_ends() {
    let t: String = trim_text("  y\n").into_iter().collect();
    assert_eq!(t, "y");
    let t: String = trim_text("\u{3000}\u{85} a b \t").into_iter().collect();
    assert_eq!(t, "a b");
    let t: String = trim_text(" \n\t").into_iter().collect();
    assert_eq!(t, "");
    for s in ["  y\n", "\u{3000}\u{85} a b \t", "", " \n", "x", "\u{200b}y\u{200b}"] {
        let t: String = trim_text(s).into_iter().collect();
        assert_eq!(t, s.trim());
    }
    assert_eq!(chars_of("aé"), vec!['a', 'é']);
}
