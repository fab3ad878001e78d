use binbreak::high_scores::HighScores;

#[test]
fn empty_table_is_written_with_zeros() {
    let t = HighScores::empty();
    assert_eq!(t.get(4), 0);
    assert_eq!(t.to_text(), "4=0\n42=0\n44=0\n48=0\n412=0\n8=0\n12=0\n16=0\n");
}

#[test]
fn table_is_written_in_key_order() {
    let mut t = HighScores::empty();
    t.update(412, 1234);
    t.update(16, 4294967295);
    t.update(99, 5);
    assert_eq!(t.to_text(), "4=0\n42=0\n44=0\n48=0\n412=1234\n8=0\n12=0\n16=4294967295\n");
}

#[test]
fn file_lines_are_read_leniently() {
    let text = "4=10\n42=7\r\n  8 = 3 \nbad line\n12=-1\n16=+5\n44=99999999999\n48=1=2\n=5\n412=\n4=11";
    let t = HighScores::from_text(text);
    assert_eq!(t.get(4), 11);
    assert_eq!(t.get(42), 7);
    assert_eq!(t.get(8), 3);
    assert_eq!(t.get(12), 0);
    assert_eq!(t.get(16), 5);
    assert_eq!(t.get(44), 0);
    assert_eq!(t.get(48), 0);
    assert_eq!(t.get(412), 0);
}

#[test]
fn unicode_spaces_are_trimmed_and_plus_needs_digits() {
    let t = HighScores::from_text("\u{3000}4\u{a0}=\t+\n8=+9\n12=4294967296\n16=4294967295\n");
    assert_eq!(t.get(4), 0);
    assert_eq!(t.get(8), 9);
    assert_eq!(t.get(12), 0);
    assert_eq!(t.get(16), 4294967295);
    let t2 = HighScores::from_text("\u{3000}4\u{a0}=\t21\u{2003}");
    assert_eq!(t2.get(4), 21);
}

#[test]
fn saved_table_loads_back() {
    let mut t = HighScores::empty();
    t.update(4, 10);
    t.update(48, 300);
    t.update(7, 9);
    let back = HighScores::from_text(&t.to_text());
    assert_eq!(back.get(4), 10);
    assert_eq!(back.get(48), 300);
    assert_eq!(back.get(42), 0);
    assert_eq!(back.get(7), 0);
}

#[test]
fn update_replaces_the_score() {
    let mut t = HighScores::empty();
    t.update(8, 5);
    t.update(8, 2);
    assert_eq!(t.get(8), 2);
}
