use tic_tac_toe::{Command, interpret, parse_move};

#[test]
fn undo_word_is_undo() {
    assert_eq!(interpret("undo"), Command::Undo);
}

#[test]
fn two_coordinates_place() {
    assert_eq!(interpret("1 2"), Command::PlaceAt(1, 2));
    assert_eq!(interpret("0 0"), Command::PlaceAt(0, 0));
    assert_eq!(interpret("2 2"), Command::PlaceAt(2, 2));
    assert_eq!(interpret("2\t1"), Command::PlaceAt(2, 1));
    assert_eq!(interpret("1  2"), Command::PlaceAt(1, 2));
}

#[test]
fn out_of_range_numeral_is_invalid() {
    assert_eq!(interpret("5 1"), Command::Invalid);
    assert_eq!(interpret("1 3"), Command::Invalid);
    assert_eq!(interpret("3 0"), Command::Invalid);
    assert_eq!(interpret("99999999999999999999 1"), Command::Invalid);
}

#[test]
fn non_numeric_is_invalid() {
    assert_eq!(interpret("a b"), Command::Invalid);
    assert_eq!(interpret("1 b"), Command::Invalid);
    assert_eq!(interpret("one two"), Command::Invalid);
    assert_eq!(interpret("1,2"), Command::Invalid);
    assert_eq!(interpret("-1 2"), Command::Invalid);
}

#[test]
fn wrong_token_count_is_invalid() {
    assert_eq!(interpret(""), Command::Invalid);
    assert_eq!(interpret("1"), Command::Invalid);
    assert_eq!(interpret("1 2 3"), Command::Invalid);
    assert_eq!(interpret("undo 1"), Command::Invalid);
}

#[test]
fn undo_must_be_exact() {
    // The loop hands `interpret` a trimmed, lower-cased line; anything else
    // is not the undo word.
    assert_eq!(interpret("undo "), Command::Invalid);
    assert_eq!(interpret("redo"), Command::Invalid);
    assert_eq!(interpret("und"), Command::Invalid);
    assert_eq!(interpret("undos"), Command::Invalid);
}

#[test]
fn parse_move_accepts_exactly_two_small_numerals() {
    assert_eq!(parse_move("1 2"), Some((1, 2)));
    assert_eq!(parse_move("0 2"), Some((0, 2)));
    assert_eq!(parse_move("+1 2"), Some((1, 2)));
    assert_eq!(parse_move("02 1"), Some((2, 1)));
    assert_eq!(parse_move("0000 1"), Some((0, 1)));
    assert_eq!(parse_move("1 2 3"), None);
    assert_eq!(parse_move("12"), None);
    assert_eq!(parse_move("3 1"), None);
    assert_eq!(parse_move("1 +"), None);
    assert_eq!(parse_move("++1 1"), None);
    assert_eq!(parse_move("1.0 2"), None);
}
