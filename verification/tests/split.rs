use pynit::split::split_list;

#[test]
fn empty_pieces_are_discarded() {
    let r = split_list("a;;b", ';');
    assert_eq!(r, vec!["a".to_string(), "b".to_string()]);
}

#[test]
fn rejoined_list_resplits_to_itself() {
    let l = vec!["a".to_string(), "b".to_string(), "c".to_string()];
    let joined = l.join(";");
    assert_eq!(joined, "a;b;c");
    assert_eq!(split_list(&joined, ';'), l);
}

#[test]
fn empty_input_gives_no_pieces() {
    assert_eq!(split_list("", ';'), Vec::<String>::new());
}

#[test]
fn only_delimiters_give_no_pieces() {
    assert_eq!(split_list(";;;", ';'), Vec::<String>::new());
}

#[test]
fn inner_whitespace_is_not_trimmed() {
    assert_eq!(split_list("a ; b", ';'), vec!["a ".to_string(), " b".to_string()]);
}

#[test]
fn comma_delimiter_splits_build_requires() {
    assert_eq!(
        split_list("setuptools,wheel", ','),
        vec!["setuptools".to_string(), "wheel".to_string()]
    );
}

#[test]
fn leading_and_trailing_delimiters_are_dropped() {
    assert_eq!(split_list(";a;", ';'), vec!["a".to_string()]);
}
