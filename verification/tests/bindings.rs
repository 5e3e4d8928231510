use book_catalog::binding::Binding;

#[test]
fn bindings_are_written_as_upper_case_tokens() {
    assert_eq!(Binding::Hardcover.token(), "HARDCOVER");
    assert_eq!(Binding::Paperback.token(), "PAPERBACK");
}

#[test]
fn tokens_are_read_back_as_bindings() {
    assert_eq!(Binding::from_token("HARDCOVER"), Some(Binding::Hardcover));
    assert_eq!(Binding::from_token("PAPERBACK"), Some(Binding::Paperback));
    assert_eq!(Binding::from_token(Binding::Hardcover.token()), Some(Binding::Hardcover));
    assert_eq!(Binding::from_token(Binding::Paperback.token()), Some(Binding::Paperback));
}

#[test]
fn other_texts_are_no_bindings() {
    assert_eq!(Binding::from_token("hardcover"), None);
    assert_eq!(Binding::from_token("Paperback"), None);
    assert_eq!(Binding::from_token(""), None);
    assert_eq!(Binding::from_token("HARDCOVER "), None);
    assert_eq!(Binding::from_token("EBOOK"), None);
}
