use slang::source::{Location, Source};

#[test]
fn start_is_line_one_column_one() {
    let location = Location::start();
    assert_eq!(location.index, 0);
    assert_eq!(location.line, 1);
    assert_eq!(location.column, 1);
}

#[test]
fn advance_tracks_lines_and_columns() {
    let mut source = Source::new("ab\nc");
    assert_eq!(source.peek(), Some('a'));
    assert_eq!(source.peek_after(), Some('b'));
    assert_eq!(source.advance(), Some('a'));
    assert_eq!(source.location().column, 2);
    assert!(source.matches('b'));
    assert!(!source.matches('x'));
    assert_eq!(source.advance(), Some('\n'));
    let location = source.location();
    assert_eq!((location.index, location.line, location.column), (3, 2, 1));
    assert_eq!(source.advance(), Some('c'));
    assert!(source.at_end());
    assert_eq!(source.advance(), None);
    assert_eq!(source.location().index, 4);
}
