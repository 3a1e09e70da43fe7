use vimscript_core::peekable_chars_with_position::PeekableCharsWithPosition;

#[test]
fn peek_returns_none_on_empty_input() {
    let peekable = PeekableCharsWithPosition::new("");
    assert_eq!(None, peekable.peek());
    assert_eq!(None, peekable.peek());
}

#[test]
fn peek_returns_first_element_multiple_time() {
    let peekable = PeekableCharsWithPosition::new("a");
    assert_eq!(Some('a'), peekable.peek());
    assert_eq!(Some('a'), peekable.peek());
    assert_eq!(Some('a'), peekable.peek());
}

#[test]
fn pos_returns_zero_on_empty_input() {
    let peekable = PeekableCharsWithPosition::new("");
    assert_eq!(0, peekable.pos());
    assert_eq!(0, peekable.pos());
}

#[test]
fn next_returns_none_on_empty_input() {
    let mut peekable = PeekableCharsWithPosition::new("");
    assert_eq!(None, peekable.next());
    assert_eq!(None, peekable.next());
}

#[test]
fn next_advances_iterator() {
    let mut peekable = PeekableCharsWithPosition::new("a");
    assert_eq!(Some('a'), peekable.next());

    assert_eq!(1, peekable.pos());
    assert_eq!(None, peekable.peek());
    assert_eq!(None, peekable.next());
}

#[test]
fn next_steps_over_a_whole_character() {
    let mut peekable = PeekableCharsWithPosition::new("é€😀x");
    assert_eq!(Some('é'), peekable.next());
    assert_eq!(2, peekable.pos());
    assert_eq!(Some('€'), peekable.next());
    assert_eq!(5, peekable.pos());
    assert_eq!(Some('😀'), peekable.peek());
    assert_eq!(Some('😀'), peekable.next());
    assert_eq!(9, peekable.pos());
    assert_eq!(Some('x'), peekable.next());
    assert_eq!(10, peekable.pos());
    assert_eq!(None, peekable.next());
    assert_eq!(10, peekable.pos());
}
