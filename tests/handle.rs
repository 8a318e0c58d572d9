use line_transformer::{handle, process_line, EvenLengthFilter, Reverser, TextReader, Transformer};

fn run<T: Transformer>(text: &str, t: &T) -> Vec<u8> {
    let mut input = TextReader::new(text);
    let mut output: Vec<u8> = vec![];
    handle(&mut input, &mut output, t);
    output
}

#[test]
fn test_single_line() {
    let mut input = TextReader::new("12345");
    let mut output: Vec<u8> = vec![];

    handle(&mut input, &mut output, &Reverser);
    assert_eq!("54321\n".as_bytes(), output);
    let mut remaining: String = String::new();
    input.read_to_string(&mut remaining);
    assert_eq!("", remaining);
}

#[test]
fn test_with_endline() {
    let mut input = TextReader::new("abc\n");
    let mut output: Vec<u8> = vec![];

    handle(&mut input, &mut output, &Reverser);
    assert_eq!("cba\n".as_bytes(), output);
}

#[test]
fn test_multiline() {
    let mut input = TextReader::new("ab\ncd");
    let mut output: Vec<u8> = vec![];

    handle(&mut input, &mut output, &Reverser);
    assert_eq!("ba\ndc\n".as_bytes(), output);
}

#[test]
fn lib_test_single_line() {
    let mut input = TextReader::new("12\n123\n12");
    let mut output: Vec<u8> = vec![];

    handle(&mut input, &mut output, &EvenLengthFilter);
    assert_eq!("12\n12\n".as_bytes(), output);
}

#[test]
fn empty_input_gives_empty_output() {
    assert!(run("", &Reverser).is_empty());
    assert!(run("", &EvenLengthFilter).is_empty());
}

#[test]
fn output_is_appended_to_existing_bytes() {
    let mut input = TextReader::new("xy");
    let mut output: Vec<u8> = b"head:".to_vec();
    handle(&mut input, &mut output, &Reverser);
    assert_eq!("head:yx\n".as_bytes(), output);
}

#[test]
fn empty_lines_are_lines() {
    assert_eq!("\n\nba\n".as_bytes(), run("\n\nab\n", &Reverser));
    // An empty line has even length and is kept.
    assert_eq!("\n\n".as_bytes(), run("\n\n", &EvenLengthFilter));
}

#[test]
fn only_one_newline_is_stripped_per_line() {
    assert_eq!("a\n\n".as_bytes(), run("a\n\n", &Reverser));
}

#[test]
fn carriage_return_is_content() {
    assert_eq!("\rba\n".as_bytes(), run("ab\r\n", &Reverser));
}

#[test]
fn order_of_lines_is_kept() {
    assert_eq!("1\n2\n3\n".as_bytes(), run("1\n2\n3", &Reverser));
    assert_eq!("ab\ncd\nef\n".as_bytes(), run("ab\nxyz\ncd\nq\nef", &EvenLengthFilter));
}

#[test]
fn suppressed_line_leaves_no_blank_line() {
    let with = run("ab\nxyz\ncd\n", &EvenLengthFilter);
    let without = run("ab\ncd\n", &EvenLengthFilter);
    assert_eq!(without, with);
    assert_eq!("ab\ncd\n".as_bytes(), with);
    assert!(run("abc", &EvenLengthFilter).is_empty());
}

#[test]
fn final_line_gets_exactly_one_newline() {
    assert_eq!(run("ab\ncd", &Reverser), run("ab\ncd\n", &Reverser));
    assert_eq!("ba\ndc\n".as_bytes(), run("ab\ncd\n", &Reverser));
}

#[test]
fn reversing_twice_restores_the_line() {
    for line in ["", "a", "hello", "h\u{e9}llo w\u{f6}rld"] {
        let once = Reverser.apply(line).unwrap();
        let twice = Reverser.apply(&once).unwrap();
        assert_eq!(line, twice);
    }
}

#[test]
fn reverser_reverses_characters_not_bytes() {
    assert_eq!(Some("\u{e9}ba".to_string()), Reverser.apply("ab\u{e9}"));
    assert_eq!("\u{e9}ba\n".as_bytes(), run("ab\u{e9}", &Reverser));
}

#[test]
fn even_length_counts_characters() {
    // Two characters, three bytes.
    assert_eq!(Some("a\u{e9}".to_string()), EvenLengthFilter.apply("a\u{e9}"));
    assert_eq!(None, EvenLengthFilter.apply("\u{e9}"));
    assert_eq!(Some(String::new()), EvenLengthFilter.apply(""));
}

#[test]
fn process_line_strips_and_terminates() {
    assert_eq!(Some("cba\n".to_string()), process_line("abc\n", &Reverser));
    assert_eq!(Some("cba\n".to_string()), process_line("abc", &Reverser));
    assert_eq!(Some("\n".to_string()), process_line("\n", &Reverser));
    assert_eq!(None, process_line("abc\n", &EvenLengthFilter));
    assert_eq!(Some("ab\n".to_string()), process_line("ab\n", &EvenLengthFilter));
}

#[test]
fn read_line_returns_lines_in_turn() {
    let mut input = TextReader::new("ab\n\nc\u{e9}");
    let mut buf = String::new();
    assert_eq!(3, input.read_line(&mut buf));
    assert_eq!("ab\n", buf);
    assert_eq!(1, input.read_line(&mut buf));
    assert_eq!("ab\n\n", buf);
    assert_eq!(2, input.read_line(&mut buf));
    assert_eq!("ab\n\nc\u{e9}", buf);
    assert_eq!(0, input.read_line(&mut buf));
    assert_eq!("ab\n\nc\u{e9}", buf);
}

#[test]
fn read_to_string_takes_the_rest() {
    let mut input = TextReader::new("one\ntwo\nthree");
    let mut buf = String::new();
    input.read_line(&mut buf);
    let mut rest = String::new();
    assert_eq!(9, input.read_to_string(&mut rest));
    assert_eq!("two\nthree", rest);
    assert_eq!(0, input.read_to_string(&mut rest));
}
