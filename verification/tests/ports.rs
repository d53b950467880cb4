use int_code::errors::{ExecutionError, InputError, OutputError, ParseError};
use int_code::input::{ExtendedFixedInput, FixedInput, Input};
use int_code::output::{Output, QueueOutput};
use int_code::text::{address_text, decimal_text, word_text};

fn reason(reply: Result<i32, InputError>) -> Result<i32, String> {
    reply.map_err(|e| e.message())
}

#[test]
fn fixed_input_serves_front_to_back() {
    let mut port = FixedInput::new(vec![3, -1, 4]);
    assert_eq!(reason(port.get_input()), Ok(3));
    assert_eq!(reason(port.get_input()), Ok(-1));
    assert_eq!(reason(port.get_input()), Ok(4));
    assert_eq!(reason(port.get_input()), Err("no more inputs".to_string()));
    assert_eq!(reason(port.get_input()), Err("no more inputs".to_string()));
}

#[test]
fn empty_fixed_input_fails_at_once() {
    let mut port = FixedInput::new(vec![]);
    assert_eq!(reason(port.get_input()), Err("no more inputs".to_string()));
}

#[test]
fn layered_input_serves_its_prefix_first() {
    let mut port = ExtendedFixedInput::new(FixedInput::new(vec![]), vec![7, 8]);
    assert_eq!(reason(port.get_input()), Ok(7));
    assert_eq!(reason(port.get_input()), Ok(8));
    assert_eq!(reason(port.get_input()), Err("no more inputs".to_string()));
}

#[test]
fn layered_input_hands_on_to_its_base() {
    let mut port = ExtendedFixedInput::new(FixedInput::new(vec![30, 40]), vec![10, 20]);
    assert_eq!(reason(port.get_input()), Ok(10));
    assert_eq!(reason(port.get_input()), Ok(20));
    assert_eq!(reason(port.get_input()), Ok(30));
    assert_eq!(reason(port.get_input()), Ok(40));
    assert_eq!(reason(port.get_input()), Err("no more inputs".to_string()));
}

#[test]
fn layered_input_without_prefix_is_its_base() {
    let mut port = ExtendedFixedInput::new(FixedInput::new(vec![5]), vec![]);
    assert_eq!(reason(port.get_input()), Ok(5));
    assert_eq!(reason(port.get_input()), Err("no more inputs".to_string()));
}

#[test]
fn layered_input_feeds_a_run() {
    let mut output = QueueOutput::new();
    let input = ExtendedFixedInput::new(FixedInput::new(vec![3]), vec![1, 2]);
    let program = vec![3, 0, 4, 0, 3, 0, 4, 0, 3, 0, 4, 0, 3, 0, 99];
    let e = int_code::execute(program, input, &mut output).unwrap_err();
    assert_eq!(e.message(), "no more inputs");
    assert_eq!(e.info("Instruction Address"), Some("12".to_string()));
    assert_eq!(output.get(), Some(1));
    assert_eq!(output.get(), Some(2));
    assert_eq!(output.get(), Some(3));
    assert_eq!(output.get(), None);
}

#[test]
fn queue_output_is_first_in_first_out() {
    let mut port = QueueOutput::new();
    assert_eq!(port.get(), None);
    assert!(port.send_output(1).is_ok());
    assert!(port.send_output(2).is_ok());
    assert_eq!(port.get(), Some(1));
    assert!(port.send_output(3).is_ok());
    assert_eq!(port.get(), Some(2));
    assert_eq!(port.get(), Some(3));
    assert_eq!(port.get(), None);
}

#[test]
fn port_errors_keep_their_reason() {
    assert_eq!(InputError::new("timed out").message(), "timed out");
    assert_eq!(OutputError::new("closed").message(), "closed");
}

#[test]
fn parse_error_describes_itself() {
    let e = ParseError::new("invalid digit found in string".to_string(), "1x".to_string());
    assert_eq!(e.message(), "invalid digit found in string");
    assert_eq!(e.token(), "1x");
    assert_eq!(e.describe(), "invalid digit found in string : 1x");
}

#[test]
fn execution_error_context_is_a_mapping() {
    let mut e = ExecutionError::new("broken".to_string());
    assert_eq!(e.message(), "broken");
    assert_eq!(e.info("a"), None);
    e.add_info("a".to_string(), "1".to_string());
    e.add_info("b".to_string(), "2".to_string());
    assert_eq!(e.info("a"), Some("1".to_string()));
    assert_eq!(e.info("b"), Some("2".to_string()));
    e.add_info("a".to_string(), "3".to_string());
    assert_eq!(e.info("a"), Some("3".to_string()));
    assert_eq!(e.info("b"), Some("2".to_string()));
    assert_eq!(e.info("c"), None);
    assert_eq!(e.message(), "broken");
}

#[test]
fn decimal_text_of_integers() {
    assert_eq!(decimal_text(0), "0");
    assert_eq!(decimal_text(7), "7");
    assert_eq!(decimal_text(10), "10");
    assert_eq!(decimal_text(-1), "-1");
    assert_eq!(decimal_text(1002), "1002");
    assert_eq!(decimal_text(i64::MAX), "9223372036854775807");
    assert_eq!(decimal_text(i64::MIN), "-9223372036854775808");
    assert_eq!(word_text(i32::MIN), "-2147483648");
    assert_eq!(word_text(i32::MAX), "2147483647");
    assert_eq!(word_text(-40), "-40");
    assert_eq!(address_text(0), "0");
    assert_eq!(address_text(123456), "123456");
    assert_eq!(address_text(usize::MAX), usize::MAX.to_string());
}

#[test]
fn typed_line_is_trimmed_and_read() {
    assert_eq!(reason(int_code::input::parse_reply("42\n")), Ok(42));
    assert_eq!(reason(int_code::input::parse_reply("  -7 \r\n")), Ok(-7));
    assert_eq!(reason(int_code::input::parse_reply("+3")), Ok(3));
    assert!(int_code::input::parse_reply("\n").is_err());
    assert!(int_code::input::parse_reply("4 2\n").is_err());
    assert!(int_code::input::parse_reply("forty\n").is_err());
}

#[test]
fn text_is_read_as_it_stands() {
    assert_eq!(reason(int_code::input::reply_of("42")), Ok(42));
    assert_eq!(reason(int_code::input::reply_of("-2147483648")), Ok(i32::MIN));
    assert!(int_code::input::reply_of("42\n").is_err());
    assert!(int_code::input::reply_of(" 42").is_err());
    assert!(int_code::input::reply_of("").is_err());
    assert!(int_code::input::reply_of("2147483648").is_err());
}

#[test]
fn errors_compare_by_what_they_say() {
    assert!(InputError::new("a") == InputError::new("a"));
    assert!(InputError::new("a") != InputError::new("b"));
    assert!(OutputError::new("a") == OutputError::new("a"));
    assert!(OutputError::new("a") != OutputError::new(""));
    assert!(
        ParseError::new("m".to_string(), "t".to_string())
            == ParseError::new("m".to_string(), "t".to_string())
    );
    assert!(
        ParseError::new("m".to_string(), "t".to_string())
            != ParseError::new("m".to_string(), "u".to_string())
    );
    assert!(
        ParseError::new("m".to_string(), "t".to_string())
            != ParseError::new("n".to_string(), "t".to_string())
    );
}

#[test]
fn execution_errors_compare_by_message_and_context() {
    let mut a = ExecutionError::new("broken".to_string());
    let mut b = ExecutionError::new("broken".to_string());
    assert!(a == b);
    a.add_info("x".to_string(), "1".to_string());
    assert!(a != b);
    assert!(b != a);
    a.add_info("y".to_string(), "2".to_string());
    b.add_info("y".to_string(), "2".to_string());
    b.add_info("x".to_string(), "1".to_string());
    assert!(a == b);
    b.add_info("x".to_string(), "3".to_string());
    assert!(a != b);
    b.add_info("x".to_string(), "1".to_string());
    assert!(a == b);
    assert!(a != ExecutionError::new("other".to_string()));
}

#[test]
fn execution_error_lists_its_context() {
    let mut e = ExecutionError::new("broken".to_string());
    assert!(e.entries().is_empty());
    e.add_info("a".to_string(), "1".to_string());
    e.add_info("b".to_string(), "2".to_string());
    e.add_info("a".to_string(), "3".to_string());
    let mut entries = e.entries();
    entries.sort();
    assert_eq!(
        entries,
        vec![("a".to_string(), "3".to_string()), ("b".to_string(), "2".to_string())]
    );
}
