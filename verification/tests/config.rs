use buffer::config::{capacity_of_units, invocation, parse_size, Invocation, CHUNKS_PER_UNIT};
use buffer::queue::{Queue, DEFAULT_CAPACITY};

#[test]
fn one_unit_is_a_thousand_and_twenty_four_chunks() {
    assert_eq!(CHUNKS_PER_UNIT, 1024);
    assert_eq!(capacity_of_units(1), Some(1024));
    assert_eq!(capacity_of_units(8), Some(8192));
    assert_eq!(capacity_of_units(8), Some(DEFAULT_CAPACITY));
    assert_eq!(capacity_of_units(3), Some(3072));
}

#[test]
fn zero_units_are_refused() {
    assert_eq!(capacity_of_units(0), None);
}

#[test]
fn too_many_units_are_refused() {
    assert_eq!(capacity_of_units(usize::MAX), None);
    assert_eq!(capacity_of_units(usize::MAX / 1024 + 1), None);
    assert_eq!(capacity_of_units(usize::MAX / 1024), Some(usize::MAX / 1024 * 1024));
}

#[test]
fn configured_capacity_makes_a_queue() {
    let capacity = capacity_of_units(2).unwrap();
    let q = Queue::with_capacity(capacity).unwrap();
    assert_eq!(q.capacity(), 2048);
}

fn args(words: &[&str]) -> Vec<Vec<u8>> {
    words.iter().map(|w| w.as_bytes().to_vec()).collect()
}

#[test]
fn sizes_are_decimal_numbers_with_an_optional_plus() {
    assert_eq!(parse_size(&b"0".to_vec()), Some(0));
    assert_eq!(parse_size(&b"7".to_vec()), Some(7));
    assert_eq!(parse_size(&b"1024".to_vec()), Some(1024));
    assert_eq!(parse_size(&b"+16".to_vec()), Some(16));
    assert_eq!(parse_size(&b"007".to_vec()), Some(7));
    assert_eq!(parse_size(&usize::MAX.to_string().into_bytes()), Some(usize::MAX));
}

#[test]
fn texts_that_are_no_size_are_refused() {
    assert_eq!(parse_size(&b"".to_vec()), None);
    assert_eq!(parse_size(&b"+".to_vec()), None);
    assert_eq!(parse_size(&b"-1".to_vec()), None);
    assert_eq!(parse_size(&b"12a".to_vec()), None);
    assert_eq!(parse_size(&b" 12".to_vec()), None);
    assert_eq!(parse_size(&b"++1".to_vec()), None);
    assert_eq!(parse_size(&b"1.5".to_vec()), None);
    let mut too_large = usize::MAX.to_string().into_bytes();
    too_large.push(b'0');
    assert_eq!(parse_size(&too_large), None);
    assert_eq!(parse_size(&b"99999999999999999999999999".to_vec()), None);
}

#[test]
fn parse_size_agrees_with_the_standard_parser() {
    for word in ["0", "1", "+1", "-1", "", "+", "10", "0010", "x", "1x", "18446744073709551615",
        "18446744073709551616", "4294967295", "4294967296", "+-1", "1 ", "\u{661}"] {
        assert_eq!(parse_size(&word.as_bytes().to_vec()), word.parse::<usize>().ok());
    }
}

#[test]
fn no_arguments_run_with_the_default_capacity() {
    assert_eq!(invocation(&args(&["buffer"])), Invocation::Run(8192));
    assert_eq!(invocation(&args(&[])), Invocation::Run(8192));
}

#[test]
fn size_options_set_the_capacity_in_units() {
    assert_eq!(invocation(&args(&["buffer", "-s", "2"])), Invocation::Run(2048));
    assert_eq!(invocation(&args(&["buffer", "--buf_size", "1"])), Invocation::Run(1024));
    assert_eq!(invocation(&args(&["buffer", "-s", "2", "--buf_size", "5"])), Invocation::Run(5120));
}

#[test]
fn help_options_ask_for_help() {
    assert_eq!(invocation(&args(&["buffer", "-h"])), Invocation::Help);
    assert_eq!(invocation(&args(&["buffer", "--help"])), Invocation::Help);
    assert_eq!(invocation(&args(&["buffer", "-s", "3", "-h", "bogus"])), Invocation::Help);
}

#[test]
fn faulty_command_lines_are_told_apart() {
    assert_eq!(invocation(&args(&["buffer", "-s"])), Invocation::MissingSize);
    assert_eq!(invocation(&args(&["buffer", "-s", "4", "--buf_size"])), Invocation::MissingSize);
    assert_eq!(invocation(&args(&["buffer", "-s", "many"])), Invocation::UnsupportedSize);
    assert_eq!(invocation(&args(&["buffer", "-s", "0"])), Invocation::UnsupportedSize);
    assert_eq!(
        invocation(&args(&["buffer", "-s", "18446744073709551615"])),
        Invocation::UnsupportedSize
    );
    assert_eq!(invocation(&args(&["buffer", "-x"])), Invocation::UnknownArgument);
    assert_eq!(invocation(&args(&["buffer", "-S", "4"])), Invocation::UnknownArgument);
    assert_eq!(invocation(&args(&["buffer", "--buf_siz", "4"])), Invocation::UnknownArgument);
    assert_eq!(invocation(&args(&["buffer", "4"])), Invocation::UnknownArgument);
    assert_eq!(invocation(&args(&["buffer", "bogus", "-h"])), Invocation::UnknownArgument);
    assert_eq!(invocation(&args(&["buffer", "-s", "-h"])), Invocation::UnsupportedSize);
}
