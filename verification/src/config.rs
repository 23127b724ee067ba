//! The one configuration value, the queue's capacity, and the command line
//! that sets it.

use crate::queue::DEFAULT_CAPACITY;
use vstd::prelude::*;

verus! {

/// The number of chunks that one unit of the configured buffer size stands for.
pub const CHUNKS_PER_UNIT: usize = 1024;

/// The capacity in chunks for a buffer size of `units`.
pub open spec fn chunks_of_units(units: nat) -> nat {
    units * 1024
}

/// The capacity in chunks for a buffer size of `units`, where there is one:
/// a size of zero is refused, and so is one whose capacity is too large to
/// count.
pub open spec fn capacity_for(units: usize) -> Option<usize> {
    if 1 <= units && chunks_of_units(units as nat) <= usize::MAX {
        Some(chunks_of_units(units as nat) as usize)
    } else {
        None
    }
}

/// The capacity in chunks for a configured buffer size.
pub fn capacity_of_units(units: usize) -> (capacity: Option<usize>)
    ensures
        capacity == capacity_for(units),
        capacity matches Some(chunks) ==> chunks >= 1,
{
    if units == 0 {
        None
    } else {
        units.checked_mul(CHUNKS_PER_UNIT)
    }
}

/// `-s`
pub open spec fn short_size_flag() -> Seq<u8> {
    seq![45u8, 115u8]
}

/// `--buf_size`
pub open spec fn long_size_flag() -> Seq<u8> {
    seq![45u8, 45u8, 98u8, 117u8, 102u8, 95u8, 115u8, 105u8, 122u8, 101u8]
}

/// `-h`
pub open spec fn short_help_flag() -> Seq<u8> {
    seq![45u8, 104u8]
}

/// `--help`
pub open spec fn long_help_flag() -> Seq<u8> {
    seq![45u8, 45u8, 104u8, 101u8, 108u8, 112u8]
}

pub open spec fn is_size_flag(arg: Seq<u8>) -> bool {
    arg == short_size_flag() || arg == long_size_flag()
}

pub open spec fn is_help_flag(arg: Seq<u8>) -> bool {
    arg == short_help_flag() || arg == long_help_flag()
}

/// The number that the decimal digits stand for.
pub open spec fn digits_value(digits: Seq<u8>) -> nat
    decreases digits.len(),
{
    if digits.len() == 0 {
        0
    } else {
        digits_value(digits.drop_last()) * 10 + (digits.last() - 48) as nat
    }
}

/// Every byte is one of `0` to `9`.
pub open spec fn all_digits(text: Seq<u8>) -> bool {
    forall|i: int| 0 <= i < text.len() ==> 48 <= #[trigger] text[i] <= 57
}

/// The digits of a size: the text without a `+` in front of it.
pub open spec fn unsigned_part(text: Seq<u8>) -> Seq<u8> {
    if text.len() > 0 && text[0] == 43 {
        text.drop_first()
    } else {
        text
    }
}

/// The size that `text` spells: one or more decimal digits, a `+` in front
/// of them or none, and a value that a `usize` holds.
pub open spec fn size_of_text(text: Seq<u8>) -> Option<usize> {
    let digits = unsigned_part(text);
    if digits.len() > 0 && all_digits(digits) && digits_value(digits) <= usize::MAX {
        Some(digits_value(digits) as usize)
    } else {
        None
    }
}

/// What a command line asks for.
#[derive(Debug, Clone, Copy, PartialEq, Eq)]
pub enum Invocation {
    /// Run with a queue of this many chunks.
    Run(usize),
    /// Print the help text and leave.
    Help,
    /// A size option is the last argument.
    MissingSize,
    /// The size is no number, zero or too large.
    UnsupportedSize,
    /// An argument is no known option.
    UnknownArgument,
}

/// What the arguments from index `from` on ask for, `capacity` being the
/// one set so far: the first help option or faulty argument decides;
/// without one, the last size does.
pub open spec fn invocation_from(args: Seq<Seq<u8>>, from: int, capacity: usize) -> Invocation
    decreases args.len() - from,
{
    if from < 0 || from >= args.len() {
        Invocation::Run(capacity)
    } else if is_size_flag(args[from]) {
        if from + 1 >= args.len() {
            Invocation::MissingSize
        } else {
            match size_of_text(args[from + 1]) {
                None => Invocation::UnsupportedSize,
                Some(units) => match capacity_for(units) {
                    None => Invocation::UnsupportedSize,
                    Some(chunks) => invocation_from(args, from + 2, chunks),
                },
            }
        }
    } else if is_help_flag(args[from]) {
        Invocation::Help
    } else {
        Invocation::UnknownArgument
    }
}

/// The arguments as sequences of bytes.
pub open spec fn texts(args: Seq<Vec<u8>>) -> Seq<Seq<u8>> {
    args.map_values(|arg: Vec<u8>| arg@)
}

/// A longer run of digits stands for no smaller number.
proof fn lemma_value_grows(digits: Seq<u8>, n: int)
    requires
        0 <= n <= digits.len(),
    ensures
        digits_value(digits.subrange(0, n)) <= digits_value(digits),
    decreases digits.len() - n,
{
    if n == digits.len() {
        assert(digits.subrange(0, n) =~= digits);
    } else {
        lemma_value_grows(digits.drop_last(), n);
        assert(digits.drop_last().subrange(0, n) =~= digits.subrange(0, n));
    }
}

/// Reads a size: see [`size_of_text`].
pub fn parse_size(text: &Vec<u8>) -> (size: Option<usize>)
    ensures
        size == size_of_text(text@),
{
    let start: usize = if text.len() > 0 && text[0] == 43 {
        1
    } else {
        0
    };
    let ghost digits = unsigned_part(text@);
    assert(digits =~= text@.subrange(start as int, text@.len() as int));
    if start == text.len() {
        return None;
    }
    let mut value: usize = 0;
    let mut i: usize = start;
    while i < text.len()
        invariant
            start <= i <= text.len(),
            digits == unsigned_part(text@),
            digits == text@.subrange(start as int, text@.len() as int),
            all_digits(digits.subrange(0, i - start)),
            value == digits_value(digits.subrange(0, i - start)),
        decreases text.len() - i,
    {
        let byte: u8 = text[i];
        let ghost longer = digits.subrange(0, i - start + 1);
        proof {
            assert(longer.drop_last() =~= digits.subrange(0, i - start));
            assert(longer.last() == byte);
            assert(digits[i - start] == byte);
            assert(digits_value(longer) == value * 10 + (byte - 48) as nat);
            lemma_value_grows(digits, i - start + 1);
        }
        if byte < 48 || byte > 57 {
            return None;
        }
        let digit: usize = (byte - 48) as usize;
        let next = match value.checked_mul(10) {
            None => None,
            Some(tenfold) => tenfold.checked_add(digit),
        };
        match next {
            None => {
                return None;
            },
            Some(sum) => {
                value = sum;
            },
        }
        assert forall|k: int| 0 <= k < longer.len() implies 48 <= #[trigger] longer[k] <= 57 by {
            if k < longer.len() - 1 {
                assert(longer[k] == digits.subrange(0, i - start)[k]);
            }
        }
        i += 1;
    }
    assert(digits.subrange(0, i - start) =~= digits);
    Some(value)
}

/// Whether `arg` is one of the two size options.
fn names_size(arg: &Vec<u8>) -> (yes: bool)
    ensures
        yes == is_size_flag(arg@),
{
    if arg.len() == 2 {
        let yes = arg[0] == 45 && arg[1] == 115;
        assert(yes ==> arg@ =~= short_size_flag());
        assert(short_size_flag()[0] == 45 && short_size_flag()[1] == 115);
        assert(long_size_flag().len() == 10);
        yes
    } else if arg.len() == 10 {
        let yes = arg[0] == 45 && arg[1] == 45 && arg[2] == 98 && arg[3] == 117 && arg[4] == 102
            && arg[5] == 95 && arg[6] == 115 && arg[7] == 105 && arg[8] == 122 && arg[9] == 101;
        assert(yes ==> arg@ =~= long_size_flag());
        let ghost flag = long_size_flag();
        assert(flag[0] == 45 && flag[1] == 45 && flag[2] == 98 && flag[3] == 117 && flag[4] == 102
            && flag[5] == 95 && flag[6] == 115 && flag[7] == 105 && flag[8] == 122 && flag[9]
            == 101);
        assert(short_size_flag().len() == 2);
        yes
    } else {
        assert(short_size_flag().len() == 2);
        assert(long_size_flag().len() == 10);
        false
    }
}

/// Whether `arg` is one of the two help options.
fn names_help(arg: &Vec<u8>) -> (yes: bool)
    ensures
        yes == is_help_flag(arg@),
{
    if arg.len() == 2 {
        let yes = arg[0] == 45 && arg[1] == 104;
        assert(yes ==> arg@ =~= short_help_flag());
        assert(short_help_flag()[0] == 45 && short_help_flag()[1] == 104);
        assert(long_help_flag().len() == 6);
        yes
    } else if arg.len() == 6 {
        let yes = arg[0] == 45 && arg[1] == 45 && arg[2] == 104 && arg[3] == 101 && arg[4] == 108
            && arg[5] == 112;
        assert(yes ==> arg@ =~= long_help_flag());
        let ghost flag = long_help_flag();
        assert(flag[0] == 45 && flag[1] == 45 && flag[2] == 104 && flag[3] == 101 && flag[4]
            == 108 && flag[5] == 112);
        assert(short_help_flag().len() == 2);
        yes
    } else {
        assert(short_help_flag().len() == 2);
        assert(long_help_flag().len() == 6);
        false
    }
}

/// Reads the command line, the program's name first: what the arguments
/// after the name ask for, beginning with the default capacity.
pub fn invocation(args: &Vec<Vec<u8>>) -> (asked: Invocation)
    ensures
        asked == invocation_from(texts(args@), 1, DEFAULT_CAPACITY),
{
    let mut capacity: usize = DEFAULT_CAPACITY;
    let mut i: usize = 1;
    while i < args.len()
        invariant
            1 <= i,
            invocation_from(texts(args@), 1, DEFAULT_CAPACITY) == invocation_from(
                texts(args@),
                i as int,
                capacity,
            ),
        decreases args.len() - i,
    {
        assert(texts(args@)[i as int] == args@[i as int]@);
        if names_size(&args[i]) {
            if i + 1 >= args.len() {
                return Invocation::MissingSize;
            }
            assert(texts(args@)[i + 1] == args@[i + 1]@);
            let chunks = match parse_size(&args[i + 1]) {
                None => None,
                Some(units) => capacity_of_units(units),
            };
            match chunks {
                None => {
                    return Invocation::UnsupportedSize;
                },
                Some(chunks) => {
                    capacity = chunks;
                },
            }
            i += 2;
        } else if names_help(&args[i]) {
            return Invocation::Help;
        } else {
            return Invocation::UnknownArgument;
        }
    }
    Invocation::Run(capacity)
}

} // verus!
