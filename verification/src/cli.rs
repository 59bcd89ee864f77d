//! The argument dispatcher: selects the generate-pad or transform mode from
//! the process argument list, parses the pad size, and derives the output
//! path for a transformed file.

use vstd::prelude::*;
use vstd::string::StrSliceExecFns;
use vstd::string::StringExecFns;

verus! {

/// The mode selected from the argument list.
pub enum Command {
    /// Generate a pad of `size` random bytes and write it to `filename`.
    GeneratePad { size: usize, filename: String },
    /// Read `input_path`, combine it with the pad at `pad_path`, and write
    /// the result next to the input.
    Transform { input_path: String, pad_path: String },
}

/// The failures the library itself decides; filesystem failures are left to
/// the caller that performs the I/O.
#[derive(Clone, Copy, PartialEq, Eq, Structural, Debug)]
pub enum CliError {
    /// The argument count matches neither mode.
    InvalidArguments,
    /// The size argument of the generate mode is not a non-negative integer
    /// that fits in `usize`.
    InvalidSize,
    /// The pad is empty, so the transform cannot cycle over it.
    EmptyPad,
}

/// A decimal digit.
pub open spec fn is_digit_char(c: char) -> bool {
    48 <= c as int <= 57
}

/// The numeric value of a decimal digit.
pub open spec fn digit_value(c: char) -> int
    recommends
        is_digit_char(c),
{
    c as int - 48
}

/// Every character of `s` is a decimal digit.
pub open spec fn all_digits(s: Seq<char>) -> bool {
    forall|i: int| 0 <= i < s.len() ==> is_digit_char(s[i])
}

/// The value of `s` read as a decimal numeral, most significant digit first.
pub open spec fn digits_value(s: Seq<char>) -> int
    recommends
        all_digits(s),
    decreases s.len(),
{
    if s.len() == 0 {
        0
    } else {
        digits_value(s.drop_last()) * 10 + digit_value(s.last())
    }
}

/// The digit part of a size argument: the whole string, or what follows a
/// single leading plus sign.
pub open spec fn size_digits(s: Seq<char>) -> Seq<char> {
    if s.len() > 0 && s[0] == '+' {
        s.drop_first()
    } else {
        s
    }
}

/// `s` parses as a non-negative integer that fits in `usize`: an optional
/// leading plus sign, then at least one decimal digit, with a value of at
/// most `usize::MAX`.
pub open spec fn is_valid_size(s: Seq<char>) -> bool {
    &&& size_digits(s).len() > 0
    &&& all_digits(size_digits(s))
    &&& digits_value(size_digits(s)) <= usize::MAX
}

/// The value of a valid size argument.
pub open spec fn size_value(s: Seq<char>) -> int
    recommends
        is_valid_size(s),
{
    digits_value(size_digits(s))
}

/// A numeral is non-negative.
proof fn lemma_digits_value_nonneg(s: Seq<char>)
    requires
        all_digits(s),
    ensures
        digits_value(s) >= 0,
    decreases s.len(),
{
    if s.len() > 0 {
        assert(all_digits(s.drop_last()));
        lemma_digits_value_nonneg(s.drop_last());
    }
}

/// A subrange of a digit string is a digit string.
proof fn lemma_all_digits_subrange(s: Seq<char>, a: int, b: int)
    requires
        all_digits(s),
        0 <= a <= b <= s.len(),
    ensures
        all_digits(s.subrange(a, b)),
{
    assert forall|j: int| 0 <= j < s.subrange(a, b).len() implies is_digit_char(
        s.subrange(a, b)[j],
    ) by {
        assert(s.subrange(a, b)[j] == s[a + j]);
    }
}

/// Reading more digits never makes the value smaller: the value of a prefix
/// is at most the value of the whole numeral.
proof fn lemma_digits_prefix_le(s: Seq<char>, i: int)
    requires
        all_digits(s),
        0 <= i <= s.len(),
    ensures
        digits_value(s.subrange(0, i)) <= digits_value(s),
    decreases s.len() - i,
{
    if i < s.len() {
        let pre = s.subrange(0, i);
        let ext = s.subrange(0, i + 1);
        assert(ext.drop_last() =~= pre);
        assert(ext.last() == s[i]);
        lemma_all_digits_subrange(s, 0, i);
        lemma_digits_value_nonneg(pre);
        assert(digits_value(ext) == digits_value(pre) * 10 + digit_value(s[i]));
        lemma_digits_prefix_le(s, i + 1);
    } else {
        assert(s.subrange(0, i) =~= s);
    }
}

/// A numeral that continues a prefix whose next step already exceeds
/// `usize::MAX` exceeds it as a whole.
proof fn lemma_digits_exceed(digits: Seq<char>, k: int)
    requires
        all_digits(digits),
        0 <= k < digits.len(),
        digits_value(digits.subrange(0, k)) * 10 + digit_value(digits[k]) > usize::MAX,
    ensures
        digits_value(digits) > usize::MAX,
{
    let ext = digits.subrange(0, k + 1);
    assert(ext.drop_last() =~= digits.subrange(0, k));
    assert(ext.last() == digits[k]);
    lemma_digits_prefix_le(digits, k + 1);
}

/// Parses a size argument: an optional leading plus sign, then decimal
/// digits. Returns the value when `s` is such a numeral and its value fits
/// in `usize`, and nothing otherwise.
#[verifier::loop_isolation(false)]
pub fn parse_size(s: &str) -> (r: Option<usize>)
    ensures
        r is Some <==> is_valid_size(s@),
        r is Some ==> r == Some(size_value(s@) as usize),
{
    let n: usize = s.unicode_len();
    let has_plus: bool = n > 0 && s.get_char(0) == '+';
    let start: usize = if has_plus {
        1
    } else {
        0
    };
    let ghost digits: Seq<char> = size_digits(s@);
    proof {
        assert(digits =~= s@.subrange(start as int, n as int));
    }
    if n == start {
        return None;
    }
    let mut i: usize = start;
    let mut value: usize = 0;
    while i < n
        invariant
            start <= i <= n,
            all_digits(digits.subrange(0, i - start)),
            value == digits_value(digits.subrange(0, i - start)),
        decreases n - i,
    {
        let c = s.get_char(i);
        let cv: u32 = c as u32;
        let ghost k: int = i - start;
        proof {
            assert(digits[k] == s@[i as int]);
        }
        if cv < 48 || cv > 57 {
            proof {
                assert(!is_digit_char(digits[k]));
            }
            return None;
        }
        let d: u32 = cv - 48;
        proof {
            assert(digit_value(digits[k]) == d as int);
            assert(0 <= d <= 9);
        }
        if value > usize::MAX / 10 {
            proof {
                assert(value * 10 + digit_value(digits[k]) > usize::MAX);
                if all_digits(digits) {
                    lemma_digits_exceed(digits, k);
                }
            }
            return None;
        }
        let v10: usize = value * 10;
        let du: usize = d as usize;
        if du > usize::MAX - v10 {
            proof {
                if all_digits(digits) {
                    lemma_digits_exceed(digits, k);
                }
            }
            return None;
        }
        proof {
            let ext = digits.subrange(0, k + 1);
            assert(ext.drop_last() =~= digits.subrange(0, k));
            assert(ext.last() == digits[k]);
            assert forall|j: int| 0 <= j < ext.len() implies is_digit_char(ext[j]) by {
                assert(ext[j] == digits[j]);
            }
        }
        value = v10 + du;
        i = i + 1;
    }
    proof {
        assert(digits.subrange(0, n - start) =~= digits);
    }
    Some(value)
}

/// `flag` selects the generate mode: the long or the short form.
pub open spec fn is_generate_flag(flag: Seq<char>) -> bool {
    flag == "--genxorpad"@ || flag == "-g"@
}

/// The argument list asks for the generate mode: exactly three arguments
/// follow the program name and the first is a generate flag.
pub open spec fn generate_form(args: Seq<String>) -> bool {
    args.len() == 4 && is_generate_flag(args[1]@)
}

/// The argument list asks for the transform mode: exactly two arguments
/// follow the program name.
pub open spec fn transform_form(args: Seq<String>) -> bool {
    args.len() == 3
}

/// Selects the mode from the full argument list (program name included).
/// Generate mode needs a flag and a parseable size; two plain arguments are
/// a transform; every other shape is rejected.
pub fn parse_args(args: &Vec<String>) -> (r: Result<Command, CliError>)
    ensures
        match r {
            Ok(Command::GeneratePad { size, filename }) => {
                &&& generate_form(args@)
                &&& is_valid_size(args@[2]@)
                &&& size == size_value(args@[2]@)
                &&& filename@ == args@[3]@
            },
            Ok(Command::Transform { input_path, pad_path }) => {
                &&& transform_form(args@)
                &&& input_path@ == args@[1]@
                &&& pad_path@ == args@[2]@
            },
            Err(CliError::InvalidSize) => generate_form(args@) && !is_valid_size(args@[2]@),
            Err(CliError::InvalidArguments) => !generate_form(args@) && !transform_form(args@),
            Err(CliError::EmptyPad) => false,
        },
{
    if args.len() == 4 {
        let long: String = String::from_str("--genxorpad");
        let short: String = String::from_str("-g");
        if args[1].eq(&long) || args[1].eq(&short) {
            match parse_size(args[2].as_str()) {
                Some(size) => {
                    proof {
                        lemma_digits_value_nonneg(size_digits(args@[2]@));
                    }
                    let filename = args[3].clone();
                    return Ok(Command::GeneratePad { size, filename });
                },
                None => {
                    return Err(CliError::InvalidSize);
                },
            }
        }
    }
    if args.len() == 3 {
        let input_path = args[1].clone();
        let pad_path = args[2].clone();
        return Ok(Command::Transform { input_path, pad_path });
    }
    Err(CliError::InvalidArguments)
}

/// The output path for a transform: the input path with `_xor` appended.
pub fn output_path(input_path: &str) -> (r: String)
    ensures
        r@ == input_path@ + "_xor"@,
{
    let mut path: String = input_path.to_owned();
    path.append("_xor");
    path
}

} // verus!
