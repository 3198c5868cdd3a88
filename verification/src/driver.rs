//! The command-line driver's logic: parsing argument texts into
//! operands, validating them, and folding the GCD engine over the
//! operand list. Reading the process arguments and printing the
//! outcome stay outside; the driver works on an injected list of
//! argument strings, so it is testable on its own.

use vstd::prelude::*;

use crate::list::gcd_of_list;
use crate::list::gcd_seq;

verus! {

/// A decimal digit.
pub open spec fn is_digit(c: char) -> bool {
    48 <= c as u32 <= 57
}

/// The numeric value of a decimal digit.
pub open spec fn digit_val(c: char) -> nat
    recommends
        is_digit(c),
{
    (c as u32 - 48) as nat
}

/// The number written by a string of decimal digits, most significant
/// first. An empty string reads as zero.
pub open spec fn decimal_value(s: Seq<char>) -> nat
    decreases s.len(),
{
    if s.len() == 0 {
        0
    } else {
        decimal_value(s.drop_last()) * 10 + digit_val(s.last())
    }
}

/// Every character is a decimal digit.
pub open spec fn all_digits(s: Seq<char>) -> bool {
    forall|i: int| 0 <= i < s.len() ==> is_digit(s[i])
}

/// The digit part of an operand text: one leading plus sign may
/// precede the digits.
pub open spec fn digits_of(s: Seq<char>) -> Seq<char> {
    if s.len() > 0 && s[0] == '+' {
        s.skip(1)
    } else {
        s
    }
}

/// The texts accepted as operands: at least one digit, digits
/// throughout, and a value within the engine's integer width.
pub open spec fn is_operand_text(s: Seq<char>) -> bool {
    &&& digits_of(s).len() > 0
    &&& all_digits(digits_of(s))
    &&& decimal_value(digits_of(s)) <= u64::MAX
}

/// The number an operand text denotes.
pub open spec fn operand_value(s: Seq<char>) -> nat {
    decimal_value(digits_of(s))
}

/// An argument the driver accepts: an operand text whose value is
/// positive, so that it may reach the engine.
pub open spec fn arg_ok(s: Seq<char>) -> bool {
    is_operand_text(s) && operand_value(s) > 0
}

/// Reading more digits never shrinks the value.
proof fn lemma_decimal_value_grows(s: Seq<char>, n: int)
    requires
        0 <= n <= s.len(),
    ensures
        decimal_value(s.take(n)) <= decimal_value(s),
    decreases s.len() - n,
{
    if n < s.len() {
        assert(s.take(n + 1).drop_last() =~= s.take(n));
        lemma_decimal_value_grows(s, n + 1);
    } else {
        assert(s.take(n) =~= s);
    }
}

/// Reads an operand text as an unsigned integer: digits with at most
/// one leading plus sign, rejected exactly when the text is empty,
/// holds a non-digit, or denotes a value too large for the engine's
/// integer width.
pub fn parse_operand(s: &str) -> (r: Option<u64>)
    ensures
        match r {
            Some(v) => is_operand_text(s@) && v as nat == operand_value(s@),
            None => !is_operand_text(s@),
        },
{
    let len = s.unicode_len();
    let mut start: usize = 0;
    if len > 0 && s.get_char(0) == '+' {
        start = 1;
    }
    let ghost d: Seq<char> = digits_of(s@);
    proof {
        assert(d =~= s@.subrange(start as int, len as int));
    }
    if len == start {
        return None;
    }
    let mut acc: u64 = 0;
    let mut i: usize = start;
    while i < len
        invariant
            start <= i <= len,
            len == s@.len(),
            d == digits_of(s@),
            d =~= s@.subrange(start as int, len as int),
            all_digits(d.take(i - start)),
            acc as nat == decimal_value(d.take(i - start)),
        decreases len - i,
    {
        let c = s.get_char(i);
        let code = c as u32;
        proof {
            assert(d[i - start] == s@[i as int]);
            assert(d.take(i + 1 - start).drop_last() =~= d.take(i - start));
            assert(d.take(i + 1 - start).last() == d[i - start]);
        }
        if code < 48 || code > 57 {
            return None;
        }
        let digit = (code - 48) as u64;
        let scaled = match acc.checked_mul(10) {
            Some(t) => t.checked_add(digit),
            None => None,
        };
        match scaled {
            Some(next) => {
                acc = next;
            },
            None => {
                proof {
                    lemma_decimal_value_grows(d, i + 1 - start);
                }
                return None;
            },
        }
        i = i + 1;
    }
    proof {
        assert(d.take(len - start) =~= d);
    }
    Some(acc)
}

/// How a run of the driver fails.
#[derive(Clone, Copy, PartialEq, Eq, Structural, Debug)]
pub enum DriverError {
    /// No arguments were supplied: there is nothing to do.
    EmptyInput,
    /// The argument at this index is not a decimal number within the
    /// engine's integer width.
    MalformedOperand { index: usize },
    /// The argument at this index reads as zero, which the engine's
    /// precondition rejects.
    ZeroOperand { index: usize },
}

/// A successful run: the operands in argument order and their greatest
/// common divisor.
pub struct GcdReport {
    /// The parsed operands, one per argument, in argument order.
    pub operands: Vec<u64>,
    /// The greatest common divisor of the whole operand list.
    pub result: u64,
}

/// Parses every argument in order, rejects the run at the first
/// argument that is malformed or zero, demands at least one operand,
/// and otherwise folds the GCD engine across the operand list.
pub fn run_driver(args: &Vec<String>) -> (r: Result<GcdReport, DriverError>)
    ensures
        match r {
            Ok(report) => {
                &&& args@.len() > 0
                &&& forall|j: int| 0 <= j < args@.len() ==> arg_ok(#[trigger] args@[j]@)
                &&& report.operands@.len() == args@.len()
                &&& forall|j: int|
                    0 <= j < args@.len() ==> #[trigger] report.operands@[j] as nat
                        == operand_value(args@[j]@)
                &&& report.result as nat == gcd_seq(report.operands@)
            },
            Err(DriverError::EmptyInput) => args@.len() == 0,
            Err(DriverError::MalformedOperand { index }) => {
                &&& index < args@.len()
                &&& !is_operand_text(args@[index as int]@)
                &&& forall|j: int| 0 <= j < index ==> arg_ok(#[trigger] args@[j]@)
            },
            Err(DriverError::ZeroOperand { index }) => {
                &&& index < args@.len()
                &&& is_operand_text(args@[index as int]@)
                &&& operand_value(args@[index as int]@) == 0
                &&& forall|j: int| 0 <= j < index ==> arg_ok(#[trigger] args@[j]@)
            },
        },
{
    let mut numbers: Vec<u64> = Vec::new();
    let mut i: usize = 0;
    while i < args.len()
        invariant
            0 <= i <= args@.len(),
            numbers@.len() == i,
            forall|j: int| 0 <= j < i ==> arg_ok(#[trigger] args@[j]@),
            forall|j: int|
                0 <= j < i ==> #[trigger] numbers@[j] as nat == operand_value(args@[j]@),
        decreases args@.len() - i,
    {
        let arg = &args[i];
        match parse_operand(arg.as_str()) {
            None => {
                return Err(DriverError::MalformedOperand { index: i });
            },
            Some(v) => {
                if v == 0 {
                    return Err(DriverError::ZeroOperand { index: i });
                }
                numbers.push(v);
            },
        }
        i = i + 1;
    }
    if numbers.len() == 0 {
        return Err(DriverError::EmptyInput);
    }
    let result = gcd_of_list(&numbers);
    Ok(GcdReport { operands: numbers, result })
}

} // verus!
