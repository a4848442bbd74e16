//! Memory limits for the cgroup `memory.max` file: human-readable sizes such as
//! `512M`, `1G`, `10k` or `max`, turned into a byte count.
use vstd::prelude::*;
use vstd::utf8::is_ascii_chars;
use crate::text::{all_digits, ascii_upper, decimal, decimal_string, lemma_decimal_digits, lemma_parse_decimal, owned, parse_u64, parse_u64_spec, str_equal};

verus! {

/// Why a memory limit could not be read.
#[derive(Debug, PartialEq, Eq, Structural, Clone, Copy)]
pub enum MemoryError {
    /// The number in front of the unit is not an unsigned 64-bit integer.
    InvalidValue,
}

/// What `str::to_uppercase` gives for a string (the Unicode upper-case mapping).
pub uninterp spec fn unicode_uppercase(s: Seq<char>) -> Seq<char>;

/// Upper-cases `s` with `str::to_uppercase`. Claimed: the result depends on the text
/// of the argument alone, and is named `unicode_uppercase` of it; on ASCII text the
/// mapping is the ASCII one (`a`..`z` become `A`..`Z`, every other character stays).
/// Nothing is said of the mapping of other characters.
#[verifier::external_body]
fn to_uppercase(s: &str) -> (r: String)
    ensures
        r@ == unicode_uppercase(s@),
        is_ascii_chars(s@) ==> r@ == ascii_upper(s@),
{
    s.to_uppercase()
}

/// The literal `max`, which stands for "no limit".
pub open spec fn max_word() -> Seq<char> {
    seq!['m', 'a', 'x']
}

/// Whether the upper-cased text ends in one of the unit letters `G`, `M`, `K`.
pub open spec fn has_unit_suffix(u: Seq<char>) -> bool {
    u.len() > 0 && (u.last() == 'G' || u.last() == 'M' || u.last() == 'K')
}

/// The multiplier of the unit letter at the end of `u` (1 when there is none).
pub open spec fn memory_unit(u: Seq<char>) -> nat {
    if u.len() > 0 && u.last() == 'G' {
        1073741824
    } else if u.len() > 0 && u.last() == 'M' {
        1048576
    } else if u.len() > 0 && u.last() == 'K' {
        1024
    } else {
        1
    }
}

/// The number part of `u`: everything before the unit letter.
pub open spec fn memory_number(u: Seq<char>) -> Seq<char> {
    if has_unit_suffix(u) {
        u.drop_last()
    } else {
        u
    }
}

/// The byte count is representable: the number times the unit fits in 64 bits
/// (vacuous when the number does not parse).
pub open spec fn memory_fits(u: Seq<char>) -> bool {
    match parse_u64_spec(memory_number(u)) {
        Some(v) => v * memory_unit(u) <= u64::MAX,
        None => true,
    }
}

/// The byte count, as decimal text, that an upper-cased size gives.
pub open spec fn memory_upper_spec(u: Seq<char>) -> Result<Seq<char>, MemoryError> {
    match parse_u64_spec(memory_number(u)) {
        Some(v) => Ok(decimal((v as nat) * memory_unit(u))),
        None => Err(MemoryError::InvalidValue),
    }
}

/// The upper-cased text of a size: the ASCII mapping for ASCII text, the Unicode one
/// (`str::to_uppercase`) otherwise.
pub open spec fn upper_spec(mem: Seq<char>) -> Seq<char> {
    if is_ascii_chars(mem) {
        ascii_upper(mem)
    } else {
        unicode_uppercase(mem)
    }
}

/// The inputs on which `parse_memory` is defined: `max`, or a size whose byte count
/// fits in 64 bits.
pub open spec fn memory_input_ok(mem: Seq<char>) -> bool {
    mem == max_word() || memory_fits(upper_spec(mem))
}

/// What `parse_memory` gives for `mem`: `max` is kept; anything else is upper-cased
/// and read as a number with an optional unit.
pub open spec fn parse_memory_spec(mem: Seq<char>) -> Result<Seq<char>, MemoryError> {
    if mem == max_word() {
        Ok(max_word())
    } else {
        memory_upper_spec(upper_spec(mem))
    }
}

/// The view of a textual result.
pub open spec fn text_result(r: Result<String, MemoryError>) -> Result<Seq<char>, MemoryError> {
    match r {
        Ok(s) => Ok(s@),
        Err(e) => Err(e),
    }
}

/// Splits an upper-cased size into its number text and its unit multiplier.
fn split_unit(u: &str) -> (r: (&str, u64))
    ensures
        r.0@ == memory_number(u@),
        r.1 == memory_unit(u@),
{
    let n = u.unicode_len();
    if n > 0 {
        let last = u.get_char(n - 1);
        if last == 'G' {
            return (u.substring_char(0, n - 1), 1073741824);
        } else if last == 'M' {
            return (u.substring_char(0, n - 1), 1048576);
        } else if last == 'K' {
            return (u.substring_char(0, n - 1), 1024);
        }
    }
    (u, 1)
}

/// Whether the size `u` (already upper-cased) gives a byte count that fits in 64 bits.
pub fn memory_fits_exec(u: &str) -> (r: bool)
    ensures
        r == memory_fits(u@),
{
    let (num, unit) = split_unit(u);
    match parse_u64(num) {
        Some(v) => {
            proof {
                assert((v <= u64::MAX / unit) == (v * unit <= u64::MAX)) by (nonlinear_arith)
                    requires unit >= 1;
            }
            v <= u64::MAX / unit
        },
        None => true,
    }
}

/// Reads an upper-cased size: a number, then optionally `G`, `M` or `K` (powers of
/// 1024), and returns the byte count as decimal text.
pub fn parse_memory_upper(u: &str) -> (r: Result<String, MemoryError>)
    requires
        memory_fits(u@),
    ensures
        text_result(r) == memory_upper_spec(u@),
{
    let (num, unit) = split_unit(u);
    match parse_u64(num) {
        None => Err(MemoryError::InvalidValue),
        Some(val) => {
            if val == 0 {
                proof {
                    reveal_strlit("0");
                    assert(decimal(0) =~= "0"@);
                }
                return Ok(owned("0"));
            }
            Ok(decimal_string(val * unit))
        },
    }
}

/// Parses a human-readable memory size (`512M`, `1G`, `10k`, `100`, `max`) into the
/// text that the cgroup `memory.max` file takes: `max`, or a byte count.
/// Its output reads back to itself: it is again an input on which `parse_memory` is
/// defined, and parsing it gives it unchanged.
pub fn parse_memory(mem: &str) -> (r: Result<String, MemoryError>)
    requires
        memory_input_ok(mem@),
    ensures
        text_result(r) == parse_memory_spec(mem@),
        r matches Ok(s) ==> memory_input_ok(s@) && parse_memory_spec(s@) == Ok::<Seq<char>, MemoryError>(s@),
{
    proof {
        reveal_strlit("max");
        assert("max"@ =~= max_word());
    }
    if str_equal(mem, "max") {
        proof {
            parse_memory_output_reads_back(mem@);
        }
        return Ok(owned("max"));
    }
    let upper = to_uppercase(mem);
    let r = parse_memory_upper(upper.as_str());
    proof {
        if r is Ok {
            parse_memory_output_reads_back(mem@);
        }
    }
    r
}

/// `parse_memory` where the byte count fits in 64 bits; `None` where the number times
/// its unit would overflow (there `parse_memory` itself is not defined).
pub fn parse_memory_checked(mem: &str) -> (r: Option<Result<String, MemoryError>>)
    ensures
        r is None <==> !memory_input_ok(mem@),
        r matches Some(x) ==> text_result(x) == parse_memory_spec(mem@),
{
    proof {
        reveal_strlit("max");
        assert("max"@ =~= max_word());
    }
    if str_equal(mem, "max") {
        return Some(parse_memory(mem));
    }
    let upper = to_uppercase(mem);
    if memory_fits_exec(upper.as_str()) {
        Some(parse_memory(mem))
    } else {
        None
    }
}

/// Reading back a byte count gives the same byte count: for an upper-cased size that
/// `parse_memory_upper` accepts, its output, read again, is accepted and gives itself.
pub proof fn parse_memory_upper_is_idempotent(u: Seq<char>)
    requires
        memory_fits(u),
        memory_upper_spec(u) is Ok,
    ensures
        memory_fits(memory_upper_spec(u)->Ok_0),
        memory_upper_spec(memory_upper_spec(u)->Ok_0) == memory_upper_spec(u),
{
    let out = memory_upper_spec(u)->Ok_0;
    let v = parse_u64_spec(memory_number(u))->Some_0;
    let n = (v as nat) * memory_unit(u);
    assert(out == decimal(n));
    lemma_decimal_digits(n);
    lemma_parse_decimal(n as u64);
    assert(!has_unit_suffix(out)) by {
        assert(crate::text::is_digit(out[out.len() - 1]));
    }
    assert(memory_number(out) == out);
    assert(memory_unit(out) == 1);
}

/// The output of `parse_memory` reads back to itself: whatever size it accepted,
/// the `max` or byte count it gave is again accepted, and parsing it gives it unchanged.
pub proof fn parse_memory_output_reads_back(mem: Seq<char>)
    requires
        memory_input_ok(mem),
        parse_memory_spec(mem) is Ok,
    ensures
        memory_input_ok(parse_memory_spec(mem)->Ok_0),
        parse_memory_spec(parse_memory_spec(mem)->Ok_0) == parse_memory_spec(mem),
{
    let s = parse_memory_spec(mem)->Ok_0;
    if mem != max_word() {
        let u = upper_spec(mem);
        parse_memory_upper_is_idempotent(u);
        let v = parse_u64_spec(memory_number(u))->Some_0;
        lemma_decimal_digits((v as nat) * memory_unit(u));
        assert(all_digits(s));
        assert(is_ascii_chars(s));
        assert(ascii_upper(s) =~= s) by {
            assert forall|i: int| 0 <= i < s.len() implies #[trigger] ascii_upper(s)[i] == s[i] by {
                assert(crate::text::is_digit(s[i]));
            }
        }
        assert(s != max_word()) by {
            assert(crate::text::is_digit(s[0]));
        }
    }
}

} // verus!
