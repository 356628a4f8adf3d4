//! The format strings of `PRINT USING`: splitting a format string into
//! literal text and numeric fields, and laying out a number in a field.

use vstd::prelude::*;
use crate::text::{chars_of, string_from_chars};

verus! {

/// One piece of a `PRINT USING` format string.
///
/// `Literal(text, rest)` is text printed as it is, followed by `rest`,
/// which starts with a numeric field. `Numeric` describes a field: a `$`
/// sign, the number of `#` before and after the dot, and whether digits
/// are grouped by commas; `rest` is the format text after the field.
/// `End(text)` is the last piece: text without any field.
pub enum PrintUsingFormatFragment {
    Literal(String, String),
    Numeric { dollar: bool, digits: i8, comma: bool, decimals: i8, rest: String },
    End(String),
}

/// A character of a numeric field: `$`, `#`, `.` or `,`.
pub open spec fn is_format_char(c: char) -> bool {
    c == '$' || c == '#' || c == '.' || c == ','
}

/// Length of the numeric field at the start of `s`.
pub open spec fn numeric_field_len(s: Seq<char>) -> nat
    decreases s.len(),
{
    if s.len() > 0 && is_format_char(s[0]) {
        1 + numeric_field_len(s.drop_first())
    } else {
        0
    }
}

/// What a numeric field `f` specifies, read from left to right once a dot
/// has (`after_dot`) or has not been seen: whether it holds a `$`, the `#`
/// before the first dot, whether it holds a `,`, and the `#` after it.
pub open spec fn field_spec(f: Seq<char>, after_dot: bool) -> (bool, int, bool, int)
    decreases f.len(),
{
    if f.len() == 0 {
        (false, 0, false, 0)
    } else {
        let c = f[0];
        let r = field_spec(f.drop_first(), after_dot || c == '.');
        if c == '$' {
            (true, r.1, r.2, r.3)
        } else if c == '#' && !after_dot {
            (r.0, r.1 + 1, r.2, r.3)
        } else if c == '#' {
            (r.0, r.1, r.2, r.3 + 1)
        } else if c == ',' {
            (r.0, r.1, true, r.3)
        } else {
            r
        }
    }
}

/// The counts that a field specification reports are within the field.
proof fn lemma_field_spec_bounds(f: Seq<char>, after_dot: bool)
    ensures
        0 <= field_spec(f, after_dot).1 <= f.len(),
        0 <= field_spec(f, after_dot).3 <= f.len(),
    decreases f.len(),
{
    if f.len() > 0 {
        lemma_field_spec_bounds(f.drop_first(), after_dot || f[0] == '.');
    }
}

/// Position of the first `#` or `$` of `s` (its length when there is none).
pub open spec fn first_field_start(s: Seq<char>) -> nat
    decreases s.len(),
{
    if s.len() == 0 || s[0] == '#' || s[0] == '$' {
        0
    } else {
        1 + first_field_start(s.drop_first())
    }
}

/// The first `#` or `$` of a format string, and no such character before it.
proof fn lemma_first_field_start(s: Seq<char>)
    ensures
        first_field_start(s) <= s.len(),
        first_field_start(s) < s.len() ==> (s[first_field_start(s) as int] == '#' || s[
            first_field_start(s) as int
        ] == '$'),
        forall|i: int| 0 <= i < first_field_start(s) ==> s[i] != '#' && s[i] != '$',
    decreases s.len(),
{
    if s.len() > 0 && s[0] != '#' && s[0] != '$' {
        lemma_first_field_start(s.drop_first());
        assert forall|i: int| 0 <= i < first_field_start(s) implies s[i] != '#' && s[i]
            != '$' by {
            if i > 0 {
                assert(s[i] == s.drop_first()[i - 1]);
            }
        }
    }
}

/// Whether the numeric field at the start of `s` has at most 127 `#` on
/// each side of its dot (the counts are kept in `i8`).
pub open spec fn field_fits(s: Seq<char>) -> bool {
    let f = s.take(numeric_field_len(s) as int);
    field_spec(f, false).1 <= 127 && field_spec(f, false).3 <= 127
}

/// The numeric-field piece for the format text `s`, which starts with its
/// field.
pub open spec fn numeric_fragment_matches(r: PrintUsingFormatFragment, s: Seq<char>) -> bool {
    let n = numeric_field_len(s) as int;
    let f = field_spec(s.take(n), false);
    match r {
        PrintUsingFormatFragment::Numeric { dollar, digits, comma, decimals, rest } => {
            &&& dollar == f.0
            &&& digits == f.1
            &&& comma == f.2
            &&& decimals == f.3
            &&& rest@ == s.skip(n)
        },
        _ => false,
    }
}

/// A numeric field is a run of format characters that a non-format
/// character (or the end) closes.
proof fn lemma_numeric_field_len(s: Seq<char>)
    ensures
        numeric_field_len(s) <= s.len(),
        forall|i: int| 0 <= i < numeric_field_len(s) ==> is_format_char(s[i]),
        numeric_field_len(s) < s.len() ==> !is_format_char(s[numeric_field_len(s) as int]),
    decreases s.len(),
{
    if s.len() > 0 && is_format_char(s[0]) {
        lemma_numeric_field_len(s.drop_first());
        assert forall|i: int| 0 <= i < numeric_field_len(s) implies is_format_char(s[i]) by {
            if i > 0 {
                assert(s[i] == s.drop_first()[i - 1]);
            }
        }
    }
}

/// Reads the numeric field at the start of `input`.
pub fn tok_numeric_format(input: &str) -> (r: PrintUsingFormatFragment)
    requires
        field_fits(input@),
    ensures
        numeric_fragment_matches(r, input@),
{
    let cs = chars_of(input);
    let ghost s = input@;
    proof {
        lemma_numeric_field_len(s);
    }
    let ghost n = numeric_field_len(s) as int;
    let mut dollar = false;
    let mut digits: i8 = 0;
    let mut after_dot = false;
    let mut comma = false;
    let mut decimals: i8 = 0;
    let mut i: usize = 0;
    while i < cs.len() && (cs[i] == '$' || cs[i] == '#' || cs[i] == '.' || cs[i] == ',')
        invariant
            cs@ == s,
            i <= n,
            n <= s.len(),
            forall|k: int| 0 <= k < n ==> is_format_char(s[k]),
            n < s.len() ==> !is_format_char(s[n]),
            field_spec(s.take(n), false).1 <= 127,
            field_spec(s.take(n), false).3 <= 127,
            ({
                let r = field_spec(s.subrange(i as int, n), after_dot);
                let t = field_spec(s.take(n), false);
                &&& t.0 == (dollar || r.0)
                &&& t.1 == digits + r.1
                &&& t.2 == (comma || r.2)
                &&& t.3 == decimals + r.3
            }),
            0 <= digits,
            0 <= decimals,
        decreases s.len() - i,
    {
        let c = cs[i];
        proof {
            assert(s.subrange(i as int, n).drop_first() == s.subrange(i + 1, n));
            lemma_field_spec_bounds(s.subrange(i + 1, n), after_dot || c == '.');
        }
        if c == '$' {
            dollar = true;
        } else if c == '#' && !after_dot {
            digits = digits + 1;
        } else if c == '#' && after_dot {
            decimals = decimals + 1;
        } else if c == '.' {
            after_dot = true;
        } else if c == ',' {
            comma = true;
        }
        i = i + 1;
    }
    proof {
        assert(i == n);
        assert(s.subrange(n, n) == Seq::<char>::empty());
    }
    let rest_chars = cs.as_slice().split_at(i).1;
    let rest = string_from_chars(rest_chars);
    proof {
        assert(rest@ == s.skip(n));
    }
    PrintUsingFormatFragment::Numeric { dollar, digits, comma, decimals, rest }
}

/// Splits off the first piece of a `PRINT USING` format string: text up
/// to the first `#` or `$`, the numeric field that starts there, or the
/// whole text when it has no field.
pub fn tok_format_string(input: &str) -> (r: PrintUsingFormatFragment)
    requires
        first_field_start(input@) == 0 && input@.len() > 0 ==> field_fits(input@),
    ensures
        first_field_start(input@) == input@.len() ==> (r matches PrintUsingFormatFragment::End(
            text,
        ) && text@ == input@),
        0 < first_field_start(input@) < input@.len() ==> (r matches PrintUsingFormatFragment::Literal(
            literal,
            rest,
        ) && literal@ == input@.take(first_field_start(input@) as int) && rest@ == input@.skip(
            first_field_start(input@) as int,
        )),
        first_field_start(input@) == 0 && input@.len() > 0 ==> numeric_fragment_matches(
            r,
            input@,
        ),
{
    let cs = chars_of(input);
    let ghost s = input@;
    proof {
        lemma_first_field_start(s);
    }
    let mut i: usize = 0;
    while i < cs.len()
        invariant
            cs@ == s,
            i <= s.len(),
            forall|k: int| 0 <= k < i ==> s[k] != '#' && s[k] != '$',
            first_field_start(s) <= s.len(),
            first_field_start(s) < s.len() ==> (s[first_field_start(s) as int] == '#'
                || s[first_field_start(s) as int] == '$'),
            forall|k: int| 0 <= k < first_field_start(s) ==> s[k] != '#' && s[k] != '$',
            first_field_start(s) == 0 && s.len() > 0 ==> field_fits(s),
            s == input@,
        decreases s.len() - i,
    {
        let c = cs[i];
        if c == '#' || c == '$' {
            assert(i == first_field_start(s));
            if i > 0 {
                let (head, tail) = cs.as_slice().split_at(i);
                let literal = string_from_chars(head);
                let rest = string_from_chars(tail);
                return PrintUsingFormatFragment::Literal(literal, rest);
            } else {
                return tok_numeric_format(input);
            }
        }
        i = i + 1;
    }
    assert(first_field_start(s) == s.len());
    PrintUsingFormatFragment::End(string_from_chars(cs.as_slice()))
}

/// The character of a decimal digit value `d` (0 to 9).
pub open spec fn digit_char(d: int) -> char {
    (('0' as int) + d) as char
}

/// The fractional digits of a field, least significant first: the `n`
/// lowest decimal digits of `frac`.
pub open spec fn fraction_digits_rev(frac: int, n: int) -> Seq<char>
    decreases n,
{
    if n <= 0 {
        seq![]
    } else {
        seq![digit_char(frac % 10)] + fraction_digits_rev(frac / 10, n - 1)
    }
}

/// The integer positions of a field, least significant first, from
/// position `i` on with `remaining` positions left and `tmp` the part of
/// the number not yet written: a digit while `tmp` is positive (preceded by
/// a `,` at every third position when grouping, followed by `$` after the
/// leading digit when asked for), a blank afterwards; an integer part of
/// zero is written as one `0` digit in the units position.
pub open spec fn integer_positions_rev(
    tmp: int,
    i: int,
    remaining: int,
    comma: bool,
    dollar: bool,
) -> Seq<char>
    decreases remaining,
{
    if remaining <= 0 {
        seq![]
    } else {
        let sep = if comma && i > 0 && i % 3 == 0 && tmp > 0 {
            seq![',']
        } else {
            seq![]
        };
        let body = if tmp > 0 {
            seq![digit_char(tmp % 10)] + if tmp / 10 == 0 && dollar {
                seq!['$']
            } else {
                seq![]
            }
        } else if i == 0 {
            seq!['0'] + if dollar {
                seq!['$']
            } else {
                seq![]
            }
        } else {
            seq![' ']
        };
        sep + body + integer_positions_rev(tmp / 10, i + 1, remaining - 1, comma, dollar)
    }
}

/// The text of a numeric field, written right to left: the fractional
/// digits and the dot (when the field has decimals), the integer
/// positions, and a minus sign for a negative number.
pub open spec fn number_field_rev(
    int_part: int,
    frac_part: int,
    negative: bool,
    dollar: bool,
    digits: int,
    comma: bool,
    decimals: int,
) -> Seq<char> {
    (if decimals > 0 {
        fraction_digits_rev(frac_part, decimals) + seq!['.']
    } else {
        seq![]
    }) + integer_positions_rev(int_part, 0, digits, comma, dollar) + if negative {
        seq!['-']
    } else {
        seq![]
    }
}

/// The decimal digits of `n`, least significant first (none for 0).
pub open spec fn decimal_digits_rev(n: int) -> Seq<char>
    decreases n,
{
    if n <= 0 {
        seq![]
    } else {
        seq![digit_char(n % 10)] + decimal_digits_rev(n / 10)
    }
}

/// The number of decimal digits of `n` (at least one).
pub open spec fn digit_count(n: int) -> int
    decreases n,
{
    if n < 10 {
        1
    } else {
        1 + digit_count(n / 10)
    }
}

/// The thousands-grouped decimal text of `n > 0`, least significant
/// first: groups of three digits from the units digit on, each full group
/// followed by `,` while more digits remain.
pub open spec fn grouped_digits_rev(n: int) -> Seq<char>
    decreases n,
{
    if n < 1000 {
        decimal_digits_rev(n)
    } else {
        seq![digit_char(n % 10), digit_char((n / 10) % 10), digit_char((n / 100) % 10), ',']
            + grouped_digits_rev(n / 1000)
    }
}

/// `k` blanks.
pub open spec fn blanks(k: int) -> Seq<char> {
    Seq::new(k as nat, |j: int| ' ')
}

proof fn lemma_blank_positions(i: int, r: int, comma: bool, dollar: bool)
    requires
        i > 0,
        r >= 0,
    ensures
        integer_positions_rev(0, i, r, comma, dollar) == blanks(r),
    decreases r,
{
    if r > 0 {
        lemma_blank_positions(i + 1, r - 1, comma, dollar);
        assert(blanks(r) =~= seq![' '] + blanks(r - 1));
    } else {
        assert(blanks(r) =~= seq![]);
    }
}

#[verifier::rlimit(60)]
proof fn lemma_grouped_positions(m: int, i: int, r: int, dollar: bool)
    requires
        m > 0,
        i >= 0,
        i % 3 == 0,
        r >= digit_count(m),
    ensures
        integer_positions_rev(m, i, r, true, dollar) == (if i > 0 {
            seq![',']
        } else {
            seq![]
        }) + grouped_digits_rev(m) + (if dollar {
            seq!['$']
        } else {
            seq![]
        }) + blanks(r - digit_count(m)),
    decreases m,
{
    let sep = if i > 0 {
        seq![',']
    } else {
        seq![]
    };
    let dl = if dollar {
        seq!['$']
    } else {
        seq![]
    };
    vstd::arithmetic::div_mod::lemma_div_denominator(m, 10, 10);
    vstd::arithmetic::div_mod::lemma_div_denominator(m, 100, 10);
    let d0 = digit_char(m % 10);
    let d1 = digit_char((m / 10) % 10);
    let d2 = digit_char((m / 100) % 10);
    assert(decimal_digits_rev(0) =~= Seq::<char>::empty());
    if m < 10 {
        assert(m / 10 == 0);
        assert(digit_count(m) == 1);
        lemma_blank_positions(i + 1, r - 1, true, dollar);
        assert(decimal_digits_rev(m) =~= seq![d0]);
        assert(integer_positions_rev(m, i, r, true, dollar) =~= sep + seq![d0] + dl + blanks(r - 1));
    } else if m < 100 {
        assert(m / 100 == 0 && m / 10 > 0 && m / 10 < 10);
        assert(digit_count(m / 10) == 1);
        assert(digit_count(m) == 2);
        lemma_blank_positions(i + 2, r - 2, true, dollar);
        assert(integer_positions_rev(m / 10, i + 1, r - 1, true, dollar) =~= seq![d1] + dl + blanks(r - 2));
        assert(decimal_digits_rev(m / 10) =~= seq![d1]);
        assert(decimal_digits_rev(m) =~= seq![d0, d1]);
        assert(integer_positions_rev(m, i, r, true, dollar) =~= sep + seq![d0, d1] + dl + blanks(r - 2));
    } else if m < 1000 {
        assert(m / 1000 == 0 && m / 100 > 0 && m / 100 < 10 && m / 10 >= 10 && m / 10 < 100);
        assert(digit_count(m / 100) == 1);
        assert(digit_count(m / 10) == 2);
        assert(digit_count(m) == 3);
        lemma_blank_positions(i + 3, r - 3, true, dollar);
        assert(integer_positions_rev(m / 100, i + 2, r - 2, true, dollar) =~= seq![d2] + dl + blanks(r - 3));
        assert(integer_positions_rev(m / 10, i + 1, r - 1, true, dollar) =~= seq![d1, d2] + dl + blanks(r - 3));
        assert(decimal_digits_rev(m / 100) =~= seq![d2]);
        assert(decimal_digits_rev(m / 10) =~= seq![d1, d2]);
        assert(decimal_digits_rev(m) =~= seq![d0, d1, d2]);
        assert(integer_positions_rev(m, i, r, true, dollar) =~= sep + seq![d0, d1, d2] + dl + blanks(
            r - 3,
        ));
    } else {
        vstd::arithmetic::div_mod::lemma_div_denominator(m, 10, 100);
        assert(m / 10 >= 100 && m / 100 >= 10 && m / 1000 >= 1);
        assert(digit_count(m / 100) == 1 + digit_count(m / 1000));
        assert(digit_count(m / 10) == 2 + digit_count(m / 1000));
        assert(digit_count(m) == 3 + digit_count(m / 1000));
        lemma_grouped_positions(m / 1000, i + 3, r - 3, dollar);
        let tail = integer_positions_rev(m / 1000, i + 3, r - 3, true, dollar);
        assert(integer_positions_rev(m / 100, i + 2, r - 2, true, dollar) =~= seq![d2] + tail);
        assert(integer_positions_rev(m / 10, i + 1, r - 1, true, dollar) =~= seq![d1, d2] + tail);
        assert(integer_positions_rev(m, i, r, true, dollar) =~= sep + seq![d0, d1, d2] + tail);
        assert(integer_positions_rev(m, i, r, true, dollar) =~= sep + grouped_digits_rev(m) + dl + blanks(
            r - digit_count(m),
        ));
    }
}

proof fn lemma_plain_positions(m: int, i: int, r: int, dollar: bool)
    requires
        m > 0,
        i >= 0,
        r >= digit_count(m),
    ensures
        integer_positions_rev(m, i, r, false, dollar) == decimal_digits_rev(m) + (if dollar {
            seq!['$']
        } else {
            seq![]
        }) + blanks(r - digit_count(m)),
    decreases m,
{
    let d0 = digit_char(m % 10);
    let dl = if dollar {
        seq!['$']
    } else {
        seq![]
    };
    assert(decimal_digits_rev(0) =~= Seq::<char>::empty());
    if m < 10 {
        assert(m / 10 == 0);
        lemma_blank_positions(i + 1, r - 1, false, dollar);
        assert(decimal_digits_rev(m) =~= seq![d0]);
        assert(integer_positions_rev(m, i, r, false, dollar) =~= seq![d0] + dl + blanks(r - 1));
    } else {
        assert(m / 10 > 0);
        lemma_plain_positions(m / 10, i + 1, r - 1, dollar);
        assert(integer_positions_rev(m, i, r, false, dollar) =~= seq![d0] + integer_positions_rev(
            m / 10,
            i + 1,
            r - 1,
            false,
            dollar,
        ));
        assert(decimal_digits_rev(m) =~= seq![d0] + decimal_digits_rev(m / 10));
        assert(integer_positions_rev(m, i, r, false, dollar) =~= decimal_digits_rev(m) + dl
            + blanks(r - digit_count(m)));
    }
}

/// Without grouping, the integer positions of a field hold the decimal
/// digits of the integer part, units first, then the `$` when asked for,
/// then blanks; an integer part of zero shows one `0` digit.
pub proof fn lemma_plain_integer_part(n: int, digits: int, dollar: bool)
    requires
        n >= 0,
        digits >= digit_count(n),
    ensures
        n > 0 ==> integer_positions_rev(n, 0, digits, false, dollar) == decimal_digits_rev(n) + (
        if dollar {
            seq!['$']
        } else {
            seq![]
        }) + blanks(digits - digit_count(n)),
        n == 0 ==> integer_positions_rev(n, 0, digits, false, dollar) == seq!['0'] + (if dollar {
            seq!['$']
        } else {
            seq![]
        }) + blanks(digits - 1),
{
    if n > 0 {
        lemma_plain_positions(n, 0, digits, dollar);
    } else {
        lemma_blank_positions(1, digits - 1, false, dollar);
        let dl = if dollar {
            seq!['$']
        } else {
            seq![]
        };
        assert(integer_positions_rev(n, 0, digits, false, dollar) =~= seq!['0'] + dl + blanks(
            digits - 1,
        ));
    }
}

/// With `,` grouping, the integer positions of a field hold the
/// thousands-grouped decimal text of the integer part followed by blanks:
/// read from the units digit leftwards, the digits of `n` with a `,` after
/// every third digit as long as digits remain (1234567 lays out as
/// `1,234,567`), and a `$` before the leading digit when asked for.
pub proof fn lemma_grouped_integer_part(n: int, digits: int)
    requires
        n > 0,
        digits >= digit_count(n),
    ensures
        integer_positions_rev(n, 0, digits, true, false) == grouped_digits_rev(n) + blanks(
            digits - digit_count(n),
        ),
        integer_positions_rev(n, 0, digits, true, true) == grouped_digits_rev(n) + seq!['$']
            + blanks(digits - digit_count(n)),
        number_field_rev(n, 0, false, false, digits, true, 0).reverse() == (grouped_digits_rev(n)
            + blanks(digits - digit_count(n))).reverse(),
{
    lemma_grouped_positions(n, 0, digits, true);
    lemma_grouped_positions(n, 0, digits, false);
    assert(grouped_digits_rev(n) + Seq::<char>::empty() =~= grouped_digits_rev(n));
    assert(number_field_rev(n, 0, false, false, digits, true, 0) =~= integer_positions_rev(
        n,
        0,
        digits,
        true,
        false,
    ));
}

fn digit_to_char(d: u32) -> (c: char)
    requires
        d < 10,
    ensures
        c == digit_char(d as int),
{
    let b: u8 = 48 + d as u8;
    b as char
}

/// Lays out a number in a numeric field, given its integer part, the
/// digits of its fractional part as an integer, and its sign (the
/// floating-point value itself is split by the caller). The field holds
/// `decimals` fractional digits and `digits` integer positions; leading
/// positions are blank (an integer part of zero shows one `0`), digits
/// are grouped by `,` when `comma`, a `$`
/// precedes the leading digit when `dollar`, and a `-` leads a negative
/// number.
pub fn format_number_fields(
    int_part: u32,
    frac_part: u32,
    negative: bool,
    dollar: bool,
    digits: i8,
    comma: bool,
    decimals: i8,
    target: &mut String,
)
    ensures
        final(target)@ == number_field_rev(
            int_part as int,
            frac_part as int,
            negative,
            dollar,
            digits as int,
            comma,
            decimals as int,
        ).reverse(),
{
    let mut out: Vec<char> = Vec::new();
    let mut tmp: u32 = int_part;
    if decimals > 0 {
        let mut start: u32 = frac_part;
        let mut idec: i8 = decimals;
        while idec > 0
            invariant
                0 <= idec <= decimals,
                out@ + fraction_digits_rev(start as int, idec as int) == fraction_digits_rev(
                    frac_part as int,
                    decimals as int,
                ),
            decreases idec,
        {
            let digit = start % 10;
            out.push(digit_to_char(digit));
            start = start / 10;
            idec = idec - 1;
        }
        out.push('.');
    }
    let ghost head = out@;
    let mut idigits: i8 = digits;
    let mut i: u32 = 0;
    while idigits > 0
        invariant
            idigits <= digits,
            idigits > 0 ==> i as int == digits - idigits,
            i <= 128,
            out@ + integer_positions_rev(tmp as int, i as int, idigits as int, comma, dollar)
                == head + integer_positions_rev(int_part as int, 0, digits as int, comma, dollar),
        decreases idigits,
    {
        if comma && i > 0 && i % 3 == 0 && tmp > 0 {
            out.push(',');
        }
        if tmp > 0 {
            let digit = tmp % 10;
            out.push(digit_to_char(digit));
            tmp = tmp / 10;
            if tmp == 0 && dollar {
                out.push('$');
            }
        } else if i == 0 {
            out.push('0');
            if dollar {
                out.push('$');
            }
        } else {
            out.push(' ');
        }
        idigits = idigits - 1;
        i = i + 1;
    }
    if negative {
        out.push('-');
    }
    proof {
        assert(integer_positions_rev(tmp as int, i as int, idigits as int, comma, dollar)
            == Seq::<char>::empty());
        assert(out@ == number_field_rev(
            int_part as int,
            frac_part as int,
            negative,
            dollar,
            digits as int,
            comma,
            decimals as int,
        ));
    }
    let mut reversed: Vec<char> = Vec::new();
    let mut k: usize = out.len();
    while k > 0
        invariant
            k <= out@.len(),
            reversed@ == out@.subrange(k as int, out@.len() as int).reverse(),
        decreases k,
    {
        k = k - 1;
        reversed.push(out[k]);
        assert(out@.subrange(k as int, out@.len() as int) == seq![out@[k as int]]
            + out@.subrange(k + 1, out@.len() as int));
    }
    assert(out@.subrange(0, out@.len() as int) == out@);
    *target = string_from_chars(reversed.as_slice());
}

// ----- running a format over the arguments -----

/// Every numeric field of the format `s` fits (each suffix that starts
/// with `#` or `$` has a field with at most 127 `#` on each side).
pub open spec fn format_fits(s: Seq<char>) -> bool {
    forall|i: int| 0 <= i < s.len() && (s[i] == '#' || s[i] == '$') ==> field_fits(#[trigger] s.skip(i))
}

/// Whether the numeric field that starts at position `start` fits.
fn field_fits_at(cs: &Vec<char>, start: usize) -> (r: bool)
    requires
        start <= cs@.len(),
    ensures
        r == field_fits(cs@.skip(start as int)),
{
    let ghost s = cs@.skip(start as int);
    proof {
        lemma_numeric_field_len(s);
    }
    let ghost n = numeric_field_len(s) as int;
    let mut digits: usize = 0;
    let mut decimals: usize = 0;
    let mut after_dot = false;
    let mut i: usize = start;
    while i < cs.len() && (cs[i] == '$' || cs[i] == '#' || cs[i] == '.' || cs[i] == ',')
        invariant
            s == cs@.skip(start as int),
            start <= i,
            i - start <= n,
            n <= s.len(),
            forall|k: int| 0 <= k < n ==> is_format_char(s[k]),
            n < s.len() ==> !is_format_char(s[n]),
            ({
                let r = field_spec(s.subrange(i - start, n), after_dot);
                let t = field_spec(s.take(n), false);
                &&& t.1 == digits + r.1
                &&& t.3 == decimals + r.3
            }),
            digits <= i - start,
            decimals <= i - start,
        decreases cs@.len() - i,
    {
        let c = cs[i];
        assert(s[i - start] == c);
        proof {
            assert(s.subrange(i - start, n).drop_first() == s.subrange(i - start + 1, n));
        }
        if c == '#' && !after_dot {
            digits = digits + 1;
        } else if c == '#' && after_dot {
            decimals = decimals + 1;
        } else if c == '.' {
            after_dot = true;
        }
        i = i + 1;
    }
    proof {
        assert(i - start == n);
        assert(s.subrange(n, n) == Seq::<char>::empty());
    }
    digits <= 127 && decimals <= 127
}

/// Whether every numeric field of `format` fits.
pub fn format_fields_fit(format: &str) -> (r: bool)
    ensures
        r == format_fits(format@),
{
    let cs = chars_of(format);
    let ghost s = format@;
    let mut i: usize = 0;
    while i < cs.len()
        invariant
            cs@ == s,
            s == format@,
            i <= s.len(),
            forall|k: int| 0 <= k < i && (s[k] == '#' || s[k] == '$') ==> field_fits(
                #[trigger] s.skip(k),
            ),
        decreases s.len() - i,
    {
        if (cs[i] == '#' || cs[i] == '$') && !field_fits_at(&cs, i) {
            assert(s[i as int] == '#' || s[i as int] == '$');
            assert(!field_fits(s.skip(i as int)));
            return false;
        }
        i = i + 1;
    }
    true
}

/// What to do next while a `PRINT USING` format is run over its
/// arguments.
pub enum PrintUsingAction {
    /// Print this text.
    Print(String),
    /// Print argument `index` laid out in the given numeric field.
    FormatArgument { index: usize, dollar: bool, digits: i8, comma: bool, decimals: i8 },
    /// The statement is done; end the line when `newline`.
    Finish { newline: bool },
}

/// A `PRINT USING` format being run over arguments `1..n_args` (argument
/// 0 is the format itself): the whole format is printed again and again,
/// each numeric field taking the next argument, until a pass over the
/// format ends with the last argument used.
pub struct PrintUsingState {
    format: String,
    remaining: String,
    position: usize,
    arg_i: usize,
    n_args: usize,
    newline: bool,
    finished: bool,
}

impl PrintUsingState {
    pub closed spec fn format(&self) -> Seq<char> {
        self.format@
    }

    /// The format text not yet printed in the current pass.
    pub closed spec fn remaining(&self) -> Seq<char> {
        self.remaining@
    }

    /// The argument the next numeric field takes.
    pub closed spec fn arg_index(&self) -> nat {
        self.arg_i as nat
    }

    pub closed spec fn n_args(&self) -> nat {
        self.n_args as nat
    }

    pub closed spec fn ends_line(&self) -> bool {
        self.newline
    }

    pub closed spec fn is_finished(&self) -> bool {
        self.finished
    }

    pub closed spec fn wf(&self) -> bool {
        &&& format_fits(self.format@)
        &&& self.position <= self.format@.len()
        &&& self.remaining@ == self.format@.skip(self.position as int)
    }

    /// The start of a run of `format` over `n_args` arguments, ending the
    /// line at the end when `newline`.
    pub fn new(format: String, n_args: usize, newline: bool) -> (st: PrintUsingState)
        requires
            format_fits(format@),
        ensures
            st.wf(),
            st.format() == format@,
            st.remaining() == format@,
            st.arg_index() == 1,
            st.n_args() == n_args,
            st.ends_line() == newline,
            !st.is_finished(),
    {
        let remaining = format.clone();
        assert(format@.skip(0) =~= format@);
        PrintUsingState {
            format,
            remaining,
            position: 0,
            arg_i: 1,
            n_args,
            newline,
            finished: false,
        }
    }

    /// The next action, and the state after it.
    pub fn next_action(&mut self) -> (r: PrintUsingAction)
        requires
            old(self).wf(),
            old(self).arg_index() < usize::MAX,
        ensures
            final(self).wf(),
            final(self).format() == old(self).format(),
            final(self).n_args() == old(self).n_args(),
            final(self).ends_line() == old(self).ends_line(),
            ({
                let rem = old(self).remaining();
                let ffs = first_field_start(rem);
                if old(self).is_finished() {
                    &&& r == PrintUsingAction::Finish { newline: old(self).ends_line() }
                    &&& final(self).is_finished()
                } else if ffs == rem.len() {
                    &&& r matches PrintUsingAction::Print(t) && t@ == rem
                    &&& final(self).arg_index() == old(self).arg_index()
                    &&& if old(self).arg_index() == old(self).n_args() && old(self).arg_index()
                        != 1 {
                        final(self).is_finished()
                    } else {
                        !final(self).is_finished() && final(self).remaining()
                            == old(self).format()
                    }
                } else if ffs > 0 {
                    &&& r matches PrintUsingAction::Print(t) && t@ == rem.take(ffs as int)
                    &&& final(self).remaining() == rem.skip(ffs as int)
                    &&& final(self).arg_index() == old(self).arg_index()
                    &&& !final(self).is_finished()
                } else {
                    let n = numeric_field_len(rem) as int;
                    let f = field_spec(rem.take(n), false);
                    &&& r == PrintUsingAction::FormatArgument {
                        index: old(self).arg_index() as usize,
                        dollar: f.0,
                        digits: f.1 as i8,
                        comma: f.2,
                        decimals: f.3 as i8,
                    }
                    &&& final(self).remaining() == rem.skip(n)
                    &&& final(self).arg_index() == old(self).arg_index() + 1
                    &&& !final(self).is_finished()
                }
            }),
    {
        if self.finished {
            return PrintUsingAction::Finish { newline: self.newline };
        }
        let ghost rem = self.remaining@;
        proof {
            lemma_first_field_start(rem);
            lemma_numeric_field_len(rem);
            if first_field_start(rem) == 0 && rem.len() > 0 {
                assert(self.format@[self.position as int] == rem[0]);
                assert(field_fits(self.format@.skip(self.position as int)));
            }
        }
        match tok_format_string(self.remaining.as_str()) {
            PrintUsingFormatFragment::Literal(literal, rest) => {
                self.position = literal_len(&self.format) - literal_len(&rest);
                assert(self.format@.skip(self.position as int) =~= rem.skip(
                    first_field_start(rem) as int,
                ));
                self.remaining = rest;
                PrintUsingAction::Print(literal)
            },
            PrintUsingFormatFragment::Numeric { dollar, digits, comma, decimals, rest } => {
                let index = self.arg_i;
                self.position = literal_len(&self.format) - literal_len(&rest);
                proof {
                    assert(rest@ == rem.skip(numeric_field_len(rem) as int));
                    assert(self.format@.skip(self.position as int) =~= rest@);
                }
                self.remaining = rest;
                self.arg_i = self.arg_i + 1;
                PrintUsingAction::FormatArgument { index, dollar, digits, comma, decimals }
            },
            PrintUsingFormatFragment::End(last) => {
                if self.arg_i == self.n_args && self.arg_i != 1 {
                    self.finished = true;
                } else {
                    self.remaining = self.format.clone();
                    self.position = 0;
                    assert(self.format@.skip(0) =~= self.format@);
                }
                PrintUsingAction::Print(last)
            },
        }
    }
}

/// Number of characters of a string.
fn literal_len(s: &String) -> (n: usize)
    ensures
        n == s@.len(),
{
    chars_of(s.as_str()).len()
}

} // verus!
