//! Decimal numerals: the text of a count literal and of the index
//! literals the expander emits.

use vstd::prelude::*;
use vstd::string::*;

verus! {

/// Whether a character is a decimal digit.
pub open spec fn is_digit(c: char) -> bool {
    48 <= c as u32 <= 57
}

/// The value of a decimal digit character.
pub open spec fn digit_val(c: char) -> nat {
    (c as u32 - 48) as nat
}

/// The character for a decimal digit value below ten.
pub open spec fn digit_char(d: nat) -> char {
    if d == 0 {
        '0'
    } else if d == 1 {
        '1'
    } else if d == 2 {
        '2'
    } else if d == 3 {
        '3'
    } else if d == 4 {
        '4'
    } else if d == 5 {
        '5'
    } else if d == 6 {
        '6'
    } else if d == 7 {
        '7'
    } else if d == 8 {
        '8'
    } else {
        '9'
    }
}

/// The decimal numeral of a number: its digits in order, without
/// leading zeros (the numeral of zero is "0").
pub open spec fn dec_digits(n: nat) -> Seq<char>
    decreases n,
{
    if n < 10 {
        seq![digit_char(n)]
    } else {
        dec_digits(n / 10).push(digit_char(n % 10))
    }
}

/// The number a sequence of digit characters denotes.
pub open spec fn dec_value(s: Seq<char>) -> nat
    decreases s.len(),
{
    if s.len() == 0 {
        0
    } else {
        dec_value(s.drop_last()) * 10 + digit_val(s.last())
    }
}

/// Whether a text is a nonempty run of decimal digits.
pub open spec fn is_digit_run(s: Seq<char>) -> bool {
    s.len() > 0 && forall|i: int| 0 <= i < s.len() ==> is_digit(#[trigger] s[i])
}

/// The numeral of a number is a digit run that denotes that number.
pub proof fn lemma_dec_digits_roundtrip(n: nat)
    ensures
        is_digit_run(dec_digits(n)),
        dec_value(dec_digits(n)) == n,
    decreases n,
{
    if n < 10 {
        let s = dec_digits(n);
        assert(s =~= seq![digit_char(n)]);
        assert(s.drop_last() =~= Seq::<char>::empty());
        assert(dec_value(s) == dec_value(s.drop_last()) * 10 + digit_val(s.last()));
        assert(digit_val(digit_char(n)) == n);
    } else {
        lemma_dec_digits_roundtrip(n / 10);
        let prefix = dec_digits(n / 10);
        let whole = prefix.push(digit_char(n % 10));
        assert(whole.drop_last() =~= prefix);
        assert(dec_value(whole) == n / 10 * 10 + n % 10);
        assert(n / 10 * 10 + n % 10 == n) by {
            vstd::arithmetic::div_mod::lemma_fundamental_div_mod(n as int, 10);
        }
    }
}

/// The one-character text of a decimal digit value.
pub fn digit_str(d: usize) -> (s: &'static str)
    requires
        d < 10,
    ensures
        s@ == seq![digit_char(d as nat)],
{
    if d == 0 {
        proof {
            reveal_strlit("0");
            assert("0"@ =~= seq![digit_char(0)]);
        }
        "0"
    } else if d == 1 {
        proof {
            reveal_strlit("1");
            assert("1"@ =~= seq![digit_char(1)]);
        }
        "1"
    } else if d == 2 {
        proof {
            reveal_strlit("2");
            assert("2"@ =~= seq![digit_char(2)]);
        }
        "2"
    } else if d == 3 {
        proof {
            reveal_strlit("3");
            assert("3"@ =~= seq![digit_char(3)]);
        }
        "3"
    } else if d == 4 {
        proof {
            reveal_strlit("4");
            assert("4"@ =~= seq![digit_char(4)]);
        }
        "4"
    } else if d == 5 {
        proof {
            reveal_strlit("5");
            assert("5"@ =~= seq![digit_char(5)]);
        }
        "5"
    } else if d == 6 {
        proof {
            reveal_strlit("6");
            assert("6"@ =~= seq![digit_char(6)]);
        }
        "6"
    } else if d == 7 {
        proof {
            reveal_strlit("7");
            assert("7"@ =~= seq![digit_char(7)]);
        }
        "7"
    } else if d == 8 {
        proof {
            reveal_strlit("8");
            assert("8"@ =~= seq![digit_char(8)]);
        }
        "8"
    } else {
        proof {
            reveal_strlit("9");
            assert("9"@ =~= seq![digit_char(9)]);
        }
        "9"
    }
}

/// Renders a number as its decimal numeral.
pub fn dec_string(n: usize) -> (s: String)
    ensures
        s@ == dec_digits(n as nat),
    decreases n,
{
    if n < 10 {
        String::from_str(digit_str(n))
    } else {
        let mut s = dec_string(n / 10);
        s.append(digit_str(n % 10));
        proof {
            assert(s@ =~= dec_digits(n as nat / 10).push(digit_char(n as nat % 10)));
        }
        s
    }
}

/// The value of a character as a digit: the decimal digits, then the
/// hex letters in either case; any other character gets a sentinel
/// value that no base reaches.
pub open spec fn radix_digit_val(c: char) -> nat {
    if 48 <= c as u32 <= 57 {
        (c as u32 - 48) as nat
    } else if 97 <= c as u32 <= 102 {
        (c as u32 - 87) as nat
    } else if 65 <= c as u32 <= 70 {
        (c as u32 - 55) as nat
    } else {
        99
    }
}

/// Whether a character is a digit of the given base.
pub open spec fn is_radix_digit(c: char, base: nat) -> bool {
    radix_digit_val(c) < base
}

/// Whether a character may stand in the digit part of a literal of
/// the given base: a digit of the base or an underscore separator.
pub open spec fn is_digit_or_sep(c: char, base: nat) -> bool {
    is_radix_digit(c, base) || c == '_'
}

/// The base a literal's prefix selects: `0x` sixteen, `0o` eight,
/// `0b` two, and otherwise ten.
pub open spec fn literal_base(s: Seq<char>) -> nat {
    if s.len() >= 2 && s[0] == '0' && s[1] == 'x' {
        16
    } else if s.len() >= 2 && s[0] == '0' && s[1] == 'o' {
        8
    } else if s.len() >= 2 && s[0] == '0' && s[1] == 'b' {
        2
    } else {
        10
    }
}

/// Where a literal's digit part starts: after the two prefix
/// characters, or at the front when there is no prefix.
pub open spec fn literal_digits_start(s: Seq<char>) -> int {
    if literal_base(s) == 10 {
        0
    } else {
        2
    }
}

/// The end of the run of digits and separators that starts at `j`.
pub open spec fn scan_digits(s: Seq<char>, base: nat, j: int) -> int
    decreases s.len() - j,
{
    if j < s.len() && is_digit_or_sep(s[j], base) {
        scan_digits(s, base, j + 1)
    } else {
        j
    }
}

/// The digit-and-separator run reaches exactly to the first character
/// that is neither.
pub proof fn lemma_scan_digits(s: Seq<char>, base: nat, j: int)
    requires
        0 <= j <= s.len(),
    ensures
        j <= scan_digits(s, base, j) <= s.len(),
        forall|i: int| j <= i < scan_digits(s, base, j) ==> is_digit_or_sep(#[trigger] s[i], base),
        scan_digits(s, base, j) == s.len() || !is_digit_or_sep(s[scan_digits(s, base, j)], base),
    decreases s.len() - j,
{
    if j < s.len() && is_digit_or_sep(s[j], base) {
        lemma_scan_digits(s, base, j + 1);
    }
}

/// The digit part of a literal: from after the prefix to the first
/// character that is neither a digit of the base nor an underscore.
pub open spec fn literal_digits(s: Seq<char>) -> Seq<char> {
    s.subrange(
        literal_digits_start(s),
        scan_digits(s, literal_base(s), literal_digits_start(s)),
    )
}

/// The suffix of a literal: what follows the digit part.
pub open spec fn literal_suffix(s: Seq<char>) -> Seq<char> {
    s.subrange(scan_digits(s, literal_base(s), literal_digits_start(s)), s.len() as int)
}

/// Whether a character is an ASCII letter.
pub open spec fn is_letter(c: char) -> bool {
    97 <= c as u32 <= 122 || 65 <= c as u32 <= 90
}

/// Whether a character may stand in a literal suffix: a letter, a
/// decimal digit, or an underscore.
pub open spec fn is_suffix_char(c: char) -> bool {
    is_letter(c) || is_digit(c) || c == '_'
}

/// Whether a suffix marks a floating-point literal: `f32`, `f64`, or
/// a decimal exponent such as in `1e3`.
pub open spec fn is_float_suffix(sfx: Seq<char>, base: nat) -> bool {
    ||| sfx == seq!['f', '3', '2']
    ||| sfx == seq!['f', '6', '4']
    ||| (base == 10 && sfx.len() > 0 && (sfx[0] == 'e' || sfx[0] == 'E'))
}

/// Whether a suffix may close an integer literal: nothing, or an
/// identifier-shaped tail that does not mark a float.
pub open spec fn is_int_suffix(sfx: Seq<char>, base: nat) -> bool {
    sfx.len() == 0 || {
        &&& is_letter(sfx[0])
        &&& forall|i: int| 0 <= i < sfx.len() ==> is_suffix_char(#[trigger] sfx[i])
        &&& !is_float_suffix(sfx, base)
    }
}

/// Whether a text is an integer literal of the host language: an
/// optional base prefix, then at least one digit of the base with
/// optional underscore separators, then an optional integer suffix.
pub open spec fn is_int_literal(s: Seq<char>) -> bool {
    &&& exists|k: int|
        0 <= k < literal_digits(s).len() && #[trigger] is_radix_digit(
            literal_digits(s)[k],
            literal_base(s),
        )
    &&& is_int_suffix(literal_suffix(s), literal_base(s))
}

/// The number a digit part denotes in a base, underscores skipped.
pub open spec fn radix_value(ds: Seq<char>, base: nat) -> nat
    decreases ds.len(),
{
    if ds.len() == 0 {
        0
    } else if ds.last() == '_' {
        radix_value(ds.drop_last(), base)
    } else {
        radix_value(ds.drop_last(), base) * base + radix_digit_val(ds.last())
    }
}

/// The value an integer literal denotes.
pub open spec fn int_literal_value(s: Seq<char>) -> nat {
    radix_value(literal_digits(s), literal_base(s))
}

/// The value a digit part denotes never shrinks when the part grows
/// to the right.
pub proof fn lemma_radix_value_prefix(ds: Seq<char>, base: nat, i: int)
    requires
        1 <= base,
        0 <= i <= ds.len(),
    ensures
        radix_value(ds.subrange(0, i), base) <= radix_value(ds, base),
    decreases ds.len(),
{
    if i < ds.len() {
        assert(ds.subrange(0, i) =~= ds.drop_last().subrange(0, i));
        lemma_radix_value_prefix(ds.drop_last(), base, i);
        if ds.last() != '_' {
            let v = radix_value(ds.drop_last(), base);
            assert(v * base >= v) by (nonlinear_arith)
                requires
                    1 <= base,
                    0 <= v,
            ;
        }
    } else {
        assert(ds.subrange(0, i) =~= ds);
    }
}

/// The value of a character as a digit, with the sentinel for
/// everything that is no digit in any base.
fn char_digit_val(c: char) -> (v: usize)
    ensures
        v as nat == radix_digit_val(c),
{
    let u = c as u32;
    if 48 <= u && u <= 57 {
        (u - 48) as usize
    } else if 97 <= u && u <= 102 {
        (u - 87) as usize
    } else if 65 <= u && u <= 70 {
        (u - 55) as usize
    } else {
        99
    }
}

/// Reads the base a literal's prefix selects.
fn literal_base_exec(text: &str) -> (b: usize)
    ensures
        b as nat == literal_base(text@),
        b == 2 || b == 8 || b == 10 || b == 16,
        b != 10 ==> text@.len() >= 2,
{
    let len = text.unicode_len();
    if len >= 2 {
        let c0 = text.get_char(0);
        let c1 = text.get_char(1);
        if c0 == '0' && c1 == 'x' {
            16
        } else if c0 == '0' && c1 == 'o' {
            8
        } else if c0 == '0' && c1 == 'b' {
            2
        } else {
            10
        }
    } else {
        10
    }
}

/// Finds the end of the digit-and-separator run that starts at `from`.
fn scan_digits_exec(text: &str, base: usize, from: usize) -> (end: usize)
    requires
        from <= text@.len(),
    ensures
        end as int == scan_digits(text@, base as nat, from as int),
        from <= end <= text@.len(),
{
    let len = text.unicode_len();
    let mut j: usize = from;
    while j < len
        invariant
            from <= j <= len,
            len == text@.len(),
            scan_digits(text@, base as nat, from as int) == scan_digits(
                text@,
                base as nat,
                j as int,
            ),
        decreases len - j,
    {
        let c = text.get_char(j);
        let v = char_digit_val(c);
        if !(v < base || c == '_') {
            return j;
        }
        j = j + 1;
    }
    j
}

/// Checks what follows the digit part against the integer-suffix
/// shape.
fn is_int_suffix_exec(text: &str, base: usize, end: usize) -> (b: bool)
    requires
        end <= text@.len(),
    ensures
        b == is_int_suffix(text@.subrange(end as int, text@.len() as int), base as nat),
{
    let len = text.unicode_len();
    let ghost sfx = text@.subrange(end as int, len as int);
    if end == len {
        return true;
    }
    let c0 = text.get_char(end);
    let u0 = c0 as u32;
    if !(97 <= u0 && u0 <= 122 || 65 <= u0 && u0 <= 90) {
        return false;
    }
    let mut i: usize = end;
    while i < len
        invariant
            end <= i <= len,
            len == text@.len(),
            sfx == text@.subrange(end as int, len as int),
            forall|k: int| end <= k < i ==> is_suffix_char(#[trigger] text@[k]),
        decreases len - i,
    {
        let c = text.get_char(i);
        let u = c as u32;
        if !(97 <= u && u <= 122 || 65 <= u && u <= 90 || 48 <= u && u <= 57 || c == '_') {
            proof {
                assert(sfx[i - end] == text@[i as int]);
                assert(!is_suffix_char(sfx[i - end]));
            }
            return false;
        }
        i = i + 1;
    }
    proof {
        assert forall|k: int| 0 <= k < sfx.len() implies is_suffix_char(#[trigger] sfx[k]) by {
            assert(sfx[k] == text@[end + k]);
        }
        assert(sfx[0] == text@[end as int]);
    }
    if base == 10 && (c0 == 'e' || c0 == 'E') {
        return false;
    }
    if len - end == 3 && c0 == 'f' {
        let c1 = text.get_char(end + 1);
        let c2 = text.get_char(end + 2);
        if (c1 == '3' && c2 == '2') || (c1 == '6' && c2 == '4') {
            proof {
                assert(sfx =~= seq![c0, c1, c2]);
            }
            return false;
        }
    }
    proof {
        if sfx == seq!['f', '3', '2'] || sfx == seq!['f', '6', '4'] {
            assert(sfx.len() == 3 && sfx[0] == 'f');
            assert(sfx[1] == text@[end + 1] && sfx[2] == text@[end + 2]);
            assert(false);
        }
    }
    true
}

/// Decides whether a text is an integer literal of the host language.
pub fn is_int_literal_exec(text: &str) -> (b: bool)
    ensures
        b == is_int_literal(text@),
{
    let len = text.unicode_len();
    let base = literal_base_exec(text);
    let start: usize = if base == 10 {
        0
    } else {
        2
    };
    let end = scan_digits_exec(text, base, start);
    proof {
        lemma_scan_digits(text@, base as nat, start as int);
        assert(literal_digits(text@) =~= text@.subrange(start as int, end as int));
        assert(literal_suffix(text@) =~= text@.subrange(end as int, len as int));
    }
    let mut has_digit = false;
    let mut i: usize = start;
    while i < end
        invariant
            start <= i <= end,
            end <= len,
            len == text@.len(),
            base as nat == literal_base(text@),
            has_digit == exists|k: int|
                start <= k < i && #[trigger] is_radix_digit(text@[k], base as nat),
        decreases end - i,
    {
        let v = char_digit_val(text.get_char(i));
        if v < base {
            has_digit = true;
            proof {
                assert(is_radix_digit(text@[i as int], base as nat));
            }
        } else {
            proof {
                assert(!is_radix_digit(text@[i as int], base as nat));
            }
        }
        i = i + 1;
    }
    proof {
        let s = text@;
        let bn = base as nat;
        let d = literal_digits(s);
        if has_digit {
            let w = choose|k: int| start <= k < end && #[trigger] is_radix_digit(s[k], bn);
            assert(d[w - start] == s[w]);
            assert(is_radix_digit(d[w - start], bn));
        } else {
            assert forall|k: int| 0 <= k < d.len() implies !is_radix_digit(
                #[trigger] d[k],
                bn,
            ) by {
                assert(d[k] == s[start + k]);
            }
        }
    }
    if !has_digit {
        return false;
    }
    is_int_suffix_exec(text, base, end)
}

/// Computes the number an integer literal denotes, or reports that it
/// does not fit the machine's word size.
pub fn int_literal_value_exec(text: &str) -> (r: Option<usize>)
    requires
        is_int_literal(text@),
    ensures
        match r {
            Some(v) => v as nat == int_literal_value(text@),
            None => int_literal_value(text@) > usize::MAX,
        },
{
    let len = text.unicode_len();
    let base = literal_base_exec(text);
    let start: usize = if base == 10 {
        0
    } else {
        2
    };
    let end = scan_digits_exec(text, base, start);
    let ghost d = literal_digits(text@);
    proof {
        lemma_scan_digits(text@, base as nat, start as int);
        assert(d =~= text@.subrange(start as int, end as int));
    }
    let mut acc: usize = 0;
    let mut j: usize = start;
    while j < end
        invariant
            start <= j <= end,
            end <= len,
            len == text@.len(),
            base as nat == literal_base(text@),
            1 <= base,
            start as int == literal_digits_start(text@),
            end as int == scan_digits(text@, base as nat, start as int),
            d == literal_digits(text@),
            d.len() == end - start,
            forall|k: int| 0 <= k < d.len() ==> #[trigger] d[k] == text@[start + k],
            acc as nat == radix_value(d.subrange(0, j - start), base as nat),
        decreases end - j,
    {
        let c = text.get_char(j);
        proof {
            assert(d.subrange(0, j + 1 - start).drop_last() =~= d.subrange(0, j - start));
            assert(d[j - start] == text@[j as int]);
        }
        if c == '_' {
            proof {
                assert(radix_value(d.subrange(0, j + 1 - start), base as nat) == radix_value(
                    d.subrange(0, j - start),
                    base as nat,
                ));
            }
        } else {
            let v = char_digit_val(c);
            let grown = match acc.checked_mul(base) {
                Some(m) => m.checked_add(v),
                None => None,
            };
            proof {
                assert(radix_value(d.subrange(0, j + 1 - start), base as nat) == acc as nat
                    * base as nat + radix_digit_val(c));
            }
            match grown {
                Some(nv) => {
                    acc = nv;
                },
                None => {
                    proof {
                        lemma_radix_value_prefix(d, base as nat, j + 1 - start);
                    }
                    return None;
                },
            }
        }
        j = j + 1;
    }
    proof {
        assert(d.subrange(0, end - start) =~= d);
    }
    Some(acc)
}

} // verus!
