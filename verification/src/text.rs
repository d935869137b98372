//! Decimal text: digits, the numbers they spell, and numbers spelt out.

use vstd::prelude::*;

verus! {

/// `String::push` appends one character to the end of the string.
pub assume_specification[ String::push ](s: &mut String, c: char)
    ensures
        final(s)@ == old(s)@.push(c),
;

/// Ten to the power `k`.
pub open spec fn pow10(k: nat) -> nat
    decreases k,
{
    if k == 0 {
        1
    } else {
        10 * pow10((k - 1) as nat)
    }
}

/// Whether `c` is one of the ten ASCII digits.
pub open spec fn is_digit(c: char) -> bool {
    '0' <= c && c <= '9'
}

/// The number that the digit `c` stands for; 0 for any other character.
pub open spec fn digit_value(c: char) -> nat {
    if is_digit(c) {
        (c as u32 - '0' as u32) as nat
    } else {
        0
    }
}

/// Whether every character of `s` is a digit.
pub open spec fn all_digits(s: Seq<char>) -> bool {
    forall|i: int| 0 <= i < s.len() ==> is_digit(#[trigger] s[i])
}

/// The number that the digits of `s` spell in base ten, most significant
/// digit first. The empty text spells 0.
pub open spec fn decimal_value(s: Seq<char>) -> nat
    decreases s.len(),
{
    if s.len() == 0 {
        0
    } else {
        decimal_value(s.drop_last()) * 10 + digit_value(s.last())
    }
}

/// The digit character for `d`, for `d` below ten.
pub open spec fn digit_char(d: nat) -> char {
    ('0' as u32 + d) as char
}

/// `n` spelt out in base ten without leading zeros; "0" for zero.
pub open spec fn decimal_text(n: nat) -> Seq<char>
    decreases n,
{
    if n < 10 {
        seq![digit_char(n)]
    } else {
        decimal_text(n / 10).push(digit_char(n % 10))
    }
}

/// `n` spelt out in base ten, with a leading minus sign when negative.
pub open spec fn signed_text(n: int) -> Seq<char> {
    if n < 0 {
        seq!['-'] + decimal_text((-n) as nat)
    } else {
        decimal_text(n as nat)
    }
}

/// Whether `s` spells a number that fits in 32 bits: at least one
/// character, digits only, value within range.
pub open spec fn spells_u32(s: Seq<char>) -> bool {
    s.len() > 0 && all_digits(s) && decimal_value(s) <= u32::MAX
}

/// A longer prefix of a text never spells a smaller number.
pub proof fn lemma_value_grows(s: Seq<char>, i: int)
    requires
        0 <= i <= s.len(),
    ensures
        decimal_value(s.take(i)) <= decimal_value(s),
    decreases s.len() - i,
{
    if i == s.len() {
        assert(s.take(i) =~= s);
    } else {
        lemma_value_grows(s.drop_last(), i);
        assert(s.drop_last().take(i) =~= s.take(i));
    }
}

/// Reading one more digit multiplies by ten and adds the digit.
pub proof fn lemma_value_step(s: Seq<char>, i: int)
    requires
        0 <= i < s.len(),
    ensures
        decimal_value(s.take(i + 1)) == decimal_value(s.take(i)) * 10 + digit_value(s[i]),
{
    assert(s.take(i + 1).drop_last() =~= s.take(i));
}

/// The value of two texts joined: the first shifted by the length of the
/// second, plus the second.
pub proof fn lemma_value_concat(a: Seq<char>, b: Seq<char>)
    ensures
        decimal_value(a + b) == decimal_value(a) * pow10(b.len()) + decimal_value(b),
    decreases b.len(),
{
    if b.len() == 0 {
        assert(a + b =~= a);
        assert(pow10(0) == 1);
    } else {
        let joined = a + b;
        let front = b.drop_last();
        lemma_value_concat(a, front);
        assert(joined.drop_last() =~= a + front);
        assert(joined.last() == b.last());
        let shifted = pow10(front.len());
        assert(pow10(b.len()) == 10 * shifted);
        assert(decimal_value(joined) == decimal_value(a + front) * 10 + digit_value(b.last()));
        assert(decimal_value(b) == decimal_value(front) * 10 + digit_value(b.last()));
        assert((decimal_value(a) * shifted + decimal_value(front)) * 10 == decimal_value(a) * (10
            * shifted) + decimal_value(front) * 10) by (nonlinear_arith);
    }
}

/// A text of `k` digits spells a number below ten to the `k`.
pub proof fn lemma_value_bound(s: Seq<char>)
    requires
        all_digits(s),
    ensures
        decimal_value(s) < pow10(s.len()),
    decreases s.len(),
{
    if s.len() > 0 {
        lemma_value_bound(s.drop_last());
        assert(is_digit(s[s.len() - 1]));
    }
}

/// A text of digits spells zero exactly when every digit is '0'.
pub proof fn lemma_value_zero(s: Seq<char>)
    requires
        all_digits(s),
    ensures
        decimal_value(s) == 0 <==> (forall|i: int| 0 <= i < s.len() ==> #[trigger] s[i] == '0'),
    decreases s.len(),
{
    if s.len() > 0 {
        let front = s.drop_last();
        lemma_value_zero(front);
        assert(is_digit(s[s.len() - 1]));
        if decimal_value(s) == 0 {
            assert forall|i: int| 0 <= i < s.len() implies #[trigger] s[i] == '0' by {
                if i < s.len() - 1 {
                    assert(front[i] == '0');
                }
            }
        } else {
            if decimal_value(front) != 0 {
                let i = choose|i: int| 0 <= i < front.len() && #[trigger] front[i] != '0';
                assert(s[i] != '0');
            }
        }
    }
}

/// The digit character for `d` is a digit and stands for `d`.
pub proof fn lemma_digit_char(d: nat)
    requires
        d < 10,
    ensures
        is_digit(digit_char(d)),
        digit_value(digit_char(d)) == d,
{
}

/// A number spelt out reads back as itself: the text is made of digits,
/// is not empty, and spells the number.
pub proof fn lemma_text_reads_back(n: nat)
    ensures
        decimal_text(n).len() > 0,
        all_digits(decimal_text(n)),
        decimal_value(decimal_text(n)) == n,
    decreases n,
{
    let t = decimal_text(n);
    lemma_digit_char(n % 10);
    if n < 10 {
        assert(t.drop_last() =~= Seq::<char>::empty());
        assert(t.last() == digit_char(n));
        assert(decimal_value(t) == decimal_value(t.drop_last()) * 10 + digit_value(t.last()));
    } else {
        lemma_text_reads_back(n / 10);
        assert(t.drop_last() =~= decimal_text(n / 10));
        assert(t.last() == digit_char(n % 10));
        assert(decimal_value(t) == decimal_value(t.drop_last()) * 10 + digit_value(t.last()));
    }
}

/// The characters of `s`, in order.
pub fn chars_of(s: &str) -> (chars: Vec<char>)
    ensures
        chars@ == s@,
{
    let mut chars: Vec<char> = Vec::new();
    for c in it: s.chars()
        invariant
            it.seq() == s@,
            chars@ == it.seq().take(it.index()),
    {
        chars.push(c);
        assert(it.seq().take(it.index() + 1) =~= it.seq().take(it.index()).push(c));
    }
    assert(chars@ =~= s@);
    chars
}

/// The number behind a digit character, or nothing for another character.
pub(crate) fn digit_of(c: char) -> (digit: Option<u8>)
    ensures
        digit is Some <==> is_digit(c),
        digit matches Some(d) ==> d == digit_value(c) && d < 10,
{
    if '0' <= c && c <= '9' {
        Some((c as u32 - '0' as u32) as u8)
    } else {
        None
    }
}

/// Whether the characters of `chars` from `from` up to `to` are all digits.
pub(crate) fn digits_only(chars: &Vec<char>, from: usize, to: usize) -> (only: bool)
    requires
        from <= to <= chars.len(),
    ensures
        only == all_digits(chars@.subrange(from as int, to as int)),
{
    let ghost part = chars@.subrange(from as int, to as int);
    let mut i = from;
    while i < to
        invariant
            from <= i <= to <= chars.len(),
            part == chars@.subrange(from as int, to as int),
            forall|j: int| 0 <= j < i - from ==> is_digit(#[trigger] part[j]),
        decreases to - i,
    {
        if digit_of(chars[i]).is_none() {
            assert(!is_digit(part[i - from]));
            return false;
        }
        i += 1;
    }
    true
}

/// The number spelt by the digits of `chars` from `from` up to `to`, or
/// nothing when it does not fit in 128 bits.
pub(crate) fn digits_value(chars: &Vec<char>, from: usize, to: usize) -> (value: Option<u128>)
    requires
        from <= to <= chars.len(),
        all_digits(chars@.subrange(from as int, to as int)),
    ensures
        match value {
            Some(v) => v == decimal_value(chars@.subrange(from as int, to as int)),
            None => decimal_value(chars@.subrange(from as int, to as int)) > u128::MAX,
        },
{
    let ghost part = chars@.subrange(from as int, to as int);
    let mut value: u128 = 0;
    let mut i = from;
    while i < to
        invariant
            from <= i <= to <= chars.len(),
            part == chars@.subrange(from as int, to as int),
            all_digits(part),
            value == decimal_value(part.take(i - from)),
        decreases to - i,
    {
        assert(is_digit(part[i - from]));
        let digit = match digit_of(chars[i]) {
            Some(d) => d,
            None => 0,
        };
        let next = match value.checked_mul(10) {
            Some(tens) => tens.checked_add(digit as u128),
            None => None,
        };
        proof {
            lemma_value_step(part, i - from);
            lemma_value_grows(part, i - from + 1);
        }
        match next {
            Some(v) => {
                value = v;
            },
            None => {
                return None;
            },
        }
        i += 1;
    }
    assert(part.take(to - from) =~= part);
    Some(value)
}

/// Reads `text` as an unsigned number of at most 32 bits. The text must be
/// one or more ASCII digits and nothing else.
pub fn parse_u32(text: &str) -> (number: Option<u32>)
    ensures
        number is Some <==> spells_u32(text@),
        number matches Some(n) ==> n == decimal_value(text@),
{
    let chars = chars_of(text);
    let n = chars.len();
    assert(chars@.subrange(0, n as int) =~= text@);
    if n == 0 || !digits_only(&chars, 0, n) {
        return None;
    }
    match digits_value(&chars, 0, n) {
        Some(v) => if v <= u32::MAX as u128 {
            Some(v as u32)
        } else {
            None
        },
        None => None,
    }
}

/// The digit character for `d`.
pub(crate) fn digit_to_char(d: u8) -> (c: char)
    requires
        d < 10,
    ensures
        c == digit_char(d as nat),
{
    match d {
        0 => '0',
        1 => '1',
        2 => '2',
        3 => '3',
        4 => '4',
        5 => '5',
        6 => '6',
        7 => '7',
        8 => '8',
        _ => '9',
    }
}

/// Appends `n`, spelt out in base ten, to `out`.
pub(crate) fn push_decimal(out: &mut String, n: u64)
    ensures
        final(out)@ == old(out)@ + decimal_text(n as nat),
    decreases n,
{
    if n >= 10 {
        push_decimal(out, n / 10);
    }
    out.push(digit_to_char((n % 10) as u8));
    assert(old(out)@ + decimal_text(n as nat) =~= if n >= 10 {
        (old(out)@ + decimal_text((n / 10) as nat)).push(digit_char((n % 10) as nat))
    } else {
        old(out)@.push(digit_char(n as nat))
    });
}

/// `n` spelt out in base ten.
pub fn unsigned_string(n: u64) -> (text: String)
    ensures
        text@ == decimal_text(n as nat),
{
    let mut text = String::new();
    push_decimal(&mut text, n);
    assert(Seq::<char>::empty() + decimal_text(n as nat) =~= decimal_text(n as nat));
    text
}

/// Appends `n`, spelt out in base ten with its sign, to `out`.
pub(crate) fn push_signed(out: &mut String, n: i32)
    ensures
        final(out)@ == old(out)@ + signed_text(n as int),
{
    if n < 0 {
        out.push('-');
        let size: u64 = (-(n as i64)) as u64;
        push_decimal(out, size);
        assert(old(out)@ + signed_text(n as int) =~= old(out)@.push('-') + decimal_text(
            size as nat,
        ));
    } else {
        push_decimal(out, n as u64);
    }
}

} // verus!
