use vstd::prelude::*;

verus! {

/// The character of one decimal digit; meaningful for `0 <= d <= 9`.
pub open spec fn digit_char(d: int) -> char {
    if d == 0 {
        '0'
    } else if d == 1 {
        '1'
    } else if d == 2 {
        '2'
    } else if d == 3 {
        '3'
    } else if d == 4 {
        '4'
    } else if d == 5 {
        '5'
    } else if d == 6 {
        '6'
    } else if d == 7 {
        '7'
    } else if d == 8 {
        '8'
    } else {
        '9'
    }
}

/// `String::push`. Trusted: the character is appended to the text.
#[verifier::external_body]
pub(crate) fn push_char(out: &mut String, c: char)
    ensures
        final(out)@ == old(out)@.push(c),
{
    out.push(c)
}

/// The decimal digits of `n`, padded on the left with zeros to at least
/// `width` characters. A number with more digits than `width` is written
/// in full.
pub open spec fn zero_padded(n: nat, width: nat) -> Seq<char>
    decreases n, width,
{
    if n < 10 && width <= 1 {
        seq![digit_char(n as int)]
    } else {
        zero_padded(n / 10, (if width >= 1 { width - 1 } else { 0 }) as nat).push(
            digit_char((n % 10) as int),
        )
    }
}

/// Appends one decimal digit to `out`.
pub fn push_digit(out: &mut String, d: u8)
    requires
        d <= 9,
    ensures
        final(out)@ == old(out)@.push(digit_char(d as int)),
{
    proof {
        reveal_strlit("0");
        reveal_strlit("1");
        reveal_strlit("2");
        reveal_strlit("3");
        reveal_strlit("4");
        reveal_strlit("5");
        reveal_strlit("6");
        reveal_strlit("7");
        reveal_strlit("8");
        reveal_strlit("9");
    }
    let piece: &str = if d == 0 {
        "0"
    } else if d == 1 {
        "1"
    } else if d == 2 {
        "2"
    } else if d == 3 {
        "3"
    } else if d == 4 {
        "4"
    } else if d == 5 {
        "5"
    } else if d == 6 {
        "6"
    } else if d == 7 {
        "7"
    } else if d == 8 {
        "8"
    } else {
        "9"
    };
    assert(piece@ =~= seq![digit_char(d as int)]);
    out.append(piece);
    assert(out@ =~= old(out)@.push(digit_char(d as int)));
}

/// Appends `n` in decimal, zero-padded to at least `width` characters.
pub fn push_zero_padded(out: &mut String, n: u64, width: usize)
    ensures
        final(out)@ == old(out)@ + zero_padded(n as nat, width as nat),
{
    // Digits are produced from the least significant one; `pending` holds
    // them in that order until the leading digit is known.
    let mut pending: Vec<u8> = Vec::new();
    let mut rest: u64 = n;
    let mut room: usize = width;
    while rest >= 10 || room > 1
        invariant
            forall|i: int| 0 <= i < pending@.len() ==> pending@[i] <= 9,
            zero_padded(n as nat, width as nat) == zero_padded(rest as nat, room as nat)
                + Seq::new(
                pending@.len(),
                |i: int| digit_char(pending@[pending@.len() - 1 - i] as int),
            ),
        decreases rest, room,
    {
        let ghost before = pending@;
        let low: u8 = (rest % 10) as u8;
        pending.push(low);
        rest = rest / 10;
        if room >= 1 {
            room = room - 1;
        }
        assert(Seq::new(
            pending@.len(),
            |i: int| digit_char(pending@[pending@.len() - 1 - i] as int),
        ) =~= seq![digit_char(low as int)] + Seq::new(
            before.len(),
            |i: int| digit_char(before[before.len() - 1 - i] as int),
        ));
    }
    push_digit(out, rest as u8);
    let mut k: usize = pending.len();
    while k > 0
        invariant
            k <= pending@.len(),
            forall|i: int| 0 <= i < pending@.len() ==> pending@[i] <= 9,
            out@ == old(out)@ + zero_padded(rest as nat, room as nat) + Seq::new(
                (pending@.len() - k) as nat,
                |i: int| digit_char(pending@[pending@.len() - 1 - i] as int),
            ),
        decreases k,
    {
        k = k - 1;
        push_digit(out, pending[k]);
    }
    assert(out@ == old(out)@ + zero_padded(n as nat, width as nat));
}

/// A whole number in decimal, without padding; a minus sign before a
/// number below zero.
pub open spec fn decimal(n: int) -> Seq<char> {
    if n < 0 {
        seq!['-'] + zero_padded((-n) as nat, 1)
    } else {
        zero_padded(n as nat, 1)
    }
}

/// Appends `n` in decimal, with a minus sign if it is below zero.
pub fn push_decimal(out: &mut String, n: i64)
    requires
        i64::MIN < n,
    ensures
        final(out)@ == old(out)@ + decimal(n as int),
{
    if n < 0 {
        proof {
            reveal_strlit("-");
        }
        out.append("-");
        push_zero_padded(out, (-n) as u64, 1);
        assert(out@ =~= old(out)@ + decimal(n as int));
    } else {
        push_zero_padded(out, n as u64, 1);
    }
}

/// The value of a decimal digit character; `None` for any other character.
pub open spec fn digit_value(c: char) -> Option<int> {
    if c == '0' {
        Some(0)
    } else if c == '1' {
        Some(1)
    } else if c == '2' {
        Some(2)
    } else if c == '3' {
        Some(3)
    } else if c == '4' {
        Some(4)
    } else if c == '5' {
        Some(5)
    } else if c == '6' {
        Some(6)
    } else if c == '7' {
        Some(7)
    } else if c == '8' {
        Some(8)
    } else if c == '9' {
        Some(9)
    } else {
        None
    }
}

/// Reads one decimal digit.
pub fn read_digit(c: char) -> (r: Option<u8>)
    ensures
        match r {
            Some(d) => digit_value(c) == Some(d as int),
            None => digit_value(c) is None,
        },
{
    if c == '0' {
        Some(0)
    } else if c == '1' {
        Some(1)
    } else if c == '2' {
        Some(2)
    } else if c == '3' {
        Some(3)
    } else if c == '4' {
        Some(4)
    } else if c == '5' {
        Some(5)
    } else if c == '6' {
        Some(6)
    } else if c == '7' {
        Some(7)
    } else if c == '8' {
        Some(8)
    } else if c == '9' {
        Some(9)
    } else {
        None
    }
}

/// Ten to the power of `exponent`.
pub open spec fn pow10(exponent: nat) -> nat
    decreases exponent,
{
    if exponent == 0 {
        1
    } else {
        10 * pow10((exponent - 1) as nat)
    }
}

/// The number that a string of decimal digits spells, leading zeros allowed;
/// `None` if a character is no digit. The empty string spells zero.
pub open spec fn digits_value(s: Seq<char>) -> Option<nat>
    decreases s.len(),
{
    if s.len() == 0 {
        Some(0)
    } else {
        match (digits_value(s.drop_last()), digit_value(s.last())) {
            (Some(front), Some(d)) => Some((front * 10 + d) as nat),
            _ => None,
        }
    }
}

/// A digit's character spells the digit.
pub proof fn lemma_digit_round_trip(d: int)
    requires
        0 <= d <= 9,
    ensures
        digit_value(digit_char(d)) == Some(d),
{
}

/// A character that spells a digit is that digit's character.
pub proof fn lemma_digit_char_of_value(c: char)
    requires
        digit_value(c) is Some,
    ensures
        0 <= digit_value(c)->0 <= 9,
        digit_char(digit_value(c)->0) == c,
{
}

/// A padded number has at least the asked width, and exactly that width
/// when the number fits.
pub proof fn lemma_zero_padded_len(n: nat, width: nat)
    ensures
        zero_padded(n, width).len() >= width,
        zero_padded(n, width).len() >= 1,
        width >= 1 && n < pow10(width) ==> zero_padded(n, width).len() == width,
    decreases n, width,
{
    if n < 10 && width <= 1 {
    } else {
        let rest: nat = (if width >= 1 {
            width - 1
        } else {
            0
        }) as nat;
        lemma_zero_padded_len(n / 10, rest);
        if width >= 1 && n < pow10(width) {
            if width == 1 {
                assert(pow10(1) == 10) by {
                    reveal_with_fuel(pow10, 2);
                }
            } else {
                assert(n / 10 < pow10(rest));
            }
        }
    }
}

/// The digits of a padded number that fits its width, by place: the
/// character at `i` is the digit of the place `width - 1 - i`.
pub proof fn lemma_zero_padded_digit(n: nat, width: nat, i: int)
    requires
        n < pow10(width),
        0 <= i < width,
    ensures
        zero_padded(n, width).len() == width,
        pow10((width - 1 - i) as nat) > 0,
        zero_padded(n, width)[i] == digit_char(((n / pow10((width - 1 - i) as nat)) % 10) as int),
    decreases width,
{
    lemma_zero_padded_len(n, width);
    assert(pow10(1) == 10 && pow10(0) == 1) by {
        reveal_with_fuel(pow10, 2);
    }
    let text = zero_padded(n, width);
    let place = pow10((width - 1 - i) as nat);
    if width == 1 {
        assert(text[i] == digit_char(n as int));
        assert(place == 1);
    } else {
        let rest = (width - 1) as nat;
        assert(n / 10 < pow10(rest));
        lemma_zero_padded_len(n / 10, rest);
        assert(text == zero_padded(n / 10, rest).push(digit_char((n % 10) as int)));
        if i == width - 1 {
            assert(text[i] == digit_char((n % 10) as int));
            assert(place == 1);
        } else {
            lemma_zero_padded_digit(n / 10, rest, i);
            let lower = pow10((rest - 1 - i) as nat);
            assert(place == 10 * lower);
            vstd::arithmetic::div_mod::lemma_div_denominator(n as int, 10, lower as int);
            assert(text[i] == zero_padded(n / 10, rest)[i]);
            assert((n / 10) / lower == n / place);
        }
    }
}

/// Two padded numbers written one after the other are one padded number:
/// the first number moved left by the width of the second, plus the
/// second, which must fit its width.
pub proof fn lemma_zero_padded_concat(front: nat, front_width: nat, back: nat, back_width: nat)
    requires
        front_width >= 1,
        back_width >= 1,
        back < pow10(back_width),
    ensures
        zero_padded(front * pow10(back_width) + back, front_width + back_width) == zero_padded(
            front,
            front_width,
        ) + zero_padded(back, back_width),
    decreases back_width,
{
    let whole = front * pow10(back_width) + back;
    let rest_width = (back_width - 1) as nat;
    let shifted = front * pow10(rest_width);
    assert(pow10(back_width) == 10 * pow10(rest_width));
    assert(front * pow10(back_width) == shifted * 10) by (nonlinear_arith)
        requires
            pow10(back_width) == 10 * pow10(rest_width),
            shifted == front * pow10(rest_width),
    ;
    vstd::arithmetic::div_mod::lemma_fundamental_div_mod_converse(
        whole as int,
        10,
        (shifted + back / 10) as int,
        (back % 10) as int,
    );
    assert(zero_padded(whole, front_width + back_width) == zero_padded(
        whole / 10,
        (front_width + back_width - 1) as nat,
    ).push(digit_char((whole % 10) as int)));
    if back_width == 1 {
        assert(pow10(1) == 10 && pow10(0) == 1) by {
            reveal_with_fuel(pow10, 2);
        }
        assert(shifted == front) by (nonlinear_arith)
            requires
                shifted == front * pow10(rest_width),
                pow10(rest_width) == 1,
        ;
        assert(zero_padded(back, 1) =~= seq![digit_char(back as int)]);
        assert(zero_padded(whole, front_width + back_width) =~= zero_padded(front, front_width)
            + zero_padded(back, back_width));
    } else {
        lemma_zero_padded_concat(front, front_width, back / 10, rest_width);
        assert(zero_padded(back, back_width) == zero_padded(back / 10, rest_width).push(
            digit_char((back % 10) as int),
        ));
        assert(zero_padded(whole, front_width + back_width) =~= zero_padded(front, front_width)
            + zero_padded(back, back_width));
    }
}

/// Reading a padded number back gives the number.
pub proof fn lemma_digits_value_of_zero_padded(n: nat, width: nat)
    ensures
        digits_value(zero_padded(n, width)) == Some(n),
    decreases n, width,
{
    let text = zero_padded(n, width);
    if n < 10 && width <= 1 {
        assert(text.drop_last() =~= Seq::<char>::empty());
        assert(digits_value(text.drop_last()) == Some(0nat));
        lemma_digit_round_trip(n as int);
    } else {
        let rest: nat = (if width >= 1 {
            width - 1
        } else {
            0
        }) as nat;
        lemma_digits_value_of_zero_padded(n / 10, rest);
        assert(text.drop_last() =~= zero_padded(n / 10, rest));
        lemma_digit_round_trip((n % 10) as int);
    }
}

/// A string of digits is the padded text of its value at its own length.
pub proof fn lemma_zero_padded_of_digits(s: Seq<char>)
    requires
        s.len() >= 1,
        digits_value(s) is Some,
    ensures
        digits_value(s)->0 < pow10(s.len()),
        zero_padded(digits_value(s)->0, s.len()) == s,
    decreases s.len(),
{
    let front = s.drop_last();
    let d = digit_value(s.last())->0;
    lemma_digit_char_of_value(s.last());
    if s.len() == 1 {
        assert(front =~= Seq::<char>::empty());
        assert(digits_value(front) == Some(0nat));
        assert(pow10(1) == 10) by {
            reveal_with_fuel(pow10, 2);
        }
        assert(zero_padded(d as nat, 1) =~= s);
    } else {
        lemma_zero_padded_of_digits(front);
        let v = digits_value(s)->0;
        assert(v / 10 == digits_value(front)->0);
        assert(v % 10 == d);
        assert(zero_padded(v, s.len()) =~= zero_padded(v / 10, (s.len() - 1) as nat).push(
            digit_char(d),
        ));
        assert(zero_padded(v, s.len()) =~= s);
    }
}

/// The front of a string of digits is a string of digits, and spells no
/// more than the whole.
pub proof fn lemma_digits_value_prefix(s: Seq<char>, k: int)
    requires
        0 <= k <= s.len(),
        digits_value(s) is Some,
    ensures
        digits_value(s.take(k)) is Some,
        digits_value(s.take(k))->0 <= digits_value(s)->0,
    decreases s.len(),
{
    if k == s.len() {
        assert(s.take(k) =~= s);
    } else {
        lemma_digits_value_prefix(s.drop_last(), k);
        assert(s.drop_last().take(k) =~= s.take(k));
    }
}

/// Reads the characters from `start` up to `end` as a decimal number.
/// `None` if one of them is no digit or the number is above `limit`.
pub fn read_digits(chars: &Vec<char>, start: usize, end: usize, limit: u64) -> (r: Option<u64>)
    requires
        start <= end <= chars@.len(),
        limit <= 0x0fff_ffff_ffff_ffff,
    ensures
        r == (match digits_value(chars@.subrange(start as int, end as int)) {
            Some(v) => if v <= limit {
                Some(v as u64)
            } else {
                None
            },
            None => None,
        }),
{
    let ghost whole = chars@.subrange(start as int, end as int);
    let mut value: u64 = 0;
    let mut at: usize = start;
    assert(whole.take(0) =~= Seq::<char>::empty());
    while at < end
        invariant
            start <= at <= end <= chars@.len(),
            whole == chars@.subrange(start as int, end as int),
            limit <= 0x0fff_ffff_ffff_ffff,
            value <= limit,
            digits_value(whole.take(at - start)) == Some(value as nat),
        decreases end - at,
    {
        let ghost seen = whole.take(at - start + 1);
        assert(seen.drop_last() =~= whole.take(at - start));
        assert(seen.last() == chars@[at as int]);
        match read_digit(chars[at]) {
            None => {
                proof {
                    if digits_value(whole) is Some {
                        lemma_digits_value_prefix(whole, at - start + 1);
                    }
                }
                return None;
            },
            Some(d) => {
                let next: u64 = value * 10 + d as u64;
                if next > limit {
                    proof {
                        if digits_value(whole) is Some {
                            lemma_digits_value_prefix(whole, at - start + 1);
                        }
                    }
                    return None;
                }
                value = next;
            },
        }
        at = at + 1;
    }
    assert(whole.take(end - start) =~= whole);
    Some(value)
}

/// The whole number that a text spells in decimal: an optional sign, plus or
/// minus, then digits, at least one, leading zeros allowed. `None` for any
/// other text, and for a number outside `min` to `max`.
pub open spec fn integer_of_text(text: Seq<char>, min: int, max: int) -> Option<int> {
    let signed = text.len() > 0 && (text[0] == '+' || text[0] == '-');
    let digits = if signed {
        text.skip(1)
    } else {
        text
    };
    if digits.len() == 0 {
        None
    } else {
        match digits_value(digits) {
            Some(size) => {
                let value = if text[0] == '-' {
                    -(size as int)
                } else {
                    size as int
                };
                if min <= value <= max {
                    Some(value)
                } else {
                    None
                }
            },
            None => None,
        }
    }
}

/// Reads the characters from `start` up to `end` as a whole number between
/// `min` and `max`.
pub fn read_integer(chars: &Vec<char>, start: usize, end: usize, min: i64, max: i64) -> (r: Option<
    i64,
>)
    requires
        start <= end <= chars@.len(),
        -0x0fff_ffff_ffff_ffff <= min,
        max <= 0x0fff_ffff_ffff_ffff,
    ensures
        r == (match integer_of_text(
            chars@.subrange(start as int, end as int),
            min as int,
            max as int,
        ) {
            Some(value) => Some(value as i64),
            None => None,
        }),
{
    let ghost text = chars@.subrange(start as int, end as int);
    let negative: bool = start < end && chars[start] == '-';
    let signed: bool = start < end && (chars[start] == '+' || chars[start] == '-');
    let first: usize = if signed {
        start + 1
    } else {
        start
    };
    proof {
        if start < end {
            assert(text[0] == chars@[start as int]);
        }
        if signed {
            assert(text.skip(1) =~= chars@.subrange(first as int, end as int));
        } else {
            assert(text =~= chars@.subrange(first as int, end as int));
        }
    }
    if first == end {
        return None;
    }
    match read_digits(chars, first, end, 0x0fff_ffff_ffff_ffff) {
        Some(size) => {
            let value: i64 = if negative {
                -(size as i64)
            } else {
                size as i64
            };
            if min <= value && value <= max {
                Some(value)
            } else {
                None
            }
        },
        None => None,
    }
}

/// Reads a text as a whole number between `min` and `max`.
pub fn parse_integer(text: &str, min: i64, max: i64) -> (r: Option<i64>)
    requires
        -0x0fff_ffff_ffff_ffff <= min,
        max <= 0x0fff_ffff_ffff_ffff,
    ensures
        r == (match integer_of_text(text@, min as int, max as int) {
            Some(value) => Some(value as i64),
            None => None,
        }),
{
    let chars = chars_of(text);
    assert(chars@.subrange(0, chars@.len() as int) =~= chars@);
    read_integer(&chars, 0, chars.len(), min, max)
}

/// A number below a thousand million that stands for a text: texts that
/// differ mostly have different numbers, so that texts can be looked up by
/// them.
pub open spec fn text_hash(text: Seq<char>) -> u64
    decreases text.len(),
{
    if text.len() == 0 {
        0
    } else {
        ((text_hash(text.drop_last()) * 31 + text.last() as u32) % 1_000_000_007) as u64
    }
}

/// The number that stands for `text`.
pub fn hash_text(text: &str) -> (hash: u64)
    ensures
        hash == text_hash(text@),
{
    let chars = chars_of(text);
    let mut hash: u64 = 0;
    let mut at: usize = 0;
    assert(chars@.take(0) =~= Seq::<char>::empty());
    while at < chars.len()
        invariant
            at <= chars@.len(),
            hash < 1_000_000_007,
            hash == text_hash(chars@.take(at as int)),
        decreases chars@.len() - at,
    {
        let ghost seen = chars@.take(at + 1);
        assert(seen.drop_last() =~= chars@.take(at as int));
        assert(seen.last() == chars@[at as int]);
        hash = (hash * 31 + (chars[at] as u32) as u64) % 1_000_000_007;
        at = at + 1;
    }
    assert(chars@.take(chars@.len() as int) =~= chars@);
    hash
}

/// The characters of `s`, in order.
pub fn chars_of(s: &str) -> (v: Vec<char>)
    ensures
        v@ == s@,
{
    broadcast use vstd::string::axiom_spec_iter;

    let mut v: Vec<char> = Vec::new();
    for c in it: s.chars()
        invariant
            it.seq() == s@,
            v@ == s@.take(it.index()),
    {
        v.push(c);
        assert(s@.take(it.index() + 1) =~= s@.take(it.index()).push(c));
    }
    assert(s@.take(s@.len() as int) =~= s@);
    v
}

} // verus!
