//! Text building blocks: decimal and fixed-point rendering of integers,
//! joining, searching and classifying characters.

use vstd::prelude::*;

verus! {

/// The character of a decimal digit `d`, `0 <= d <= 9`.
pub open spec fn digit_char(d: int) -> char {
    if d == 0 {
        '0'
    } else if d == 1 {
        '1'
    } else if d == 2 {
        '2'
    } else if d == 3 {
        '3'
    } else if d == 4 {
        '4'
    } else if d == 5 {
        '5'
    } else if d == 6 {
        '6'
    } else if d == 7 {
        '7'
    } else if d == 8 {
        '8'
    } else {
        '9'
    }
}

/// The decimal digits of a natural number, most significant first, without
/// leading zeros (`0` is rendered as one digit).
pub open spec fn decimal_digits(n: nat) -> Seq<char>
    decreases n,
{
    if n < 10 {
        seq![digit_char(n as int)]
    } else {
        decimal_digits(n / 10).push(digit_char((n % 10) as int))
    }
}

/// The decimal rendering of an integer, with a leading `-` when negative.
pub open spec fn decimal(n: int) -> Seq<char> {
    if n < 0 {
        seq!['-'] + decimal_digits((-n) as nat)
    } else {
        decimal_digits(n as nat)
    }
}

/// One decimal digit as a string slice.
pub fn digit_str(d: u8) -> (s: &'static str)
    requires
        d < 10,
    ensures
        s@ == seq![digit_char(d as int)],
{
    proof {
        reveal_strlit("0");
        reveal_strlit("1");
        reveal_strlit("2");
        reveal_strlit("3");
        reveal_strlit("4");
        reveal_strlit("5");
        reveal_strlit("6");
        reveal_strlit("7");
        reveal_strlit("8");
        reveal_strlit("9");
    }
    let s = if d == 0 {
        "0"
    } else if d == 1 {
        "1"
    } else if d == 2 {
        "2"
    } else if d == 3 {
        "3"
    } else if d == 4 {
        "4"
    } else if d == 5 {
        "5"
    } else if d == 6 {
        "6"
    } else if d == 7 {
        "7"
    } else if d == 8 {
        "8"
    } else {
        "9"
    };
    assert(s@ =~= seq![digit_char(d as int)]);
    s
}

/// Renders a natural number in decimal.
pub fn natural_to_string(n: u128) -> (s: String)
    ensures
        s@ == decimal_digits(n as nat),
    decreases n,
{
    if n < 10 {
        String::from_str(digit_str(n as u8))
    } else {
        let mut s = natural_to_string(n / 10);
        s.append(digit_str((n % 10) as u8));
        assert(s@ =~= decimal_digits(n as nat));
        s
    }
}

/// Renders an integer in decimal.
pub fn integer_to_string(n: i64) -> (s: String)
    ensures
        s@ == decimal(n as int),
{
    if n < 0 {
        let magnitude: u128 = (-(n as i128)) as u128;
        let mut s = String::from_str("-");
        proof {
            reveal_strlit("-");
            assert("-"@ =~= seq!['-']);
        }
        let digits = natural_to_string(magnitude);
        s.append(digits.as_str());
        s
    } else {
        natural_to_string(n as u128)
    }
}

/// `String::push` appends one character to the end of the string.
pub assume_specification[ String::push ](s: &mut String, c: char)
    ensures
        final(s)@ == old(s)@.push(c),
;

/// The characters of a string slice, in order.
pub fn chars_of(s: &str) -> (v: Vec<char>)
    ensures
        v@ == s@,
{
    let mut v: Vec<char> = Vec::new();
    for c in it: s.chars()
        invariant
            v@ == it.seq().take(it.index()),
            it.seq() == s@,
    {
        v.push(c);
    }
    v
}

/// The string made of the characters `v[from..to]`.
pub fn string_of(v: &Vec<char>, from: usize, to: usize) -> (s: String)
    requires
        from <= to <= v.len(),
    ensures
        s@ == v@.subrange(from as int, to as int),
{
    let mut s = String::new();
    let mut i: usize = from;
    while i < to
        invariant
            from <= i <= to <= v.len(),
            s@ == v@.subrange(from as int, i as int),
        decreases to - i,
    {
        s.push(v[i]);
        i += 1;
        assert(s@ =~= v@.subrange(from as int, i as int));
    }
    s
}

/// `10` to the power `k`.
pub open spec fn pow10(k: nat) -> nat
    decreases k,
{
    if k == 0 {
        1
    } else {
        10 * pow10((k - 1) as nat)
    }
}

/// The `width` lowest decimal digits of `n`, most significant first, with
/// leading zeros.
pub open spec fn padded_digits(n: nat, width: nat) -> Seq<char>
    decreases width,
{
    if width == 0 {
        Seq::empty()
    } else {
        padded_digits(n / 10, (width - 1) as nat).push(digit_char((n % 10) as int))
    }
}

/// Renders the `width` lowest decimal digits of `n` with leading zeros.
pub fn padded_to_string(n: u128, width: u8) -> (s: String)
    ensures
        s@ == padded_digits(n as nat, width as nat),
    decreases width,
{
    if width == 0 {
        String::new()
    } else {
        let mut s = padded_to_string(n / 10, width - 1);
        s.append(digit_str((n % 10) as u8));
        assert(s@ =~= padded_digits(n as nat, width as nat));
        s
    }
}

/// The quotient `num / den` rounded to the nearest integer, ties going to the
/// even neighbour. Meant for `num >= 0` and `den > 0`.
pub open spec fn round_half_even(num: int, den: int) -> int {
    let q = num / den;
    let r = num % den;
    if 2 * r < den {
        q
    } else if 2 * r > den {
        q + 1
    } else if q % 2 == 0 {
        q
    } else {
        q + 1
    }
}

/// The quotient `num / den` rounded to the nearest integer, ties going away
/// from zero. Meant for `num >= 0` and `den > 0`.
pub open spec fn round_half_up(num: int, den: int) -> int {
    let q = num / den;
    let r = num % den;
    if 2 * r < den {
        q
    } else {
        q + 1
    }
}

/// Computes [`round_half_even`].
pub fn div_round_half_even(num: u128, den: u128) -> (q: u128)
    requires
        den > 0,
        den <= u64::MAX,
        num < u128::MAX,
    ensures
        q == round_half_even(num as int, den as int),
{
    let q = num / den;
    let r = num % den;
    assert(q <= num) by (nonlinear_arith)
        requires
            q == num / den,
            den > 0,
    ;
    if 2 * r < den {
        q
    } else if 2 * r > den {
        q + 1
    } else if q % 2 == 0 {
        q
    } else {
        q + 1
    }
}

/// Computes [`round_half_up`].
pub fn div_round_half_up(num: u128, den: u128) -> (q: u128)
    requires
        den > 0,
        den <= u64::MAX,
        num < u128::MAX,
    ensures
        q == round_half_up(num as int, den as int),
{
    let q = num / den;
    let r = num % den;
    assert(q <= num) by (nonlinear_arith)
        requires
            q == num / den,
            den > 0,
    ;
    if 2 * r < den {
        q
    } else {
        q + 1
    }
}

/// A rational number of seconds `num / den` (`den > 0`) written with six
/// decimals: the value is rounded to the nearest microsecond, ties to even,
/// and keeps its sign even where the rounded magnitude is zero.
pub open spec fn seconds_text(num: int, den: int) -> Seq<char> {
    let magnitude = if num < 0 {
        -num
    } else {
        num
    };
    let micros = round_half_even(magnitude * 1_000_000, den);
    let body = decimal_digits((micros / 1_000_000) as nat) + seq!['.'] + padded_digits(
        (micros % 1_000_000) as nat,
        6,
    );
    if num < 0 {
        seq!['-'] + body
    } else {
        body
    }
}

/// The largest magnitude of a number that the fixed-point renderers accept.
pub const SECONDS_LIMIT: u128 = 0x100_0000_0000_0000_0000_0000_0000;

/// Renders `num / den` seconds with six decimals.
pub fn seconds_to_string(num: i128, den: u64) -> (s: String)
    requires
        den > 0,
        -SECONDS_LIMIT <= num <= SECONDS_LIMIT,
    ensures
        s@ == seconds_text(num as int, den as int),
{
    let magnitude: u128 = if num < 0 {
        (-num) as u128
    } else {
        num as u128
    };
    let micros = div_round_half_even(magnitude * 1_000_000, den as u128);
    let mut s = String::new();
    if num < 0 {
        s.push('-');
    }
    let whole = natural_to_string(micros / 1_000_000);
    s.append(whole.as_str());
    s.push('.');
    let fraction = padded_to_string(micros % 1_000_000, 6);
    s.append(fraction.as_str());
    assert(s@ =~= seconds_text(num as int, den as int));
    s
}

/// The texts of a list of strings.
pub open spec fn texts(v: Seq<String>) -> Seq<Seq<char>> {
    Seq::new(v.len(), |i: int| v[i]@)
}

/// Appends a copy of `s` to a list of strings.
pub fn push_text(list: &mut Vec<String>, s: &str)
    ensures
        texts(final(list)@) == texts(old(list)@).push(s@),
{
    list.push(String::from_str(s));
    assert(texts(list@) =~= texts(old(list)@).push(s@));
}

/// Appends `s` to a list of strings.
pub fn push_string(list: &mut Vec<String>, s: String)
    ensures
        texts(final(list)@) == texts(old(list)@).push(s@),
{
    list.push(s);
    assert(texts(list@) =~= texts(old(list)@).push(s@));
}

/// Appends copies of all of `more` to a list of strings.
pub fn extend_texts(list: &mut Vec<String>, more: &Vec<String>)
    ensures
        texts(final(list)@) == texts(old(list)@) + texts(more@),
{
    let mut i: usize = 0;
    while i < more.len()
        invariant
            i <= more.len(),
            texts(list@) == texts(old(list)@) + texts(more@).take(i as int),
        decreases more.len() - i,
    {
        let ghost before = list@;
        let item = more[i].clone();
        assert(item@ == more@[i as int]@);
        list.push(item);
        assert(texts(list@) =~= texts(before).push(more@[i as int]@));
        assert(texts(more@).take(i + 1) =~= texts(more@).take(i as int).push(more@[i as int]@));
        assert(texts(list@) =~= texts(old(list)@) + texts(more@).take(i + 1));
        i += 1;
    }
    assert(texts(more@).take(more.len() as int) =~= texts(more@));
}

/// The parts written one after another with `sep` between neighbours.
pub open spec fn join(parts: Seq<Seq<char>>, sep: Seq<char>) -> Seq<char>
    decreases parts.len(),
{
    if parts.len() == 0 {
        Seq::empty()
    } else if parts.len() == 1 {
        parts[0]
    } else {
        join(parts.drop_last(), sep) + sep + parts.last()
    }
}

/// Joins strings with a separator.
pub fn join_strings(parts: &Vec<String>, sep: &str) -> (s: String)
    ensures
        s@ == join(texts(parts@), sep@),
{
    let mut s = String::new();
    let mut i: usize = 0;
    while i < parts.len()
        invariant
            i <= parts.len(),
            s@ == join(texts(parts@).take(i as int), sep@),
        decreases parts.len() - i,
    {
        if i > 0 {
            s.append(sep);
        }
        s.append(parts[i].as_str());
        proof {
            let before = texts(parts@).take(i as int);
            let after = texts(parts@).take(i + 1);
            assert(after.drop_last() =~= before);
            assert(after.last() == parts[i as int]@);
            if i == 0 {
                assert(s@ =~= after[0]);
            }
        }
        i += 1;
    }
    assert(texts(parts@).take(parts.len() as int) =~= texts(parts@));
    s
}

/// Whether `needle` occurs in `hay` starting at position `at`.
pub open spec fn occurs_at(hay: Seq<char>, needle: Seq<char>, at: int) -> bool {
    &&& 0 <= at
    &&& at + needle.len() <= hay.len()
    &&& hay.subrange(at, at + needle.len()) == needle
}

/// Whether `needle` occurs somewhere in `hay`.
pub open spec fn contains_text(hay: Seq<char>, needle: Seq<char>) -> bool {
    exists|at: int| occurs_at(hay, needle, at)
}

/// Whether `at` is the first position at which `needle` occurs in `hay`.
pub open spec fn first_occurrence(hay: Seq<char>, needle: Seq<char>, at: int) -> bool {
    &&& occurs_at(hay, needle, at)
    &&& forall|j: int| 0 <= j < at ==> !occurs_at(hay, needle, j)
}

/// Whether `needle` occurs in `hay` at position `at`.
pub fn matches_at(hay: &Vec<char>, needle: &Vec<char>, at: usize) -> (b: bool)
    ensures
        b == occurs_at(hay@, needle@, at as int),
{
    if needle.len() > hay.len() || at > hay.len() - needle.len() {
        return false;
    }
    let mut k: usize = 0;
    while k < needle.len()
        invariant
            k <= needle.len(),
            at + needle.len() <= hay.len(),
            hay@.subrange(at as int, at + k) == needle@.take(k as int),
        decreases needle.len() - k,
    {
        if hay[at + k] != needle[k] {
            proof {
                let window = hay@.subrange(at as int, at + needle.len());
                assert(window[k as int] == hay[at + k]);
            }
            return false;
        }
        assert(hay@.subrange(at as int, at + k + 1) =~= needle@.take(k + 1));
        k += 1;
    }
    assert(needle@.take(needle.len() as int) =~= needle@);
    true
}

/// The first position at or after `from` at which `needle` occurs in `hay`.
pub open spec fn index_from(hay: Seq<char>, needle: Seq<char>, from: int) -> Option<int>
    decreases hay.len() - from + 1,
{
    if from < 0 || from + needle.len() > hay.len() {
        None
    } else if occurs_at(hay, needle, from) {
        Some(from)
    } else {
        index_from(hay, needle, from + 1)
    }
}

/// The first position at which `needle` occurs in `hay`.
pub open spec fn index_of(hay: Seq<char>, needle: Seq<char>) -> Option<int> {
    index_from(hay, needle, 0)
}

/// The first position at which `needle` occurs in `hay`, if any.
pub fn find_text(hay: &Vec<char>, needle: &Vec<char>) -> (r: Option<usize>)
    ensures
        match r {
            Some(at) => first_occurrence(hay@, needle@, at as int) && index_of(hay@, needle@)
                == Some(at as int),
            None => !contains_text(hay@, needle@) && index_of(hay@, needle@) is None,
        },
{
    if needle.len() > hay.len() {
        return None;
    }
    let last = hay.len() - needle.len();
    let mut at: usize = 0;
    loop
        invariant
            at <= last,
            last == hay.len() - needle.len(),
            forall|j: int| 0 <= j < at ==> !occurs_at(hay@, needle@, j),
            index_of(hay@, needle@) == index_from(hay@, needle@, at as int),
        decreases last - at,
    {
        if matches_at(hay, needle, at) {
            return Some(at);
        }
        if at == last {
            assert(index_from(hay@, needle@, at + 1) is None);
            return None;
        }
        at += 1;
    }
}

/// Whether `s` ends with `suffix`.
pub open spec fn ends_with(s: Seq<char>, suffix: Seq<char>) -> bool {
    suffix.len() <= s.len() && occurs_at(s, suffix, s.len() - suffix.len())
}

/// Whether `s` ends with `suffix`.
pub fn has_suffix(s: &Vec<char>, suffix: &Vec<char>) -> (b: bool)
    ensures
        b == ends_with(s@, suffix@),
{
    if suffix.len() > s.len() {
        false
    } else {
        matches_at(s, suffix, s.len() - suffix.len())
    }
}

/// The characters with the Unicode property `White_Space`.
pub open spec fn is_whitespace(c: char) -> bool {
    let u = c as u32;
    ||| 0x09 <= u <= 0x0D
    ||| u == 0x20
    ||| u == 0x85
    ||| u == 0xA0
    ||| u == 0x1680
    ||| 0x2000 <= u <= 0x200A
    ||| u == 0x2028
    ||| u == 0x2029
    ||| u == 0x202F
    ||| u == 0x205F
    ||| u == 0x3000
}

/// Whether `c` has the Unicode property `White_Space`.
pub fn char_is_whitespace(c: char) -> (b: bool)
    ensures
        b == is_whitespace(c),
{
    let u = c as u32;
    (0x09 <= u && u <= 0x0D) || u == 0x20 || u == 0x85 || u == 0xA0 || u == 0x1680 || (0x2000 <= u
        && u <= 0x200A) || u == 0x2028 || u == 0x2029 || u == 0x202F || u == 0x205F || u == 0x3000
}

/// Whether `at` is the first position of a whitespace character in `s` at or
/// after `from`.
pub open spec fn first_whitespace(s: Seq<char>, from: int, at: int) -> bool {
    &&& from <= at < s.len()
    &&& is_whitespace(s[at])
    &&& forall|j: int| from <= j < at ==> !is_whitespace(s[j])
}

/// The first position of a whitespace character in `s` at or after `from`.
pub open spec fn whitespace_from(s: Seq<char>, from: int) -> Option<int>
    decreases s.len() - from,
{
    if from < 0 || from >= s.len() {
        None
    } else if is_whitespace(s[from]) {
        Some(from)
    } else {
        whitespace_from(s, from + 1)
    }
}

/// The first position of a whitespace character at or after `from`.
pub fn find_whitespace(s: &Vec<char>, from: usize) -> (r: Option<usize>)
    requires
        from <= s.len(),
    ensures
        match r {
            Some(at) => first_whitespace(s@, from as int, at as int) && whitespace_from(
                s@,
                from as int,
            ) == Some(at as int),
            None => (forall|j: int| from <= j < s.len() ==> !is_whitespace(s[j]))
                && whitespace_from(s@, from as int) is None,
        },
{
    let mut at: usize = from;
    while at < s.len()
        invariant
            from <= at <= s.len(),
            forall|j: int| from <= j < at ==> !is_whitespace(s[j]),
            whitespace_from(s@, from as int) == whitespace_from(s@, at as int),
        decreases s.len() - at,
    {
        if char_is_whitespace(s[at]) {
            return Some(at);
        }
        at += 1;
    }
    None
}

/// The lower-case form of a text as `str::to_lowercase` gives it.
pub uninterp spec fn lowercase(s: Seq<char>) -> Seq<char>;

/// Calls `str::to_lowercase`, the Unicode lower-casing of the standard
/// library; the contract only names its result.
#[verifier::external_body]
pub(crate) fn to_lowercase(s: &str) -> (r: String)
    ensures
        r@ == lowercase(s@),
{
    s.to_lowercase()
}

/// Whether `c` is one of the digits `0` to `9`.
pub open spec fn is_digit(c: char) -> bool {
    0x30 <= c as u32 <= 0x39
}

/// The value of the digit `c`.
pub open spec fn digit_value(c: char) -> int {
    c as u32 - 0x30
}

/// Whether every character of `s` is a decimal digit.
pub open spec fn all_digits(s: Seq<char>) -> bool {
    forall|i: int| 0 <= i < s.len() ==> is_digit(#[trigger] s[i])
}

/// The number that a text of decimal digits denotes (`0` for the empty text).
pub open spec fn digits_value(s: Seq<char>) -> nat
    decreases s.len(),
{
    if s.len() == 0 {
        0
    } else {
        (10 * digits_value(s.drop_last()) + digit_value(s.last())) as nat
    }
}

/// The integer that `s` denotes: an optional sign, `+` or `-`, followed by
/// one or more decimal digits and nothing else.
pub open spec fn parse_integer(s: Seq<char>) -> Option<int> {
    let signed = s.len() > 0 && (s[0] == '-' || s[0] == '+');
    let body = if signed {
        s.skip(1)
    } else {
        s
    };
    if body.len() == 0 || !all_digits(body) {
        None
    } else if signed && s[0] == '-' {
        Some(-(digits_value(body) as int))
    } else {
        Some(digits_value(body) as int)
    }
}

/// [`parse_integer`] restricted to the values between `min` and `max`.
pub open spec fn parse_in_range(s: Seq<char>, min: int, max: int) -> Option<int> {
    match parse_integer(s) {
        Some(v) => if min <= v <= max {
            Some(v)
        } else {
            None
        },
        None => None,
    }
}

/// A text of digits denotes at least what any of its prefixes denotes.
pub proof fn lemma_digits_value_prefix(s: Seq<char>, k: int)
    requires
        0 <= k <= s.len(),
        all_digits(s),
    ensures
        digits_value(s.take(k)) <= digits_value(s),
    decreases s.len() - k,
{
    if k == s.len() {
        assert(s.take(k) =~= s);
    } else {
        let shorter = s.drop_last();
        assert(shorter.take(k) =~= s.take(k));
        assert(is_digit(s[s.len() - 1]));
        assert(all_digits(shorter)) by {
            assert forall|i: int| 0 <= i < shorter.len() implies is_digit(
                #[trigger] shorter[i],
            ) by {
                assert(shorter[i] == s[i]);
            }
        }
        lemma_digits_value_prefix(shorter, k);
    }
}

/// Whether `c` is one of the digits `0` to `9`.
pub fn char_is_digit(c: char) -> (b: bool)
    ensures
        b == is_digit(c),
{
    let u = c as u32;
    0x30 <= u && u <= 0x39
}

/// Parses the characters `v[from..to]` as a decimal integer of 64 bits.
#[verifier::loop_isolation(false)]
pub fn parse_i64(v: &Vec<char>, from: usize, to: usize) -> (r: Option<i64>)
    requires
        from <= to <= v.len(),
    ensures
        match r {
            Some(x) => parse_in_range(v@.subrange(from as int, to as int), i64::MIN as int, i64::MAX as int)
                == Some(x as int),
            None => parse_in_range(v@.subrange(from as int, to as int), i64::MIN as int, i64::MAX as int)
                is None,
        },
{
    let ghost s = v@.subrange(from as int, to as int);
    if from == to {
        return None;
    }
    assert(s[0] == v[from as int]);
    let negative = v[from] == '-';
    let signed = negative || v[from] == '+';
    let start: usize = if signed {
        from + 1
    } else {
        from
    };
    let ghost body = v@.subrange(start as int, to as int);
    assert(body =~= if signed {
        s.skip(1)
    } else {
        s
    });
    if start == to {
        return None;
    }
    let mut acc: u128 = 0;
    let mut i: usize = start;
    while i < to
        invariant
            start <= i <= to <= v.len(),
            body == v@.subrange(start as int, to as int),
            all_digits(body.take(i - start)),
            acc == digits_value(body.take(i - start)),
            acc <= 0x8000_0000_0000_0000,
        decreases to - i,
    {
        let c = v[i];
        assert(body[i - start] == c);
        if !char_is_digit(c) {
            assert(!is_digit(body[i - start]));
            return None;
        }
        let d = (c as u32 - 0x30) as u128;
        let next = acc * 10 + d;
        proof {
            let now = body.take(i - start + 1);
            assert(now.drop_last() =~= body.take(i - start));
            assert(now.last() == c);
            assert(all_digits(now)) by {
                assert forall|j: int| 0 <= j < now.len() implies is_digit(#[trigger] now[j]) by {
                    if j < now.len() - 1 {
                        assert(now[j] == body.take(i - start)[j]);
                    }
                }
            }
            assert(next == digits_value(now));
        }
        if next > 0x8000_0000_0000_0000 {
            proof {
                if all_digits(body) {
                    lemma_digits_value_prefix(body, i - start + 1);
                }
            }
            return None;
        }
        acc = next;
        i += 1;
    }
    assert(body.take(to - start) =~= body);
    if negative {
        if acc == 0x8000_0000_0000_0000 {
            Some(i64::MIN)
        } else {
            Some(-(acc as i64))
        }
    } else if acc == 0x8000_0000_0000_0000 {
        None
    } else {
        Some(acc as i64)
    }
}

/// Whether two string slices hold the same text.
pub fn same_text(a: &str, b: &str) -> (same: bool)
    ensures
        same == (a@ == b@),
{
    let x = String::from_str(a);
    let y = String::from_str(b);
    x == y
}

/// Whether `needle` occurs in `hay`.
pub fn text_contains(hay: &Vec<char>, needle: &str) -> (found: bool)
    ensures
        found == contains_text(hay@, needle@),
{
    let pattern = chars_of(needle);
    find_text(hay, &pattern).is_some()
}

/// Appends the decimal rendering of `n`.
pub fn push_integer(s: &mut String, n: i64)
    ensures
        final(s)@ == old(s)@ + decimal(n as int),
{
    let digits = integer_to_string(n);
    s.append(digits.as_str());
}

/// Appends the decimal rendering of `n`.
pub fn push_natural(s: &mut String, n: u128)
    ensures
        final(s)@ == old(s)@ + decimal_digits(n as nat),
{
    let digits = natural_to_string(n);
    s.append(digits.as_str());
}

/// A number of thousandths written with exactly three decimals.
pub open spec fn millis_text(n: int) -> Seq<char> {
    let magnitude = if n < 0 {
        -n
    } else {
        n
    };
    let body = decimal_digits((magnitude / 1000) as nat) + seq!['.'] + padded_digits(
        (magnitude % 1000) as nat,
        3,
    );
    if n < 0 {
        seq!['-'] + body
    } else {
        body
    }
}

/// Renders a number of thousandths with exactly three decimals.
pub fn millis_to_string(n: i128) -> (s: String)
    requires
        -SECONDS_LIMIT <= n <= SECONDS_LIMIT,
    ensures
        s@ == millis_text(n as int),
{
    let magnitude: u128 = if n < 0 {
        (-n) as u128
    } else {
        n as u128
    };
    let mut s = String::new();
    if n < 0 {
        s.push('-');
    }
    push_natural(&mut s, magnitude / 1000);
    s.push('.');
    let fraction = padded_to_string(magnitude % 1000, 3);
    s.append(fraction.as_str());
    assert(s@ =~= millis_text(n as int));
    s
}

/// The decimals of `fraction` thousandths, `0 < fraction < 1000`, without
/// trailing zeros.
pub open spec fn trimmed_thousandths(fraction: nat) -> Seq<char> {
    if fraction % 100 == 0 {
        padded_digits(fraction / 100, 1)
    } else if fraction % 10 == 0 {
        padded_digits(fraction / 10, 2)
    } else {
        padded_digits(fraction, 3)
    }
}

/// A number of thousandths written as the shortest decimal: no decimal point
/// where the number is whole, else as many decimals as are not zero at the
/// end.
pub open spec fn shortest_text(n: int) -> Seq<char> {
    let magnitude = if n < 0 {
        -n
    } else {
        n
    };
    let whole = decimal_digits((magnitude / 1000) as nat);
    let body = if magnitude % 1000 == 0 {
        whole
    } else {
        whole + seq!['.'] + trimmed_thousandths((magnitude % 1000) as nat)
    };
    if n < 0 {
        seq!['-'] + body
    } else {
        body
    }
}

/// Renders a number of thousandths as the shortest decimal.
pub fn shortest_to_string(n: i128) -> (s: String)
    requires
        -SECONDS_LIMIT <= n <= SECONDS_LIMIT,
    ensures
        s@ == shortest_text(n as int),
{
    let magnitude: u128 = if n < 0 {
        (-n) as u128
    } else {
        n as u128
    };
    let mut s = String::new();
    if n < 0 {
        s.push('-');
    }
    push_natural(&mut s, magnitude / 1000);
    let fraction = magnitude % 1000;
    if fraction != 0 {
        s.push('.');
        let decimals = if fraction % 100 == 0 {
            padded_to_string(fraction / 100, 1)
        } else if fraction % 10 == 0 {
            padded_to_string(fraction / 10, 2)
        } else {
            padded_to_string(fraction, 3)
        };
        s.append(decimals.as_str());
    }
    assert(s@ =~= shortest_text(n as int));
    s
}

/// `true` or `false`.
pub open spec fn bool_text(b: bool) -> Seq<char> {
    if b {
        "true"@
    } else {
        "false"@
    }
}

/// Appends `true` or `false`.
pub fn push_bool(s: &mut String, b: bool)
    ensures
        final(s)@ == old(s)@ + bool_text(b),
{
    if b {
        s.append("true");
    } else {
        s.append("false");
    }
}

/// Appends the decimal rendering of a wide integer.
pub fn push_wide_integer(s: &mut String, n: i128)
    requires
        -SECONDS_LIMIT <= n <= SECONDS_LIMIT,
    ensures
        final(s)@ == old(s)@ + decimal(n as int),
{
    if n < 0 {
        s.push('-');
        push_natural(s, (-n) as u128);
        assert(s@ =~= old(s)@ + decimal(n as int));
    } else {
        push_natural(s, n as u128);
    }
}

/// The decimal digits of a number are digits, at least one of them.
pub proof fn lemma_decimal_digits_are_digits(n: nat)
    ensures
        decimal_digits(n).len() >= 1,
        all_digits(decimal_digits(n)),
    decreases n,
{
    if n >= 10 {
        lemma_decimal_digits_are_digits(n / 10);
        let shorter = decimal_digits(n / 10);
        let whole = decimal_digits(n);
        assert forall|i: int| 0 <= i < whole.len() implies is_digit(#[trigger] whole[i]) by {
            if i < shorter.len() {
                assert(whole[i] == shorter[i]);
            }
        }
    }
}

/// Reading the decimal digits of a number gives the number back.
pub proof fn lemma_digits_round_trip(n: nat)
    ensures
        digits_value(decimal_digits(n)) == n,
    decreases n,
{
    if n < 10 {
        let one = decimal_digits(n);
        assert(one.drop_last() =~= Seq::<char>::empty());
        assert(digits_value(one.drop_last()) == 0);
    } else {
        lemma_digits_round_trip(n / 10);
        let whole = decimal_digits(n);
        assert(whole.drop_last() =~= decimal_digits(n / 10));
    }
}

/// Two numbers with the same decimal digits are the same number.
pub proof fn lemma_decimal_digits_injective(n: nat, m: nat)
    requires
        decimal_digits(n) == decimal_digits(m),
    ensures
        n == m,
{
    lemma_digits_round_trip(n);
    lemma_digits_round_trip(m);
}

/// A run of digits that is followed by something else ends where that
/// begins: if two such runs with what follows them make the same text, the
/// runs are the same and so is what follows.
pub proof fn lemma_digit_runs_split(a: Seq<char>, rest_a: Seq<char>, b: Seq<char>, rest_b: Seq<char>)
    requires
        a + rest_a == b + rest_b,
        all_digits(a),
        all_digits(b),
        rest_a.len() > 0 ==> !is_digit(rest_a[0]),
        rest_b.len() > 0 ==> !is_digit(rest_b[0]),
        (rest_a.len() == 0) == (rest_b.len() == 0),
    ensures
        a == b,
        rest_a == rest_b,
{
    let whole = a + rest_a;
    if a.len() < b.len() {
        assert(rest_a.len() > 0);
        assert(whole[a.len() as int] == rest_a[0]);
        assert((b + rest_b)[a.len() as int] == b[a.len() as int]);
        assert(is_digit(b[a.len() as int]));
    }
    if b.len() < a.len() {
        assert(rest_b.len() > 0);
        assert((b + rest_b)[b.len() as int] == rest_b[0]);
        assert(whole[b.len() as int] == a[b.len() as int]);
        assert(is_digit(a[b.len() as int]));
    }
    assert(a.len() == b.len());
    assert(a =~= b) by {
        assert forall|i: int| 0 <= i < a.len() implies a[i] == b[i] by {
            assert(whole[i] == a[i]);
            assert((b + rest_b)[i] == b[i]);
        }
    }
    assert(rest_a =~= rest_b) by {
        assert((a + rest_a).len() == a.len() + rest_a.len());
        assert((b + rest_b).len() == b.len() + rest_b.len());
        assert(rest_a.len() == rest_b.len());
        assert forall|i: int| 0 <= i < rest_a.len() implies rest_a[i] == rest_b[i] by {
            assert(whole[a.len() + i] == rest_a[i]);
            assert((b + rest_b)[b.len() + i] == rest_b[i]);
        }
    }
}

/// A text that follows the same text twice is the same text.
pub proof fn lemma_same_prefix(prefix: Seq<char>, a: Seq<char>, b: Seq<char>)
    requires
        prefix + a == prefix + b,
    ensures
        a == b,
{
    assert(a.len() == b.len()) by {
        assert((prefix + a).len() == prefix.len() + a.len());
        assert((prefix + b).len() == prefix.len() + b.len());
    }
    assert(a =~= b) by {
        assert forall|i: int| 0 <= i < a.len() implies a[i] == b[i] by {
            assert((prefix + a)[prefix.len() + i] == a[i]);
            assert((prefix + b)[prefix.len() + i] == b[i]);
        }
    }
}

/// A decimal number that is followed by something other than a digit ends
/// where that begins: if two such numbers with what follows them make the
/// same text, the numbers are the same and so is what follows.
pub proof fn lemma_decimal_split(x: int, rest_x: Seq<char>, y: int, rest_y: Seq<char>)
    requires
        decimal(x) + rest_x == decimal(y) + rest_y,
        rest_x.len() > 0 && !is_digit(rest_x[0]),
        rest_y.len() > 0 && !is_digit(rest_y[0]),
    ensures
        x == y,
        rest_x == rest_y,
{
    let dx = decimal_digits((if x < 0 {
        -x
    } else {
        x
    }) as nat);
    let dy = decimal_digits((if y < 0 {
        -y
    } else {
        y
    }) as nat);
    lemma_decimal_digits_are_digits((if x < 0 {
        -x
    } else {
        x
    }) as nat);
    lemma_decimal_digits_are_digits((if y < 0 {
        -y
    } else {
        y
    }) as nat);
    let minus = seq!['-'];
    assert(!is_digit('-'));
    assert((decimal(x) + rest_x)[0] == decimal(x)[0]);
    assert((decimal(y) + rest_y)[0] == decimal(y)[0]);
    assert(decimal(x)[0] == if x < 0 {
        '-'
    } else {
        dx[0]
    });
    assert(decimal(y)[0] == if y < 0 {
        '-'
    } else {
        dy[0]
    });
    assert(is_digit(dx[0]) && is_digit(dy[0]));
    assert((x < 0) == (y < 0));
    if x < 0 {
        assert(decimal(x) + rest_x =~= minus + (dx + rest_x));
        assert(decimal(y) + rest_y =~= minus + (dy + rest_y));
        lemma_same_prefix(minus, dx + rest_x, dy + rest_y);
    }
    lemma_digit_runs_split(dx, rest_x, dy, rest_y);
    lemma_decimal_digits_injective((if x < 0 {
        -x
    } else {
        x
    }) as nat, (if y < 0 {
        -y
    } else {
        y
    }) as nat);
}

/// Digits padded to a width are that many digits, and reading them gives
/// back a number that fits the width.
pub proof fn lemma_padded_digits(n: nat, width: nat)
    requires
        n < pow10(width),
    ensures
        padded_digits(n, width).len() == width,
        all_digits(padded_digits(n, width)),
        digits_value(padded_digits(n, width)) == n,
    decreases width,
{
    if width > 0 {
        lemma_padded_digits(n / 10, (width - 1) as nat);
        let shorter = padded_digits(n / 10, (width - 1) as nat);
        let whole = padded_digits(n, width);
        assert(whole.drop_last() =~= shorter);
        assert forall|i: int| 0 <= i < whole.len() implies is_digit(#[trigger] whole[i]) by {
            if i < shorter.len() {
                assert(whole[i] == shorter[i]);
            }
        }
    }
}

/// The decimals of two fractions are the same only for the same fraction.
pub proof fn lemma_trimmed_injective(a: nat, b: nat)
    requires
        0 < a < 1000,
        0 < b < 1000,
        trimmed_thousandths(a) == trimmed_thousandths(b),
    ensures
        a == b,
{
    lemma_trimmed_digits(a);
    lemma_trimmed_digits(b);
    reveal_with_fuel(pow10, 4);
    if a % 100 == 0 {
        lemma_padded_digits(a / 100, 1);
        lemma_padded_digits(b / 100, 1);
    } else if a % 10 == 0 {
        lemma_padded_digits(a / 10, 2);
        lemma_padded_digits(b / 10, 2);
    } else {
        lemma_padded_digits(a, 3);
        lemma_padded_digits(b, 3);
    }
}

/// The decimals of a fraction are one to three digits: one for whole tenths,
/// two for whole hundredths, three otherwise.
pub proof fn lemma_trimmed_digits(f: nat)
    requires
        0 < f < 1000,
    ensures
        all_digits(trimmed_thousandths(f)),
        trimmed_thousandths(f).len() == if f % 100 == 0 {
            1nat
        } else if f % 10 == 0 {
            2nat
        } else {
            3nat
        },
{
    reveal_with_fuel(pow10, 4);
    if f % 100 == 0 {
        lemma_padded_digits(f / 100, 1);
    } else if f % 10 == 0 {
        lemma_padded_digits(f / 10, 2);
    } else {
        lemma_padded_digits(f, 3);
    }
}

/// A shortest decimal that is followed by a `-` ends where that begins: if
/// two such decimals of numbers that are not negative make the same text with
/// what follows them, the numbers are the same and so is what follows.
pub proof fn lemma_shortest_split(x: nat, rest_x: Seq<char>, y: nat, rest_y: Seq<char>)
    requires
        shortest_text(x as int) + rest_x == shortest_text(y as int) + rest_y,
        rest_x.len() > 0 && rest_x[0] == '-',
        rest_y.len() > 0 && rest_y[0] == '-',
    ensures
        x == y,
        rest_x == rest_y,
{
    let point = seq!['.'];
    let whole_x = decimal_digits(x / 1000);
    let whole_y = decimal_digits(y / 1000);
    let fx = x % 1000;
    let fy = y % 1000;
    let tail_x = if fx == 0 {
        rest_x
    } else {
        point + (trimmed_thousandths(fx) + rest_x)
    };
    let tail_y = if fy == 0 {
        rest_y
    } else {
        point + (trimmed_thousandths(fy) + rest_y)
    };
    assert(shortest_text(x as int) + rest_x =~= whole_x + tail_x);
    assert(shortest_text(y as int) + rest_y =~= whole_y + tail_y);
    assert(!is_digit('-') && !is_digit('.'));
    assert(tail_x[0] == if fx == 0 {
        '-'
    } else {
        '.'
    });
    assert(tail_y[0] == if fy == 0 {
        '-'
    } else {
        '.'
    });
    lemma_decimal_digits_are_digits(x / 1000);
    lemma_decimal_digits_are_digits(y / 1000);
    lemma_digit_runs_split(whole_x, tail_x, whole_y, tail_y);
    lemma_decimal_digits_injective(x / 1000, y / 1000);
    assert((fx == 0) == (fy == 0));
    if fx != 0 {
        lemma_same_prefix(point, trimmed_thousandths(fx) + rest_x, trimmed_thousandths(fy) + rest_y);
        lemma_trimmed_digits(fx);
        lemma_trimmed_digits(fy);
        lemma_digit_runs_split(trimmed_thousandths(fx), rest_x, trimmed_thousandths(fy), rest_y);
        lemma_trimmed_injective(fx, fy);
    }
}

} // verus!
