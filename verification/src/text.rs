//! Character-level helpers: decimal rendering, zero padding, and
//! comparisons on strings viewed as sequences of `char`.
use vstd::prelude::*;

verus! {

/// The character of a decimal digit.
pub open spec fn digit_char(d: nat) -> char {
    if d == 0 {
        '0'
    } else if d == 1 {
        '1'
    } else if d == 2 {
        '2'
    } else if d == 3 {
        '3'
    } else if d == 4 {
        '4'
    } else if d == 5 {
        '5'
    } else if d == 6 {
        '6'
    } else if d == 7 {
        '7'
    } else if d == 8 {
        '8'
    } else {
        '9'
    }
}

/// The value of a digit character, or `None` for any other character.
pub open spec fn char_digit(c: char) -> Option<nat> {
    if c == '0' {
        Some(0)
    } else if c == '1' {
        Some(1)
    } else if c == '2' {
        Some(2)
    } else if c == '3' {
        Some(3)
    } else if c == '4' {
        Some(4)
    } else if c == '5' {
        Some(5)
    } else if c == '6' {
        Some(6)
    } else if c == '7' {
        Some(7)
    } else if c == '8' {
        Some(8)
    } else if c == '9' {
        Some(9)
    } else {
        None
    }
}

/// The shortest decimal rendering of `n` (what `{}` prints for an integer).
pub open spec fn decimal(n: nat) -> Seq<char>
    decreases n,
{
    if n < 10 {
        seq![digit_char(n)]
    } else {
        decimal(n / 10).push(digit_char(n % 10))
    }
}

/// `s` left-padded with `'0'` up to `width` characters (what `{:0width$}` does).
pub open spec fn zero_pad(s: Seq<char>, width: nat) -> Seq<char> {
    if s.len() >= width {
        s
    } else {
        Seq::new((width - s.len()) as nat, |i: int| '0') + s
    }
}

/// Decimal rendering of `n` padded with zeros to `width` characters.
pub open spec fn padded(n: nat, width: nat) -> Seq<char> {
    zero_pad(decimal(n), width)
}

/// Every character of `s` is a decimal digit.
pub open spec fn all_digits(s: Seq<char>) -> bool {
    forall|i: int| 0 <= i < s.len() ==> (#[trigger] char_digit(s[i])) is Some
}

/// The value of a string of decimal digits (most significant first).
pub open spec fn digits_value(s: Seq<char>) -> nat
    decreases s.len(),
{
    if s.len() == 0 {
        0
    } else {
        digits_value(s.drop_last()) * 10 + match char_digit(s.last()) {
            Some(d) => d,
            None => 0,
        }
    }
}

/// `s` begins with `prefix`.
pub open spec fn has_prefix(s: Seq<char>, prefix: Seq<char>) -> bool {
    prefix.len() <= s.len() && s.subrange(0, prefix.len() as int) == prefix
}

/// `s` ends with `suffix`.
pub open spec fn has_suffix(s: Seq<char>, suffix: Seq<char>) -> bool {
    suffix.len() <= s.len() && s.subrange(s.len() - suffix.len(), s.len() as int) == suffix
}

pub proof fn lemma_digit_roundtrip(d: nat)
    requires
        d < 10,
    ensures
        char_digit(digit_char(d)) == Some(d),
{
}

/// The decimal rendering consists of digits only and reads back as `n`.
pub proof fn lemma_decimal_digits(n: nat)
    ensures
        all_digits(decimal(n)),
        digits_value(decimal(n)) == n,
        decimal(n).len() >= 1,
    decreases n,
{
    if n < 10 {
        lemma_digit_roundtrip(n);
        let s = decimal(n);
        assert(s.drop_last() =~= Seq::<char>::empty());
        assert(digits_value(s.drop_last()) == 0);
        assert(s.last() == digit_char(n));
    } else {
        lemma_decimal_digits(n / 10);
        lemma_digit_roundtrip(n % 10);
        let s = decimal(n);
        assert(s.drop_last() =~= decimal(n / 10));
        assert(s.last() == digit_char(n % 10));
        assert(digits_value(s) == digits_value(decimal(n / 10)) * 10 + n % 10);
        assert forall|i: int| 0 <= i < s.len() implies (#[trigger] char_digit(s[i])) is Some by {
            if i < s.len() - 1 {
                assert(s[i] == decimal(n / 10)[i]);
            }
        }
    }
}

/// Appends one character to a `String` (std `String::push`).
#[verifier::external_body]
pub(crate) fn push_char(s: &mut String, c: char)
    ensures
        final(s)@ == old(s)@.push(c),
{
    s.push(c);
}

/// The character of a digit below ten.
pub fn digit_to_char(d: u64) -> (c: char)
    requires
        d < 10,
    ensures
        c == digit_char(d as nat),
{
    if d == 0 {
        '0'
    } else if d == 1 {
        '1'
    } else if d == 2 {
        '2'
    } else if d == 3 {
        '3'
    } else if d == 4 {
        '4'
    } else if d == 5 {
        '5'
    } else if d == 6 {
        '6'
    } else if d == 7 {
        '7'
    } else if d == 8 {
        '8'
    } else {
        '9'
    }
}

/// The value of a character if it is a decimal digit.
pub fn char_to_digit(c: char) -> (r: Option<u64>)
    ensures
        match r {
            Some(d) => char_digit(c) == Some(d as nat) && d < 10,
            None => char_digit(c) is None,
        },
{
    if c == '0' {
        Some(0)
    } else if c == '1' {
        Some(1)
    } else if c == '2' {
        Some(2)
    } else if c == '3' {
        Some(3)
    } else if c == '4' {
        Some(4)
    } else if c == '5' {
        Some(5)
    } else if c == '6' {
        Some(6)
    } else if c == '7' {
        Some(7)
    } else if c == '8' {
        Some(8)
    } else if c == '9' {
        Some(9)
    } else {
        None
    }
}

/// The decimal digits of `n`, most significant first.
pub fn decimal_chars(n: u64) -> (r: Vec<char>)
    ensures
        r@ == decimal(n as nat),
    decreases n,
{
    if n < 10 {
        let mut v = Vec::new();
        v.push(digit_to_char(n));
        assert(v@ =~= decimal(n as nat));
        v
    } else {
        let mut v = decimal_chars(n / 10);
        v.push(digit_to_char(n % 10));
        v
    }
}

/// Appends every character of `chars` to `s`.
pub fn push_all(s: &mut String, chars: &Vec<char>)
    ensures
        final(s)@ == old(s)@ + chars@,
{
    let mut i: usize = 0;
    while i < chars.len()
        invariant
            i <= chars.len(),
            s@ == old(s)@ + chars@.subrange(0, i as int),
        decreases chars.len() - i,
    {
        push_char(s, chars[i]);
        i = i + 1;
        assert(chars@.subrange(0, i as int) =~= chars@.subrange(0, i - 1).push(chars@[i - 1]));
    }
    assert(chars@.subrange(0, chars.len() as int) =~= chars@);
}

/// Appends the decimal rendering of `n`.
pub fn push_decimal(s: &mut String, n: u64)
    ensures
        final(s)@ == old(s)@ + decimal(n as nat),
{
    let d = decimal_chars(n);
    push_all(s, &d);
}

/// The decimal rendering of a signed integer (what `{}` prints).
pub open spec fn signed_decimal(i: int) -> Seq<char> {
    if i < 0 {
        seq!['-'] + decimal((-i) as nat)
    } else {
        decimal(i as nat)
    }
}

/// Appends the decimal rendering of a signed integer.
pub fn push_signed(s: &mut String, i: i64)
    ensures
        final(s)@ == old(s)@ + signed_decimal(i as int),
{
    let ghost start = s@;
    if i < 0 {
        push_char(s, '-');
        let m: u64 = (0 - (i + 1)) as u64 + 1;
        push_decimal(s, m);
        assert(s@ =~= start + signed_decimal(i as int));
    } else {
        push_decimal(s, i as u64);
    }
}

/// Appends the decimal rendering of `n`, zero-padded to `width` characters.
pub fn push_padded(s: &mut String, n: u64, width: usize)
    ensures
        final(s)@ == old(s)@ + padded(n as nat, width as nat),
{
    let d = decimal_chars(n);
    let ghost start = s@;
    if d.len() < width {
        let fill = width - d.len();
        let mut k: usize = 0;
        while k < fill
            invariant
                k <= fill,
                fill == width - d@.len(),
                s@ == start + Seq::new(k as nat, |i: int| '0'),
            decreases fill - k,
        {
            push_char(s, '0');
            k = k + 1;
            assert(Seq::new(k as nat, |i: int| '0') =~= Seq::new((k - 1) as nat, |i: int| '0').push(
                '0',
            ));
        }
        push_all(s, &d);
        assert(s@ =~= start + padded(n as nat, width as nat));
    } else {
        push_all(s, &d);
    }
}

/// Appends the characters of a string slice.
pub fn push_str(s: &mut String, t: &str)
    ensures
        final(s)@ == old(s)@ + t@,
{
    s.append(t);
}

/// The characters of a string slice.
pub fn chars_of(t: &str) -> (r: Vec<char>)
    ensures
        r@ == t@,
{
    let n = t.unicode_len();
    let mut v: Vec<char> = Vec::new();
    let mut i: usize = 0;
    while i < n
        invariant
            i <= n,
            n == t@.len(),
            v@ == t@.subrange(0, i as int),
        decreases n - i,
    {
        v.push(t.get_char(i));
        i = i + 1;
        assert(v@ =~= t@.subrange(0, i as int));
    }
    assert(v@ =~= t@);
    v
}

/// Two character sequences are equal.
pub fn chars_eq(a: &Vec<char>, b: &Vec<char>) -> (r: bool)
    ensures
        r == (a@ == b@),
{
    if a.len() != b.len() {
        return false;
    }
    let mut i: usize = 0;
    while i < a.len()
        invariant
            i <= a.len(),
            a.len() == b.len(),
            forall|j: int| 0 <= j < i ==> a@[j] == b@[j],
        decreases a.len() - i,
    {
        if a[i] != b[i] {
            return false;
        }
        i = i + 1;
    }
    assert(a@ =~= b@);
    true
}

/// `a` starts with `p` at position `at`.
pub fn chars_match_at(a: &Vec<char>, at: usize, p: &Vec<char>) -> (r: bool)
    requires
        at <= a.len(),
    ensures
        r == (p@.len() <= a@.len() - at && a@.subrange(at as int, at + p@.len()) == p@),
{
    if p.len() > a.len() - at {
        return false;
    }
    let mut i: usize = 0;
    while i < p.len()
        invariant
            i <= p.len(),
            p.len() <= a.len() - at,
            forall|j: int| 0 <= j < i ==> a@[at + j] == p@[j],
        decreases p.len() - i,
    {
        if a[at + i] != p[i] {
            assert(a@.subrange(at as int, at + p@.len())[i as int] != p@[i as int]);
            return false;
        }
        i = i + 1;
    }
    assert(a@.subrange(at as int, at + p@.len()) =~= p@);
    true
}

/// The string slice equals the literal.
pub fn str_is(t: &str, lit: &str) -> (r: bool)
    ensures
        r == (t@ == lit@),
{
    let a = chars_of(t);
    let b = chars_of(lit);
    chars_eq(&a, &b)
}

/// The character sequence begins with `prefix`.
pub fn starts_with_str(a: &Vec<char>, prefix: &str) -> (r: bool)
    ensures
        r == has_prefix(a@, prefix@),
{
    let p = chars_of(prefix);
    chars_match_at(a, 0, &p)
}

/// The character sequence ends with `suffix`.
pub fn ends_with_str(a: &Vec<char>, suffix: &str) -> (r: bool)
    ensures
        r == has_suffix(a@, suffix@),
{
    let p = chars_of(suffix);
    if p.len() > a.len() {
        return false;
    }
    chars_match_at(a, a.len() - p.len(), &p)
}

/// A `String` holding the given characters.
pub fn string_of(chars: &Vec<char>) -> (s: String)
    ensures
        s@ == chars@,
{
    let mut s = String::new();
    push_all(&mut s, chars);
    s
}

/// The texts joined with `sep` between neighbours (what `join` gives).
pub open spec fn joined(parts: Seq<Seq<char>>, sep: Seq<char>) -> Seq<char>
    decreases parts.len(),
{
    if parts.len() == 0 {
        Seq::empty()
    } else if parts.len() == 1 {
        parts[0]
    } else {
        joined(parts.drop_last(), sep) + sep + parts.last()
    }
}

/// The views of a list of strings.
pub open spec fn texts_of(v: Seq<String>) -> Seq<Seq<char>> {
    v.map_values(|s: String| s@)
}

/// The strings joined with `sep` between neighbours.
pub fn join_strings(parts: &Vec<String>, sep: &str) -> (r: String)
    ensures
        r@ == joined(texts_of(parts@), sep@),
{
    let ghost all = texts_of(parts@);
    let mut s = String::new();
    let mut i: usize = 0;
    while i < parts.len()
        invariant
            i <= parts.len(),
            all == texts_of(parts@),
            s@ == joined(all.take(i as int), sep@),
        decreases parts.len() - i,
    {
        let ghost before = s@;
        if i > 0 {
            push_str(&mut s, sep);
        }
        push_str(&mut s, parts[i].as_str());
        proof {
            let t = all.take(i + 1);
            assert(t.drop_last() =~= all.take(i as int));
            assert(t.last() == parts@[i as int]@);
            if i == 0 {
                assert(s@ =~= t[0]);
            } else {
                assert(s@ =~= before + sep@ + t.last());
            }
        }
        i = i + 1;
    }
    assert(all.take(parts.len() as int) =~= all);
    s
}

/// What `str::to_lowercase` returns for a text.
pub uninterp spec fn lowercase(s: Seq<char>) -> Seq<char>;

/// Lower-cases a text with std `str::to_lowercase`.
#[verifier::external_body]
pub(crate) fn to_lowercase(s: &str) -> (r: String)
    ensures
        r@ == lowercase(s@),
{
    s.to_lowercase()
}

/// What `u8::from_str` accepts: an optional `+`, then one or more decimal
/// digits whose value is at most 255.
pub open spec fn parse_u8_spec(s: Seq<char>) -> Option<u8> {
    let digits = if s.len() > 0 && s[0] == '+' {
        s.skip(1)
    } else {
        s
    };
    if digits.len() > 0 && all_digits(digits) && digits_value(digits) <= 255 {
        Some(digits_value(digits) as u8)
    } else {
        None
    }
}

/// A prefix of a digit string is worth no more than the whole string.
pub proof fn lemma_digits_value_prefix(s: Seq<char>, k: int)
    requires
        0 <= k <= s.len(),
    ensures
        digits_value(s.subrange(0, k)) <= digits_value(s),
    decreases s.len() - k,
{
    if k < s.len() {
        lemma_digits_value_prefix(s, k + 1);
        assert(s.subrange(0, k + 1).drop_last() =~= s.subrange(0, k));
    } else {
        assert(s.subrange(0, k) =~= s);
    }
}

/// Parses `chars[from..]` as `u8::from_str` does.
pub fn parse_u8_from(chars: &Vec<char>, from: usize) -> (r: Option<u8>)
    requires
        from <= chars.len(),
    ensures
        r == parse_u8_spec(chars@.skip(from as int)),
{
    let ghost s = chars@.skip(from as int);
    let mut i = from;
    if i < chars.len() && chars[i] == '+' {
        i = i + 1;
    }
    let ghost digits = chars@.skip(i as int);
    proof {
        if s.len() > 0 && s[0] == '+' {
            assert(digits =~= s.skip(1));
        } else {
            assert(digits =~= s);
        }
    }
    if i == chars.len() {
        return None;
    }
    let start = i;
    let mut value: u64 = 0;
    while i < chars.len()
        invariant
            start <= i <= chars.len(),
            start < chars.len(),
            digits == chars@.skip(start as int),
            s == chars@.skip(from as int),
            digits.len() > 0,
            parse_u8_spec(s) == (if digits.len() > 0 && all_digits(digits) && digits_value(digits)
                <= 255 {
                Some(digits_value(digits) as u8)
            } else {
                None
            }),
            all_digits(chars@.subrange(start as int, i as int)),
            value as nat == digits_value(chars@.subrange(start as int, i as int)),
            value <= 255,
        decreases chars.len() - i,
    {
        let d = char_to_digit(chars[i]);
        match d {
            None => {
                assert(char_digit(digits[i - start]) is None);
                assert(!all_digits(digits));
                return None;
            },
            Some(dv) => {
                let ghost prev = chars@.subrange(start as int, i as int);
                let ghost next = chars@.subrange(start as int, i + 1);
                assert(next.drop_last() =~= prev);
                assert(next.last() == chars@[i as int]);
                assert(all_digits(next)) by {
                    assert forall|j: int| 0 <= j < next.len() implies (#[trigger] char_digit(
                        next[j],
                    )) is Some by {
                        if j < prev.len() {
                            assert(next[j] == prev[j]);
                        }
                    }
                }
                value = value * 10 + dv;
                assert(digits_value(next) == value);
                i = i + 1;
                if value > 255 {
                    proof {
                        assert(next =~= digits.subrange(0, (i - start) as int));
                        lemma_digits_value_prefix(digits, (i - start) as int);
                        assert(digits_value(digits) > 255);
                    }
                    return None;
                }
            },
        }
    }
    proof {
        assert(chars@.subrange(start as int, i as int) =~= digits);
    }
    Some(value as u8)
}

} // verus!
