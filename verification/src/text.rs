//! Text as sequences of characters: comparison, ordering, trimming, splitting,
//! and the decimal and hexadecimal notations of integers.
use vstd::prelude::*;
use vstd::string::*;
use vstd::utf8::*;

verus! {

/// `String::push` of std: appends one character.
pub assume_specification[ String::push ](s: &mut String, c: char)
    ensures
        final(s)@ == old(s)@.push(c),
;

/// Compares two string slices with std's `==`, which holds exactly when both
/// hold the same characters.
#[verifier::external_body]
pub(crate) fn str_eq(a: &str, b: &str) -> (r: bool)
    ensures
        r == (a@ == b@),
{
    a == b
}

/// Checks bytes with std's `str::from_utf8` and copies the text out. It
/// succeeds exactly on valid UTF-8, and the text encodes back to the bytes.
#[verifier::external_body]
pub(crate) fn utf8_text(bytes: &[u8]) -> (r: Option<String>)
    ensures
        r is Some <==> valid_utf8(bytes@),
        r matches Some(s) ==> encode_utf8(s@) == bytes@,
{
    std::str::from_utf8(bytes).ok().map(str::to_owned)
}

/// The views of a sequence of strings.
pub open spec fn texts(v: Seq<String>) -> Seq<Seq<char>> {
    v.map_values(|s: String| s@)
}

/// The view of an optional string.
pub open spec fn opt_text(o: Option<String>) -> Option<Seq<char>> {
    match o {
        Some(s) => Some(s@),
        None => None,
    }
}

/// Copies the characters of a string slice into a vector.
pub fn chars_of(s: &str) -> (r: Vec<char>)
    ensures
        r@ == s@,
{
    let mut r: Vec<char> = Vec::new();
    for c in it: s.chars()
        invariant
            r@ == it.seq().take(it.index() as int),
            it.seq() == s@,
    {
        r.push(c);
    }
    r
}


/// Builds a string from the characters in `v[from..to]`.
pub fn text_of(v: &[char], from: usize, to: usize) -> (r: String)
    requires
        from <= to <= v@.len(),
    ensures
        r@ == v@.subrange(from as int, to as int),
{
    let mut r = String::new();
    let mut i: usize = from;
    while i < to
        invariant
            from <= i <= to <= v@.len(),
            r@ == v@.subrange(from as int, i as int),
        decreases to - i,
    {
        r.push(v[i]);
        i += 1;
        assert(v@.subrange(from as int, i as int) =~= v@.subrange(from as int, i - 1).push(
            v@[i - 1],
        ));
    }
    r
}

/// Copies an optional string.
pub fn clone_opt(o: &Option<String>) -> (r: Option<String>)
    ensures
        r == *o,
{
    match o {
        Some(s) => Some(s.clone()),
        None => None,
    }
}

/// Copies a vector of strings.
pub fn clone_texts(v: &Vec<String>) -> (r: Vec<String>)
    ensures
        r@ == v@,
{
    let mut r: Vec<String> = Vec::new();
    let mut i: usize = 0;
    while i < v.len()
        invariant
            i <= v@.len(),
            r@ == v@.take(i as int),
        decreases v@.len() - i,
    {
        r.push(v[i].clone());
        i += 1;
        assert(v@.take(i as int) =~= v@.take(i - 1).push(v@[i - 1]));
    }
    assert(v@.take(v@.len() as int) =~= v@);
    r
}

/// Whether two optional strings hold the same text.
pub fn opt_eq(a: &Option<String>, b: &Option<String>) -> (r: bool)
    ensures
        r == (opt_text(*a) == opt_text(*b)),
{
    match (a, b) {
        (Some(x), Some(y)) => str_eq(x.as_str(), y.as_str()),
        (None, None) => true,
        _ => false,
    }
}

/// Whether an optional string is present and holds exactly `b`.
pub fn opt_is(a: &Option<String>, b: &str) -> (r: bool)
    ensures
        r == (opt_text(*a) == Some(b@)),
{
    match a {
        Some(x) => str_eq(x.as_str(), b),
        None => false,
    }
}

// Digits and numerals.

/// The character that stands for a digit below ten.
pub open spec fn digit_char(d: nat) -> char {
    (48 + d) as char
}

/// The character that stands for a digit below sixteen, in lower case.
pub open spec fn hex_char(d: nat) -> char {
    if d < 10 {
        (48 + d) as char
    } else {
        (87 + d) as char
    }
}

/// The decimal notation of a natural number.
pub open spec fn dec(n: nat) -> Seq<char>
    decreases n,
{
    if n < 10 {
        seq![digit_char(n)]
    } else {
        dec(n / 10).push(digit_char(n % 10))
    }
}

/// The decimal notation of an integer.
pub open spec fn dec_int(n: int) -> Seq<char> {
    if n < 0 {
        seq!['-'] + dec((-n) as nat)
    } else {
        dec(n as nat)
    }
}

/// The lower-case hexadecimal notation of `n` in exactly `width` digits, the
/// higher digits of a longer number being dropped.
pub open spec fn hex_fixed(n: nat, width: nat) -> Seq<char>
    decreases width,
{
    if width == 0 {
        Seq::empty()
    } else {
        hex_fixed(n / 16, (width - 1) as nat).push(hex_char(n % 16))
    }
}

/// The value of a character as a digit of the given radix (at most 16).
pub open spec fn digit_of(c: char, radix: nat) -> Option<nat> {
    let v: int = if '0' <= c && c <= '9' {
        c as int - 48
    } else if 'a' <= c && c <= 'f' {
        c as int - 87
    } else if 'A' <= c && c <= 'F' {
        c as int - 55
    } else {
        99
    };
    if v < radix {
        Some(v as nat)
    } else {
        None
    }
}

/// Whether every character is a digit of the radix.
pub open spec fn all_digits(s: Seq<char>, radix: nat) -> bool {
    forall|i: int| 0 <= i < s.len() ==> (#[trigger] digit_of(s[i], radix)) is Some
}

/// The number that a sequence of digits denotes.
pub open spec fn numeral_value(s: Seq<char>, radix: nat) -> nat
    decreases s.len(),
{
    if s.len() == 0 {
        0
    } else {
        numeral_value(s.drop_last(), radix) * radix + digit_of(s.last(), radix)->0
    }
}

/// A numeral without the one leading `+` that it may carry.
pub open spec fn without_plus(s: Seq<char>) -> Seq<char> {
    if s.len() > 1 && s[0] == '+' {
        s.skip(1)
    } else {
        s
    }
}

/// What an unsigned numeral parses to: one or more digits, with at most one
/// leading `+`, denoting a number of at most `max`.
pub open spec fn parsed_unsigned(s: Seq<char>, radix: nat, max: nat) -> Option<nat> {
    let d = without_plus(s);
    if d.len() > 0 && all_digits(d, radix) && numeral_value(d, radix) <= max {
        Some(numeral_value(d, radix))
    } else {
        None
    }
}

/// What a decimal numeral with an optional sign parses to as a 64-bit integer.
pub open spec fn parsed_signed(s: Seq<char>) -> Option<int> {
    if s.len() > 1 && s[0] == '-' {
        let d = s.skip(1);
        if all_digits(d, 10) && numeral_value(d, 10) <= 0x8000_0000_0000_0000 {
            Some(-(numeral_value(d, 10) as int))
        } else {
            None
        }
    } else {
        match parsed_unsigned(s, 10, 0x7fff_ffff_ffff_ffff) {
            Some(n) => Some(n as int),
            None => None,
        }
    }
}

/// The character of one decimal digit.
fn digit_to_char(d: u8) -> (c: char)
    requires
        d < 10,
    ensures
        c == digit_char(d as nat),
{
    (48 + d) as char
}

/// The character of one hexadecimal digit.
pub fn hex_to_char(d: u8) -> (c: char)
    requires
        d < 16,
    ensures
        c == hex_char(d as nat),
{
    if d < 10 {
        (48 + d) as char
    } else {
        (87 + d) as char
    }
}

/// Writes a number in decimal.
pub fn decimal(n: u64) -> (r: String)
    ensures
        r@ == dec(n as nat),
    decreases n,
{
    if n < 10 {
        let mut r = String::new();
        r.push(digit_to_char(n as u8));
        assert(r@ =~= seq![digit_char(n as nat)]);
        r
    } else {
        let mut r = decimal(n / 10);
        r.push(digit_to_char((n % 10) as u8));
        r
    }
}

/// Writes a signed number in decimal.
pub fn decimal_i64(n: i64) -> (r: String)
    ensures
        r@ == dec_int(n as int),
{
    if n < 0 {
        let magnitude: u64 = if n == i64::MIN {
            0x8000_0000_0000_0000u64
        } else {
            (-n) as u64
        };
        let mut r = String::new();
        r.push('-');
        r.append(decimal(magnitude).as_str());
        assert(r@ =~= seq!['-'] + dec((-(n as int)) as nat));
        r
    } else {
        decimal(n as u64)
    }
}

/// Writes a number in lower-case hexadecimal with exactly `width` digits.
pub fn hex_digits(n: u64, width: usize) -> (r: String)
    ensures
        r@ == hex_fixed(n as nat, width as nat),
    decreases width,
{
    if width == 0 {
        String::new()
    } else {
        let mut r = hex_digits(n / 16, width - 1);
        r.push(hex_to_char((n % 16) as u8));
        r
    }
}

/// The value of a character as a digit of the radix.
fn char_digit(c: char, radix: u64) -> (r: Option<u64>)
    requires
        radix <= 16,
    ensures
        match r {
            Some(d) => digit_of(c, radix as nat) == Some(d as nat),
            None => digit_of(c, radix as nat) is None,
        },
{
    let v: u64 = if '0' <= c && c <= '9' {
        (c as u64) - 48
    } else if 'a' <= c && c <= 'f' {
        (c as u64) - 87
    } else if 'A' <= c && c <= 'F' {
        (c as u64) - 55
    } else {
        99
    };
    if v < radix {
        Some(v)
    } else {
        None
    }
}

proof fn lemma_numeral_prefix(s: Seq<char>, radix: nat, k: int)
    requires
        0 <= k <= s.len(),
        all_digits(s, radix),
        radix >= 1,
    ensures
        numeral_value(s.take(k), radix) <= numeral_value(s, radix),
    decreases s.len() - k,
{
    if k < s.len() {
        lemma_numeral_prefix(s, radix, k + 1);
        assert(s.take(k + 1).drop_last() =~= s.take(k));
        let v = numeral_value(s.take(k), radix);
        assert(v * radix >= v) by (nonlinear_arith)
            requires
                radix >= 1,
                v >= 0,
        ;
    } else {
        assert(s.take(k) =~= s);
    }
}

/// Parses `v[from..]` as digits of the radix, without a sign.
fn parse_digits(v: &[char], from: usize, radix: u64, max: u64) -> (r: Option<u64>)
    requires
        from <= v@.len(),
        1 <= radix <= 16,
    ensures
        ({
            let d = v@.skip(from as int);
            match r {
                Some(n) => d.len() > 0 && all_digits(d, radix as nat) && numeral_value(
                    d,
                    radix as nat,
                ) == n && n <= max,
                None => !(d.len() > 0 && all_digits(d, radix as nat) && numeral_value(
                    d,
                    radix as nat,
                ) <= max),
            }
        }),
{
    let ghost d = v@.skip(from as int);
    if from == v.len() {
        return None;
    }
    let mut value: u64 = 0;
    let mut i: usize = from;
    assert(d.take(0) =~= Seq::<char>::empty());
    while i < v.len()
        invariant
            from <= i <= v@.len(),
            1 <= radix <= 16,
            d == v@.skip(from as int),
            all_digits(d.take(i - from), radix as nat),
            value == numeral_value(d.take(i - from), radix as nat),
            value <= max,
        decreases v@.len() - i,
    {
        let ghost k = i - from;
        assert(d[k] == v@[i as int]);
        assert(d.take(k + 1).drop_last() =~= d.take(k));
        assert(d.take(k + 1).last() == d[k]);
        match char_digit(v[i], radix) {
            None => {
                assert(digit_of(d[k], radix as nat) is None);
                return None;
            },
            Some(x) => {
                assert(value * radix <= 0xffff_ffff_ffff_ffff * 16) by (nonlinear_arith)
                    requires
                        value <= 0xffff_ffff_ffff_ffff,
                        radix <= 16,
                ;
                let wide: u128 = (value as u128) * (radix as u128) + (x as u128);
                assert(wide == numeral_value(d.take(k + 1), radix as nat));
                assert(all_digits(d.take(k + 1), radix as nat)) by {
                    assert forall|j: int| 0 <= j < k + 1 implies (#[trigger] digit_of(
                        d.take(k + 1)[j],
                        radix as nat,
                    )) is Some by {
                        if j < k {
                            assert(d.take(k + 1)[j] == d.take(k)[j]);
                        }
                    }
                }
                if wide > max as u128 {
                    proof {
                        if all_digits(d, radix as nat) {
                            lemma_numeral_prefix(d, radix as nat, k + 1);
                        }
                    }
                    return None;
                }
                value = wide as u64;
            },
        }
        i += 1;
    }
    assert(d.take(i - from) =~= d);
    Some(value)
}

/// Parses an unsigned numeral: digits with at most one leading `+`.
pub fn parse_unsigned(v: &[char], radix: u64, max: u64) -> (r: Option<u64>)
    requires
        1 <= radix <= 16,
    ensures
        match r {
            Some(n) => parsed_unsigned(v@, radix as nat, max as nat) == Some(n as nat),
            None => parsed_unsigned(v@, radix as nat, max as nat) is None,
        },
{
    if v.len() > 1 && v[0] == '+' {
        parse_digits(v, 1, radix, max)
    } else {
        assert(v@.skip(0) =~= v@);
        parse_digits(v, 0, radix, max)
    }
}

/// Parses a decimal numeral with an optional sign.
pub fn parse_signed(v: &[char]) -> (r: Option<i64>)
    ensures
        match r {
            Some(n) => parsed_signed(v@) == Some(n as int),
            None => parsed_signed(v@) is None,
        },
{
    if v.len() > 1 && v[0] == '-' {
        match parse_digits(v, 1, 10, 0x8000_0000_0000_0000u64) {
            None => None,
            Some(n) => {
                if n == 0x8000_0000_0000_0000u64 {
                    Some(i64::MIN)
                } else {
                    Some(-(n as i64))
                }
            },
        }
    } else {
        match parse_unsigned(v, 10, 0x7fff_ffff_ffff_ffffu64) {
            None => None,
            Some(n) => Some(n as i64),
        }
    }
}

/// Parses a string as an unsigned decimal number of at most `max`.
pub fn parse_decimal(s: &str, max: u64) -> (r: Option<u64>)
    ensures
        match r {
            Some(n) => parsed_unsigned(s@, 10, max as nat) == Some(n as nat),
            None => parsed_unsigned(s@, 10, max as nat) is None,
        },
{
    let v = chars_of(s);
    parse_unsigned(v.as_slice(), 10, max)
}

/// The decimal notation of a number is made of digits, is not empty and
/// denotes that number.
pub proof fn lemma_dec_value(n: nat)
    ensures
        dec(n).len() > 0,
        all_digits(dec(n), 10),
        numeral_value(dec(n), 10) == n,
        forall|i: int| 0 <= i < dec(n).len() ==> '0' <= #[trigger] dec(n)[i] && dec(n)[i] <= '9',
    decreases n,
{
    if n < 10 {
        assert(dec(n).drop_last() =~= Seq::<char>::empty());
        assert(numeral_value(dec(n).drop_last(), 10) == 0);
    } else {
        lemma_dec_value(n / 10);
        assert(dec(n).drop_last() =~= dec(n / 10));
        let s = dec(n / 10);
        let c = digit_char(n % 10);
        assert(dec(n) == s.push(c));
        assert forall|i: int| 0 <= i < dec(n).len() implies (#[trigger] digit_of(dec(n)[i], 10))
            is Some by {
            if i < s.len() {
                assert(dec(n)[i] == s[i]);
                assert(digit_of(s[i], 10) is Some);
            }
        }
        assert forall|i: int| 0 <= i < dec(n).len() implies '0' <= #[trigger] dec(n)[i] && dec(
            n,
        )[i] <= '9' by {
            if i < s.len() {
                assert(dec(n)[i] == s[i]);
            }
        }
    }
}

/// Parsing gives back the number that was written in decimal.
pub proof fn lemma_dec_round_trip(n: nat, max: nat)
    requires
        n <= max,
    ensures
        parsed_unsigned(dec(n), 10, max) == Some(n),
{
    lemma_dec_value(n);
    assert('0' <= dec(n)[0]);
}

/// Parsing the decimal notation of a number gives the number back.
pub proof fn lemma_dec_int_round_trip(n: i64)
    ensures
        parsed_signed(dec_int(n as int)) == Some(n as int),
{
    if n < 0 {
        let m = (-(n as int)) as nat;
        lemma_dec_value(m);
        assert(dec_int(n as int).skip(1) =~= dec(m));
    } else {
        lemma_dec_value(n as nat);
        assert('0' <= dec(n as nat)[0]);
    }
}

/// Two numbers with the same decimal notation are equal.
pub proof fn lemma_dec_injective(a: nat, b: nat)
    requires
        dec(a) == dec(b),
    ensures
        a == b,
{
    lemma_dec_value(a);
    lemma_dec_value(b);
}


// White space and trimming.

/// Unicode white space.
pub open spec fn is_space(c: char) -> bool {
    let u = c as u32;
    ||| 9 <= u <= 13
    ||| u == 32
    ||| u == 0x85
    ||| u == 0xa0
    ||| u == 0x1680
    ||| 0x2000 <= u <= 0x200a
    ||| u == 0x2028
    ||| u == 0x2029
    ||| u == 0x202f
    ||| u == 0x205f
    ||| u == 0x3000
}

/// Whether a character is Unicode white space.
pub fn is_white(c: char) -> (r: bool)
    ensures
        r == is_space(c),
{
    let u: u32 = c as u32;
    (9 <= u && u <= 13) || u == 32 || u == 0x85 || u == 0xa0 || u == 0x1680 || (0x2000 <= u && u
        <= 0x200a) || u == 0x2028 || u == 0x2029 || u == 0x202f || u == 0x205f || u == 0x3000
}

/// A text without leading white space.
pub open spec fn trimmed_start(s: Seq<char>) -> Seq<char>
    decreases s.len(),
{
    if s.len() > 0 && is_space(s[0]) {
        trimmed_start(s.skip(1))
    } else {
        s
    }
}

/// A text without trailing white space.
pub open spec fn trimmed_end(s: Seq<char>) -> Seq<char>
    decreases s.len(),
{
    if s.len() > 0 && is_space(s.last()) {
        trimmed_end(s.drop_last())
    } else {
        s
    }
}

/// A text without white space at either end.
pub open spec fn trimmed(s: Seq<char>) -> Seq<char> {
    trimmed_end(trimmed_start(s))
}

/// Whether a text holds nothing but white space.
pub open spec fn is_blank(s: Seq<char>) -> bool {
    trimmed(s).len() == 0
}

proof fn lemma_skip_skip(s: Seq<char>, a: int)
    requires
        0 <= a < s.len(),
    ensures
        s.skip(a).skip(1) == s.skip(a + 1),
{
    assert(s.skip(a).skip(1) =~= s.skip(a + 1));
}

/// Removes white space at both ends.
pub fn trim(s: &str) -> (r: String)
    ensures
        r@ == trimmed(s@),
{
    let v = chars_of(s);
    let mut from: usize = 0;
    assert(v@.skip(0) =~= v@);
    while from < v.len() && is_white(v[from])
        invariant
            from <= v@.len(),
            trimmed_start(v@.skip(from as int)) == trimmed_start(v@),
        decreases v@.len() - from,
    {
        proof {
            lemma_skip_skip(v@, from as int);
        }
        from += 1;
    }
    let ghost rest = v@.skip(from as int);
    assert(trimmed_start(v@) == rest);
    let mut to: usize = v.len();
    assert(v@.subrange(from as int, to as int) =~= rest);
    while to > from && is_white(v[to - 1])
        invariant
            from <= to <= v@.len(),
            trimmed_end(v@.subrange(from as int, to as int)) == trimmed_end(rest),
        decreases to,
    {
        assert(v@.subrange(from as int, to as int).drop_last() =~= v@.subrange(
            from as int,
            to - 1,
        ));
        to -= 1;
    }
    text_of(v.as_slice(), from, to)
}

/// Whether a text holds nothing but white space.
pub fn blank(s: &str) -> (r: bool)
    ensures
        r == is_blank(s@),
{
    let t = trim(s);
    t.as_str().is_empty()
}

// Prefixes, suffixes and separators.

/// Whether `p` stands at position `i` of `s`.
pub open spec fn occurs_at(s: Seq<char>, p: Seq<char>, i: int) -> bool {
    0 <= i && i + p.len() <= s.len() && s.subrange(i, i + p.len()) == p
}

/// Whether `p` occurs in `s`.
pub open spec fn has_text(s: Seq<char>, p: Seq<char>) -> bool {
    exists|i: int| #[trigger] occurs_at(s, p, i)
}

/// Whether a character is not among the first `n` of a text.
pub open spec fn lacks(s: Seq<char>, c: char, n: nat) -> bool
    decreases n,
{
    n == 0 || s[n - 1] != c && lacks(s, c, (n - 1) as nat)
}

/// What has a character that a text lacks does not occur in it.
pub proof fn lemma_lacks(s: Seq<char>, p: Seq<char>, k: int, n: nat)
    requires
        0 <= k < p.len(),
        n == s.len(),
        lacks(s, p[k], n),
    ensures
        !has_text(s, p),
{
    assert forall|i: int| !#[trigger] occurs_at(s, p, i) by {
        if occurs_at(s, p, i) {
            assert(s.subrange(i, i + p.len())[k] == s[i + k]);
            lemma_lacks_at(s, p[k], n, i + k);
        }
    }
}

proof fn lemma_lacks_at(s: Seq<char>, c: char, n: nat, i: int)
    requires
        lacks(s, c, n),
        0 <= i < n,
    ensures
        s[i] != c,
    decreases n,
{
    if i < n - 1 {
        lemma_lacks_at(s, c, (n - 1) as nat, i);
    }
}

/// Whether `p` stands at position `i` of `v`.
pub fn matches_at(v: &[char], p: &[char], i: usize) -> (r: bool)
    ensures
        r == occurs_at(v@, p@, i as int),
{
    if i > v.len() || p.len() > v.len() - i {
        return false;
    }
    let n: usize = v.len();
    let mut k: usize = 0;
    while k < p.len()
        invariant
            k <= p@.len(),
            i + p@.len() <= v@.len(),
            n == v@.len(),
            forall|j: int| 0 <= j < k ==> v@[i + j] == p@[j],
        decreases p@.len() - k,
    {
        if v[i + k] != p[k] {
            assert(v@.subrange(i as int, i + p@.len())[k as int] == v@[i + k]);
            return false;
        }
        k += 1;
    }
    assert(v@.subrange(i as int, i + p@.len()) =~= p@);
    true
}

/// Whether `p` occurs in `s`.
pub fn contains_text(s: &str, p: &str) -> (r: bool)
    ensures
        r == has_text(s@, p@),
{
    let v = chars_of(s);
    let w = chars_of(p);
    let mut i: usize = 0;
    while i < v.len()
        invariant
            i <= v@.len(),
            v@ == s@,
            w@ == p@,
            forall|j: int| 0 <= j < i ==> !#[trigger] occurs_at(v@, w@, j),
        decreases v@.len() - i,
    {
        if matches_at(v.as_slice(), w.as_slice(), i) {
            return true;
        }
        i += 1;
    }
    let last = matches_at(v.as_slice(), w.as_slice(), i);
    last
}

/// Whether `s` starts with `p`.
pub open spec fn starts(s: Seq<char>, p: Seq<char>) -> bool {
    p.len() <= s.len() && s.take(p.len() as int) == p
}

/// Whether `s` ends with `p`.
pub open spec fn ends(s: Seq<char>, p: Seq<char>) -> bool {
    p.len() <= s.len() && s.skip(s.len() - p.len()) == p
}

/// `s` without the prefix `p`, or `None` where it does not start with it.
pub open spec fn after_prefix(s: Seq<char>, p: Seq<char>) -> Option<Seq<char>> {
    if starts(s, p) {
        Some(s.skip(p.len() as int))
    } else {
        None
    }
}

/// `s` without the suffix `p`, or `None` where it does not end with it.
pub open spec fn before_suffix(s: Seq<char>, p: Seq<char>) -> Option<Seq<char>> {
    if ends(s, p) {
        Some(s.take(s.len() - p.len()))
    } else {
        None
    }
}

/// Whether `s` starts with `p`.
pub fn starts_with(s: &str, p: &str) -> (r: bool)
    ensures
        r == starts(s@, p@),
{
    let v = chars_of(s);
    let w = chars_of(p);
    assert(w@.len() <= v@.len() ==> v@.subrange(0, w@.len() as int) =~= v@.take(w@.len() as int));
    matches_at(v.as_slice(), w.as_slice(), 0)
}

/// Removes the prefix `p`.
pub fn strip_prefix(s: &str, p: &str) -> (r: Option<String>)
    ensures
        opt_text(r) == after_prefix(s@, p@),
{
    let v = chars_of(s);
    let w = chars_of(p);
    assert(w@.len() <= v@.len() ==> v@.subrange(0, w@.len() as int) =~= v@.take(w@.len() as int));
    if matches_at(v.as_slice(), w.as_slice(), 0) {
        assert(v@.subrange(w@.len() as int, v@.len() as int) =~= v@.skip(w@.len() as int));
        Some(text_of(v.as_slice(), w.len(), v.len()))
    } else {
        None
    }
}

/// Removes the suffix `p`.
pub fn strip_suffix(s: &str, p: &str) -> (r: Option<String>)
    ensures
        opt_text(r) == before_suffix(s@, p@),
{
    let v = chars_of(s);
    let w = chars_of(p);
    if w.len() > v.len() {
        return None;
    }
    let k: usize = v.len() - w.len();
    assert(v@.subrange(k as int, k + w@.len()) =~= v@.skip(k as int));
    if matches_at(v.as_slice(), w.as_slice(), k) {
        assert(v@.subrange(0, k as int) =~= v@.take(k as int));
        Some(text_of(v.as_slice(), 0, k))
    } else {
        None
    }
}

/// The first position of a character, or the length where it is absent.
pub open spec fn first_index(s: Seq<char>, c: char) -> int
    decreases s.len(),
{
    if s.len() == 0 {
        0
    } else if s[0] == c {
        0
    } else {
        1 + first_index(s.skip(1), c)
    }
}

/// The two parts around the first occurrence of a character.
pub open spec fn split_first(s: Seq<char>, c: char) -> Option<(Seq<char>, Seq<char>)> {
    if s.contains(c) {
        let i = first_index(s, c);
        Some((s.take(i), s.skip(i + 1)))
    } else {
        None
    }
}

/// `first_index` is the first position that holds the character.
pub proof fn lemma_first_index(s: Seq<char>, c: char)
    ensures
        0 <= first_index(s, c) <= s.len(),
        forall|j: int| 0 <= j < first_index(s, c) ==> s[j] != c,
        first_index(s, c) < s.len() ==> s[first_index(s, c)] == c,
        s.contains(c) <==> first_index(s, c) < s.len(),
    decreases s.len(),
{
    if s.len() > 0 && s[0] != c {
        let t = s.skip(1);
        lemma_first_index(t, c);
        let k = first_index(t, c);
        assert forall|j: int| 0 <= j < 1 + k implies s[j] != c by {
            if j > 0 {
                assert(t[j - 1] == s[j]);
            }
        }
        if s.contains(c) {
            let w = choose|w: int| 0 <= w < s.len() && s[w] == c;
            assert(t[w - 1] == c);
            assert(t.contains(c));
        }
        if k < t.len() {
            assert(t[k] == s[1 + k]);
        }
    } else if s.len() > 0 {
        assert(s[0] == c);
        assert(s.contains(c));
    }
}

/// A position that holds the character with none before it is the first one.
pub proof fn lemma_first_index_is(s: Seq<char>, c: char, i: int)
    requires
        0 <= i < s.len(),
        s[i] == c,
        forall|j: int| 0 <= j < i ==> s[j] != c,
    ensures
        first_index(s, c) == i,
        s.contains(c),
{
    lemma_first_index(s, c);
    assert(s.contains(c));
    let k = first_index(s, c);
    if k < i {
        assert(s[k] == c);
    } else if i < k {
        assert(s[i] == c);
    }
}

/// Splits a text at the first occurrence of a character.
pub fn split_once(s: &str, c: char) -> (r: Option<(String, String)>)
    ensures
        match r {
            Some((a, b)) => split_first(s@, c) == Some((a@, b@)),
            None => split_first(s@, c) is None,
        },
{
    let v = chars_of(s);
    let mut i: usize = 0;
    while i < v.len()
        invariant
            i <= v@.len(),
            v@ == s@,
            forall|j: int| 0 <= j < i ==> v@[j] != c,
        decreases v@.len() - i,
    {
        if v[i] == c {
            proof {
                lemma_first_index_is(s@, c, i as int);
                assert(v@.subrange(0, i as int) =~= s@.take(i as int));
                assert(v@.subrange(i + 1, v@.len() as int) =~= s@.skip(i + 1));
            }
            return Some((text_of(v.as_slice(), 0, i), text_of(v.as_slice(), i + 1, v.len())));
        }
        i += 1;
    }
    None
}

/// What follows the last occurrence of a character.
pub open spec fn after_last(s: Seq<char>, c: char) -> Option<Seq<char>>
    decreases s.len(),
{
    if s.len() == 0 {
        None
    } else if s.last() == c {
        Some(Seq::empty())
    } else {
        match after_last(s.drop_last(), c) {
            Some(t) => Some(t.push(s.last())),
            None => None,
        }
    }
}

/// What follows the last of a character.
pub proof fn lemma_after_last(s: Seq<char>, c: char, i: int)
    requires
        0 <= i < s.len(),
        s[i] == c,
        forall|j: int| i < j < s.len() ==> s[j] != c,
    ensures
        after_last(s, c) == Some(s.skip(i + 1)),
    decreases s.len(),
{
    if i == s.len() - 1 {
        assert(s.skip(i + 1) =~= Seq::<char>::empty());
    } else {
        lemma_after_last(s.drop_last(), c, i);
        assert(s.drop_last().skip(i + 1).push(s.last()) =~= s.skip(i + 1));
    }
}

proof fn lemma_after_last_none(s: Seq<char>, c: char)
    requires
        forall|j: int| 0 <= j < s.len() ==> s[j] != c,
    ensures
        after_last(s, c) is None,
    decreases s.len(),
{
    if s.len() > 0 {
        assert(s.last() == s[s.len() - 1]);
        lemma_after_last_none(s.drop_last(), c);
    }
}

/// What follows the last occurrence of a character.
pub fn tail_after_last(v: &[char], c: char) -> (r: Option<usize>)
    ensures
        match r {
            Some(i) => i <= v@.len() && after_last(v@, c) == Some(v@.skip(i as int)),
            None => after_last(v@, c) is None,
        },
{
    let mut i: usize = v.len();
    while i > 0
        invariant
            i <= v@.len(),
            forall|j: int| i <= j < v@.len() ==> v@[j] != c,
        decreases i,
    {
        if v[i - 1] == c {
            proof {
                lemma_after_last(v@, c, i - 1);
            }
            return Some(i);
        }
        i -= 1;
    }
    proof {
        lemma_after_last_none(v@, c);
    }
    None
}

// Order.

/// Lexicographic order by code point.
pub open spec fn text_lt(a: Seq<char>, b: Seq<char>) -> bool
    decreases a.len(),
{
    if b.len() == 0 {
        false
    } else if a.len() == 0 {
        true
    } else if a[0] != b[0] {
        (a[0] as int) < (b[0] as int)
    } else {
        text_lt(a.skip(1), b.skip(1))
    }
}

/// Lexicographic order by code point, or equality.
pub open spec fn text_le(a: Seq<char>, b: Seq<char>) -> bool {
    !text_lt(b, a)
}

/// No text stands before itself.
pub proof fn lemma_text_lt_irreflexive(a: Seq<char>)
    ensures
        !text_lt(a, a),
    decreases a.len(),
{
    if a.len() > 0 {
        lemma_text_lt_irreflexive(a.skip(1));
    }
}

/// The order of texts is transitive.
pub proof fn lemma_text_lt_transitive(a: Seq<char>, b: Seq<char>, c: Seq<char>)
    requires
        text_lt(a, b),
        text_lt(b, c),
    ensures
        text_lt(a, c),
    decreases a.len(),
{
    if a.len() > 0 && b.len() > 0 && c.len() > 0 && a[0] == b[0] && b[0] == c[0] {
        lemma_text_lt_transitive(a.skip(1), b.skip(1), c.skip(1));
    }
}

/// Of two different texts one stands before the other.
pub proof fn lemma_text_lt_total(a: Seq<char>, b: Seq<char>)
    ensures
        a == b || text_lt(a, b) || text_lt(b, a),
        !(text_lt(a, b) && text_lt(b, a)),
    decreases a.len(),
{
    if a.len() > 0 && b.len() > 0 {
        if a[0] == b[0] {
            lemma_text_lt_total(a.skip(1), b.skip(1));
            if a.skip(1) == b.skip(1) {
                assert forall|i: int| 0 <= i < a.len() implies a[i] == b[i] by {
                    if i > 0 {
                        assert(a.skip(1)[i - 1] == a[i]);
                        assert(b.skip(1)[i - 1] == b[i]);
                    }
                }
                assert(a.len() == a.skip(1).len() + 1);
                assert(b.len() == b.skip(1).len() + 1);
                assert(a =~= b);
            }
        } else {
            assert(a[0] as int != b[0] as int);
        }
    } else {
        assert(a.len() == 0 && b.len() == 0 ==> a =~= b);
    }
}

/// `text_le` is transitive.
pub proof fn lemma_text_le_transitive(a: Seq<char>, b: Seq<char>, c: Seq<char>)
    requires
        text_le(a, b),
        text_le(b, c),
    ensures
        text_le(a, c),
{
    lemma_text_lt_total(a, b);
    lemma_text_lt_total(b, c);
    lemma_text_lt_total(a, c);
    lemma_text_lt_irreflexive(a);
    if text_lt(c, a) {
        if a == b {
        } else {
            lemma_text_lt_transitive(c, a, b);
        }
    }
}

/// Whether `a` stands before `b` in lexicographic order.
pub fn text_before(a: &str, b: &str) -> (r: bool)
    ensures
        r == text_lt(a@, b@),
{
    let v = chars_of(a);
    let w = chars_of(b);
    let mut i: usize = 0;
    assert(v@.skip(0) =~= v@);
    assert(w@.skip(0) =~= w@);
    while i < v.len() && i < w.len()
        invariant
            i <= v@.len(),
            i <= w@.len(),
            v@ == a@,
            w@ == b@,
            text_lt(v@.skip(i as int), w@.skip(i as int)) == text_lt(a@, b@),
        decreases v@.len() - i,
    {
        let x: char = v[i];
        let y: char = w[i];
        if x != y {
            return x < y;
        }
        proof {
            lemma_skip_skip(v@, i as int);
            lemma_skip_skip(w@, i as int);
        }
        i += 1;
    }
    i == v.len() && i < w.len()
}

// Assignments in configurations.

/// Whether a line of a text gives a value to a key: `key = value`.
pub open spec fn assigns(t: Seq<char>, key: Seq<char>, value: Seq<char>) -> bool {
    exists|p: Seq<char>| #[trigger] assigns_behind(t, p, key, value)
}

/// Whether the line behind some others gives a value to a key.
pub open spec fn assigns_behind(
    t: Seq<char>,
    p: Seq<char>,
    key: Seq<char>,
    value: Seq<char>,
) -> bool {
    let q = p + key + " = "@ + value;
    &&& p.len() == 0 || p.last() == '\n'
    &&& starts(t, q)
    &&& t.len() > q.len() ==> t[q.len() as int] == '\n'
}

/// What begins a text begins what the text begins.
pub proof fn lemma_starts_sum(x: Seq<char>, y: Seq<char>, p: Seq<char>)
    requires
        starts(x, p),
    ensures
        starts(x + y, p),
{
    assert((x + y).take(p.len() as int) =~= x.take(p.len() as int));
}

/// A text that ends with a line goes on with a new line.
pub proof fn lemma_assigned(
    before: Seq<char>,
    head: Seq<char>,
    p: Seq<char>,
    key: Seq<char>,
    value: Seq<char>,
    rest: Seq<char>,
)
    requires
        head == p + key + " = "@,
        p.len() > 0,
        p.last() == '\n',
        rest.len() > 0 ==> rest[0] == '\n',
    ensures
        assigns(before + head + value + rest, key, value),
{
    let t = before + head + value + rest;
    let q = before + p;
    assert(q + key + " = "@ + value =~= before + head + value);
    assert(t.take((before + head + value).len() as int) =~= before + head + value);
    assert(assigns_behind(t, q, key, value));
}

/// A line that a text has, it has whatever follows on a new line.
pub proof fn lemma_assigns_sum(x: Seq<char>, y: Seq<char>, key: Seq<char>, value: Seq<char>)
    requires
        assigns(x, key, value),
        y.len() > 0 ==> y[0] == '\n',
    ensures
        assigns(x + y, key, value),
{
    let p = choose|p: Seq<char>| #[trigger] assigns_behind(x, p, key, value);
    lemma_starts_sum(x, y, p + key + " = "@ + value);
    assert(assigns_behind(x + y, p, key, value));
}

proof fn lemma_trimmed_start(s: Seq<char>) -> (i: int)
    ensures
        0 <= i <= s.len(),
        trimmed_start(s) == s.skip(i),
        forall|k: int| 0 <= k < i ==> is_space(#[trigger] s[k]),
        i < s.len() ==> !is_space(s[i]),
    decreases s.len(),
{
    if s.len() > 0 && is_space(s[0]) {
        let j = lemma_trimmed_start(s.skip(1));
        assert(s.skip(1).skip(j) =~= s.skip(1 + j));
        assert forall|k: int| 0 <= k < 1 + j implies is_space(#[trigger] s[k]) by {
            if k > 0 {
                assert(s.skip(1)[k - 1] == s[k]);
            }
        }
        if 1 + j < s.len() {
            assert(s.skip(1)[j] == s[1 + j]);
        }
        1 + j
    } else {
        assert(s.skip(0) =~= s);
        0
    }
}

proof fn lemma_trimmed_end(s: Seq<char>) -> (j: int)
    ensures
        0 <= j <= s.len(),
        trimmed_end(s) == s.take(j),
        forall|k: int| j <= k < s.len() ==> is_space(#[trigger] s[k]),
        j > 0 ==> !is_space(s[j - 1]),
    decreases s.len(),
{
    if s.len() > 0 && is_space(s.last()) {
        let j = lemma_trimmed_end(s.drop_last());
        assert(s.drop_last().take(j) =~= s.take(j));
        assert forall|k: int| j <= k < s.len() implies is_space(#[trigger] s[k]) by {
            if k < s.len() - 1 {
                assert(s.drop_last()[k] == s[k]);
            }
        }
        j
    } else {
        assert(s.take(s.len() as int) =~= s);
        s.len() as int
    }
}

/// Trimming takes away white space alone, and leaves none at either end.
pub proof fn law_trimming_takes_the_white_space_at_the_ends(s: &str, r: String)
    requires
        call_ensures(trim, (s,), r),
    ensures
        exists|a: Seq<char>, b: Seq<char>|
            s@ == #[trigger] (a + r@ + b) && (forall|k: int|
                0 <= k < a.len() ==> is_space(#[trigger] a[k])) && (forall|k: int|
                0 <= k < b.len() ==> is_space(#[trigger] b[k])),
        r@.len() > 0 ==> !is_space(r@[0]) && !is_space(r@.last()),
{
    let i = lemma_trimmed_start(s@);
    let t = s@.skip(i);
    let j = lemma_trimmed_end(t);
    let a = s@.take(i);
    let b = t.skip(j);
    assert forall|k: int| 0 <= k < b.len() implies is_space(#[trigger] b[k]) by {
        assert(b[k] == t[j + k]);
    }
    assert(s@ =~= a + r@ + b);
}

/// A text is blank where it holds nothing but white space.
pub proof fn law_blank_texts_hold_white_space_alone(s: &str, r: bool)
    requires
        call_ensures(blank, (s,), r),
    ensures
        r <==> forall|k: int| 0 <= k < s@.len() ==> is_space(#[trigger] s@[k]),
{
    let i = lemma_trimmed_start(s@);
    let t = s@.skip(i);
    let j = lemma_trimmed_end(t);
    if i < s@.len() {
        assert(t[0] == s@[i]);
        assert(j > 0);
    }
}

/// Of the characters of ASCII, the blank and the five control characters from
/// the tabulator to the carriage return are white space.
pub proof fn law_blanks_and_line_ends_are_white_space(c: char, r: bool)
    requires
        call_ensures(is_white, (c,), r),
        (c as u32) < 128,
    ensures
        r <==> c == ' ' || ('\t' <= c && c <= '\r'),
{
}

/// A text splits at the first place of the character: what stands before it
/// holds the character nowhere, and the two parts with it between make the text.
pub proof fn law_texts_split_at_the_first_place(s: &str, c: char, r: Option<(String, String)>)
    requires
        call_ensures(split_once, (s, c), r),
    ensures
        r is None <==> !s@.contains(c),
        r matches Some((a, b)) ==> a@ + seq![c] + b@ == s@ && !a@.contains(c),
{
    lemma_first_index(s@, c);
    if let Some((a, b)) = r {
        let i = first_index(s@, c);
        assert(a@ + seq![c] + b@ =~= s@);
        if a@.contains(c) {
            let k = choose|k: int| 0 <= k < a@.len() && a@[k] == c;
            assert(s@[k] == c);
        }
    }
}

/// A text begins with another where something makes the text after it.
pub proof fn law_prefixes_begin_the_text(s: &str, p: &str, begins: bool, rest: Option<String>)
    requires
        call_ensures(starts_with, (s, p), begins),
        call_ensures(strip_prefix, (s, p), rest),
    ensures
        begins <==> exists|t: Seq<char>| s@ == #[trigger] (p@ + t),
        rest is Some <==> begins,
        rest matches Some(t) ==> p@ + t@ == s@,
{
    if begins {
        assert(s@ =~= p@ + s@.skip(p@.len() as int));
    }
    if exists|t: Seq<char>| s@ == #[trigger] (p@ + t) {
        let t = choose|t: Seq<char>| s@ == #[trigger] (p@ + t);
        assert(s@.take(p@.len() as int) =~= p@);
    }
}

/// A text ends with another where something makes the text before it.
pub proof fn law_suffixes_end_the_text(s: &str, p: &str, rest: Option<String>)
    requires
        call_ensures(strip_suffix, (s, p), rest),
    ensures
        rest is Some <==> exists|t: Seq<char>| s@ == #[trigger] (t + p@),
        rest matches Some(t) ==> t@ + p@ == s@,
{
    if rest is Some {
        assert(s@ =~= s@.take(s@.len() - p@.len()) + p@);
    }
    if exists|t: Seq<char>| s@ == #[trigger] (t + p@) {
        let t = choose|t: Seq<char>| s@ == #[trigger] (t + p@);
        assert(s@.skip(s@.len() - p@.len()) =~= p@);
    }
}

/// A text holds another where something before it and something after it make
/// the text.
pub proof fn law_texts_hold_what_they_are_made_of(s: &str, p: &str, r: bool)
    requires
        call_ensures(contains_text, (s, p), r),
    ensures
        r <==> exists|a: Seq<char>, b: Seq<char>| s@ == #[trigger] (a + p@ + b),
{
    if r {
        let i = choose|i: int| #[trigger] occurs_at(s@, p@, i);
        assert(s@ =~= s@.take(i) + p@ + s@.skip(i + p@.len()));
    }
    if exists|a: Seq<char>, b: Seq<char>| s@ == #[trigger] (a + p@ + b) {
        let (a, b) = choose|a: Seq<char>, b: Seq<char>| s@ == #[trigger] (a + p@ + b);
        assert(s@.subrange(a.len() as int, (a.len() + p@.len()) as int) =~= p@);
        assert(occurs_at(s@, p@, a.len() as int));
    }
}

/// What stands after the last place of a character holds the character nowhere.
pub proof fn law_the_last_place_is_the_last(v: &[char], c: char, r: Option<usize>)
    requires
        call_ensures(tail_after_last, (v, c), r),
    ensures
        r is None <==> !v@.contains(c),
        r matches Some(i) ==> 0 < i <= v@.len() && v@[i - 1] == c && !v@.skip(i as int).contains(c),
{
    if v@.contains(c) {
        let w = lemma_last_place(v@, c);
        lemma_after_last(v@, c, w);
        if let Some(i) = r {
            assert(v@.skip(i as int).len() == v@.skip(w + 1).len());
            let t = v@.skip(w + 1);
            if t.contains(c) {
                let k = choose|k: int| 0 <= k < t.len() && t[k] == c;
                assert(v@[w + 1 + k] == c);
            }
        }
    } else {
        assert forall|j: int| 0 <= j < v@.len() implies v@[j] != c by {
            assert(v@.contains(v@[j]));
        }
        lemma_after_last_none(v@, c);
    }
}

proof fn lemma_last_place(s: Seq<char>, c: char) -> (w: int)
    requires
        s.contains(c),
    ensures
        0 <= w < s.len(),
        s[w] == c,
        forall|j: int| w < j < s.len() ==> s[j] != c,
    decreases s.len(),
{
    if s.last() == c {
        s.len() - 1
    } else {
        let k = choose|k: int| 0 <= k < s.len() && s[k] == c;
        assert(s.drop_last()[k] == c);
        let w = lemma_last_place(s.drop_last(), c);
        assert forall|j: int| w < j < s.len() implies s[j] != c by {
            if j < s.len() - 1 {
                assert(s.drop_last()[j] == s[j]);
            }
        }
        w
    }
}

/// The first character in which two texts differ decides their order, and a
/// text stands before every longer one that begins with it.
pub proof fn law_the_first_difference_orders_texts(
    a: &str,
    b: &str,
    before: bool,
    p: Seq<char>,
    x: Seq<char>,
    y: Seq<char>,
)
    requires
        call_ensures(text_before, (a, b), before),
        a@ == p + x,
        b@ == p + y,
    ensures
        x.len() > 0 && y.len() > 0 && x[0] != y[0] ==> before == ((x[0] as int) < (y[0] as int)),
        x.len() == 0 ==> before == (y.len() > 0),
{
    lemma_common_beginning(p, x, y);
}

proof fn lemma_common_beginning(p: Seq<char>, x: Seq<char>, y: Seq<char>)
    ensures
        text_lt(p + x, p + y) == text_lt(x, y),
    decreases p.len(),
{
    if p.len() == 0 {
        assert(p + x =~= x);
        assert(p + y =~= y);
    } else {
        lemma_common_beginning(p.skip(1), x, y);
        assert((p + x).skip(1) =~= p.skip(1) + x);
        assert((p + y).skip(1) =~= p.skip(1) + y);
    }
}

/// A written number reads as itself, where it is no larger than what is asked
/// for, and as nothing where it is larger.
pub proof fn law_written_numbers_read_as_themselves(
    n: u64,
    max: u64,
    t: &str,
    w: String,
    r: Option<u64>,
)
    requires
        call_ensures(decimal, (n,), w),
        t@ == w@,
        call_ensures(parse_decimal, (t, max), r),
    ensures
        r == if n <= max {
            Some(n)
        } else {
            None
        },
        w@.len() > 1 ==> w@[0] != '0',
{
    lemma_dec_value(n as nat);
    assert('0' <= dec(n as nat)[0]);
    assert(without_plus(w@) == w@);
    lemma_dec_leads(n as nat);
}

proof fn lemma_dec_leads(n: nat)
    ensures
        n > 0 ==> dec(n)[0] != '0',
        dec(n).len() > 0,
        dec(n).len() > 1 ==> n >= 10,
    decreases n,
{
    if n >= 10 {
        lemma_dec_leads(n / 10);
    }
}

/// A further digit makes ten times the number and the digit.
pub proof fn law_digits_count_ten_times(
    s: Seq<char>,
    d: nat,
    v: &[char],
    w: &[char],
    n: Option<u64>,
    m: Option<u64>,
    max: u64,
)
    requires
        d < 10,
        v@ == s,
        w@ == s.push((48 + d) as char),
        call_ensures(parse_unsigned, (v, 10, max), n),
        call_ensures(parse_unsigned, (w, 10, max), m),
        n is Some,
    ensures
        m == if n->0 * 10 + d <= max {
            Some((n->0 * 10 + d) as u64)
        } else {
            None
        },
{
    let c = (48 + d) as char;
    let t = without_plus(s);
    let u = without_plus(w@);
    assert(w@[0] == s[0]);
    assert(u =~= t.push(c));
    assert(u.drop_last() =~= t);
    assert(digit_of(c, 10) == Some(d));
    assert forall|i: int| 0 <= i < u.len() implies (#[trigger] digit_of(u[i], 10)) is Some by {
        if i < t.len() {
            assert(u[i] == t[i]);
        }
    }
}

} // verus!
