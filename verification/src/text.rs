//! Text operations over the characters of a string.
//!
//! Every operation is stated over `Seq<char>`, the view of `str` and `String`.
//! Case folding is the one thing that is not worked out here: it is the standard
//! library's `to_lowercase`, known through [`lowercase`].

use vstd::prelude::*;

verus! {

// ---------------------------------------------------------------------------
// Models
// ---------------------------------------------------------------------------

/// Unicode's `White_Space` property.
pub open spec fn white_space(c: char) -> bool {
    let n = c as int;
    ||| 0x09 <= n <= 0x0D
    ||| n == 0x20
    ||| n == 0x85
    ||| n == 0xA0
    ||| n == 0x1680
    ||| 0x2000 <= n <= 0x200A
    ||| n == 0x2028
    ||| n == 0x2029
    ||| n == 0x202F
    ||| n == 0x205F
    ||| n == 0x3000
}

/// `s` without its leading white space.
pub open spec fn trimmed_start(s: Seq<char>) -> Seq<char>
    decreases s.len(),
{
    if s.len() > 0 && white_space(s[0]) {
        trimmed_start(s.drop_first())
    } else {
        s
    }
}

/// `s` without its trailing white space.
pub open spec fn trimmed_end(s: Seq<char>) -> Seq<char>
    decreases s.len(),
{
    if s.len() > 0 && white_space(s.last()) {
        trimmed_end(s.drop_last())
    } else {
        s
    }
}

/// `s` without white space at either end.
pub open spec fn trimmed(s: Seq<char>) -> Seq<char> {
    trimmed_end(trimmed_start(s))
}

/// `c` with an ASCII capital turned into its small letter.
pub open spec fn ascii_lower_char(c: char) -> char {
    if 'A' <= c && c <= 'Z' {
        ((c as u32) + 32) as char
    } else {
        c
    }
}

/// `s` with every ASCII capital turned into its small letter.
pub open spec fn ascii_lower(s: Seq<char>) -> Seq<char> {
    s.map_values(|c: char| ascii_lower_char(c))
}

/// Whether all characters of `s` are ASCII.
pub open spec fn all_ascii(s: Seq<char>) -> bool {
    forall|i: int| 0 <= i < s.len() ==> (#[trigger] s[i] as int) < 128
}

/// Whether `a` and `b` differ at most in the case of ASCII letters.
pub open spec fn same_ignoring_ascii_case(a: Seq<char>, b: Seq<char>) -> bool {
    ascii_lower(a) == ascii_lower(b)
}

/// Whether `needle` stands in `hay` at position `at`.
pub open spec fn occurs_at(hay: Seq<char>, needle: Seq<char>, at: int) -> bool {
    &&& 0 <= at
    &&& at + needle.len() <= hay.len()
    &&& hay.subrange(at, at + needle.len()) == needle
}

/// Whether `needle` is a substring of `hay`.
pub open spec fn has_substring(hay: Seq<char>, needle: Seq<char>) -> bool {
    exists|at: int| #[trigger] occurs_at(hay, needle, at)
}

/// The decimal digit `d`, for `d` below ten.
pub open spec fn digit_char(d: nat) -> char {
    (48 + d) as char
}

/// `n` in decimal, without leading zeros; zero is `0`.
pub open spec fn decimal(n: nat) -> Seq<char>
    decreases n,
{
    if n < 10 {
        seq![digit_char(n)]
    } else {
        decimal(n / 10).push(digit_char(n % 10))
    }
}

/// `n` in decimal, with a minus sign when it is negative.
pub open spec fn decimal_signed(n: int) -> Seq<char> {
    if n < 0 {
        seq!['-'] + decimal((-n) as nat)
    } else {
        decimal(n as nat)
    }
}

/// The hexadecimal digit `d`, for `d` below sixteen.
pub open spec fn hex_digit(d: nat) -> char {
    if d < 10 {
        (48 + d) as char
    } else {
        (55 + d) as char
    }
}

/// `n` in hexadecimal, without leading zeros; zero is `0`.
pub open spec fn hex(n: nat) -> Seq<char>
    decreases n,
{
    if n < 16 {
        seq![hex_digit(n)]
    } else {
        hex(n / 16).push(hex_digit(n % 16))
    }
}

/// The last `width` hexadecimal digits of `n`.
pub open spec fn hex_width(n: nat, width: nat) -> Seq<char>
    decreases width,
{
    if width == 0 {
        Seq::empty()
    } else {
        hex_width(n / 16, (width - 1) as nat).push(hex_digit(n % 16))
    }
}

/// `true` or `false`.
pub open spec fn bool_text(b: bool) -> Seq<char> {
    if b {
        "true"@
    } else {
        "false"@
    }
}

/// Whether `c` is one of the ten ASCII digits.
pub open spec fn is_digit(c: char) -> bool {
    '0' <= c && c <= '9'
}

/// Whether all characters of `s` are ASCII digits.
pub open spec fn all_digits(s: Seq<char>) -> bool {
    forall|i: int| 0 <= i < s.len() ==> is_digit(#[trigger] s[i])
}

/// The number that the digits `s` denote.
pub open spec fn digits_value(s: Seq<char>) -> nat
    decreases s.len(),
{
    if s.len() == 0 {
        0
    } else {
        digits_value(s.drop_last()) * 10 + ((s.last() as int - 48) as nat)
    }
}

/// What the standard library's `str::to_lowercase` makes of the text `s`.
pub uninterp spec fn lowercase(s: Seq<char>) -> Seq<char>;

// ---------------------------------------------------------------------------
// Standard library calls
// ---------------------------------------------------------------------------

/// `str::to_lowercase`: the text in lower case by Unicode's rules, a function of
/// the text alone. Of an ASCII text it changes the capitals `A` to `Z` and
/// nothing else. How other characters are mapped is left to the standard library.
#[verifier::external_body]
pub(crate) fn to_lowercase(s: &str) -> (r: String)
    ensures
        r@ == lowercase(s@),
        all_ascii(s@) ==> r@ == ascii_lower(s@),
{
    s.to_lowercase()
}

/// `String::push`: appends one character.
pub assume_specification[ String::push ](s: &mut String, c: char)
    ensures
        final(s)@ == old(s)@.push(c),
;

// ---------------------------------------------------------------------------
// Conversions
// ---------------------------------------------------------------------------

/// The characters of `s`, in order.
pub fn chars_of(s: &str) -> (v: Vec<char>)
    ensures
        v@ == s@,
{
    let mut v: Vec<char> = Vec::new();
    for c in it: s.chars()
        invariant
            it.seq() == s@,
            v@ == s@.take(it.index() as int),
    {
        v.push(c);
    }
    v
}

/// The characters `from..to` of `v` as a string.
pub fn string_of(v: &Vec<char>, from: usize, to: usize) -> (r: String)
    requires
        from <= to <= v@.len(),
    ensures
        r@ == v@.subrange(from as int, to as int),
{
    let mut r = String::new();
    let mut i: usize = from;
    while i < to
        invariant
            from <= i <= to <= v@.len(),
            r@ == v@.subrange(from as int, i as int),
        decreases to - i,
    {
        r.push(v[i]);
        i = i + 1;
        assert(v@.subrange(from as int, i as int) =~= v@.subrange(from as int, i - 1).push(
            v@[i - 1],
        ));
    }
    r
}

/// Whether two texts are the same.
pub fn same_text(a: &str, b: &str) -> (r: bool)
    ensures
        r == (a@ == b@),
{
    a.to_owned() == b.to_owned()
}

/// Whether `c` is white space.
pub fn is_white_space(c: char) -> (r: bool)
    ensures
        r == white_space(c),
{
    match c as u32 {
        0x09..=0x0D
        | 0x20
        | 0x85
        | 0xA0
        | 0x1680
        | 0x2000..=0x200A
        | 0x2028
        | 0x2029
        | 0x202F
        | 0x205F
        | 0x3000 => true,
        _ => false,
    }
}

/// `s` without white space at either end.
pub fn trim(s: &str) -> (r: String)
    ensures
        r@ == trimmed(s@),
{
    let v = chars_of(s);
    let mut from: usize = 0;
    assert(v@.subrange(0, v@.len() as int) =~= v@);
    while from < v.len() && is_white_space(v[from])
        invariant
            v@ == s@,
            from <= v@.len(),
            trimmed_start(s@) == trimmed_start(v@.subrange(from as int, v@.len() as int)),
        decreases v@.len() - from,
    {
        proof {
            let rest = v@.subrange(from as int, v@.len() as int);
            assert(rest.drop_first() =~= v@.subrange(from + 1, v@.len() as int));
        }
        from = from + 1;
    }
    let mut to: usize = v.len();
    while from < to && is_white_space(v[to - 1])
        invariant
            v@ == s@,
            from <= to <= v@.len(),
            trimmed(s@) == trimmed_end(v@.subrange(from as int, to as int)),
        decreases to,
    {
        proof {
            let rest = v@.subrange(from as int, to as int);
            assert(rest.drop_last() =~= v@.subrange(from as int, to - 1));
        }
        to = to - 1;
    }
    string_of(&v, from, to)
}

/// `c` with an ASCII capital turned into its small letter.
pub fn to_ascii_lower_char(c: char) -> (r: char)
    ensures
        r == ascii_lower_char(c),
{
    if c >= 'A' && c <= 'Z' {
        (c as u8 + 32) as char
    } else {
        c
    }
}

/// Whether `a` and `b` differ at most in the case of ASCII letters.
pub fn eq_ignore_ascii_case(a: &str, b: &str) -> (r: bool)
    ensures
        r == same_ignoring_ascii_case(a@, b@),
{
    let x = chars_of(a);
    let y = chars_of(b);
    if x.len() != y.len() {
        assert(ascii_lower(a@).len() != ascii_lower(b@).len());
        return false;
    }
    let mut i: usize = 0;
    while i < x.len()
        invariant
            x@ == a@,
            y@ == b@,
            x@.len() == y@.len(),
            i <= x@.len(),
            forall|k: int|
                0 <= k < i ==> ascii_lower_char(#[trigger] x@[k]) == ascii_lower_char(y@[k]),
        decreases x@.len() - i,
    {
        if to_ascii_lower_char(x[i]) != to_ascii_lower_char(y[i]) {
            assert(ascii_lower(a@)[i as int] != ascii_lower(b@)[i as int]);
            return false;
        }
        i = i + 1;
    }
    assert(ascii_lower(a@) =~= ascii_lower(b@));
    true
}

/// Whether `needle` stands in `hay` at position `at`.
fn occurs_here(hay: &Vec<char>, needle: &Vec<char>, at: usize) -> (r: bool)
    requires
        at + needle@.len() <= hay@.len(),
    ensures
        r == occurs_at(hay@, needle@, at as int),
{
    let end: usize = hay.len();
    let mut k: usize = 0;
    while k < needle.len()
        invariant
            at + needle@.len() <= hay@.len(),
            end == hay@.len(),
            k <= needle@.len(),
            forall|j: int| 0 <= j < k ==> hay@[at + j] == #[trigger] needle@[j],
        decreases needle@.len() - k,
    {
        if hay[at + k] != needle[k] {
            assert(hay@.subrange(at as int, at + needle@.len())[k as int] != needle@[k as int]);
            return false;
        }
        k = k + 1;
    }
    assert(hay@.subrange(at as int, at + needle@.len()) =~= needle@);
    true
}

/// Whether `needle` is a substring of `hay`.
pub fn contains(hay: &str, needle: &str) -> (r: bool)
    ensures
        r == has_substring(hay@, needle@),
{
    let h = chars_of(hay);
    let n = chars_of(needle);
    if n.len() > h.len() {
        assert forall|at: int| !#[trigger] occurs_at(hay@, needle@, at) by {}
        return false;
    }
    let last: usize = h.len() - n.len();
    let mut at: usize = 0;
    loop
        invariant
            h@ == hay@,
            n@ == needle@,
            at <= last,
            last + n@.len() == h@.len(),
            forall|k: int| 0 <= k < at ==> !#[trigger] occurs_at(hay@, needle@, k),
        decreases last - at,
    {
        if occurs_here(&h, &n, at) {
            return true;
        }
        if at == last {
            assert forall|k: int| !#[trigger] occurs_at(hay@, needle@, k) by {
                if k == at as int {
                }
            }
            return false;
        }
        at = at + 1;
    }
}

// ---------------------------------------------------------------------------
// Numbers
// ---------------------------------------------------------------------------

/// The decimal digit `d`.
fn digit(d: u8) -> (r: char)
    requires
        d < 10,
    ensures
        r == digit_char(d as nat),
{
    (48 + d) as char
}

/// `n` in decimal.
pub fn decimal_of(n: u128) -> (r: String)
    ensures
        r@ == decimal(n as nat),
    decreases n,
{
    if n < 10 {
        let mut r = String::new();
        r.push(digit(n as u8));
        assert(r@ =~= seq![digit_char(n as nat)]);
        r
    } else {
        let mut r = decimal_of(n / 10);
        r.push(digit((n % 10) as u8));
        r
    }
}

/// `n` in decimal, with a minus sign when it is negative.
pub fn decimal_of_signed(n: i64) -> (r: String)
    ensures
        r@ == decimal_signed(n as int),
{
    if n < 0 {
        let mut r = String::new();
        r.push('-');
        r.append(decimal_of((-(n as i128)) as u128).as_str());
        assert(r@ =~= seq!['-'] + decimal((-(n as int)) as nat));
        r
    } else {
        decimal_of(n as u128)
    }
}

/// The hexadecimal digit `d`.
fn hex_char(d: u8) -> (r: char)
    requires
        d < 16,
    ensures
        r == hex_digit(d as nat),
{
    if d < 10 {
        (48 + d) as char
    } else {
        (55 + d) as char
    }
}

/// `n` in hexadecimal.
pub fn hex_of(n: u64) -> (r: String)
    ensures
        r@ == hex(n as nat),
    decreases n,
{
    if n < 16 {
        let mut r = String::new();
        r.push(hex_char(n as u8));
        assert(r@ =~= seq![hex_digit(n as nat)]);
        r
    } else {
        let mut r = hex_of(n / 16);
        r.push(hex_char((n % 16) as u8));
        r
    }
}

/// The last `width` hexadecimal digits of `n`.
pub fn hex_of_width(n: u32, width: u32) -> (r: String)
    ensures
        r@ == hex_width(n as nat, width as nat),
    decreases width,
{
    if width == 0 {
        String::new()
    } else {
        let mut r = hex_of_width(n / 16, width - 1);
        r.push(hex_char((n % 16) as u8));
        r
    }
}

/// `true` or `false`.
pub fn text_of_bool(b: bool) -> (r: &'static str)
    ensures
        r@ == bool_text(b),
{
    if b {
        "true"
    } else {
        "false"
    }
}

/// `n` in decimal, with leading zeros up to `width` digits.
pub open spec fn decimal_padded(n: nat, width: nat) -> Seq<char> {
    let digits = decimal(n);
    if digits.len() < width {
        Seq::new((width - digits.len()) as nat, |i: int| '0') + digits
    } else {
        digits
    }
}

/// `n` in decimal, with leading zeros up to `width` digits.
pub fn decimal_of_padded(n: u64, width: usize) -> (r: String)
    ensures
        r@ == decimal_padded(n as nat, width as nat),
{
    let digits = decimal_of(n as u128);
    let count: usize = digits.as_str().unicode_len();
    if count >= width {
        return digits;
    }
    let zeros: usize = width - count;
    let mut r = String::new();
    let mut i: usize = 0;
    while i < zeros
        invariant
            i <= zeros,
            r@ == Seq::new(i as nat, |k: int| '0'),
        decreases zeros - i,
    {
        r.push('0');
        i = i + 1;
        assert(r@ =~= Seq::new(i as nat, |k: int| '0'));
    }
    r.append(digits.as_str());
    r
}

/// The value of `v` read as decimal digits, where it is one or more ASCII digits
/// and nothing else and fits into 16 bits.
pub fn parse_digits_u16(s: &str) -> (r: Option<u16>)
    ensures
        r == (if s@.len() > 0 && all_digits(s@) && digits_value(s@) <= u16::MAX {
            Some(digits_value(s@) as u16)
        } else {
            None
        }),
{
    let v = chars_of(s);
    if v.len() == 0 {
        return None;
    }
    let mut value: u32 = 0;
    let mut i: usize = 0;
    while i < v.len()
        invariant
            v@ == s@,
            v@.len() > 0,
            i <= v@.len(),
            all_digits(s@.take(i as int)),
            digits_value(s@.take(i as int)) == value,
            value <= u16::MAX,
        decreases v@.len() - i,
    {
        let c = v[i];
        if !(c >= '0' && c <= '9') {
            assert(!is_digit(s@[i as int]));
            return None;
        }
        value = value * 10 + (c as u32 - 48);
        i = i + 1;
        proof {
            assert(s@.take(i as int).drop_last() =~= s@.take(i - 1));
            assert forall|k: int| 0 <= k < i implies is_digit(#[trigger] s@.take(i as int)[k]) by {
                if k < i - 1 {
                    assert(s@.take(i - 1)[k] == s@[k]);
                }
            }
        }
        if value > u16::MAX as u32 {
            proof {
                lemma_digits_value_grows(s@, i as int);
            }
            return None;
        }
    }
    proof {
        assert(s@.take(i as int) =~= s@);
    }
    Some(value as u16)
}

/// More digits never make the number smaller.
proof fn lemma_digits_value_grows(s: Seq<char>, n: int)
    requires
        0 <= n <= s.len(),
    ensures
        all_digits(s) ==> digits_value(s.take(n)) <= digits_value(s),
    decreases s.len() - n,
{
    if n == s.len() {
        assert(s.take(n) =~= s);
    } else {
        lemma_digits_value_grows(s, n + 1);
        assert(s.take(n + 1).drop_last() =~= s.take(n));
        if all_digits(s) {
            assert(is_digit(s[n]));
        }
    }
}

/// A number in decimal is digits alone, and reading them gives the number back.
pub proof fn lemma_decimal_digits(n: nat)
    ensures
        decimal(n).len() > 0,
        all_digits(decimal(n)),
        digits_value(decimal(n)) == n,
    decreases n,
{
    let s = decimal(n);
    if n < 10 {
        assert(s.drop_last() =~= Seq::<char>::empty());
        assert(digits_value(s.drop_last()) == 0);
        assert(s.last() == digit_char(n));
    } else {
        lemma_decimal_digits(n / 10);
        assert(s.drop_last() =~= decimal(n / 10));
        assert(s.last() == digit_char(n % 10));
        assert forall|i: int| 0 <= i < s.len() implies is_digit(#[trigger] s[i]) by {
            if i < s.len() - 1 {
                assert(s[i] == decimal(n / 10)[i]);
            }
        }
    }
}

/// A text that starts without white space keeps its start when it is trimmed.
proof fn lemma_trimmed_end_keeps_start(s: Seq<char>)
    ensures
        trimmed_end(s).len() <= s.len(),
        trimmed_end(s).len() > 0 ==> trimmed_end(s)[0] == s[0] && !white_space(
            trimmed_end(s).last(),
        ),
    decreases s.len(),
{
    if s.len() > 0 && white_space(s.last()) {
        lemma_trimmed_end_keeps_start(s.drop_last());
    }
}

/// What is left after leading white space is gone does not start with any.
proof fn lemma_trimmed_start(s: Seq<char>)
    ensures
        trimmed_start(s).len() > 0 ==> !white_space(trimmed_start(s)[0]),
    decreases s.len(),
{
    if s.len() > 0 && white_space(s[0]) {
        lemma_trimmed_start(s.drop_first());
    }
}

/// Trimming a trimmed text changes nothing.
pub proof fn lemma_trimmed_twice(s: Seq<char>)
    ensures
        trimmed(trimmed(s)) == trimmed(s),
{
    lemma_trimmed_start(s);
    lemma_trimmed_end_keeps_start(trimmed_start(s));
}

/// A text without white space at its ends is left alone.
pub proof fn lemma_trimmed_fixed(s: Seq<char>)
    requires
        s.len() > 0,
        !white_space(s[0]),
        !white_space(s.last()),
    ensures
        trimmed(s) == s,
{
}

/// A trimmed text has no white space at its ends.
pub proof fn lemma_trimmed_ends(s: Seq<char>)
    ensures
        trimmed(s).len() > 0 ==> !white_space(trimmed(s)[0]) && !white_space(trimmed(s).last()),
{
    lemma_trimmed_start(s);
    lemma_trimmed_end_keeps_start(trimmed_start(s));
}

/// Trimming leaves digits alone.
pub proof fn lemma_trimmed_digits(s: Seq<char>)
    requires
        all_digits(s),
    ensures
        trimmed(s) == s,
{
    if s.len() > 0 {
        assert(is_digit(s[0]));
        assert(is_digit(s[s.len() - 1]));
    }
}

/// A text is split in one way only at the first place of a character.
pub proof fn lemma_split_unique(
    a: Seq<char>,
    rest_a: Seq<char>,
    b: Seq<char>,
    rest_b: Seq<char>,
    c: char,
)
    requires
        a + seq![c] + rest_a == b + seq![c] + rest_b,
        !a.contains(c),
        !b.contains(c),
    ensures
        a == b,
        rest_a == rest_b,
{
    let all = a + seq![c] + rest_a;
    let other = b + seq![c] + rest_b;
    if a.len() < b.len() {
        assert(all[a.len() as int] == c);
        assert(other[a.len() as int] == b[a.len() as int]);
        assert(b.contains(b[a.len() as int]));
    }
    if b.len() < a.len() {
        assert(other[b.len() as int] == c);
        assert(all[b.len() as int] == a[b.len() as int]);
        assert(a.contains(a[b.len() as int]));
    }
    assert(all.take(a.len() as int) =~= a);
    assert(other.take(b.len() as int) =~= b);
    assert(all.skip(a.len() as int + 1) =~= rest_a);
    assert(other.skip(b.len() as int + 1) =~= rest_b);
}

/// Two numbers with the same decimal text are the same.
pub proof fn lemma_decimal_injective(m: nat, n: nat)
    requires
        decimal(m) == decimal(n),
    ensures
        m == n,
{
    lemma_decimal_digits(m);
    lemma_decimal_digits(n);
}

/// Zeros before a text of digits do not change its value.
proof fn lemma_leading_zeros(zeros: nat, s: Seq<char>)
    ensures
        digits_value(Seq::new(zeros, |i: int| '0') + s) == digits_value(s),
    decreases zeros + s.len(),
{
    let all = Seq::new(zeros, |i: int| '0') + s;
    if s.len() > 0 {
        lemma_leading_zeros(zeros, s.drop_last());
        assert(all.drop_last() =~= Seq::new(zeros, |i: int| '0') + s.drop_last());
        assert(all.last() == s.last());
    } else if zeros > 0 {
        lemma_leading_zeros((zeros - 1) as nat, s);
        assert(all.drop_last() =~= Seq::new((zeros - 1) as nat, |i: int| '0') + s);
        assert(all.last() == '0');
    }
}

/// A number with leading zeros is digits alone, and reading them gives the number back.
pub proof fn lemma_padded_digits(n: nat, width: nat)
    ensures
        all_digits(decimal_padded(n, width)),
        digits_value(decimal_padded(n, width)) == n,
{
    let digits = decimal(n);
    lemma_decimal_digits(n);
    if digits.len() < width {
        let zeros = (width - digits.len()) as nat;
        lemma_leading_zeros(zeros, digits);
        let padded = decimal_padded(n, width);
        assert forall|i: int| 0 <= i < padded.len() implies is_digit(#[trigger] padded[i]) by {
            if i >= zeros {
                assert(padded[i] == digits[i - zeros]);
            }
        }
    }
}

/// A number in decimal holds no character but digits and the minus sign.
pub proof fn lemma_decimal_signed_chars(n: int, c: char)
    requires
        !is_digit(c),
        c != '-',
    ensures
        !decimal_signed(n).contains(c),
{
    let magnitude = (if n < 0 {
        -n
    } else {
        n
    }) as nat;
    lemma_decimal_digits(magnitude);
    if decimal_signed(n).contains(c) {
        let i = choose|i: int| 0 <= i < decimal_signed(n).len() && decimal_signed(n)[i] == c;
        if n < 0 {
            if i > 0 {
                assert(is_digit(decimal(magnitude)[i - 1]));
            }
        } else {
            assert(is_digit(decimal(magnitude)[i]));
        }
    }
}

/// Two numbers with the same signed decimal text are the same.
pub proof fn lemma_decimal_signed_injective(m: int, n: int)
    requires
        decimal_signed(m) == decimal_signed(n),
    ensures
        m == n,
{
    let a = (if m < 0 {
        -m
    } else {
        m
    }) as nat;
    let b = (if n < 0 {
        -n
    } else {
        n
    }) as nat;
    lemma_decimal_digits(a);
    lemma_decimal_digits(b);
    if m < 0 && n < 0 {
        assert(decimal_signed(m).skip(1) =~= decimal(a));
        assert(decimal_signed(n).skip(1) =~= decimal(b));
    } else if m < 0 {
        assert(decimal_signed(m)[0] == '-');
        assert(is_digit(decimal(b)[0]));
    } else if n < 0 {
        assert(decimal_signed(n)[0] == '-');
        assert(is_digit(decimal(a)[0]));
    }
}

/// The same texts once more.
pub fn copy_texts(list: &[String]) -> (r: Vec<String>)
    ensures
        r@ == list@,
{
    let mut r: Vec<String> = Vec::new();
    let mut i: usize = 0;
    while i < list.len()
        invariant
            i <= list@.len(),
            r@ == list@.take(i as int),
        decreases list@.len() - i,
    {
        r.push(list[i].clone());
        i = i + 1;
        assert(r@ =~= list@.take(i as int));
    }
    assert(r@ =~= list@);
    r
}

// ---------------------------------------------------------------------------
// The order of texts
// ---------------------------------------------------------------------------

/// Whether `a` comes before `b` in the order of texts: by the first character in which
/// they differ, the shorter one first where there is none.
pub open spec fn precedes(a: Seq<char>, b: Seq<char>) -> bool
    decreases a.len(),
{
    if b.len() == 0 {
        false
    } else if a.len() == 0 {
        true
    } else if a[0] != b[0] {
        a[0] < b[0]
    } else {
        precedes(a.drop_first(), b.drop_first())
    }
}

/// Of two texts one comes before the other, or they are the same.
pub proof fn lemma_precedes_total(a: Seq<char>, b: Seq<char>)
    ensures
        precedes(a, b) || precedes(b, a) || a == b,
        !(precedes(a, b) && precedes(b, a)),
        precedes(a, b) ==> a != b,
    decreases a.len(),
{
    if a.len() > 0 && b.len() > 0 && a[0] == b[0] {
        lemma_precedes_total(a.drop_first(), b.drop_first());
        if a.drop_first() == b.drop_first() {
            assert(a =~= seq![a[0]] + a.drop_first());
            assert(b =~= seq![b[0]] + b.drop_first());
        }
    } else if a.len() == 0 && b.len() == 0 {
        assert(a =~= b);
    }
}

pub proof fn lemma_precedes_transitive(a: Seq<char>, b: Seq<char>, c: Seq<char>)
    requires
        precedes(a, b),
        precedes(b, c),
    ensures
        precedes(a, c),
    decreases a.len(),
{
    if a.len() > 0 && a[0] == b[0] && b[0] == c[0] {
        lemma_precedes_transitive(a.drop_first(), b.drop_first(), c.drop_first());
    }
}

/// Whether `a` comes before `b` in the order of texts.
pub fn text_precedes(a: &str, b: &str) -> (r: bool)
    ensures
        r == precedes(a@, b@),
{
    let x = chars_of(a);
    let y = chars_of(b);
    let mut i: usize = 0;
    assert(x@.skip(0) =~= x@);
    assert(y@.skip(0) =~= y@);
    while i < x.len() && i < y.len() && x[i] == y[i]
        invariant
            x@ == a@,
            y@ == b@,
            i <= x@.len(),
            i <= y@.len(),
            precedes(a@, b@) == precedes(x@.skip(i as int), y@.skip(i as int)),
        decreases x@.len() - i,
    {
        assert(x@.skip(i as int).drop_first() =~= x@.skip(i + 1));
        assert(y@.skip(i as int).drop_first() =~= y@.skip(i + 1));
        i = i + 1;
    }
    if i == y.len() {
        false
    } else if i == x.len() {
        true
    } else {
        x[i] < y[i]
    }
}

// ---------------------------------------------------------------------------
// Laws
// ---------------------------------------------------------------------------

/// White space is the tab and the four line breaks behind it, the space, the next-line
/// character, the no-break space, and the other spaces and separators of Unicode; nothing
/// else is.
pub proof fn law_white_space_characters(c: char)
    ensures
        white_space(c) <==> seq![
            0x09int,
            0x0A,
            0x0B,
            0x0C,
            0x0D,
            0x20,
            0x85,
            0xA0,
            0x1680,
            0x2000,
            0x2001,
            0x2002,
            0x2003,
            0x2004,
            0x2005,
            0x2006,
            0x2007,
            0x2008,
            0x2009,
            0x200A,
            0x2028,
            0x2029,
            0x202F,
            0x205F,
            0x3000,
        ].contains(c as int),
{
    let codes = seq![
        0x09int,
        0x0A,
        0x0B,
        0x0C,
        0x0D,
        0x20,
        0x85,
        0xA0,
        0x1680,
        0x2000,
        0x2001,
        0x2002,
        0x2003,
        0x2004,
        0x2005,
        0x2006,
        0x2007,
        0x2008,
        0x2009,
        0x200A,
        0x2028,
        0x2029,
        0x202F,
        0x205F,
        0x3000,
    ];
    let n = c as int;
    if 0x09 <= n <= 0x0D {
        assert(codes[n - 0x09] == n);
    } else if 0x2000 <= n <= 0x200A {
        assert(codes[n - 0x2000 + 9] == n);
    } else if white_space(c) {
        assert(codes[5] == 0x20 && codes[6] == 0x85 && codes[7] == 0xA0 && codes[8] == 0x1680);
        assert(codes[20] == 0x2028 && codes[21] == 0x2029 && codes[22] == 0x202F);
        assert(codes[23] == 0x205F && codes[24] == 0x3000);
    }
}

/// Whether a text is white space alone.
pub open spec fn blank(s: Seq<char>) -> bool {
    forall|i: int| 0 <= i < s.len() ==> white_space(#[trigger] s[i])
}

/// Trimming takes away what is white space at either end and keeps what stands between.
pub proof fn law_trimmed_is_the_middle(before: Seq<char>, middle: Seq<char>, after: Seq<char>)
    requires
        blank(before),
        blank(after),
        middle.len() > 0 ==> !white_space(middle[0]) && !white_space(middle.last()),
    ensures
        trimmed(before + middle + after) == middle,
{
    if middle.len() == 0 {
        let s = before + middle + after;
        assert(blank(s));
        lemma_blank_start(s, Seq::empty());
        assert(s + Seq::<char>::empty() =~= s);
        assert(middle =~= Seq::empty());
    } else {
        lemma_blank_start(before, middle + after);
        assert(before + middle + after =~= before + (middle + after));
        lemma_blank_end(middle, after);
    }
}

proof fn lemma_blank_start(before: Seq<char>, rest: Seq<char>)
    requires
        blank(before),
        rest.len() > 0 ==> !white_space(rest[0]),
    ensures
        trimmed_start(before + rest) == rest,
    decreases before.len(),
{
    let s = before + rest;
    if before.len() == 0 {
        assert(s =~= rest);
    } else {
        assert(s[0] == before[0]);
        assert(s.drop_first() =~= before.drop_first() + rest);
        assert forall|i: int| 0 <= i < before.drop_first().len() implies white_space(
            #[trigger] before.drop_first()[i],
        ) by {
            assert(before.drop_first()[i] == before[i + 1]);
        }
        lemma_blank_start(before.drop_first(), rest);
    }
}

proof fn lemma_blank_end(rest: Seq<char>, after: Seq<char>)
    requires
        blank(after),
        rest.len() > 0 ==> !white_space(rest.last()),
    ensures
        trimmed_end(rest + after) == rest,
    decreases after.len(),
{
    let s = rest + after;
    if after.len() == 0 {
        assert(s =~= rest);
    } else {
        assert(s.last() == after.last());
        assert(s.drop_last() =~= rest + after.drop_last());
        lemma_blank_end(rest, after.drop_last());
    }
}

/// Every text is what trimming leaves of it with white space around it.
pub proof fn law_trimmed_splits(s: Seq<char>) -> (ends: (Seq<char>, Seq<char>))
    ensures
        blank(ends.0),
        blank(ends.1),
        s == ends.0 + trimmed(s) + ends.1,
        trimmed(s).len() > 0 ==> !white_space(trimmed(s)[0]) && !white_space(trimmed(s).last()),
{
    let before = lemma_start_splits(s);
    let after = lemma_end_splits(trimmed_start(s));
    lemma_trimmed_ends(s);
    assert(s =~= before + trimmed(s) + after);
    (before, after)
}

proof fn lemma_start_splits(s: Seq<char>) -> (before: Seq<char>)
    ensures
        blank(before),
        s == before + trimmed_start(s),
    decreases s.len(),
{
    if s.len() > 0 && white_space(s[0]) {
        let rest = lemma_start_splits(s.drop_first());
        let before = seq![s[0]] + rest;
        assert(trimmed_start(s) == trimmed_start(s.drop_first()));
        assert(s =~= seq![s[0]] + s.drop_first());
        assert(s =~= before + trimmed_start(s));
        before
    } else {
        assert(s =~= Seq::<char>::empty() + s);
        Seq::empty()
    }
}

proof fn lemma_end_splits(s: Seq<char>) -> (after: Seq<char>)
    ensures
        blank(after),
        s == trimmed_end(s) + after,
    decreases s.len(),
{
    if s.len() > 0 && white_space(s.last()) {
        let rest = lemma_end_splits(s.drop_last());
        let after = rest.push(s.last());
        assert(trimmed_end(s) == trimmed_end(s.drop_last()));
        assert(s =~= s.drop_last().push(s.last()));
        assert(s =~= trimmed_end(s) + after);
        after
    } else {
        assert(s =~= s + Seq::<char>::empty());
        Seq::empty()
    }
}

/// Whether two characters are the same or one is the capital of the other, among `A` to
/// `Z`.
pub open spec fn same_letter(x: char, y: char) -> bool {
    ||| x == y
    ||| 'A' <= x && x <= 'Z' && y as int == x as int + 32
    ||| 'A' <= y && y <= 'Z' && x as int == y as int + 32
}

/// Whether two texts have the same letters, one by one.
pub open spec fn same_letters(a: Seq<char>, b: Seq<char>) -> bool {
    &&& a.len() == b.len()
    &&& forall|i: int| 0 <= i < a.len() ==> same_letter(#[trigger] a[i], #[trigger] b[i])
}

/// Texts are the same but for the case of ASCII letters if and only if they have the same
/// letters at the same places.
pub proof fn law_ascii_case_is_ignored(a: Seq<char>, b: Seq<char>)
    ensures
        same_ignoring_ascii_case(a, b) <==> same_letters(a, b),
{
    if same_ignoring_ascii_case(a, b) {
        assert(ascii_lower(a).len() == ascii_lower(b).len());
        assert forall|i: int| 0 <= i < a.len() implies same_letter(
            #[trigger] a[i],
            #[trigger] b[i],
        ) by {
            assert(ascii_lower(a)[i] == ascii_lower(b)[i]);
        }
    }
    if same_letters(a, b) {
        assert forall|i: int| 0 <= i < a.len() implies ascii_lower(a)[i] == ascii_lower(b)[i] by {
            assert(same_letter(a[i], b[i]));
        }
        assert(ascii_lower(a) =~= ascii_lower(b));
    }
}

/// What stands between two texts is found in the whole, wherever that is.
pub proof fn law_part_is_found(before: Seq<char>, part: Seq<char>, after: Seq<char>)
    ensures
        has_substring(before + part + after, part),
{
    let whole = before + part + after;
    assert(whole.subrange(before.len() as int, (before.len() + part.len()) as int) =~= part);
    assert(occurs_at(whole, part, before.len() as int));
}

/// What is found in a text stands between two parts of it.
pub proof fn law_found_part_is_there(whole: Seq<char>, part: Seq<char>) -> (ends: (
    Seq<char>,
    Seq<char>,
))
    requires
        has_substring(whole, part),
    ensures
        whole == ends.0 + part + ends.1,
{
    let at = choose|at: int| #[trigger] occurs_at(whole, part, at);
    let before = whole.take(at);
    let after = whole.skip(at + part.len());
    assert(whole =~= before + whole.subrange(at, at + part.len()) + after);
    (before, after)
}

/// The first character in which two texts differ decides which comes first; a text comes
/// before every longer one that starts with it.
pub proof fn law_first_difference_decides(
    front: Seq<char>,
    x: char,
    rest_x: Seq<char>,
    y: char,
    rest_y: Seq<char>,
)
    requires
        x != y,
    ensures
        precedes(front + seq![x] + rest_x, front + seq![y] + rest_y) <==> x < y,
        precedes(front, front + seq![x] + rest_x),
        !precedes(front + seq![x] + rest_x, front),
        !precedes(front, front),
    decreases front.len(),
{
    let a = front + seq![x] + rest_x;
    let b = front + seq![y] + rest_y;
    if front.len() == 0 {
        assert(a[0] == x);
        assert(b[0] == y);
    } else {
        let rest = front.drop_first();
        assert(a.drop_first() =~= rest + seq![x] + rest_x);
        assert(b.drop_first() =~= rest + seq![y] + rest_y);
        assert(a[0] == front[0]);
        assert(b[0] == front[0]);
        law_first_difference_decides(rest, x, rest_x, y, rest_y);
    }
}

/// Digits are the decimal form of their number, with zeros before it.
pub proof fn law_digits_are_a_number(s: Seq<char>) -> (zeros: nat)
    requires
        s.len() > 0,
        all_digits(s),
    ensures
        s == Seq::new(zeros, |i: int| '0') + decimal(digits_value(s)),
    decreases s.len(),
{
    let front = s.drop_last();
    let d = (s.last() as int - 48) as nat;
    assert(is_digit(s[s.len() - 1]));
    assert(s.last() == digit_char(d));
    if front.len() == 0 {
        assert(digits_value(front) == 0);
        assert(s =~= Seq::new(0, |i: int| '0') + decimal(d));
        0
    } else {
        assert(all_digits(front));
        let zeros = law_digits_are_a_number(front);
        let v = digits_value(front);
        if v == 0 {
            let more = zeros + 1;
            assert(decimal(0) =~= seq!['0']);
            assert(front =~= Seq::new(more, |i: int| '0'));
            assert(s =~= Seq::new(more, |i: int| '0') + decimal(d));
            more
        } else {
            let n = v * 10 + d;
            assert(n / 10 == v && n % 10 == d);
            assert(decimal(n) == decimal(v).push(digit_char(d)));
            assert(s =~= front.push(s.last()));
            assert(digits_value(s) == n);
            assert(s =~= Seq::new(zeros, |i: int| '0') + decimal(n));
            zeros
        }
    }
}

/// Zeros before a number do not change it.
pub proof fn law_zeros_do_not_count(zeros: nat, n: nat)
    ensures
        all_digits(Seq::new(zeros, |i: int| '0') + decimal(n)),
        digits_value(Seq::new(zeros, |i: int| '0') + decimal(n)) == n,
{
    lemma_decimal_digits(n);
    lemma_leading_zeros(zeros, decimal(n));
    let s = Seq::new(zeros, |i: int| '0') + decimal(n);
    assert forall|i: int| 0 <= i < s.len() implies is_digit(#[trigger] s[i]) by {
        if i >= zeros {
            assert(s[i] == decimal(n)[i - zeros]);
        }
    }
}

/// In the decimal form of a number each digit counts ten times what the next one counts,
/// and there are no zeros before it.
pub proof fn law_decimal_form(n: nat, d: nat)
    requires
        d < 10,
    ensures
        decimal(d) == seq![(('0' as int) + d) as char],
        n > 0 ==> decimal(10 * n + d) == decimal(n) + decimal(d),
{
    assert(decimal(d) =~= seq![(('0' as int) + d) as char]);
    if n > 0 {
        assert((10 * n + d) / 10 == n && (10 * n + d) % 10 == d);
        assert(decimal(10 * n + d) =~= decimal(n) + decimal(d));
    }
}

/// In the hexadecimal form of a number each digit counts sixteen times what the next one
/// counts; the digits behind the nine are capitals, and there are no zeros before it unless
/// a width is asked for.
pub proof fn law_hexadecimal_form(n: nat, d: nat, width: nat)
    requires
        d < 16,
    ensures
        d < 10 ==> hex(d) == seq![(('0' as int) + d) as char],
        d >= 10 ==> hex(d) == seq![(('A' as int) + d - 10) as char],
        n > 0 ==> hex(16 * n + d) == hex(n) + hex(d),
        hex_width(n, width).len() == width,
        hex_width(16 * n + d, width + 1) == hex_width(n, width) + hex(d),
    decreases width,
{
    assert(hex(d) =~= seq![hex_digit(d)]);
    assert((16 * n + d) / 16 == n && (16 * n + d) % 16 == d);
    if n > 0 {
        assert(hex(16 * n + d) =~= hex(n) + hex(d));
    }
    assert(hex_width(16 * n + d, width + 1) =~= hex_width(n, width) + hex(d));
    if width > 0 {
        law_hexadecimal_form(n / 16, d, (width - 1) as nat);
    }
}

/// A number that is filled up to a width has zeros before it, as many as are missing; a
/// longer one is not cut. A negative number is the positive one with a minus before it.
pub proof fn law_filled_and_signed_numbers(n: nat, width: nat)
    ensures
        decimal(n).len() >= width ==> decimal_padded(n, width) == decimal(n),
        decimal(n).len() < width ==> decimal_padded(n, width).len() == width
            && decimal_padded(n, width) == Seq::new(
            (width - decimal(n).len()) as nat,
            |i: int| '0',
        ) + decimal(n),
        decimal_signed(n as int) == decimal(n),
        n > 0 ==> decimal_signed(-(n as int)) == seq!['-'] + decimal(n),
{
}

} // verus!
