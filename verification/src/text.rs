//! Verified text helpers: decimal rendering, little-endian decoding and
//! string building used by the formatting code.
use vstd::prelude::*;

verus! {

/// The character of a decimal digit.
pub open spec fn spec_digit(d: nat) -> char {
    if d == 0 { '0' }
    else if d == 1 { '1' }
    else if d == 2 { '2' }
    else if d == 3 { '3' }
    else if d == 4 { '4' }
    else if d == 5 { '5' }
    else if d == 6 { '6' }
    else if d == 7 { '7' }
    else if d == 8 { '8' }
    else { '9' }
}

/// Decimal representation of a natural number, most significant digit first.
pub open spec fn spec_decimal(n: nat) -> Seq<char>
    decreases n,
{
    if n < 10 {
        seq![spec_digit(n)]
    } else {
        spec_decimal(n / 10).push(spec_digit(n % 10))
    }
}

/// The number that decimal digits denote, most significant first.
pub open spec fn spec_digits_value(digits: Seq<char>) -> int
    decreases digits.len(),
{
    if digits.len() == 0 {
        0
    } else {
        spec_digits_value(digits.drop_last()) * 10 + ((digits.last() as u32) - 48)
    }
}

/// A digit's character is the ASCII digit of that value.
proof fn lemma_digit_code(d: nat)
    requires
        d < 10,
    ensures
        spec_digit(d) as u32 == 48 + d,
{
}

/// Decimal rendering writes a number as ASCII digits that read back as the
/// number, without a leading zero.
pub proof fn lemma_decimal_reads_back(n: nat)
    ensures
        spec_decimal(n).len() > 0,
        forall|i: int| 0 <= i < spec_decimal(n).len() ==> 48 <= (#[trigger] spec_decimal(n)[i] as u32) <= 57,
        spec_digits_value(spec_decimal(n)) == n,
        n >= 10 ==> spec_decimal(n)[0] != '0',
    decreases n,
{
    if n < 10 {
        lemma_digit_code(n);
        assert(spec_decimal(n).drop_last() =~= Seq::<char>::empty());
        assert(spec_digits_value(Seq::<char>::empty()) == 0);
        assert(spec_decimal(n).last() == spec_digit(n));
    } else {
        lemma_decimal_reads_back(n / 10);
        lemma_digit_code(n % 10);
        let head = spec_decimal(n / 10);
        assert(spec_decimal(n).drop_last() =~= head);
        assert(spec_decimal(n).last() == spec_digit(n % 10));
        assert(spec_digits_value(spec_decimal(n)) == spec_digits_value(head) * 10 + (n % 10));
        assert((n / 10) * 10 + n % 10 == n);
        assert(spec_decimal(n)[0] == head[0]);
        assert forall|i: int| 0 <= i < spec_decimal(n).len() implies 48 <= (#[trigger] spec_decimal(n)[i] as u32)
            <= 57 by {
            if i < head.len() {
                assert(spec_decimal(n)[i] == head[i]);
            }
        }
        if n / 10 < 10 {
            lemma_digit_code(n / 10);
        }
    }
}

/// Signed decimal rendering writes `-` exactly before a negative number,
/// followed by the digits of its magnitude.
pub proof fn lemma_signed_decimal_reads_back(i: int)
    ensures
        spec_signed_decimal(i).len() > 0,
        (spec_signed_decimal(i)[0] == '-') <==> i < 0,
        i < 0 ==> spec_digits_value(spec_signed_decimal(i).drop_first()) == -i,
        i >= 0 ==> spec_digits_value(spec_signed_decimal(i)) == i,
{
    if i < 0 {
        lemma_decimal_reads_back((-i) as nat);
        assert(spec_signed_decimal(i).drop_first() =~= spec_decimal((-i) as nat));
    } else {
        lemma_decimal_reads_back(i as nat);
        assert(48 <= (spec_decimal(i as nat)[0] as u32));
    }
}

/// Decimal representation of an integer, with a leading `-` when negative.
pub open spec fn spec_signed_decimal(i: int) -> Seq<char> {
    if i < 0 {
        seq!['-'] + spec_decimal((-i) as nat)
    } else {
        spec_decimal(i as nat)
    }
}

/// Unsigned value of little-endian bytes.
pub open spec fn spec_le_value(bytes: Seq<u8>) -> nat
    decreases bytes.len(),
{
    if bytes.len() == 0 {
        0
    } else {
        bytes[0] as nat + 256 * spec_le_value(bytes.drop_first())
    }
}

/// `String::push`: appends one character at the end of the string.
#[verifier::external_body]
pub fn push_char(s: &mut String, c: char)
    ensures
        final(s)@ == old(s)@.push(c),
{
    s.push(c);
}

fn digit_char(d: u64) -> (c: char)
    requires
        d < 10,
    ensures
        c == spec_digit(d as nat),
{
    match d {
        0 => '0',
        1 => '1',
        2 => '2',
        3 => '3',
        4 => '4',
        5 => '5',
        6 => '6',
        7 => '7',
        8 => '8',
        _ => '9',
    }
}

/// Appends every character of `chars` to `s`.
pub fn push_chars(s: &mut String, chars: &Vec<char>)
    ensures
        final(s)@ == old(s)@ + chars@,
{
    let mut i: usize = 0;
    while i < chars.len()
        invariant
            0 <= i <= chars.len(),
            s@ == old(s)@ + chars@.take(i as int),
        decreases chars.len() - i,
    {
        push_char(s, chars[i]);
        assert(chars@.take(i as int + 1) =~= chars@.take(i as int).push(chars@[i as int]));
        i = i + 1;
    }
    assert(chars@.take(chars.len() as int) =~= chars@);
}

/// Appends the decimal representation of `n` to `s`.
pub fn push_decimal(s: &mut String, n: u64)
    ensures
        final(s)@ == old(s)@ + spec_decimal(n as nat),
{
    let mut m: u64 = n;
    let mut digits: Vec<char> = Vec::new();
    while m >= 10
        invariant
            spec_decimal(n as nat) == spec_decimal(m as nat) + digits@,
        decreases m,
    {
        let d = digit_char(m % 10);
        let ghost before = digits@;
        digits.insert(0, d);
        assert(digits@ =~= seq![d] + before);
        assert(spec_decimal(m as nat) == spec_decimal((m / 10) as nat).push(d));
        assert(spec_decimal((m / 10) as nat).push(d) + before =~= spec_decimal((m / 10) as nat)
            + digits@);
        m = m / 10;
    }
    let d = digit_char(m);
    let ghost before = digits@;
    digits.insert(0, d);
    assert(digits@ =~= seq![d] + before);
    assert(spec_decimal(n as nat) =~= digits@);
    push_chars(s, &digits);
}

} // verus!

verus! {

/// Whether every character of a text is ASCII.
pub open spec fn spec_is_ascii_text(s: Seq<char>) -> bool {
    forall|i: int| 0 <= i < s.len() ==> (#[trigger] s[i] as u32) < 128
}

/// The uppercase of an ASCII character: `a` to `z` become `A` to `Z`, the
/// others stay.
pub open spec fn spec_ascii_upper(c: char) -> char {
    if 97 <= (c as u32) <= 122 {
        ((c as u32) - 32) as char
    } else {
        c
    }
}

/// The lowercase of an ASCII character: `A` to `Z` become `a` to `z`, the
/// others stay.
pub open spec fn spec_ascii_lower(c: char) -> char {
    if 65 <= (c as u32) <= 90 {
        ((c as u32) + 32) as char
    } else {
        c
    }
}

/// Name for what `str::to_uppercase` returns: the Unicode uppercase mapping of
/// a string.
pub uninterp spec fn str_to_uppercase(s: Seq<char>) -> Seq<char>;

/// The uppercase of a text: spelled out for ASCII text, named otherwise.
pub open spec fn spec_uppercase(s: Seq<char>) -> Seq<char> {
    if spec_is_ascii_text(s) {
        s.map_values(|c: char| spec_ascii_upper(c))
    } else {
        str_to_uppercase(s)
    }
}

/// `str::to_uppercase`: the uppercase equivalent of `s` as a new `String`.
/// Unicode's case tables are not written out here: the result is named, as
/// a function of the argument's characters; for ASCII text it is what the
/// tables give there: `a` to `z` become `A` to `Z` and every other
/// character stays.
#[verifier::external_body]
pub(crate) fn to_uppercase(s: &str) -> (upper: String)
    ensures
        upper@ == str_to_uppercase(s@),
        spec_is_ascii_text(s@) ==> upper@ == s@.map_values(|c: char| spec_ascii_upper(c)),
{
    s.to_uppercase()
}

/// Name for what `str::to_lowercase` returns: the Unicode lowercase mapping of
/// a string.
pub uninterp spec fn str_to_lowercase(s: Seq<char>) -> Seq<char>;

/// The lowercase of a text: spelled out for ASCII text, named otherwise.
pub open spec fn spec_lowercase(s: Seq<char>) -> Seq<char> {
    if spec_is_ascii_text(s) {
        s.map_values(|c: char| spec_ascii_lower(c))
    } else {
        str_to_lowercase(s)
    }
}

/// `str::to_lowercase`: the lowercase equivalent of `s` as a new `String`.
/// Unicode's case tables are not written out here: the result is named, as
/// a function of the argument's characters; for ASCII text it is what the
/// tables give there: `A` to `Z` become `a` to `z` and every other
/// character stays.
#[verifier::external_body]
pub(crate) fn to_lowercase(s: &str) -> (lower: String)
    ensures
        lower@ == str_to_lowercase(s@),
        spec_is_ascii_text(s@) ==> lower@ == s@.map_values(|c: char| spec_ascii_lower(c)),
{
    s.to_lowercase()
}

/// The characters of a string slice, in order.
pub fn chars_of(s: &str) -> (chars: Vec<char>)
    ensures
        chars@ == s@,
{
    let n = s.unicode_len();
    let mut chars: Vec<char> = Vec::new();
    let mut i: usize = 0;
    while i < n
        invariant
            n == s@.len(),
            0 <= i <= n,
            chars@ == s@.take(i as int),
        decreases n - i,
    {
        let c = s.get_char(i);
        chars.push(c);
        assert(s@.take(i as int + 1) =~= s@.take(i as int).push(c));
        i = i + 1;
    }
    assert(s@.take(n as int) =~= s@);
    chars
}

/// Builds a `String` from a literal string slice.
pub fn string_of(s: &str) -> (r: String)
    ensures
        r@ == s@,
{
    s.to_owned()
}

/// Powers of 256.
pub open spec fn spec_pow256(n: nat) -> nat
    decreases n,
{
    if n == 0 { 1 } else { 256 * spec_pow256((n - 1) as nat) }
}

/// The value of little-endian bytes is below `256^len`.
pub proof fn lemma_le_value_bound(s: Seq<u8>)
    ensures
        spec_le_value(s) < spec_pow256(s.len()),
    decreases s.len(),
{
    if s.len() > 0 {
        lemma_le_value_bound(s.drop_first());
        let a = s[0] as int;
        let b = spec_le_value(s.drop_first()) as int;
        let p = spec_pow256(s.drop_first().len()) as int;
        assert(a + 256 * b < 256 * p) by (nonlinear_arith)
            requires
                0 <= a < 256,
                0 <= b < p,
        ;
    }
}

/// Decodes up to eight little-endian bytes as an unsigned integer.
pub fn le_u64(bytes: &[u8]) -> (v: u64)
    requires
        bytes@.len() <= 8,
    ensures
        v as nat == spec_le_value(bytes@),
{
    let n = bytes.len();
    let mut v: u64 = 0;
    let mut i: usize = n;
    assert(bytes@.subrange(n as int, n as int) =~= Seq::<u8>::empty());
    while i > 0
        invariant
            n == bytes@.len(),
            n <= 8,
            0 <= i <= n,
            v as nat == spec_le_value(bytes@.subrange(i as int, n as int)),
        decreases i,
    {
        let ghost rest = bytes@.subrange(i as int, n as int);
        let ghost cur = bytes@.subrange(i - 1, n as int);
        assert(cur.drop_first() =~= rest);
        proof {
            lemma_le_value_bound(rest);
            reveal_with_fuel(spec_pow256, 8);
            assert(spec_pow256(7) == 72057594037927936);
            lemma_pow256_mono(rest.len(), 7);
        }
        let b = bytes[i - 1];
        assert(v * 256 + b <= 0xffff_ffff_ffff_ffff) by (nonlinear_arith)
            requires
                v < 72057594037927936,
                b < 256,
        ;
        v = v * 256 + b as u64;
        i = i - 1;
    }
    assert(bytes@.subrange(0, n as int) =~= bytes@);
    v
}

/// Powers of 256 grow with the exponent.
pub proof fn lemma_pow256_mono(a: nat, b: nat)
    requires
        a <= b,
    ensures
        spec_pow256(a) <= spec_pow256(b),
    decreases b,
{
    if a < b {
        lemma_pow256_mono(a, (b - 1) as nat);
    }
}

/// Appends the decimal representation of the two's-complement value of
/// `value`, read as a signed integer of `width` bytes.
pub fn push_signed_decimal(s: &mut String, value: u64, width: usize)
    requires
        width == 1 || width == 4 || width == 8,
        value < spec_modulus(width as int),
    ensures
        final(s)@ == old(s)@ + spec_signed_decimal(spec_twos_complement(value as nat, width as int)),
{
    let half: u64 = if width == 8 {
        0x8000_0000_0000_0000
    } else if width == 4 {
        0x8000_0000
    } else {
        0x80
    };
    if value >= half {
        let magnitude: u64 = if width == 8 {
            (0xffff_ffff_ffff_ffff - value) + 1
        } else if width == 4 {
            0x1_0000_0000 - value
        } else {
            0x100 - value
        };
        push_char(s, '-');
        push_decimal(s, magnitude);
        assert(s@ =~= old(s)@ + spec_signed_decimal(spec_twos_complement(value as nat, width as int)));
    } else {
        push_decimal(s, value);
    }
}

/// `2^(8 * width)` for the supported integer widths.
pub open spec fn spec_modulus(width: int) -> nat {
    if width == 8 {
        0x1_0000_0000_0000_0000
    } else if width == 4 {
        0x1_0000_0000
    } else {
        0x100
    }
}

/// The signed value that `value` stands for in two's complement over `width`
/// bytes.
pub open spec fn spec_twos_complement(value: nat, width: int) -> int {
    if value >= spec_modulus(width) / 2 {
        value - spec_modulus(width)
    } else {
        value as int
    }
}

} // verus!

verus! {

/// Decimal renderings are never empty.
pub proof fn lemma_decimal_nonempty(n: nat)
    ensures
        spec_decimal(n).len() > 0,
    decreases n,
{
    if n >= 10 {
        lemma_decimal_nonempty(n / 10);
    }
}

/// Decimal renderings (signed or not) are never empty.
pub proof fn lemma_decimal_nonempty_all()
    ensures
        forall|n: nat| #[trigger] spec_decimal(n).len() > 0,
        forall|i: int| #[trigger] spec_signed_decimal(i).len() > 0,
{
    assert forall|n: nat| #[trigger] spec_decimal(n).len() > 0 by {
        lemma_decimal_nonempty(n);
    }
    assert forall|i: int| #[trigger] spec_signed_decimal(i).len() > 0 by {
        if i < 0 {
            lemma_decimal_nonempty((-i) as nat);
        } else {
            lemma_decimal_nonempty(i as nat);
        }
    }
}

} // verus!
