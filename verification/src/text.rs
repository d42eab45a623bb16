//! Small text utilities shared by the codec: the identifier allow-list that
//! guards unknown enum variants, ASCII lower-casing for header names, and
//! decimal integer tokens.

use vstd::prelude::*;

verus! {

/// A character allowed in an enum variant name: ASCII letters, digits
/// and underscore.
pub open spec fn spec_variant_char(c: char) -> bool {
    ||| 'A' <= c && c <= 'Z'
    ||| 'a' <= c && c <= 'z'
    ||| '0' <= c && c <= '9'
    ||| c == '_'
}

/// A string accepted as the name of an unknown enum variant: non-empty
/// and made of allowed characters only.
pub open spec fn spec_valid_variant(s: Seq<char>) -> bool {
    s.len() > 0 && forall|i: int| 0 <= i < s.len() ==> spec_variant_char(#[trigger] s[i])
}

/// Whether `s` may stand as the name of an unknown enum variant.
pub fn valid_variant(s: &str) -> (r: bool)
    ensures
        r == spec_valid_variant(s@),
{
    let len = s.unicode_len();
    if len == 0 {
        return false;
    }
    let mut i: usize = 0;
    while i < len
        invariant
            len == s@.len(),
            0 <= i <= len,
            forall|j: int| 0 <= j < i ==> spec_variant_char(#[trigger] s@[j]),
        decreases len - i,
    {
        let c = s.get_char(i);
        let ok = ('A' <= c && c <= 'Z') || ('a' <= c && c <= 'z') || ('0' <= c && c <= '9')
            || c == '_';
        if !ok {
            return false;
        }
        i = i + 1;
    }
    true
}

/// The ASCII lower-case counterpart of a character; other characters are
/// left unchanged.
pub open spec fn spec_ascii_lower_char(c: char) -> char {
    if 'A' <= c && c <= 'Z' {
        ((c as u32) + 32) as char
    } else {
        c
    }
}

/// `s` with every ASCII upper-case letter lowered.
pub open spec fn spec_ascii_lower(s: Seq<char>) -> Seq<char> {
    Seq::new(s.len(), |i: int| spec_ascii_lower_char(s[i]))
}

/// Relies on String::push: appends exactly one character to the string.
#[verifier::external_body]
pub(crate) fn push_char(s: &mut String, c: char)
    ensures
        final(s)@ == old(s)@.push(c),
{
    s.push(c)
}

/// Lower-cases the ASCII letters of `s`, as header names are lower-cased
/// on the wire.
pub fn ascii_lowercase(s: &str) -> (r: String)
    ensures
        r@ == spec_ascii_lower(s@),
{
    let len = s.unicode_len();
    let mut out = String::new();
    let mut i: usize = 0;
    while i < len
        invariant
            len == s@.len(),
            0 <= i <= len,
            out@ == spec_ascii_lower(s@).take(i as int),
        decreases len - i,
    {
        let c = s.get_char(i);
        let lc = if 'A' <= c && c <= 'Z' {
            ((c as u32) + 32) as u8 as char
        } else {
            c
        };
        assert(lc == spec_ascii_lower_char(s@[i as int]));
        push_char(&mut out, lc);
        i = i + 1;
        assert(out@ =~= spec_ascii_lower(s@).take(i as int));
    }
    assert(out@ =~= spec_ascii_lower(s@));
    out
}

/// The digit character for a value below ten.
pub open spec fn spec_digit_char(n: nat) -> char
    recommends
        n < 10,
{
    ((('0' as u32) + n) as char)
}

/// The decimal digits of `n`, most significant first.
pub open spec fn spec_dec_digits(n: nat) -> Seq<char>
    decreases n,
{
    if n < 10 {
        seq![spec_digit_char(n)]
    } else {
        spec_dec_digits(n / 10).push(spec_digit_char(n % 10))
    }
}

/// The decimal token of an integer: digits, with a leading `-` when
/// negative.
pub open spec fn spec_dec_int(n: int) -> Seq<char> {
    if n < 0 {
        seq!['-'] + spec_dec_digits((-n) as nat)
    } else {
        spec_dec_digits(n as nat)
    }
}

/// Appends the decimal digits of `n` to `s`.
fn push_dec_u64(s: &mut String, n: u64)
    ensures
        final(s)@ == old(s)@ + spec_dec_digits(n as nat),
    decreases n,
{
    if n >= 10 {
        push_dec_u64(s, n / 10);
    }
    let d = ((48 + (n % 10)) as u8) as char;
    assert(d == spec_digit_char((n % 10) as nat));
    push_char(s, d);
    assert(final(s)@ =~= old(s)@ + spec_dec_digits(n as nat));
}

/// The decimal token of `n`.
pub fn i32_token(n: i32) -> (r: String)
    ensures
        r@ == spec_dec_int(n as int),
{
    let mut s = String::new();
    if n < 0 {
        push_char(&mut s, '-');
        let m = -(n as i64);
        push_dec_u64(&mut s, m as u64);
        assert(s@ =~= spec_dec_int(n as int));
    } else {
        push_dec_u64(&mut s, n as u64);
        assert(s@ =~= spec_dec_int(n as int));
    }
    s
}

/// The numeric value of a digit character.
pub open spec fn spec_digit_val(c: char) -> nat
    recommends
        '0' <= c && c <= '9',
{
    ((c as u32) - ('0' as u32)) as nat
}

/// Whether every character of `s` is a decimal digit.
pub open spec fn spec_all_digits(s: Seq<char>) -> bool {
    forall|i: int| 0 <= i < s.len() ==> '0' <= #[trigger] s[i] && s[i] <= '9'
}

/// The value of a digit string, read in base ten.
pub open spec fn spec_digits_val(s: Seq<char>) -> nat
    decreases s.len(),
{
    if s.len() == 0 {
        0
    } else {
        spec_digits_val(s.take(s.len() - 1)) * 10 + spec_digit_val(s.last())
    }
}

/// The integer an optionally signed digit string denotes, when it fits in
/// an `i32`. Leading zeros are tolerated; an empty digit part is not.
pub open spec fn spec_parse_i32(s: Seq<char>) -> Option<i32> {
    if s.len() > 0 && s[0] == '-' {
        let b = s.skip(1);
        if b.len() > 0 && spec_all_digits(b) && spec_digits_val(b) <= 0x8000_0000 {
            Some((-(spec_digits_val(b) as int)) as i32)
        } else {
            None
        }
    } else if s.len() > 0 && spec_all_digits(s) && spec_digits_val(s) < 0x8000_0000 {
        Some(spec_digits_val(s) as i32)
    } else {
        None
    }
}

proof fn lemma_digits_val_step(s: Seq<char>, i: int)
    requires
        0 <= i < s.len(),
    ensures
        spec_digits_val(s.take(i + 1)) == spec_digits_val(s.take(i)) * 10 + spec_digit_val(
            s[i],
        ),
{
    assert(s.take(i + 1).take(i) =~= s.take(i));
    assert(s.take(i + 1).last() == s[i]);
}

/// Parses the digit part of `s` from index `from`, if it all fits.
fn parse_digits(s: &str, from: usize) -> (r: Option<u64>)
    requires
        from <= s@.len(),
    ensures
        match r {
            Some(v) => {
                &&& s@.skip(from as int).len() > 0
                &&& spec_all_digits(s@.skip(from as int))
                &&& v == spec_digits_val(s@.skip(from as int))
                &&& v <= 0x8000_0000
            },
            None => {
                ||| s@.skip(from as int).len() == 0
                ||| !spec_all_digits(s@.skip(from as int))
                ||| spec_digits_val(s@.skip(from as int)) > 0x8000_0000
            },
        },
{
    let ghost body = s@.skip(from as int);
    let len = s.unicode_len();
    if from >= len {
        return None;
    }
    let mut val: u64 = 0;
    let mut i: usize = from;
    while i < len
        invariant
            len == s@.len(),
            from <= i <= len,
            from < len,
            body == s@.skip(from as int),
            spec_all_digits(body.take(i - from)),
            val == spec_digits_val(body.take(i - from)),
            val <= 0x8000_0000,
        decreases len - i,
    {
        let c = s.get_char(i);
        if !('0' <= c && c <= '9') {
            assert(body[i - from] == s@[i as int]);
            return None;
        }
        let d = (c as u32 - 48) as u64;
        let next = val * 10 + d;
        proof {
            lemma_digits_val_step(body, i - from);
            assert(body[i - from] == s@[i as int]);
        }
        if next > 0x8000_0000 {
            proof {
                lemma_digits_val_grows(body, i - from + 1);
            }
            return None;
        }
        val = next;
        i = i + 1;
    }
    assert(body.take(len - from) =~= body);
    Some(val)
}

proof fn lemma_digits_val_grows(s: Seq<char>, i: int)
    requires
        0 <= i <= s.len(),
    ensures
        spec_digits_val(s) >= spec_digits_val(s.take(i)),
    decreases s.len() - i,
{
    if i < s.len() {
        lemma_digits_val_step(s, i);
        lemma_digits_val_grows(s, i + 1);
        assert(spec_digits_val(s.take(i + 1)) >= spec_digits_val(s.take(i)));
    } else {
        assert(s.take(i) =~= s);
    }
}

/// Parses an optionally signed decimal token as an `i32`. Exactly the
/// strings `spec_parse_i32` accepts are accepted.
pub fn parse_i32(s: &str) -> (r: Option<i32>)
    ensures
        r == spec_parse_i32(s@),
{
    let len = s.unicode_len();
    if len == 0 {
        return None;
    }
    let c0 = s.get_char(0);
    if c0 == '-' {
        match parse_digits(s, 1) {
            Some(v) => {
                if v <= 0x8000_0000 {
                    let n = (-(v as i64)) as i32;
                    assert(n as int == -(spec_digits_val(s@.skip(1)) as int));
                    Some(n)
                } else {
                    None
                }
            },
            None => None,
        }
    } else {
        match parse_digits(s, 0) {
            Some(v) => {
                assert(s@.skip(0) =~= s@);
                if v < 0x8000_0000 {
                    Some(v as i32)
                } else {
                    None
                }
            },
            None => {
                assert(s@.skip(0) =~= s@);
                None
            },
        }
    }
}

/// The decimal token of an integer parses back to that integer.
pub proof fn lemma_dec_int_round_trip(n: i32)
    ensures
        spec_parse_i32(spec_dec_int(n as int)) == Some(n),
{
    if n < 0 {
        let m = (-(n as int)) as nat;
        lemma_dec_digits_shape(m);
        assert((seq!['-'] + spec_dec_digits(m)).skip(1) =~= spec_dec_digits(m));
        assert((seq!['-'] + spec_dec_digits(m))[0] == '-');
    } else {
        let m = n as nat;
        lemma_dec_digits_shape(m);
        assert(spec_dec_digits(m)[0] != '-');
    }
}

/// The decimal digits of `n` are digits, non-empty, and denote `n`.
proof fn lemma_dec_digits_shape(n: nat)
    ensures
        spec_dec_digits(n).len() > 0,
        spec_all_digits(spec_dec_digits(n)),
        spec_digits_val(spec_dec_digits(n)) == n,
    decreases n,
{
    if n < 10 {
        let s = spec_dec_digits(n);
        assert(s =~= seq![spec_digit_char(n)]);
        assert(s.take(s.len() - 1) =~= Seq::<char>::empty());
        assert(spec_digits_val(Seq::<char>::empty()) == 0);
        assert(s.last() == spec_digit_char(n));
        assert(spec_digits_val(s) == spec_digits_val(Seq::<char>::empty()) * 10
            + spec_digit_val(s.last()));
        assert(spec_digit_char(n) as u32 == 48 + n);
        assert(spec_digit_val(spec_digit_char(n)) == n);
    } else {
        lemma_dec_digits_shape(n / 10);
        let p = spec_dec_digits(n / 10);
        let s = spec_dec_digits(n);
        assert(s =~= p.push(spec_digit_char(n % 10)));
        assert(s.take(s.len() - 1) =~= p);
        assert(s.last() == spec_digit_char(n % 10));
        assert(spec_digits_val(s) == (n / 10) * 10 + n % 10);
        assert(forall|i: int|
            0 <= i < s.len() ==> '0' <= #[trigger] s[i] && s[i] <= '9') by {
            assert(forall|i: int| 0 <= i < p.len() ==> s[i] == #[trigger] p[i]);
        }
    }
}

/// Compares a string with a literal by contents.
pub fn string_is(s: &String, lit: &str) -> (r: bool)
    ensures
        r == (s@ == lit@),
{
    let l = String::from_str(lit);
    *s == l
}

} // verus!
