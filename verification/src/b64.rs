//! Base64 with the standard alphabet and `=` padding, the encoding the
//! wire format prescribes for byte buffers.

use vstd::prelude::*;

verus! {

use crate::text::push_char;

/// The alphabet character for a six-bit value.
pub open spec fn b64_char(x: u8) -> char
    recommends
        x < 64,
{
    if x < 26 {
        ((65 + x) as char)
    } else if x < 52 {
        ((71 + x) as char)  // 'a' is 97, x - 26 + 97 == x + 71
    } else if x < 62 {
        (((x - 52) + 48) as char)
    } else if x == 62 {
        '+'
    } else {
        '/'
    }
}

/// The six-bit value of an alphabet character, if it is one.
pub open spec fn b64_sextet(c: char) -> Option<u8> {
    let u = c as u32;
    if 65 <= u && u <= 90 {
        Some((u - 65) as u8)
    } else if 97 <= u && u <= 122 {
        Some((u - 71) as u8)
    } else if 48 <= u && u <= 57 {
        Some(((u - 48) + 52) as u8)
    } else if c == '+' {
        Some(62)
    } else if c == '/' {
        Some(63)
    } else {
        None
    }
}

/// The four characters encoding a full three-byte group.
pub open spec fn enc3(b0: u8, b1: u8, b2: u8) -> Seq<char> {
    seq![
        b64_char(b0 >> 2),
        b64_char(((b0 & 3) << 4) | (b1 >> 4)),
        b64_char(((b1 & 15) << 2) | (b2 >> 6)),
        b64_char(b2 & 63),
    ]
}

/// The four characters encoding a trailing two-byte group.
pub open spec fn enc2(b0: u8, b1: u8) -> Seq<char> {
    seq![
        b64_char(b0 >> 2),
        b64_char(((b0 & 3) << 4) | (b1 >> 4)),
        b64_char((b1 & 15) << 2),
        '=',
    ]
}

/// The four characters encoding a trailing one-byte group.
pub open spec fn enc1(b0: u8) -> Seq<char> {
    seq![b64_char(b0 >> 2), b64_char((b0 & 3) << 4), '=', '=']
}

/// The base64 encoding of a byte sequence.
pub open spec fn spec_b64_encode(bytes: Seq<u8>) -> Seq<char>
    decreases bytes.len(),
{
    if bytes.len() == 0 {
        Seq::empty()
    } else if bytes.len() == 1 {
        enc1(bytes[0])
    } else if bytes.len() == 2 {
        enc2(bytes[0], bytes[1])
    } else {
        enc3(bytes[0], bytes[1], bytes[2]) + spec_b64_encode(bytes.skip(3))
    }
}

/// The three bytes of a full four-character group, if all four
/// characters are alphabet characters.
pub open spec fn dec4(c0: char, c1: char, c2: char, c3: char) -> Option<Seq<u8>> {
    match (b64_sextet(c0), b64_sextet(c1), b64_sextet(c2), b64_sextet(c3)) {
        (Some(x0), Some(x1), Some(x2), Some(x3)) => Some(
            seq![(x0 << 2) | (x1 >> 4), ((x1 & 15) << 4) | (x2 >> 2), ((x2 & 3) << 6) | x3],
        ),
        _ => None,
    }
}

/// Decodes the last four-character group, which may carry padding.
/// Padding bits must be zero, so each byte sequence has exactly one
/// encoding.
pub open spec fn dec_last(c0: char, c1: char, c2: char, c3: char) -> Option<Seq<u8>> {
    match (b64_sextet(c0), b64_sextet(c1)) {
        (Some(x0), Some(x1)) => {
            if c2 == '=' && c3 == '=' {
                if x1 & 15 == 0 {
                    Some(seq![(x0 << 2) | (x1 >> 4)])
                } else {
                    None
                }
            } else if c3 == '=' {
                match b64_sextet(c2) {
                    Some(x2) => {
                        if x2 & 3 == 0 {
                            Some(seq![(x0 << 2) | (x1 >> 4), ((x1 & 15) << 4) | (x2 >> 2)])
                        } else {
                            None
                        }
                    },
                    None => None,
                }
            } else {
                dec4(c0, c1, c2, c3)
            }
        },
        _ => None,
    }
}

/// The bytes a base64 string denotes, or nothing when it is not the
/// encoding of any byte sequence.
pub open spec fn spec_b64_decode(s: Seq<char>) -> Option<Seq<u8>>
    decreases s.len(),
{
    if s.len() == 0 {
        Some(Seq::empty())
    } else if s.len() < 4 {
        None
    } else if s.len() == 4 {
        dec_last(s[0], s[1], s[2], s[3])
    } else {
        match (dec4(s[0], s[1], s[2], s[3]), spec_b64_decode(s.skip(4))) {
            (Some(b), Some(rest)) => Some(b + rest),
            _ => None,
        }
    }
}

/// Encodes a byte buffer as a base64 string.
pub fn b64_encode(bytes: &Vec<u8>) -> (r: String)
    ensures
        r@ == spec_b64_encode(bytes@),
{
    let mut out = String::new();
    let mut i: usize = 0;
    let len = bytes.len();
    proof {
        assert(bytes@.skip(0) =~= bytes@);
        assert(Seq::<char>::empty() + spec_b64_encode(bytes@) =~= spec_b64_encode(bytes@));
    }
    while len - i >= 3
        invariant
            len == bytes@.len(),
            0 <= i <= len,
            spec_b64_encode(bytes@) == out@ + spec_b64_encode(bytes@.skip(i as int)),
        decreases len - i,
    {
        let ghost old_out = out@;
        let b0 = bytes[i];
        let b1 = bytes[i + 1];
        let b2 = bytes[i + 2];
        proof {
            assert(b0 >> 2 < 64 && ((b0 & 3) << 4) | (b1 >> 4) < 64 && ((b1 & 15) << 2) | (b2
                >> 6) < 64 && b2 & 63 < 64) by (bit_vector);
        }
        push_b64_char(&mut out, b0 >> 2);
        push_b64_char(&mut out, ((b0 & 3) << 4) | (b1 >> 4));
        push_b64_char(&mut out, ((b1 & 15) << 2) | (b2 >> 6));
        push_b64_char(&mut out, b2 & 63);
        proof {
            let t = bytes@.skip(i as int);
            assert(t[0] == b0 && t[1] == b1 && t[2] == b2);
            assert(t.skip(3) =~= bytes@.skip(i + 3));
            assert(spec_b64_encode(t) == enc3(b0, b1, b2) + spec_b64_encode(bytes@.skip(i + 3)));
            assert(out@ =~= old_out + enc3(b0, b1, b2));
            assert(old_out + (enc3(b0, b1, b2) + spec_b64_encode(bytes@.skip(i + 3))) =~= out@
                + spec_b64_encode(bytes@.skip(i + 3)));
        }
        i = i + 3;
    }
    let ghost old_out = out@;
    if len - i == 1 {
        let b0 = bytes[i];
        proof {
            assert(b0 >> 2 < 64 && (b0 & 3) << 4 < 64) by (bit_vector);
        }
        push_b64_char(&mut out, b0 >> 2);
        push_b64_char(&mut out, (b0 & 3) << 4);
        push_eq(&mut out);
        push_eq(&mut out);
        proof {
            let t = bytes@.skip(i as int);
            assert(t.len() == 1 && t[0] == b0);
            assert(spec_b64_encode(t) == enc1(b0));
            assert(out@ =~= old_out + enc1(b0));
        }
    } else if len - i == 2 {
        let b0 = bytes[i];
        let b1 = bytes[i + 1];
        proof {
            assert(b0 >> 2 < 64 && ((b0 & 3) << 4) | (b1 >> 4) < 64 && (b1 & 15) << 2 < 64)
                by (bit_vector);
        }
        push_b64_char(&mut out, b0 >> 2);
        push_b64_char(&mut out, ((b0 & 3) << 4) | (b1 >> 4));
        push_b64_char(&mut out, (b1 & 15) << 2);
        push_eq(&mut out);
        proof {
            let t = bytes@.skip(i as int);
            assert(t.len() == 2 && t[0] == b0 && t[1] == b1);
            assert(spec_b64_encode(t) == enc2(b0, b1));
            assert(out@ =~= old_out + enc2(b0, b1));
        }
    } else {
        proof {
            assert(bytes@.skip(i as int).len() == 0);
            assert(spec_b64_encode(bytes@.skip(i as int)) =~= Seq::<char>::empty());
            assert(out@ =~= old_out + Seq::<char>::empty());
        }
    }
    out
}

/// Appends the alphabet character of a six-bit value.
fn push_b64_char(s: &mut String, x: u8)
    requires
        x < 64,
    ensures
        final(s)@ == old(s)@.push(b64_char(x)),
{
    let c: char = if x < 26 {
        ((65 + x) as char)
    } else if x < 52 {
        ((71 + x) as char)
    } else if x < 62 {
        (((x - 52) + 48) as char)
    } else if x == 62 {
        '+'
    } else {
        '/'
    };
    assert(c == b64_char(x));
    push_char(s, c);
}

/// Appends the padding character.
fn push_eq(s: &mut String)
    ensures
        final(s)@ == old(s)@.push('='),
{
    push_char(s, '=');
}

/// The six-bit value of an alphabet character.
fn sextet(c: char) -> (r: Option<u8>)
    ensures
        r == b64_sextet(c),
{
    let u = c as u32;
    if 65 <= u && u <= 90 {
        Some((u - 65) as u8)
    } else if 97 <= u && u <= 122 {
        Some((u - 71) as u8)
    } else if 48 <= u && u <= 57 {
        Some(((u - 48) + 52) as u8)
    } else if c == '+' {
        Some(62)
    } else if c == '/' {
        Some(63)
    } else {
        None
    }
}

/// Unfolds the decoding of a string longer than one group.
proof fn lemma_decode_unfold(t: Seq<char>)
    requires
        t.len() > 4,
    ensures
        spec_b64_decode(t) == (match (dec4(t[0], t[1], t[2], t[3]), spec_b64_decode(t.skip(4))) {
            (Some(b), Some(rest)) => Some(b + rest),
            _ => None,
        }),
{
}

/// Decodes a base64 string, accepting exactly the strings that encode
/// some byte buffer.
pub fn b64_decode(s: &str) -> (r: Option<Vec<u8>>)
    ensures
        match r {
            Some(b) => spec_b64_decode(s@) == Some(b@),
            None => spec_b64_decode(s@) is None,
        },
{
    let len = s.unicode_len();
    if len % 4 != 0 {
        proof {
            lemma_b64_decode_len(s@);
        }
        return None;
    }
    let mut out: Vec<u8> = Vec::new();
    let mut i: usize = 0;
    proof {
        assert(s@.skip(0) =~= s@);
        assert(forall|rest: Seq<u8>| Seq::<u8>::empty() + rest =~= rest);
    }
    while i < len
        invariant
            len == s@.len(),
            len % 4 == 0,
            i % 4 == 0,
            0 <= i <= len,
            forall|rest: Seq<u8>|
                spec_b64_decode(s@.skip(i as int)) == Some(rest) ==> spec_b64_decode(s@)
                    == Some(out@ + rest),
            spec_b64_decode(s@.skip(i as int)) is None ==> spec_b64_decode(s@) is None,
        decreases len - i,
    {
        let ghost old_out = out@;
        let c0 = s.get_char(i);
        let c1 = s.get_char(i + 1);
        let c2 = s.get_char(i + 2);
        let c3 = s.get_char(i + 3);
        let ghost t = s@.skip(i as int);
        proof {
            assert(t[0] == c0 && t[1] == c1 && t[2] == c2 && t[3] == c3);
            assert(t.skip(4) =~= s@.skip(i + 4));
        }
        let x0o = sextet(c0);
        let x1o = sextet(c1);
        let x2o = sextet(c2);
        let x3o = sextet(c3);
        if i + 4 == len {
            // the last group; padding may appear here
            proof {
                assert(t.len() == 4);
                assert(spec_b64_decode(t) == dec_last(c0, c1, c2, c3));
            }
            match (x0o, x1o) {
                (Some(x0), Some(x1)) => {
                    if c2 == '=' && c3 == '=' {
                        if x1 & 15 == 0 {
                            out.push((x0 << 2) | (x1 >> 4));
                            proof {
                                assert(spec_b64_decode(t) == Some(seq![(x0 << 2) | (x1 >> 4)]));
                                assert(out@ =~= old_out + seq![(x0 << 2) | (x1 >> 4)]);
                                lemma_append_assoc_u8(old_out, seq![(x0 << 2) | (x1 >> 4)],
                                    Seq::empty());
                            }
                        } else {
                            return None;
                        }
                    } else if c3 == '=' {
                        match x2o {
                            Some(x2) => {
                                if x2 & 3 == 0 {
                                    out.push((x0 << 2) | (x1 >> 4));
                                    out.push(((x1 & 15) << 4) | (x2 >> 2));
                                    proof {
                                        assert(spec_b64_decode(t) == Some(
                                            seq![(x0 << 2) | (x1 >> 4), ((x1 & 15) << 4) | (x2 >> 2)],
                                        ));
                                        assert(out@ =~= old_out + seq![(x0 << 2) | (x1 >> 4), ((x1
                                            & 15) << 4) | (x2 >> 2)]);
                                    }
                                } else {
                                    return None;
                                }
                            },
                            None => {
                                return None;
                            },
                        }
                    } else {
                        match (x2o, x3o) {
                            (Some(x2), Some(x3)) => {
                                out.push((x0 << 2) | (x1 >> 4));
                                out.push(((x1 & 15) << 4) | (x2 >> 2));
                                out.push(((x2 & 3) << 6) | x3);
                                proof {
                                    assert(spec_b64_decode(t) == Some(
                                        seq![(x0 << 2) | (x1 >> 4), ((x1 & 15) << 4) | (x2 >> 2), ((x2 & 3) << 6) | x3],
                                    ));
                                    assert(out@ =~= old_out + seq![(x0 << 2) | (x1 >> 4), ((x1 & 15)
                                        << 4) | (x2 >> 2), ((x2 & 3) << 6) | x3]);
                                }
                            },
                            _ => {
                                return None;
                            },
                        }
                    }
                },
                _ => {
                    return None;
                },
            }
            proof {
                let chunk = spec_b64_decode(t)->Some_0;
                assert(out@ == old_out + chunk);
                assert(s@.skip(i + 4).len() == 0);
                assert(spec_b64_decode(s@.skip(i + 4)) == Some(Seq::<u8>::empty()));
                assert forall|rest: Seq<u8>|
                    spec_b64_decode(s@.skip(i + 4)) == Some(rest) implies spec_b64_decode(s@)
                    == Some(out@ + rest) by {
                    assert(rest =~= Seq::<u8>::empty());
                    assert(spec_b64_decode(s@) == Some(old_out + chunk));
                    assert(out@ + rest =~= old_out + chunk);
                }
            }
        } else {
            // a full group in the middle; padding is not allowed here
            proof {
                assert(t.len() > 4);
                lemma_decode_unfold(t);
            }
            match (x0o, x1o, x2o, x3o) {
                (Some(x0), Some(x1), Some(x2), Some(x3)) => {
                    out.push((x0 << 2) | (x1 >> 4));
                    out.push(((x1 & 15) << 4) | (x2 >> 2));
                    out.push(((x2 & 3) << 6) | x3);
                    proof {
                        let chunk = seq![(x0 << 2) | (x1 >> 4), ((x1 & 15) << 4) | (x2 >> 2), ((x2
                            & 3) << 6) | x3];
                        assert(dec4(c0, c1, c2, c3) == Some(chunk));
                        assert(out@ =~= old_out + chunk);
                        assert forall|rest: Seq<u8>|
                            spec_b64_decode(s@.skip(i + 4)) == Some(rest)
                                implies spec_b64_decode(s@) == Some(out@ + rest) by {
                            assert(spec_b64_decode(t) == Some(chunk + rest));
                            assert(spec_b64_decode(s@) == Some(old_out + (chunk + rest)));
                            assert(old_out + (chunk + rest) =~= out@ + rest);
                        }
                        if spec_b64_decode(s@.skip(i + 4)) is None {
                            assert(spec_b64_decode(t) is None);
                        }
                    }
                },
                _ => {
                    proof {
                        assert(dec4(c0, c1, c2, c3) is None);
                        assert(spec_b64_decode(t) is None);
                    }
                    return None;
                },
            }
        }
        i = i + 4;
    }
    proof {
        assert(s@.skip(len as int).len() == 0);
        assert(spec_b64_decode(s@.skip(len as int)) == Some(Seq::<u8>::empty()));
        assert(out@ + Seq::<u8>::empty() =~= out@);
    }
    Some(out)
}

/// Concatenation helper used by the decode proof.
proof fn lemma_append_assoc_u8(a: Seq<u8>, b: Seq<u8>, c: Seq<u8>)
    ensures
        (a + b) + c =~= a + (b + c),
{
}

/// A decodable string's length is a multiple of four.
proof fn lemma_b64_decode_len(s: Seq<char>)
    ensures
        spec_b64_decode(s) is Some ==> s.len() % 4 == 0,
    decreases s.len(),
{
    if s.len() >= 5 {
        lemma_b64_decode_len(s.skip(4));
    }
}

/// Encoding then decoding returns the original bytes.
pub proof fn lemma_b64_round_trip(bytes: Seq<u8>)
    ensures
        spec_b64_decode(spec_b64_encode(bytes)) == Some(bytes),
    decreases bytes.len(),
{
    if bytes.len() == 0 {
        assert(spec_b64_encode(bytes) =~= Seq::<char>::empty());
        assert(spec_b64_decode(Seq::<char>::empty()) == Some(Seq::<u8>::empty()));
        assert(bytes =~= Seq::<u8>::empty());
    } else if bytes.len() == 1 {
        let b0 = bytes[0];
        proof_ranges3(b0, 0, 0);
        lemma_sextet_of_char(b0 >> 2);
        lemma_sextet_of_char((b0 & 3) << 4);
        let s = enc1(b0);
        assert(s.len() == 4);
        assert(((b0 & 3) << 4) & 15 == 0) by (bit_vector);
        assert(((b0 >> 2) << 2) | (((b0 & 3) << 4) >> 4) == b0) by (bit_vector);
        assert(spec_b64_decode(s) == Some(seq![b0]));
        assert(bytes =~= seq![b0]);
    } else if bytes.len() == 2 {
        let b0 = bytes[0];
        let b1 = bytes[1];
        proof_ranges3(b0, b1, 0);
        lemma_sextet_of_char(b0 >> 2);
        lemma_sextet_of_char(((b0 & 3) << 4) | (b1 >> 4));
        lemma_sextet_of_char((b1 & 15) << 2);
        let s = enc2(b0, b1);
        assert(s.len() == 4);
        assert((((b1 & 15) << 2)) & 3 == 0) by (bit_vector);
        assert(((b0 >> 2) << 2) | ((((b0 & 3) << 4) | (b1 >> 4)) >> 4) == b0) by (bit_vector);
        assert((((((b0 & 3) << 4) | (b1 >> 4)) & 15) << 4) | (((b1 & 15) << 2) >> 2) == b1)
            by (bit_vector);
        assert(spec_b64_decode(s) == Some(seq![b0, b1]));
        assert(bytes =~= seq![b0, b1]);
    } else {
        let b0 = bytes[0];
        let b1 = bytes[1];
        let b2 = bytes[2];
        proof_ranges3(b0, b1, b2);
        lemma_sextet_of_char(b0 >> 2);
        lemma_sextet_of_char(((b0 & 3) << 4) | (b1 >> 4));
        lemma_sextet_of_char(((b1 & 15) << 2) | (b2 >> 6));
        lemma_sextet_of_char(b2 & 63);
        lemma_b64_round_trip(bytes.skip(3));
        let rest = spec_b64_encode(bytes.skip(3));
        let s = spec_b64_encode(bytes);
        assert(s =~= enc3(b0, b1, b2) + rest);
        assert(((b0 >> 2) << 2) | ((((b0 & 3) << 4) | (b1 >> 4)) >> 4) == b0) by (bit_vector);
        assert((((((b0 & 3) << 4) | (b1 >> 4)) & 15) << 4) | ((((b1 & 15) << 2) | (b2 >> 6))
            >> 2) == b1) by (bit_vector);
        assert((((((b1 & 15) << 2) | (b2 >> 6)) & 3) << 6) | (b2 & 63) == b2) by (bit_vector);
        if rest.len() == 0 {
            assert(bytes.skip(3).len() == 0);
            assert(s.len() == 4);
            assert(s[0] == b64_char(b0 >> 2) && s[1] == b64_char(((b0 & 3) << 4) | (b1 >> 4))
                && s[2] == b64_char(((b1 & 15) << 2) | (b2 >> 6)) && s[3] == b64_char(b2 & 63));
            assert(spec_b64_decode(s) == Some(seq![b0, b1, b2]));
            assert(bytes =~= seq![b0, b1, b2]);
        } else {
            assert(s.len() > 4);
            lemma_decode_unfold(s);
            assert(s[0] == b64_char(b0 >> 2) && s[1] == b64_char(((b0 & 3) << 4) | (b1 >> 4))
                && s[2] == b64_char(((b1 & 15) << 2) | (b2 >> 6)) && s[3] == b64_char(b2 & 63));
            assert(s.skip(4) =~= rest);
            assert(dec4(s[0], s[1], s[2], s[3]) == Some(seq![b0, b1, b2]));
            assert(spec_b64_decode(s) == Some(seq![b0, b1, b2] + bytes.skip(3)));
            assert(seq![b0, b1, b2] + bytes.skip(3) =~= bytes);
        }
    }
}

/// The six-bit pieces of a three-byte group are below sixty-four.
proof fn proof_ranges3(b0: u8, b1: u8, b2: u8)
    ensures
        b0 >> 2 < 64,
        (b0 & 3) << 4 < 64,
        ((b0 & 3) << 4) | (b1 >> 4) < 64,
        (b1 & 15) << 2 < 64,
        ((b1 & 15) << 2) | (b2 >> 6) < 64,
        b2 & 63 < 64,
{
    assert(b0 >> 2 < 64 && (b0 & 3) << 4 < 64 && ((b0 & 3) << 4) | (b1 >> 4) < 64 && (b1 & 15)
        << 2 < 64 && ((b1 & 15) << 2) | (b2 >> 6) < 64 && b2 & 63 < 64) by (bit_vector);
}

/// The alphabet character of a six-bit value maps back to that value,
/// and is never the padding character.
proof fn lemma_sextet_of_char(x: u8)
    requires
        x < 64,
    ensures
        b64_sextet(b64_char(x)) == Some(x),
        b64_char(x) != '=',
{
    if x < 26 {
        assert(b64_char(x) as u32 == 65 + x);
    } else if x < 52 {
        assert(b64_char(x) as u32 == 71 + x);
    } else if x < 62 {
        assert(b64_char(x) as u32 == (x - 52) + 48);
    }
}

/// An alphabet character is the character of its own six-bit value.
proof fn lemma_chr_of_sextet(c: char)
    requires
        b64_sextet(c) is Some,
    ensures
        b64_sextet(c)->0 < 64,
        b64_char(b64_sextet(c)->0) == c,
{
    let u = c as u32;
    if 65 <= u && u <= 90 {
        assert(b64_char((u - 65) as u8) as u32 == u);
    } else if 97 <= u && u <= 122 {
        assert(b64_char((u - 71) as u8) as u32 == u);
    } else if 48 <= u && u <= 57 {
        assert(b64_char(((u - 48) + 52) as u8) as u32 == u);
    }
}

/// A string that decodes is the encoding of what it decodes to: decoding
/// accepts canonical encodings only.
pub proof fn lemma_b64_sound(s: Seq<char>)
    ensures
        spec_b64_decode(s) matches Some(b) ==> spec_b64_encode(b) == s,
    decreases s.len(),
{
    if spec_b64_decode(s) is Some {
        let b = spec_b64_decode(s)->Some_0;
        if s.len() == 0 {
            assert(b =~= Seq::<u8>::empty());
            assert(spec_b64_encode(b) =~= s);
        } else if s.len() == 4 {
            let c0 = s[0];
            let c1 = s[1];
            let c2 = s[2];
            let c3 = s[3];
            lemma_chr_of_sextet(c0);
            lemma_chr_of_sextet(c1);
            let x0 = b64_sextet(c0)->0;
            let x1 = b64_sextet(c1)->0;
            if c2 == '=' && c3 == '=' {
                let y0 = (x0 << 2) | (x1 >> 4);
                assert(b =~= seq![y0]);
                assert(x0 < 64 && x1 < 64 && x1 & 15 == 0 ==> ((x0 << 2) | (x1 >> 4)) >> 2 == x0
                    && ((((x0 << 2) | (x1 >> 4)) & 3) << 4) == x1) by (bit_vector);
                assert(spec_b64_encode(b) =~= s);
            } else if c3 == '=' {
                lemma_chr_of_sextet(c2);
                let x2 = b64_sextet(c2)->0;
                let y0 = (x0 << 2) | (x1 >> 4);
                let y1 = ((x1 & 15) << 4) | (x2 >> 2);
                assert(b =~= seq![y0, y1]);
                assert(x0 < 64 && x1 < 64 && x2 < 64 && x2 & 3 == 0 ==> ((x0 << 2) | (x1 >> 4))
                    >> 2 == x0 && ((((x0 << 2) | (x1 >> 4)) & 3) << 4) | ((((x1 & 15) << 4) | (x2
                    >> 2)) >> 4) == x1 && (((((x1 & 15) << 4) | (x2 >> 2)) & 15) << 2) == x2)
                    by (bit_vector);
                assert(spec_b64_encode(b) =~= s);
            } else {
                lemma_chr_of_sextet(c2);
                lemma_chr_of_sextet(c3);
                let x2 = b64_sextet(c2)->0;
                let x3 = b64_sextet(c3)->0;
                let y0 = (x0 << 2) | (x1 >> 4);
                let y1 = ((x1 & 15) << 4) | (x2 >> 2);
                let y2 = ((x2 & 3) << 6) | x3;
                assert(b =~= seq![y0, y1, y2]);
                lemma_sextets_recovered(x0, x1, x2, x3);
                assert(b.skip(3).len() == 0);
                assert(spec_b64_encode(b.skip(3)) =~= Seq::<char>::empty());
                assert(spec_b64_encode(b) =~= s);
            }
        } else {
            // a full leading group, then the rest
            lemma_decode_unfold(s);
            let c0 = s[0];
            let c1 = s[1];
            let c2 = s[2];
            let c3 = s[3];
            lemma_chr_of_sextet(c0);
            lemma_chr_of_sextet(c1);
            lemma_chr_of_sextet(c2);
            lemma_chr_of_sextet(c3);
            let x0 = b64_sextet(c0)->0;
            let x1 = b64_sextet(c1)->0;
            let x2 = b64_sextet(c2)->0;
            let x3 = b64_sextet(c3)->0;
            let y0 = (x0 << 2) | (x1 >> 4);
            let y1 = ((x1 & 15) << 4) | (x2 >> 2);
            let y2 = ((x2 & 3) << 6) | x3;
            let brest = spec_b64_decode(s.skip(4))->Some_0;
            assert(b =~= seq![y0, y1, y2] + brest);
            lemma_b64_sound(s.skip(4));
            assert(spec_b64_encode(brest) == s.skip(4));
            if brest.len() == 0 {
                assert(s.skip(4) =~= Seq::<char>::empty());
                assert(s.len() == 4);
                assert(false);
            }
            assert(b.len() > 3);
            assert(b[0] == y0 && b[1] == y1 && b[2] == y2);
            assert(b.skip(3) =~= brest);
            lemma_sextets_recovered(x0, x1, x2, x3);
            assert(spec_b64_encode(b) =~= enc3(y0, y1, y2) + s.skip(4));
            assert(enc3(y0, y1, y2) + s.skip(4) =~= s);
        }
    }
}

/// The six-bit pieces of a decoded three-byte group come back out of
/// the bytes they built.
proof fn lemma_sextets_recovered(x0: u8, x1: u8, x2: u8, x3: u8)
    requires
        x0 < 64,
        x1 < 64,
        x2 < 64,
        x3 < 64,
    ensures
        ((x0 << 2) | (x1 >> 4)) >> 2 == x0,
        ((((x0 << 2) | (x1 >> 4)) & 3) << 4) | ((((x1 & 15) << 4) | (x2 >> 2)) >> 4) == x1,
        (((((x1 & 15) << 4) | (x2 >> 2)) & 15) << 2) | ((((x2 & 3) << 6) | x3) >> 6) == x2,
        (((x2 & 3) << 6) | x3) & 63 == x3,
{
    assert(x0 < 64 && x1 < 64 && x2 < 64 && x3 < 64 ==> ((x0 << 2) | (x1 >> 4)) >> 2 == x0 && ((((
    x0 << 2) | (x1 >> 4)) & 3) << 4) | ((((x1 & 15) << 4) | (x2 >> 2)) >> 4) == x1 && (((((x1
        & 15) << 4) | (x2 >> 2)) & 15) << 2) | ((((x2 & 3) << 6) | x3) >> 6) == x2 && (((x2 & 3)
        << 6) | x3) & 63 == x3) by (bit_vector);
}

} // verus!
