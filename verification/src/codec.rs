//! The stored form of an encrypted message body: the nonce and the
//! ciphertext, hex-encoded and joined by a colon. Encoding and decoding are
//! verified against the spec-level [`frame_of`], and decoding succeeds on
//! exactly the strings that encoding produces.

use vstd::prelude::*;
use crate::crypto::EncryptedMessage;

verus! {

/// The hex character of a value below 16.
pub open spec fn hex_digit(n: u8) -> char {
    if n == 0 {
        '0'
    } else if n == 1 {
        '1'
    } else if n == 2 {
        '2'
    } else if n == 3 {
        '3'
    } else if n == 4 {
        '4'
    } else if n == 5 {
        '5'
    } else if n == 6 {
        '6'
    } else if n == 7 {
        '7'
    } else if n == 8 {
        '8'
    } else if n == 9 {
        '9'
    } else if n == 10 {
        'a'
    } else if n == 11 {
        'b'
    } else if n == 12 {
        'c'
    } else if n == 13 {
        'd'
    } else if n == 14 {
        'e'
    } else {
        'f'
    }
}

/// The hex rendering of a byte sequence, two characters per byte.
pub open spec fn hex_of(bytes: Seq<u8>) -> Seq<char>
    decreases bytes.len(),
{
    if bytes.len() == 0 {
        Seq::empty()
    } else {
        hex_of(bytes.drop_last()) + seq![
            hex_digit(bytes.last() / 16),
            hex_digit(bytes.last() % 16),
        ]
    }
}

/// The stored rendering of an encrypted body: hex nonce, a colon, hex
/// ciphertext.
pub open spec fn frame_of(nonce: Seq<u8>, ciphertext: Seq<u8>) -> Seq<char> {
    hex_of(nonce) + seq![':'] + hex_of(ciphertext)
}

pub proof fn lemma_hex_of_len(bytes: Seq<u8>)
    ensures
        hex_of(bytes).len() == 2 * bytes.len(),
    decreases bytes.len(),
{
    if bytes.len() > 0 {
        lemma_hex_of_len(bytes.drop_last());
    }
}

/// Character `2k` of the rendering is the high nibble of byte `k`, and
/// character `2k + 1` its low nibble.
pub proof fn lemma_hex_of_index(bytes: Seq<u8>, k: int)
    requires
        0 <= k < bytes.len(),
    ensures
        hex_of(bytes).len() == 2 * bytes.len(),
        hex_of(bytes)[2 * k] == hex_digit(bytes[k] / 16),
        hex_of(bytes)[2 * k + 1] == hex_digit(bytes[k] % 16),
    decreases bytes.len(),
{
    lemma_hex_of_len(bytes);
    if k == bytes.len() - 1 {
        lemma_hex_of_len(bytes.drop_last());
    } else {
        lemma_hex_of_index(bytes.drop_last(), k);
    }
}

/// Every character of a hex rendering is an ASCII hex digit; in particular
/// none of them is the colon separator.
pub proof fn lemma_hex_of_chars(bytes: Seq<u8>)
    ensures
        vstd::utf8::is_ascii_chars(hex_of(bytes)),
        forall|i: int| 0 <= i < hex_of(bytes).len() ==> hex_of(bytes)[i] != ':',
    decreases bytes.len(),
{
    if bytes.len() > 0 {
        lemma_hex_of_chars(bytes.drop_last());
    }
}

/// Distinct values below 16 render as distinct hex characters.
pub proof fn lemma_hex_digit_injective(x: u8, y: u8)
    requires
        x < 16,
        y < 16,
        hex_digit(x) == hex_digit(y),
    ensures
        x == y,
{
}

/// Hex rendering is injective: equal renderings come from equal bytes.
pub proof fn lemma_hex_of_injective(b1: Seq<u8>, b2: Seq<u8>)
    requires
        hex_of(b1) == hex_of(b2),
    ensures
        b1 == b2,
    decreases b1.len(),
{
    lemma_hex_of_len(b1);
    lemma_hex_of_len(b2);
    if b1.len() == 0 {
        assert(b1 =~= b2);
    } else {
        let d1 = b1.drop_last();
        let d2 = b2.drop_last();
        lemma_hex_of_len(d1);
        lemma_hex_of_len(d2);
        assert(hex_of(d1) =~= hex_of(d2)) by {
            assert(forall|i: int| 0 <= i < hex_of(d1).len() ==> #[trigger] hex_of(d1)[i]
                == hex_of(b1)[i]);
            assert(forall|i: int| 0 <= i < hex_of(d2).len() ==> #[trigger] hex_of(d2)[i]
                == hex_of(b2)[i]);
        }
        lemma_hex_of_injective(d1, d2);
        let n = hex_of(b1).len();
        assert(hex_of(b1)[n - 2] == hex_digit(b1.last() / 16));
        assert(hex_of(b1)[n - 1] == hex_digit(b1.last() % 16));
        assert(hex_of(b2)[n - 2] == hex_digit(b2.last() / 16));
        assert(hex_of(b2)[n - 1] == hex_digit(b2.last() % 16));
        lemma_hex_digit_injective(b1.last() / 16, b2.last() / 16);
        lemma_hex_digit_injective(b1.last() % 16, b2.last() % 16);
        assert(b1.last() == b2.last());
        assert(b1.len() == b2.len());
        assert(forall|i: int| 0 <= i < b1.len() - 1 ==> #[trigger] b1[i] == d1[i]);
        assert(forall|i: int| 0 <= i < b2.len() - 1 ==> #[trigger] b2[i] == d2[i]);
        assert(b1 =~= b2);
    }
}

/// Framing is injective: an equal framed string comes from the same nonce
/// and ciphertext.
pub proof fn lemma_frame_injective(n1: Seq<u8>, c1: Seq<u8>, n2: Seq<u8>, c2: Seq<u8>)
    requires
        frame_of(n1, c1) == frame_of(n2, c2),
    ensures
        n1 == n2,
        c1 == c2,
{
    lemma_hex_of_len(n1);
    lemma_hex_of_len(n2);
    lemma_hex_of_len(c1);
    lemma_hex_of_len(c2);
    lemma_hex_of_chars(n1);
    lemma_hex_of_chars(n2);
    let f = frame_of(n1, c1);
    let p1 = hex_of(n1).len() as int;
    let p2 = hex_of(n2).len() as int;
    assert(f[p1] == ':');
    assert(frame_of(n2, c2)[p2] == ':');
    if p1 < p2 {
        assert(frame_of(n2, c2)[p1] == hex_of(n2)[p1]);
        assert(false);
    }
    if p2 < p1 {
        assert(f[p2] == hex_of(n1)[p2]);
        assert(false);
    }
    assert(hex_of(n1) =~= hex_of(n2)) by {
        assert(forall|i: int| 0 <= i < p1 ==> #[trigger] hex_of(n1)[i] == f[i]);
        assert(forall|i: int| 0 <= i < p1 ==> #[trigger] hex_of(n2)[i] == frame_of(n2, c2)[i]);
    }
    assert(f.len() == p1 + 1 + hex_of(c1).len());
    assert(frame_of(n2, c2).len() == p2 + 1 + hex_of(c2).len());
    assert(hex_of(c1).len() == hex_of(c2).len());
    assert(hex_of(c1) =~= hex_of(c2)) by {
        assert(forall|i: int| 0 <= i < hex_of(c1).len() ==> #[trigger] hex_of(c1)[i]
            == f[p1 + 1 + i]);
        assert(forall|i: int| 0 <= i < hex_of(c2).len() ==> #[trigger] hex_of(c2)[i]
            == frame_of(n2, c2)[p1 + 1 + i]);
    }
    lemma_hex_of_injective(n1, n2);
    lemma_hex_of_injective(c1, c2);
}

/// The bytes of an ASCII character sequence, one per character.
pub open spec fn ascii_bytes(chars: Seq<char>) -> Seq<u8> {
    Seq::new(chars.len(), |i: int| chars[i] as u8)
}

pub proof fn lemma_ascii_encode(chars: Seq<char>)
    requires
        vstd::utf8::is_ascii_chars(chars),
    ensures
        vstd::utf8::encode_utf8(chars) == ascii_bytes(chars),
{
    vstd::utf8::is_ascii_chars_encode_utf8(chars);
    assert(vstd::utf8::encode_utf8(chars) =~= ascii_bytes(chars));
}

/// The ASCII byte of the hex character of a value below 16.
fn hex_digit_ascii(n: u8) -> (b: u8)
    requires
        n < 16,
    ensures
        b == hex_digit(n) as u8,
        b == hex_digit(n),
{
    if n < 10 {
        48 + n
    } else {
        87 + n
    }
}

/// The value of a hex character, if it is one.
fn hex_val(c: char) -> (r: Option<u8>)
    ensures
        r matches Some(v) ==> v < 16 && hex_digit(v) == c,
        r is None ==> forall|v: u8| v < 16 ==> hex_digit(v) != c,
{
    let u: u32 = c as u32;
    if 48 <= u && u <= 57 {
        Some((u - 48) as u8)
    } else if 97 <= u && u <= 102 {
        Some((u - 87) as u8)
    } else {
        None
    }
}

/// Renders a byte sequence as its hex string.
pub fn hex_encode(bytes: &Vec<u8>) -> (r: String)
    ensures
        r@ == hex_of(bytes@),
{
    let mut hb: Vec<u8> = Vec::new();
    let mut i: usize = 0;
    proof {
        assert(bytes@.subrange(0, 0) =~= Seq::<u8>::empty());
        assert(hb@ =~= ascii_bytes(hex_of(bytes@.subrange(0, 0))));
    }
    while i < bytes.len()
        invariant
            i <= bytes@.len(),
            hb@ == ascii_bytes(hex_of(bytes@.subrange(0, i as int))),
            hb@.len() == 2 * i,
        decreases bytes@.len() - i,
    {
        let b = bytes[i];
        let ghost prefix = bytes@.subrange(0, i as int);
        let ghost prefix2 = bytes@.subrange(0, i as int + 1);
        proof {
            lemma_hex_of_len(prefix);
        }
        hb.push(hex_digit_ascii(b / 16));
        hb.push(hex_digit_ascii(b % 16));
        proof {
            assert(prefix2.drop_last() =~= prefix);
            assert(hex_of(prefix2) == hex_of(prefix) + seq![
                hex_digit(b / 16),
                hex_digit(b % 16),
            ]);
            assert(hb@ =~= ascii_bytes(hex_of(prefix2)));
        }
        i = i + 1;
    }
    proof {
        assert(bytes@.subrange(0, bytes@.len() as int) =~= bytes@);
        lemma_hex_of_chars(bytes@);
        lemma_ascii_encode(hex_of(bytes@));
        vstd::utf8::encode_utf8_valid_utf8(hex_of(bytes@));
    }
    let ghost target = hex_of(bytes@);
    match crate::crypto::string_from_utf8(hb) {
        Some(s) => {
            proof {
                vstd::utf8::encode_utf8_decode_utf8(s@);
                vstd::utf8::encode_utf8_decode_utf8(target);
            }
            s
        },
        None => {
            proof {
                assert(false);
            }
            String::new()
        },
    }
}

/// Parses a hex string back into bytes; succeeds on exactly the strings
/// [`hex_of`] produces.
pub fn hex_decode(s: &str) -> (r: Option<Vec<u8>>)
    ensures
        r matches Some(b) ==> s@ == hex_of(b@),
        r is None ==> forall|b: Seq<u8>| s@ != hex_of(b),
{
    let n = s.unicode_len();
    if n % 2 != 0 {
        proof {
            assert forall|b: Seq<u8>| s@ != hex_of(b) by {
                lemma_hex_of_len(b);
            }
        }
        return None;
    }
    let mut out: Vec<u8> = Vec::new();
    let mut i: usize = 0;
    proof {
        assert(hex_of(out@) =~= s@.subrange(0, 0));
    }
    while i < n / 2
        invariant
            n == s@.len(),
            n % 2 == 0,
            i <= n / 2,
            out@.len() == i,
            hex_of(out@) == s@.subrange(0, 2 * i as int),
        decreases n / 2 - i,
    {
        let c1 = s.get_char(2 * i);
        let c2 = s.get_char(2 * i + 1);
        let v1 = match hex_val(c1) {
            Some(v) => v,
            None => {
                proof {
                    assert forall|b: Seq<u8>| s@ != hex_of(b) by {
                        if s@ == hex_of(b) {
                            lemma_hex_of_len(b);
                            lemma_hex_of_index(b, i as int);
                        }
                    }
                }
                return None;
            },
        };
        let v2 = match hex_val(c2) {
            Some(v) => v,
            None => {
                proof {
                    assert forall|b: Seq<u8>| s@ != hex_of(b) by {
                        if s@ == hex_of(b) {
                            lemma_hex_of_len(b);
                            lemma_hex_of_index(b, i as int);
                        }
                    }
                }
                return None;
            },
        };
        let ghost old_out = out@;
        out.push(16 * v1 + v2);
        proof {
            assert(out@.drop_last() =~= old_out);
            assert(out@.last() / 16 == v1 && out@.last() % 16 == v2) by {
                assert(16 * v1 + v2 < 256);
            }
            assert(hex_of(out@) =~= s@.subrange(0, 2 * i as int + 2));
        }
        i = i + 1;
    }
    proof {
        assert(s@.subrange(0, s@.len() as int) =~= s@);
    }
    Some(out)
}

/// Renders an encrypted body in its stored form.
pub fn encode_encrypted(e: &EncryptedMessage) -> (r: String)
    ensures
        r@ == frame_of(e.nonce@, e.ciphertext@),
{
    let mut r = hex_encode(&e.nonce);
    r.append(":");
    let tail = hex_encode(&e.ciphertext);
    r.append(tail.as_str());
    proof {
        reveal_strlit(":");
        assert(r@ =~= frame_of(e.nonce@, e.ciphertext@));
    }
    r
}

/// Parses a stored encrypted body; succeeds on exactly the strings
/// [`encode_encrypted`] produces.
pub fn decode_encrypted(s: &str) -> (r: Option<EncryptedMessage>)
    ensures
        r matches Some(e) ==> s@ == frame_of(e.nonce@, e.ciphertext@),
        r is None ==> forall|n: Seq<u8>, c: Seq<u8>| s@ != frame_of(n, c),
{
    let len = s.unicode_len();
    let mut sep: usize = 0;
    let mut found = false;
    let mut i: usize = 0;
    while i < len
        invariant
            len == s@.len(),
            !found ==> forall|j: int| 0 <= j < i ==> s@[j] != ':',
            found ==> sep < len && s@[sep as int] == ':' && forall|j: int|
                0 <= j < sep ==> s@[j] != ':',
            sep <= len,
            i <= len,
        decreases len - i,
    {
        if !found {
            if s.get_char(i) == ':' {
                sep = i;
                found = true;
            }
        }
        i = i + 1;
    }
    if !found {
        proof {
            assert forall|n: Seq<u8>, c: Seq<u8>| s@ != frame_of(n, c) by {
                if s@ == frame_of(n, c) {
                    lemma_hex_of_len(n);
                    assert(s@[hex_of(n).len() as int] == ':');
                }
            }
        }
        return None;
    }
    let left = s.substring_char(0, sep);
    let right = s.substring_char(sep + 1, len);
    proof {
        // In any framing of `s`, the first colon sits exactly after the
        // nonce's rendering, so the split is the framing's own.
        assert forall|n: Seq<u8>, c: Seq<u8>| s@ == frame_of(n, c) implies left@ == hex_of(n)
            && right@ == hex_of(c) by {
            lemma_hex_of_len(n);
            lemma_hex_of_chars(n);
            let p = hex_of(n).len() as int;
            assert(s@[p] == ':');
            assert forall|j: int| 0 <= j < p implies s@[j] != ':' by {
                assert(s@[j] == hex_of(n)[j]);
            }
            if sep < p {
                assert(s@[sep as int] == hex_of(n)[sep as int]);
                lemma_hex_of_chars(n);
                assert(false);
            }
            if sep > p {
                assert(false);
            }
            assert(left@ =~= hex_of(n));
            assert(right@ =~= hex_of(c));
        }
    }
    let nonce = match hex_decode(left) {
        Some(b) => b,
        None => {
            return None;
        },
    };
    let ciphertext = match hex_decode(right) {
        Some(b) => b,
        None => {
            return None;
        },
    };
    proof {
        assert(s@ =~= frame_of(nonce@, ciphertext@));
    }
    Some(EncryptedMessage { ciphertext, nonce })
}

} // verus!
