//! Deterministic derivation of an inbox id from its creating account and a nonce.
use vstd::prelude::*;
use vstd::utf8::encode_utf8;

use crate::member::{IdView, Identifier};

verus! {

/// The SHA-256 digest of a byte string.
pub uninterp spec fn sha256_of(data: Seq<u8>) -> Seq<u8>;

/// Relies on sha2's `Sha256::digest`: the digest depends on the input bytes alone.
#[verifier::external_body]
fn sha256(data: &Vec<u8>) -> (r: Vec<u8>)
    ensures
        r@ == sha256_of(data@),
{
    <sha2::Sha256 as sha2::Digest>::digest(data.as_slice()).to_vec()
}

/// Relies on `String::push`: appends one character.
#[verifier::external_body]
fn push_char(s: &mut String, c: char)
    ensures
        final(s)@ == old(s)@.push(c),
{
    s.push(c)
}

/// Lower-case hexadecimal digit of a value below 16.
pub open spec fn hex_digit(n: u8) -> char {
    if n < 10 {
        (48 + n) as char
    } else {
        (87 + n) as char
    }
}

/// Lower-case hexadecimal text of a byte string, two digits per byte.
pub open spec fn hex_of(b: Seq<u8>) -> Seq<char>
    decreases b.len(),
{
    if b.len() == 0 {
        Seq::empty()
    } else {
        let last = b.last();
        hex_of(b.drop_last()).push(hex_digit(last / 16)).push(hex_digit(last % 16))
    }
}

/// Big-endian bytes of a nonce.
pub open spec fn nonce_bytes(n: u64) -> Seq<u8> {
    seq![
        (n >> 56u64) as u8,
        (n >> 48u64) as u8,
        (n >> 40u64) as u8,
        (n >> 32u64) as u8,
        (n >> 24u64) as u8,
        (n >> 16u64) as u8,
        (n >> 8u64) as u8,
        n as u8,
    ]
}

/// The bytes an identity contributes to its inbox id.
pub open spec fn id_bytes(id: IdView) -> Seq<u8> {
    match id {
        IdView::Ethereum(a) => encode_utf8(a),
        IdView::Passkey(k) => k,
        IdView::Installation(k) => k,
    }
}

/// The inbox id that `id` creates with `nonce`.
pub open spec fn inbox_id_of(id: IdView, nonce: u64) -> Seq<char> {
    hex_of(sha256_of(id_bytes(id) + nonce_bytes(nonce)))
}

fn hex_char(n: u8) -> (r: char)
    requires
        n < 16,
    ensures
        r == hex_digit(n),
{
    if n < 10 {
        (48 + n) as char
    } else {
        (87 + n) as char
    }
}

/// Hexadecimal text of `b`.
pub fn to_hex(b: &Vec<u8>) -> (r: String)
    ensures
        r@ == hex_of(b@),
{
    let mut r = String::new();
    let mut i: usize = 0;
    while i < b.len()
        invariant
            i <= b.len(),
            r@ == hex_of(b@.subrange(0, i as int)),
        decreases b.len() - i,
    {
        let x = b[i];
        push_char(&mut r, hex_char(x / 16));
        push_char(&mut r, hex_char(x % 16));
        proof {
            let s = b@.subrange(0, i + 1);
            assert(s.drop_last() =~= b@.subrange(0, i as int));
        }
        i = i + 1;
    }
    assert(b@.subrange(0, b.len() as int) =~= b@);
    r
}

fn push_all(out: &mut Vec<u8>, b: &[u8])
    ensures
        final(out)@ == old(out)@ + b@,
{
    let mut i: usize = 0;
    while i < b.len()
        invariant
            i <= b.len(),
            out@ == old(out)@ + b@.subrange(0, i as int),
        decreases b.len() - i,
    {
        out.push(b[i]);
        i = i + 1;
        assert(out@ =~= old(out)@ + b@.subrange(0, i as int));
    }
    assert(b@.subrange(0, b.len() as int) =~= b@);
}

impl Identifier {
    /// The inbox id this account creates with `nonce`.
    pub fn inbox_id(&self, nonce: u64) -> (r: String)
        ensures
            r@ == inbox_id_of(self@, nonce),
    {
        let mut message: Vec<u8> = Vec::new();
        match self {
            Identifier::Ethereum(a) => push_all(&mut message, a.as_str().as_bytes()),
            Identifier::Passkey(k) => push_all(&mut message, k.as_slice()),
        }
        let tail: [u8; 8] = [
            (nonce >> 56u64) as u8,
            (nonce >> 48u64) as u8,
            (nonce >> 40u64) as u8,
            (nonce >> 32u64) as u8,
            (nonce >> 24u64) as u8,
            (nonce >> 16u64) as u8,
            (nonce >> 8u64) as u8,
            nonce as u8,
        ];
        push_all(&mut message, tail.as_slice());
        assert(tail@ =~= nonce_bytes(nonce));
        to_hex(&sha256(&message))
    }
}

} // verus!
