//! Listing and offer keys, and the order in which the registry keeps them.
//!
//! Listings are identified by `(collection_address, token_id)` and stored in
//! ascending key order, where strings are compared lexicographically by their
//! UTF-8 bytes. Range queries return pages in exactly this order.

use vstd::prelude::*;
use vstd::utf8::{encode_utf8, encode_utf8_decode_utf8};

verus! {

/// Strict lexicographic order on byte strings.
pub open spec fn bytes_lt(a: Seq<u8>, b: Seq<u8>) -> bool
    decreases a.len(),
{
    if b.len() == 0 {
        false
    } else if a.len() == 0 {
        true
    } else if a[0] < b[0] {
        true
    } else if a[0] == b[0] {
        bytes_lt(a.drop_first(), b.drop_first())
    } else {
        false
    }
}

/// Strict order on strings: lexicographic on their UTF-8 encodings.
pub open spec fn chars_lt(a: Seq<char>, b: Seq<char>) -> bool {
    bytes_lt(encode_utf8(a), encode_utf8(b))
}

/// Strict order on listing keys: by collection address, then by token id.
pub open spec fn lkey_lt(a: (Seq<char>, Seq<char>), b: (Seq<char>, Seq<char>)) -> bool {
    chars_lt(a.0, b.0) || (a.0 == b.0 && chars_lt(a.1, b.1))
}

pub proof fn lemma_bytes_lt_irrefl(a: Seq<u8>)
    ensures
        !bytes_lt(a, a),
    decreases a.len(),
{
    if a.len() > 0 {
        lemma_bytes_lt_irrefl(a.drop_first());
    }
}

/// Two byte strings that are not strictly ordered either way are equal.
pub proof fn lemma_bytes_lt_connected(a: Seq<u8>, b: Seq<u8>)
    requires
        !bytes_lt(a, b),
        !bytes_lt(b, a),
    ensures
        a == b,
    decreases a.len(),
{
    if a.len() == 0 && b.len() == 0 {
        assert(a =~= b);
    } else if a.len() > 0 && b.len() > 0 {
        lemma_bytes_lt_connected(a.drop_first(), b.drop_first());
        assert(a =~= b) by {
            assert(a.drop_first() == b.drop_first());
            assert(forall|i: int|
                1 <= i < a.len() ==> a[i] == a.drop_first()[i - 1] && b[i] == b.drop_first()[i
                    - 1]);
        }
    }
}

pub proof fn lemma_bytes_lt_trans(a: Seq<u8>, b: Seq<u8>, c: Seq<u8>)
    requires
        bytes_lt(a, b),
        bytes_lt(b, c),
    ensures
        bytes_lt(a, c),
    decreases a.len(),
{
    if a.len() > 0 {
        if a[0] == b[0] && b[0] == c[0] {
            lemma_bytes_lt_trans(a.drop_first(), b.drop_first(), c.drop_first());
        }
    }
}

/// Dropping an equal prefix does not change the order of two byte strings.
pub proof fn lemma_bytes_lt_skip(a: Seq<u8>, b: Seq<u8>, n: int)
    requires
        0 <= n <= a.len(),
        n <= b.len(),
        a.subrange(0, n) == b.subrange(0, n),
    ensures
        bytes_lt(a, b) == bytes_lt(a.skip(n), b.skip(n)),
    decreases n,
{
    if n == 0 {
        assert(a.skip(0) =~= a);
        assert(b.skip(0) =~= b);
    } else {
        assert(a[0] == b[0]) by {
            assert(a.subrange(0, n)[0] == a[0]);
            assert(b.subrange(0, n)[0] == b[0]);
        }
        assert(a.drop_first().subrange(0, n - 1) =~= b.drop_first().subrange(0, n - 1)) by {
            assert(forall|i: int|
                0 <= i < n - 1 ==> a.drop_first()[i] == a.subrange(0, n)[i + 1]
                    && b.drop_first()[i] == b.subrange(0, n)[i + 1]);
        }
        lemma_bytes_lt_skip(a.drop_first(), b.drop_first(), n - 1);
        assert(a.drop_first().skip(n - 1) =~= a.skip(n));
        assert(b.drop_first().skip(n - 1) =~= b.skip(n));
    }
}

/// The UTF-8 encoding of a character sequence determines the sequence.
pub proof fn lemma_encode_utf8_injective(a: Seq<char>, b: Seq<char>)
    requires
        encode_utf8(a) == encode_utf8(b),
    ensures
        a == b,
{
    encode_utf8_decode_utf8(a);
    encode_utf8_decode_utf8(b);
}

pub proof fn lemma_chars_lt_irrefl(a: Seq<char>)
    ensures
        !chars_lt(a, a),
{
    lemma_bytes_lt_irrefl(encode_utf8(a));
}

pub proof fn lemma_chars_lt_connected(a: Seq<char>, b: Seq<char>)
    requires
        !chars_lt(a, b),
        !chars_lt(b, a),
    ensures
        a == b,
{
    lemma_bytes_lt_connected(encode_utf8(a), encode_utf8(b));
    lemma_encode_utf8_injective(a, b);
}

pub proof fn lemma_chars_lt_trans(a: Seq<char>, b: Seq<char>, c: Seq<char>)
    requires
        chars_lt(a, b),
        chars_lt(b, c),
    ensures
        chars_lt(a, c),
{
    lemma_bytes_lt_trans(encode_utf8(a), encode_utf8(b), encode_utf8(c));
}

pub proof fn lemma_lkey_lt_irrefl(a: (Seq<char>, Seq<char>))
    ensures
        !lkey_lt(a, a),
{
    lemma_chars_lt_irrefl(a.0);
    lemma_chars_lt_irrefl(a.1);
}

pub proof fn lemma_lkey_lt_connected(a: (Seq<char>, Seq<char>), b: (Seq<char>, Seq<char>))
    requires
        !lkey_lt(a, b),
        !lkey_lt(b, a),
    ensures
        a == b,
{
    lemma_chars_lt_connected(a.0, b.0);
    lemma_chars_lt_connected(a.1, b.1);
    assert(a =~= b);
}

pub proof fn lemma_lkey_lt_trans(
    a: (Seq<char>, Seq<char>),
    b: (Seq<char>, Seq<char>),
    c: (Seq<char>, Seq<char>),
)
    requires
        lkey_lt(a, b),
        lkey_lt(b, c),
    ensures
        lkey_lt(a, c),
{
    if chars_lt(a.0, b.0) && chars_lt(b.0, c.0) {
        lemma_chars_lt_trans(a.0, b.0, c.0);
    } else if a.0 == b.0 && b.0 == c.0 {
        lemma_chars_lt_trans(a.1, b.1, c.1);
    }
}

/// Exec comparison realising [`bytes_lt`].
fn bytes_lt_exec(a: &[u8], b: &[u8]) -> (r: bool)
    ensures
        r == bytes_lt(a@, b@),
{
    let mut i: usize = 0;
    loop
        invariant
            i <= a.len(),
            i <= b.len(),
            a@.subrange(0, i as int) == b@.subrange(0, i as int),
        decreases a.len() - i,
    {
        if i >= a.len() || i >= b.len() {
            proof {
                lemma_bytes_lt_skip(a@, b@, i as int);
            }
            return a.len() < b.len();
        }
        if a[i] != b[i] {
            proof {
                lemma_bytes_lt_skip(a@, b@, i as int);
                assert(a@.skip(i as int)[0] == a@[i as int]);
                assert(b@.skip(i as int)[0] == b@[i as int]);
            }
            return a[i] < b[i];
        }
        proof {
            assert(a@.subrange(0, i + 1 as int) =~= b@.subrange(0, i + 1 as int)) by {
                assert(forall|j: int|
                    0 <= j < i ==> a@.subrange(0, i + 1 as int)[j] == a@.subrange(0, i as int)[j]
                        && b@.subrange(0, i + 1 as int)[j] == b@.subrange(0, i as int)[j]);
            }
        }
        i = i + 1;
    }
}

/// Exec comparison realising [`chars_lt`].
pub fn str_lt(a: &str, b: &str) -> (r: bool)
    ensures
        r == chars_lt(a@, b@),
{
    bytes_lt_exec(a.as_bytes(), b.as_bytes())
}

/// Exec comparison realising [`lkey_lt`] on listing keys, given as collection
/// address and token id pairs.
pub fn lkey_lt_exec(a_coll: &String, a_tok: &String, b_coll: &String, b_tok: &String) -> (r: bool)
    ensures
        r == lkey_lt((a_coll@, a_tok@), (b_coll@, b_tok@)),
{
    if str_lt(a_coll.as_str(), b_coll.as_str()) {
        true
    } else if *a_coll == *b_coll {
        str_lt(a_tok.as_str(), b_tok.as_str())
    } else {
        false
    }
}

/// The unique key of a listing: collection address and token id.
pub fn listing_key(contract_address: &String, token_id: &String) -> (r: (String, String))
    ensures
        r.0@ == contract_address@,
        r.1@ == token_id@,
{
    (contract_address.clone(), token_id.clone())
}

/// The unique key of an offer: offerer, collection address and token id.
pub fn offer_key(user_address: &String, contract_address: &String, token_id: &str) -> (r: (
    String,
    String,
    String,
))
    ensures
        r.0@ == user_address@,
        r.1@ == contract_address@,
        r.2@ == token_id@,
{
    (user_address.clone(), contract_address.clone(), token_id.to_owned())
}

} // verus!
