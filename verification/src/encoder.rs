use vstd::prelude::*;

verus! {

/// The short code that the hashids scheme assigns to `value` under the given
/// salt and minimum code length. The scheme itself takes pages to state and is
/// a pure function of these three arguments alone, so the result is only named
/// here; `ShortCodeEncoder::encode_value` ties the name to the outside
/// implementation.
pub uninterp spec fn encode_of(salt: Seq<char>, code_length: nat, value: u64) -> Seq<char>;

/// The values that the hashids scheme decodes `code` back to under the given
/// salt and minimum code length, or `None` where `code` is not a well-formed
/// hashid. Like `encode_of`, this is a pure function of its arguments and is
/// only named here.
pub uninterp spec fn decode_of(salt: Seq<char>, code_length: nat, code: Seq<char>) -> Option<
    Seq<u64>,
>;

/// Whether `id` is a code the encoder could already have handed out by the
/// time the URL counter reads `c`: it decodes back to a single counter value
/// in `1..=c`. Every code minted so far satisfies this, so a code that does
/// not — in particular the code of a counter value above `c` — is fresh.
pub open spec fn code_within(salt: Seq<char>, code_length: nat, id: Seq<char>, c: u64) -> bool {
    &&& decode_of(salt, code_length, id) is Some
    &&& decode_of(salt, code_length, id)->0.len() == 1
    &&& 1 <= decode_of(salt, code_length, id)->0[0] <= c
}

/// Deterministic, reversible mapping from a counter value to a short
/// alphanumeric code that does not reveal the counter, parameterized by a
/// secret salt and a minimum output length, both fixed at construction.
pub struct ShortCodeEncoder {
    pub salt: String,
    pub code_length: usize,
}

impl ShortCodeEncoder {
    pub fn new(salt: String, code_length: usize) -> (r: ShortCodeEncoder)
        ensures
            r.salt@ == salt@,
            r.code_length == code_length,
    {
        ShortCodeEncoder { salt, code_length }
    }

    /// Relies on harsh's `HarshBuilder::build` and `Harsh::encode` / `Harsh::decode`:
    /// the builder cannot fail with the default alphabet (it only rejects
    /// alphabets of fewer than 16 distinct characters and separators outside
    /// the alphabet); `encode` is a pure function of the salt, the minimum
    /// length and the encoded values; and `decode` recovers exactly the values
    /// that were encoded, so a code determines the value it was minted from.
    #[verifier::external_body]
    pub fn encode_value(&self, value: u64) -> (r: String)
        ensures
            r@ == encode_of(self.salt@, self.code_length as nat, value),
            decode_of(self.salt@, self.code_length as nat, r@) == Some(seq![value]),
    {
        let harsh = harsh::Harsh::builder()
            .salt(self.salt.as_str())
            .length(self.code_length)
            .build()
            .expect("the default alphabet always builds");
        harsh.encode(&[value])
    }
}

/// Law: the encoder is injective — two distinct counter values never receive
/// the same short code. The hypothesis of the conclusion is exactly what
/// `encode_value` guarantees of each code it returns: the code decodes back to
/// the value it was minted from.
pub proof fn lemma_encode_injective(salt: Seq<char>, code_length: nat, a: u64, b: u64)
    requires
        a != b,
    ensures
        (decode_of(salt, code_length, encode_of(salt, code_length, a)) == Some(seq![a])
            && decode_of(salt, code_length, encode_of(salt, code_length, b)) == Some(seq![b]))
            ==> encode_of(salt, code_length, a) != encode_of(salt, code_length, b),
{
    if decode_of(salt, code_length, encode_of(salt, code_length, a)) == Some(seq![a])
        && decode_of(salt, code_length, encode_of(salt, code_length, b)) == Some(seq![b])
        && encode_of(salt, code_length, a) == encode_of(salt, code_length, b) {
        assert(seq![a] == seq![b]);
        assert(seq![a][0] == a);
        assert(seq![b][0] == b);
        assert(false);
    }
}

} // verus!
