//! Hashing and verification of credential strings in four variants.
use rand::distr::{Alphanumeric, SampleString};
use sha2::{Digest, Sha512};
use vstd::prelude::*;

verus! {

/// The SHA-512 digest of the UTF-8 encoding of a text.
pub uninterp spec fn sha512_of(text: Seq<char>) -> Seq<u8>;

/// The lowercase hexadecimal digit of a value below sixteen.
pub open spec fn hex_digit(n: u8) -> char {
    if n < 10 {
        ((n + 48) as u8) as char
    } else {
        ((n + 87) as u8) as char
    }
}

/// Two lowercase hexadecimal digits per byte, high nibble first.
pub open spec fn hex_of(bytes: Seq<u8>) -> Seq<char> {
    Seq::new(
        2 * bytes.len(),
        |i: int|
            if i % 2 == 0 {
                hex_digit(bytes[i / 2] / 16)
            } else {
                hex_digit(bytes[i / 2] % 16)
            },
    )
}

/// The separator between the salt and the digest of a salted hash.
pub open spec fn separator() -> char {
    '$'
}

/// An ASCII letter or digit.
pub open spec fn is_alphanumeric(c: char) -> bool {
    ('0' <= c <= '9') || ('a' <= c <= 'z') || ('A' <= c <= 'Z')
}

/// The text of an optional part, empty when absent.
pub open spec fn part_text(part: Option<Seq<char>>) -> Seq<char> {
    match part {
        Some(t) => t,
        None => Seq::empty(),
    }
}

/// The stored form of a value hashed with an optional pepper and salt:
/// the hex digest of value, pepper and salt in that order, preceded by
/// the salt and the separator when there is a salt.
pub open spec fn encoded(value: Seq<char>, pepper: Option<Seq<char>>, salt: Option<Seq<char>>) -> Seq<
    char,
> {
    let digest = hex_of(sha512_of(value + part_text(pepper) + part_text(salt)));
    match salt {
        Some(s) => s + seq![separator()] + digest,
        None => digest,
    }
}

/// `i` is the position of the first separator in `text`.
pub open spec fn is_first_separator(text: Seq<char>, i: int) -> bool {
    &&& 0 <= i < text.len()
    &&& text[i] == separator()
    &&& forall|j: int| 0 <= j < i ==> text[j] != separator()
}

/// The part of a text before its first separator, if it has one.
pub open spec fn salt_of(text: Seq<char>) -> Option<Seq<char>> {
    if exists|i: int| is_first_separator(text, i) {
        Some(text.take(choose|i: int| is_first_separator(text, i)))
    } else {
        None
    }
}

/// The four ways a credential string can be hashed.
#[derive(Clone, Copy, Debug, PartialEq, Eq, Structural)]
pub enum Method {
    Hash,
    Salt,
    Pepper,
    SaltPepper,
}

impl Method {
    pub open spec fn uses_salt(self) -> bool {
        self is Salt || self is SaltPepper
    }

    pub open spec fn uses_pepper(self) -> bool {
        self is Pepper || self is SaltPepper
    }
}

/// Hashes and verifies credential strings with a fixed salt length and a
/// process-wide pepper.
pub struct PasswordHandler {
    salt_length: usize,
    pepper: String,
}

/// Relies on sha2's `Sha512::digest`: the 64-byte digest of the text's bytes.
#[verifier::external_body]
fn sha512_digest(text: &str) -> (r: Vec<u8>)
    ensures
        r@ == sha512_of(text@),
        r@.len() == 64,
{
    Sha512::digest(text.as_bytes()).to_vec()
}

/// Relies on `hex::encode`: each byte becomes two lowercase hexadecimal digits.
#[verifier::external_body]
fn hex_encode(bytes: &[u8]) -> (r: String)
    ensures
        r@ == hex_of(bytes@),
{
    hex::encode(bytes)
}

impl PasswordHandler {
    pub closed spec fn spec_salt_length(&self) -> nat {
        self.salt_length as nat
    }

    pub closed spec fn spec_pepper(&self) -> Seq<char> {
        self.pepper@
    }

    /// The pepper that `method` mixes in.
    pub open spec fn pepper_for(&self, method: Method) -> Option<Seq<char>> {
        if method.uses_pepper() {
            Some(self.spec_pepper())
        } else {
            None
        }
    }

    /// A salt as this handler generates it.
    pub open spec fn is_salt(&self, salt: Seq<char>) -> bool {
        &&& salt.len() == self.spec_salt_length()
        &&& forall|i: int| 0 <= i < salt.len() ==> is_alphanumeric(#[trigger] salt[i])
    }

    /// `stored` is one of the results that hashing `value` with `method` can
    /// give: for salted methods the salt is the fresh prefix of the result.
    pub open spec fn is_hash_result(&self, value: Seq<char>, method: Method, stored: Seq<char>) -> bool {
        if method.uses_salt() {
            let salt = stored.take(self.spec_salt_length() as int);
            &&& self.spec_salt_length() <= stored.len()
            &&& self.is_salt(salt)
            &&& stored == encoded(value, self.pepper_for(method), Some(salt))
        } else {
            stored == encoded(value, self.pepper_for(method), None)
        }
    }

    /// `stored` verifies `value` under `method`: the salt is recovered from
    /// `stored` for salted methods (failing without a separator) and the
    /// re-derived hash equals `stored`.
    pub open spec fn verifies(&self, value: Seq<char>, stored: Seq<char>, method: Method) -> bool {
        if method.uses_salt() {
            match salt_of(stored) {
                Some(salt) => encoded(value, self.pepper_for(method), Some(salt)) == stored,
                None => false,
            }
        } else {
            encoded(value, self.pepper_for(method), None) == stored
        }
    }

    pub fn new(salt_length: usize, pepper: String) -> (r: Self)
        ensures
            r.spec_salt_length() == salt_length,
            r.spec_pepper() == pepper@,
    {
        Self { salt_length, pepper }
    }

    /// Hashes `value`; salted methods draw a fresh salt for each call.
    pub fn hash(&self, value: &str, method: Method) -> (r: String)
        ensures
            self.is_hash_result(value@, method, r@),
            method.uses_salt() ==> r@.len() == self.spec_salt_length() + 129,
            !method.uses_salt() ==> r@.len() == 128,
    {
        let pepper = match method {
            Method::Pepper | Method::SaltPepper => Some(self.pepper.as_str()),
            _ => None,
        };
        match method {
            Method::Salt | Method::SaltPepper => {
                let salt = self.generate_string(self.salt_length);
                let r = Self::hash_internal(value, Some(salt.as_str()), pepper);
                assert(r@.take(self.salt_length as int) =~= salt@);
                r
            },
            _ => Self::hash_internal(value, None, pepper),
        }
    }

    /// Whether `original_hash` is a hash of `value` under `method`.
    pub fn is_hash_of(&self, value: &str, original_hash: &str, method: Method) -> (r: bool)
        ensures
            r == self.verifies(value@, original_hash@, method),
    {
        let pepper = match method {
            Method::Pepper | Method::SaltPepper => Some(self.pepper.as_str()),
            _ => None,
        };
        let salt = match method {
            Method::Salt | Method::SaltPepper => match Self::extract_salt(original_hash) {
                Some(salt) => Some(salt),
                None => {
                    return false;
                },
            },
            _ => None,
        };
        let hash = Self::hash_internal(value, salt, pepper);
        let expected = String::from_str(original_hash);
        hash == expected
    }

    /// The stored form of `value` with the given salt and pepper.
    pub fn hash_internal(value: &str, salt: Option<&str>, pepper: Option<&str>) -> (r: String)
        ensures
            r@ == encoded(
                value@,
                match pepper {
                    Some(p) => Some(p@),
                    None => None,
                },
                match salt {
                    Some(s) => Some(s@),
                    None => None,
                },
            ),
            r@.len() == match salt {
                Some(s) => s@.len() + 129,
                None => 128,
            },
    {
        let mut pre_hash = String::from_str(value);
        if let Some(p) = pepper {
            pre_hash.append(p);
        }
        if let Some(s) = salt {
            pre_hash.append(s);
        }
        let digest = sha512_digest(pre_hash.as_str());
        let hash = hex_encode(digest.as_slice());
        match salt {
            Some(s) => {
                let mut out = String::from_str(s);
                proof {
                    reveal_strlit("$");
                }
                out.append("$");
                out.append(hash.as_str());
                out
            },
            None => hash,
        }
    }

    /// The part of `value` before its first separator.
    fn extract_salt(value: &str) -> (r: Option<&str>)
        ensures
            match r {
                Some(s) => salt_of(value@) == Some(s@),
                None => salt_of(value@) is None,
            },
    {
        let n = value.unicode_len();
        let mut i: usize = 0;
        while i < n
            invariant
                n == value@.len(),
                i <= n,
                forall|j: int| 0 <= j < i ==> value@[j] != separator(),
            decreases n - i,
        {
            if value.get_char(i) == '$' {
                proof {
                    lemma_first_separator_unique(value@, i as int);
                }
                return Some(value.substring_char(0, i));
            }
            i = i + 1;
        }
        None
    }

    /// Relies on rand's `Alphanumeric` distribution: `length` characters
    /// drawn from ASCII letters and digits.
    #[verifier::external_body]
    fn generate_string(&self, length: usize) -> (r: String)
        ensures
            r@.len() == length,
            forall|i: int| 0 <= i < r@.len() ==> is_alphanumeric(#[trigger] r@[i]),
    {
        Alphanumeric.sample_string(&mut rand::rng(), length)
    }
}

/// The first separator of a text is at `i` whenever `i` is a separator with
/// none before it.
proof fn lemma_first_separator_unique(text: Seq<char>, i: int)
    requires
        is_first_separator(text, i),
    ensures
        salt_of(text) == Some(text.take(i)),
{
    let k = choose|k: int| is_first_separator(text, k);
    assert(is_first_separator(text, k));
    assert(k == i);
}

/// Every result of hashing a value verifies that value: salts never contain
/// the separator, so verification recovers exactly the salt that was drawn.
pub proof fn lemma_hash_result_verifies(
    handler: &PasswordHandler,
    value: Seq<char>,
    method: Method,
    stored: Seq<char>,
)
    requires
        handler.is_hash_result(value, method, stored),
    ensures
        handler.verifies(value, stored, method),
{
    if method.uses_salt() {
        let n = handler.spec_salt_length() as int;
        let salt = stored.take(n);
        assert(stored[n] == separator());
        assert forall|j: int| 0 <= j < n implies stored[j] != separator() by {
            assert(stored[j] == salt[j]);
            assert(is_alphanumeric(salt[j]));
        }
        assert(is_first_separator(stored, n));
        lemma_first_separator_unique(stored, n);
    }
}

/// Against a salted result of hashing `value`, another value verifies
/// exactly when its digest under the same pepper and salt equals the digest
/// of `value`.
pub proof fn lemma_other_value_verifies_iff_same_digest(
    handler: &PasswordHandler,
    value: Seq<char>,
    other: Seq<char>,
    method: Method,
    stored: Seq<char>,
)
    requires
        method.uses_salt(),
        handler.is_hash_result(value, method, stored),
    ensures
        ({
            let salt = stored.take(handler.spec_salt_length() as int);
            let pepper = part_text(handler.pepper_for(method));
            handler.verifies(other, stored, method) <==> hex_of(sha512_of(other + pepper + salt))
                == hex_of(sha512_of(value + pepper + salt))
        }),
{
    lemma_hash_result_verifies(handler, value, method, stored);
    let n = handler.spec_salt_length() as int;
    let salt = stored.take(n);
    let pepper = part_text(handler.pepper_for(method));
    let d1 = hex_of(sha512_of(other + pepper + salt));
    let d2 = hex_of(sha512_of(value + pepper + salt));
    let prefix = salt + seq![separator()];
    assert(salt_of(stored) == Some(salt));
    if encoded(other, handler.pepper_for(method), Some(salt)) == stored {
        assert(d1 =~= stored.skip(prefix.len() as int));
        assert(d2 =~= stored.skip(prefix.len() as int));
    }
    if d1 == d2 {
        assert(encoded(other, handler.pepper_for(method), Some(salt)) == prefix + d1);
    }
}

} // verus!
