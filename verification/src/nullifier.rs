//! Nullifiers: the one-time markers that keep spent stake from being used
//! again.

use crate::bytes::le_value;
use crate::field::{base_modulus, Base};
use core::str::FromStr;
use vstd::prelude::*;

verus! {

#[verifier::external_type_specification]
#[verifier::external_body]
pub struct ExBase58DecodeError(bs58::decode::Error);

/// The Base58 text of a byte string.
pub uninterp spec fn base58_text(bytes: Seq<u8>) -> Seq<char>;

/// The bytes that a Base58 text stands for, if it is one.
pub uninterp spec fn base58_bytes(text: Seq<char>) -> Option<Seq<u8>>;

/// `bs58::encode(..).into_string()`: the Base58 text of the bytes.
#[verifier::external_body]
fn base58_encode(bytes: &[u8; 32]) -> (text: String)
    ensures
        text@ == base58_text(bytes@),
{
    bs58::encode(bytes).into_string()
}

/// `bs58::decode(..).into_vec()`: the bytes that the text stands for, or
/// the reason why it stands for none.
#[verifier::external_body]
fn base58_decode(text: &str) -> (r: Result<Vec<u8>, bs58::decode::Error>)
    ensures
        match r {
            Ok(bytes) => base58_bytes(text@) == Some(bytes@),
            Err(_) => base58_bytes(text@) is None,
        },
{
    bs58::decode(text).into_vec()
}

/// Why a text is no nullifier.
#[derive(Clone, Copy, Debug, PartialEq, Eq, Structural)]
pub enum NullifierError {
    /// The text is not Base58.
    InvalidBase58,
    /// The text stands for more or fewer than 32 bytes.
    InvalidLength,
    /// The 32 bytes spell an integer that is no element of the base field.
    NotInField,
}

/// A nullifier: an element of the base field.
#[derive(Clone, Copy, Debug, PartialEq, Eq)]
pub struct Nullifier {
    inner: Base,
}

impl View for Nullifier {
    type V = Seq<u8>;

    /// The canonical encoding of the nullifier's field element.
    closed spec fn view(&self) -> Seq<u8> {
        self.inner@
    }
}

/// What a text parses to.
pub open spec fn parsed(text: Seq<char>) -> Result<Seq<u8>, NullifierError> {
    match base58_bytes(text) {
        None => Err(NullifierError::InvalidBase58),
        Some(bytes) => if bytes.len() != 32 {
            Err(NullifierError::InvalidLength)
        } else if le_value(bytes) < base_modulus() {
            Ok(bytes)
        } else {
            Err(NullifierError::NotInField)
        },
    }
}

impl Nullifier {
    /// The nullifier of a field element.
    pub closed spec fn of(x: Base) -> Nullifier {
        Nullifier { inner: x }
    }

    /// The nullifier of a field element has that element's encoding.
    pub proof fn lemma_of(x: Base)
        ensures
            Nullifier::of(x)@ == x@,
    {
    }

    /// The nullifier's field element.
    pub fn inner(&self) -> (x: Base)
        ensures
            x@ == self@,
    {
        self.inner
    }

    /// The nullifier that 32 bytes encode, if they spell an element of the
    /// base field.
    pub fn from_bytes(bytes: [u8; 32]) -> (r: Option<Nullifier>)
        ensures
            r is Some <==> le_value(bytes@) < base_modulus(),
            r is Some ==> r->0@ == bytes@,
    {
        match Base::from_repr(bytes) {
            Some(inner) => Some(Nullifier { inner }),
            None => None,
        }
    }

    /// The 32 bytes that encode the nullifier.
    pub fn to_bytes(&self) -> (bytes: [u8; 32])
        ensures
            bytes@ == self@,
            le_value(bytes@) < base_modulus(),
    {
        self.inner.to_repr()
    }

    /// The Base58 text of the nullifier's 32 bytes.
    pub fn to_base58(&self) -> (text: String)
        ensures
            text@ == base58_text(self@),
    {
        let bytes = self.to_bytes();
        base58_encode(&bytes)
    }

    /// The nullifier that the decoded bytes of a Base58 text encode.
    pub fn from_decoded(bytes: &Vec<u8>) -> (r: Result<Nullifier, NullifierError>)
        ensures
            match r {
                Ok(n) => bytes@.len() == 32 && le_value(bytes@) < base_modulus() && n@ == bytes@,
                Err(e) => e == if bytes@.len() != 32 {
                    NullifierError::InvalidLength
                } else {
                    NullifierError::NotInField
                } && (bytes@.len() != 32 || le_value(bytes@) >= base_modulus()),
            },
    {
        if bytes.len() != 32 {
            return Err(NullifierError::InvalidLength);
        }
        let mut array: [u8; 32] = [0u8; 32];
        let mut i: usize = 0;
        while i < 32
            invariant
                i <= 32,
                bytes@.len() == 32,
                forall|j: int| 0 <= j < i ==> array@[j] == bytes@[j],
            decreases 32 - i,
        {
            array[i] = bytes[i];
            i += 1;
        }
        assert(array@ =~= bytes@);
        match Nullifier::from_bytes(array) {
            Some(n) => Ok(n),
            None => Err(NullifierError::NotInField),
        }
    }

    /// The nullifier that a Base58 text stands for: the text that
    /// `to_base58` gives.
    pub fn parse(text: &str) -> (r: Result<Nullifier, NullifierError>)
        ensures
            match r {
                Ok(n) => parsed(text@) == Ok::<Seq<u8>, NullifierError>(n@),
                Err(e) => parsed(text@) == Err::<Seq<u8>, NullifierError>(e),
            },
    {
        match base58_decode(text) {
            Ok(bytes) => Nullifier::from_decoded(&bytes),
            Err(_) => Err(NullifierError::InvalidBase58),
        }
    }
}

impl From<Base> for Nullifier {
    fn from(x: Base) -> (n: Nullifier)
        ensures
            n@ == x@,
    {
        Nullifier { inner: x }
    }
}

impl vstd::std_specs::convert::FromSpecImpl<Base> for Nullifier {
    open spec fn obeys_from_spec() -> bool {
        true
    }

    open spec fn from_spec(x: Base) -> Nullifier {
        Nullifier::of(x)
    }
}

impl FromStr for Nullifier {
    type Err = NullifierError;

    /// The nullifier that a Base58 text stands for.
    fn from_str(s: &str) -> (r: Result<Nullifier, NullifierError>)
        ensures
            match r {
                Ok(n) => parsed(s@) == Ok::<Seq<u8>, NullifierError>(n@),
                Err(e) => parsed(s@) == Err::<Seq<u8>, NullifierError>(e),
            },
    {
        Nullifier::parse(s)
    }
}

} // verus!
