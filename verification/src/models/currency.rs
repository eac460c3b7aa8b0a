//! Currency codes.

use vstd::prelude::*;
use vstd::std_specs::iter::IteratorSpec;
use vstd::string::StringSliceAdditionalSpecFns;

verus! {

/// Why a text is no currency code.
#[derive(Debug, Clone, Copy, PartialEq, Eq, Structural)]
pub enum CurrencyError {
    /// The text is not three bytes long.
    WrongLength,
    /// The text holds a character outside ASCII.
    NotAscii,
}

impl CurrencyError {
    /// What is said of the error.
    pub fn message(&self) -> (r: &'static str)
        ensures
            r == match *self {
                CurrencyError::WrongLength => "Currency code must be exactly 3 chars",
                CurrencyError::NotAscii => "Currency code must be ASCII",
            },
    {
        match self {
            CurrencyError::WrongLength => "Currency code must be exactly 3 chars",
            CurrencyError::NotAscii => "Currency code must be ASCII",
        }
    }
}

/// A currency code: three ASCII characters.
#[derive(Debug, Clone, Copy, PartialEq, Eq, Hash)]
pub struct Currency {
    name: [u8; 3],
}

/// Whether every byte stands for an ASCII character.
pub open spec fn is_ascii_bytes(bytes: Seq<u8>) -> bool {
    forall|i: int| 0 <= i < bytes.len() ==> #[trigger] bytes[i] < 128
}

/// What reading `s` as a currency code gives.
pub open spec fn currency_of(s: &str) -> Result<Seq<u8>, CurrencyError> {
    if s.len() != 3 {
        Err(CurrencyError::WrongLength)
    } else if !s.is_ascii() {
        Err(CurrencyError::NotAscii)
    } else {
        Ok(s.spec_bytes())
    }
}

/// `core::str::from_utf8`: the text that the bytes encode. Bytes below 128
/// always encode a text, one character for each byte.
#[verifier::external_body]
fn ascii_text(bytes: &[u8; 3]) -> (r: &str)
    requires
        is_ascii_bytes(bytes@),
    ensures
        r.spec_bytes() == bytes@,
        r.is_ascii(),
{
    core::str::from_utf8(bytes).unwrap()
}

impl Currency {
    #[verifier::type_invariant]
    spec fn well_formed(&self) -> bool {
        is_ascii_bytes(self.name@)
    }

    /// The three bytes of the code.
    pub closed spec fn bytes(&self) -> Seq<u8> {
        self.name@
    }

    /// Reads a currency code: any three ASCII characters.
    pub fn parse(s: &str) -> (r: Result<Currency, CurrencyError>)
        ensures
            match r {
                Ok(currency) => currency_of(s) == Ok::<Seq<u8>, CurrencyError>(currency.bytes()),
                Err(e) => currency_of(s) == Err::<Seq<u8>, CurrencyError>(e),
            },
    {
        if s.len() != 3 {
            return Err(CurrencyError::WrongLength);
        }
        if !s.is_ascii() {
            return Err(CurrencyError::NotAscii);
        }
        let b = s.as_bytes();
        proof {
            vstd::string::is_ascii_spec_bytes(s);
        }
        let name: [u8; 3] = [b[0], b[1], b[2]];
        assert(name@ =~= s.spec_bytes());
        Ok(Self { name })
    }

    /// The code as text.
    pub fn as_str(&self) -> (r: &str)
        ensures
            r.spec_bytes() == self.bytes(),
            r.is_ascii(),
            r@.len() == 3,
    {
        proof {
            use_type_invariant(self);
        }
        let r = ascii_text(&self.name);
        proof {
            vstd::string::is_ascii_spec_bytes(r);
        }
        r
    }

    /// The three bytes of the code, one after the other.
    pub fn iter(&self) -> (r: core::slice::Iter<'_, u8>)
        ensures
            IteratorSpec::remaining(&r) == self.bytes().as_ref(),
    {
        broadcast use vstd::array::axiom_spec_array_iter;

        (&self.name).into_iter()
    }

    /// The byte at `index`.
    pub fn byte(&self, index: usize) -> (r: u8)
        requires
            index < 3,
        ensures
            r == self.bytes()[index as int],
            r < 128,
    {
        proof {
            use_type_invariant(self);
        }
        self.name[index]
    }
}

impl std::str::FromStr for Currency {
    type Err = CurrencyError;

    fn from_str(s: &str) -> (r: Result<Self, Self::Err>)
        ensures
            match r {
                Ok(currency) => currency_of(s) == Ok::<Seq<u8>, CurrencyError>(currency.bytes()),
                Err(e) => currency_of(s) == Err::<Seq<u8>, CurrencyError>(e),
            },
    {
        Currency::parse(s)
    }
}

} // verus!
