//! Who votes: a caller is known by its principal, and its identity in a poll
//! is the text form of that principal.
use vstd::prelude::*;

verus! {

/// The most bytes that a principal has.
pub const MAX_PRINCIPAL_BYTES: usize = 29;

/// The text form of the principal that has these bytes, as
/// `candid::Principal::to_text` writes it: the checksum of the bytes and the
/// bytes themselves in base 32, in lower case, in groups of five characters
/// with a dash between two groups.
pub uninterp spec fn principal_text(bytes: Seq<u8>) -> Seq<char>;

/// Makes the principal of these bytes with `candid::Principal::from_slice`
/// and returns its text form, which `candid::Principal::to_text` computes
/// from the bytes alone. `from_slice` takes up to 29 bytes and panics on
/// more, so longer input is not admitted. Nothing of this is proved.
#[verifier::external_body]
fn principal_to_text(bytes: &Vec<u8>) -> (text: String)
    requires
        bytes@.len() <= MAX_PRINCIPAL_BYTES,
    ensures
        text@ == principal_text(bytes@),
{
    candid::Principal::from_slice(bytes.as_slice()).to_text()
}

/// A caller, known by the bytes of its principal.
#[derive(Debug)]
pub struct Caller {
    principal: Vec<u8>,
}

impl View for Caller {
    type V = Seq<u8>;

    closed spec fn view(&self) -> Seq<u8> {
        self.principal@
    }
}

impl Caller {
    /// A principal has at most 29 bytes.
    #[verifier::type_invariant]
    closed spec fn inv(&self) -> bool {
        self.principal@.len() <= MAX_PRINCIPAL_BYTES
    }

    /// Makes the caller with this principal, or `None` where the bytes are
    /// too many for a principal.
    pub fn new(principal: Vec<u8>) -> (caller: Option<Caller>)
        ensures
            match caller {
                Some(caller) => principal@.len() <= MAX_PRINCIPAL_BYTES && caller@ == principal@,
                None => principal@.len() > MAX_PRINCIPAL_BYTES,
            },
    {
        if principal.len() <= MAX_PRINCIPAL_BYTES {
            Some(Caller { principal })
        } else {
            None
        }
    }

    /// Returns the identity under which this caller votes: the text form
    /// of its principal.
    pub fn identity(&self) -> (text: String)
        ensures
            text@ == principal_text(self@),
    {
        proof {
            use_type_invariant(self);
        }
        principal_to_text(&self.principal)
    }
}

} // verus!
