use vstd::prelude::*;
use vstd::string::*;

verus! {

/// The most bytes a principal can hold.
pub const MAX_IDENTITY_LEN: usize = 29;

/// The textual form of the principal with the given bytes.
pub uninterp spec fn principal_text_of(bytes: Seq<u8>) -> Seq<char>;

/// Relies on `candid::Principal::from_slice` and `Principal::to_text`: the
/// textual form depends on the bytes alone; `from_slice` panics only on
/// more than 29 bytes.
#[verifier::external_body]
fn principal_text(bytes: &Vec<u8>) -> (r: String)
    requires
        bytes@.len() <= MAX_IDENTITY_LEN,
    ensures
        r@ == principal_text_of(bytes@),
{
    candid::Principal::from_slice(bytes.as_slice()).to_text()
}

/// Relies on `candid::Principal::anonymous`: the single byte 4.
#[verifier::external_body]
fn anonymous_bytes() -> (r: Vec<u8>)
    ensures
        r@ == seq![4u8],
{
    candid::Principal::anonymous().as_slice().to_vec()
}

/// At most the first `n` characters of `s`.
pub open spec fn prefix_of(s: Seq<char>, n: nat) -> Seq<char> {
    if s.len() <= n {
        s
    } else {
        s.take(n as int)
    }
}

/// Display name given to a trader whose principal reads as `text`.
pub open spec fn username_of_text(text: Seq<char>) -> Seq<char> {
    "User"@ + prefix_of(text, 8)
}

/// An opaque caller identity: the bytes of a principal.
pub struct Identity {
    bytes: Vec<u8>,
}

impl View for Identity {
    type V = Seq<u8>;

    closed spec fn view(&self) -> Seq<u8> {
        self.bytes@
    }
}

impl Identity {
    #[verifier::type_invariant]
    spec fn inv(&self) -> bool {
        self.bytes@.len() <= MAX_IDENTITY_LEN
    }

    /// The identity with the given bytes, if there are at most 29 of them.
    pub fn from_bytes(bytes: Vec<u8>) -> (r: Option<Identity>)
        ensures
            r is Some <==> bytes@.len() <= MAX_IDENTITY_LEN,
            r matches Some(id) ==> id@ == bytes@,
    {
        if bytes.len() <= MAX_IDENTITY_LEN {
            Some(Identity { bytes })
        } else {
            None
        }
    }

    /// The anonymous identity.
    pub fn anonymous() -> (r: Identity)
        ensures
            r@ == seq![4u8],
    {
        Identity { bytes: anonymous_bytes() }
    }

    /// A copy of the identity's bytes.
    pub fn to_bytes(&self) -> (r: Vec<u8>)
        ensures
            r@ == self@,
    {
        self.bytes.clone()
    }

    /// Whether two identities are the same.
    pub fn same(&self, other: &Identity) -> (r: bool)
        ensures
            r == (self@ == other@),
    {
        let n = self.bytes.len();
        if n != other.bytes.len() {
            return false;
        }
        let mut i: usize = 0;
        while i < n
            invariant
                n == self.bytes@.len(),
                n == other.bytes@.len(),
                i <= n,
                forall|j: int| 0 <= j < i ==> self.bytes@[j] == other.bytes@[j],
            decreases n - i,
        {
            if self.bytes[i] != other.bytes[i] {
                return false;
            }
            i = i + 1;
        }
        assert(self.bytes@ =~= other.bytes@);
        true
    }

    /// The textual form of the identity.
    pub fn text(&self) -> (r: String)
        ensures
            r@ == principal_text_of(self@),
    {
        proof {
            use_type_invariant(self);
        }
        principal_text(&self.bytes)
    }

    /// The display name derived from the identity.
    pub fn username(&self) -> (r: String)
        ensures
            r@ == username_of_text(principal_text_of(self@)),
    {
        let text = self.text();
        username_from_text(text.as_str())
    }
}

impl Clone for Identity {
    fn clone(&self) -> (r: Self)
        ensures
            r@ == self@,
    {
        proof {
            use_type_invariant(self);
        }
        Identity { bytes: self.bytes.clone() }
    }
}

/// "User" followed by the first eight characters of `text`.
pub fn username_from_text(text: &str) -> (r: String)
    ensures
        r@ == username_of_text(text@),
{
    let len = text.unicode_len();
    let n: usize = if len <= 8 {
        len
    } else {
        8
    };
    let head = text.substring_char(0, n);
    assert(head@ == prefix_of(text@, 8));
    let name = String::from_str("User");
    name.concat(head)
}

} // verus!
