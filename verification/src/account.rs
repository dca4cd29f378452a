use vstd::prelude::*;
use vstd::utf8::{encode_utf8, encode_utf8_decode_utf8};

verus! {

/// Smallest number of bytes an account identifier may have.
pub const MIN_ACCOUNT_ID_LEN: usize = 2;

/// Largest number of bytes an account identifier may have.
pub const MAX_ACCOUNT_ID_LEN: usize = 64;

/// A byte that may stand between two runs of letters and digits: `-`, `_` or `.`.
pub open spec fn is_separator(b: u8) -> bool {
    b == 0x2d || b == 0x5f || b == 0x2e
}

/// A lower-case ASCII letter or an ASCII digit.
pub open spec fn is_letter_or_digit(b: u8) -> bool {
    (0x61 <= b <= 0x7a) || (0x30 <= b <= 0x39)
}

/// The grammar of account identifiers, over the bytes of the identifier.
///
/// An identifier has between [`MIN_ACCOUNT_ID_LEN`] and [`MAX_ACCOUNT_ID_LEN`]
/// bytes; each byte is a lower-case letter, a digit or a separator; it neither
/// starts nor ends with a separator, and no two separators are adjacent.
pub open spec fn is_account_id(bytes: Seq<u8>) -> bool {
    &&& MIN_ACCOUNT_ID_LEN <= bytes.len() <= MAX_ACCOUNT_ID_LEN
    &&& forall|i: int|
        0 <= i < bytes.len() ==> is_letter_or_digit(#[trigger] bytes[i]) || is_separator(bytes[i])
    &&& !is_separator(bytes[0])
    &&& !is_separator(bytes[bytes.len() - 1])
    &&& forall|i: int|
        0 <= i < bytes.len() - 1 ==> !(is_separator(#[trigger] bytes[i]) && is_separator(
            bytes[i + 1],
        ))
}

/// Runs `near_sdk::env::is_valid_account_id` on `bytes`.
///
/// Trusted: the answer is taken to be exactly [`is_account_id`], which restates
/// the length bounds and the character-by-character scan of that function.
#[verifier::external_body]
fn host_is_valid_account_id(bytes: &[u8]) -> (ok: bool)
    ensures
        ok == is_account_id(bytes@),
{
    near_sdk::env::is_valid_account_id(bytes)
}

/// Tells whether two texts are the same, byte by byte.
fn same_text(left: &str, right: &str) -> (same: bool)
    ensures
        same == (left@ == right@),
{
    let left_bytes = left.as_bytes();
    let right_bytes = right.as_bytes();
    proof {
        encode_utf8_decode_utf8(left@);
        encode_utf8_decode_utf8(right@);
    }
    if left_bytes.len() != right_bytes.len() {
        return false;
    }
    let mut i: usize = 0;
    while i < left_bytes.len()
        invariant
            i <= left_bytes@.len(),
            left_bytes@.len() == right_bytes@.len(),
            left_bytes@ == encode_utf8(left@),
            right_bytes@ == encode_utf8(right@),
            forall|j: int| 0 <= j < i ==> left_bytes@[j] == right_bytes@[j],
        decreases left_bytes@.len() - i,
    {
        if left_bytes[i] != right_bytes[i] {
            return false;
        }
        i += 1;
    }
    assert(left_bytes@ =~= right_bytes@);
    true
}

/// An account identifier that has passed the grammar check.
#[derive(Debug)]
pub struct ValidAccountId {
    id: String,
}

impl View for ValidAccountId {
    type V = Seq<char>;

    closed spec fn view(&self) -> Seq<char> {
        self.id@
    }
}

impl ValidAccountId {
    /// Every value of this type holds an identifier of the grammar.
    #[verifier::type_invariant]
    pub closed spec fn well_formed(self) -> bool {
        is_account_id(encode_utf8(self.id@))
    }

    /// What [`ValidAccountId::well_formed`] says, over the view.
    pub proof fn lemma_well_formed(self)
        requires
            self.well_formed(),
        ensures
            is_account_id(encode_utf8(self@)),
    {
    }

    /// Accepts `id` if and only if it is an identifier of the grammar.
    pub fn try_new(id: String) -> (r: Option<ValidAccountId>)
        ensures
            r is Some <==> is_account_id(encode_utf8(id@)),
            r matches Some(a) ==> a@ == id@,
    {
        if host_is_valid_account_id(id.as_str().as_bytes()) {
            Some(ValidAccountId { id })
        } else {
            None
        }
    }

    /// The identifier as text.
    pub fn as_str(&self) -> (s: &str)
        ensures
            s@ == self@,
    {
        self.id.as_str()
    }

    /// Tells whether the identifier is `text`.
    pub fn is_text(&self, text: &str) -> (same: bool)
        ensures
            same == (self@ == text@),
    {
        same_text(self.id.as_str(), text)
    }

    /// Tells whether two identifiers are the same text.
    pub fn same_as(&self, other: &ValidAccountId) -> (same: bool)
        ensures
            same == (self@ == other@),
    {
        self.id == other.id
    }
}

impl Clone for ValidAccountId {
    fn clone(&self) -> (c: Self)
        ensures
            c@ == self@,
    {
        proof {
            use_type_invariant(self);
        }
        ValidAccountId { id: self.id.clone() }
    }
}

} // verus!
