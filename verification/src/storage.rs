use vstd::prelude::*;
use vstd::string::*;
use vstd::utf8::{encode_utf8, is_ascii_chars, is_ascii_chars_encode_utf8};
use crate::account::{is_account_id, ValidAccountId, MAX_ACCOUNT_ID_LEN};

verus! {

/// The text of the placeholder identifier: the letter `a`, as often as an
/// identifier may have bytes.
pub open spec fn placeholder_text() -> Seq<char> {
    Seq::new(MAX_ACCOUNT_ID_LEN as nat, |i: int| 'a')
}

/// The placeholder text is an identifier of the grammar, and it has the largest
/// number of bytes that the grammar admits.
pub proof fn lemma_placeholder_valid()
    ensures
        is_account_id(encode_utf8(placeholder_text())),
        encode_utf8(placeholder_text()).len() == MAX_ACCOUNT_ID_LEN,
{
    let text = placeholder_text();
    assert(is_ascii_chars(text));
    is_ascii_chars_encode_utf8(text);
    let bytes = encode_utf8(text);
    assert forall|i: int| 0 <= i < bytes.len() implies #[trigger] bytes[i] == 0x61u8 by {
        assert(text[i] == 'a');
        assert(text[i] as u8 == bytes[i]);
    }
}

/// No identifier of the grammar has more bytes than the placeholder, so an
/// entry keyed by the placeholder has a key at least as long as that of any
/// real account.
pub proof fn lemma_placeholder_longest(account: Seq<char>)
    requires
        is_account_id(encode_utf8(account)),
    ensures
        encode_utf8(account).len() <= encode_utf8(placeholder_text()).len(),
{
    lemma_placeholder_valid();
}

/// However an entry is charged for, as long as a longer key is never charged
/// less than a shorter one: the entry of the placeholder is charged at least as
/// much as the entry of any identifier of the grammar. `cost` gives the charge
/// for a key of so many bytes.
pub proof fn lemma_placeholder_cost_covers(cost: spec_fn(nat) -> nat, account: Seq<char>)
    requires
        forall|shorter: nat, longer: nat|
            shorter <= longer ==> #[trigger] cost(shorter) <= #[trigger] cost(longer),
        is_account_id(encode_utf8(account)),
    ensures
        cost(encode_utf8(account).len()) <= cost(encode_utf8(placeholder_text()).len()),
{
    lemma_placeholder_longest(account);
}

/// The identifier under which the throwaway entry is written while the cost of
/// one entry is measured.
pub fn placeholder_account_id() -> (placeholder: ValidAccountId)
    ensures
        placeholder@ == placeholder_text(),
{
    let mut text = String::new();
    let mut written: usize = 0;
    while written < MAX_ACCOUNT_ID_LEN
        invariant
            written <= MAX_ACCOUNT_ID_LEN,
            text@ == Seq::new(written as nat, |i: int| 'a'),
        decreases MAX_ACCOUNT_ID_LEN - written,
    {
        proof {
            reveal_strlit("a");
        }
        text.append("a");
        written += 1;
        assert(text@ =~= Seq::new(written as nat, |i: int| 'a'));
    }
    proof {
        lemma_placeholder_valid();
    }
    ValidAccountId::try_new(text).unwrap()
}

/// What the host reported as its storage usage, in bytes, just before and just
/// after the placeholder entry was written.
#[derive(Clone, Copy, Debug)]
pub struct StorageProbe {
    pub usage_before: u64,
    pub usage_after: u64,
}

/// The storage that one entry takes: the growth between the two readings.
/// There is none where the usage went down.
pub open spec fn measured_footprint(probe: StorageProbe) -> Option<u64> {
    if probe.usage_before <= probe.usage_after {
        Some((probe.usage_after - probe.usage_before) as u64)
    } else {
        None
    }
}

impl StorageProbe {
    /// The storage that one entry takes, from the two readings.
    pub fn footprint(&self) -> (bytes: Option<u64>)
        ensures
            bytes == measured_footprint(*self),
    {
        self.usage_after.checked_sub(self.usage_before)
    }
}

} // verus!
