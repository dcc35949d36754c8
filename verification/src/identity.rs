//! Account identities: 32-byte addresses, the all-zero one standing for
//! "nobody".

use vstd::prelude::*;

verus! {

/// The text that the address library prints for the 32 bytes of an address.
pub uninterp spec fn address_text(bytes: Seq<u8>) -> Seq<char>;

/// The address of a participant.
#[derive(Clone, Copy, Debug)]
pub struct Identity {
    pub bytes: [u8; 32],
}

impl Identity {
    /// The identity that stands for "nobody".
    pub open spec fn zero() -> Identity {
        Identity { bytes: vstd::array::spec_array_fill_for_copy_type::<u8, 32>(0u8) }
    }

    /// Whether this is the identity that stands for "nobody".
    pub open spec fn is_none(self) -> bool {
        self == Identity::zero()
    }

    /// The text form of this identity.
    pub open spec fn text(self) -> Seq<char> {
        address_text(self.bytes@)
    }

    /// An identity from its bytes.
    pub fn new(bytes: [u8; 32]) -> (id: Identity)
        ensures
            id.bytes == bytes,
    {
        Identity { bytes }
    }

    /// The identity that stands for "nobody".
    pub fn none() -> (id: Identity)
        ensures
            id == Identity::zero(),
    {
        let id = Identity { bytes: [0u8; 32] };
        assert(id.bytes =~= Identity::zero().bytes);
        id
    }

    /// Tells whether every byte is zero.
    pub fn is_zero(&self) -> (r: bool)
        ensures
            r == self.is_none(),
    {
        let mut i: usize = 0;
        while i < 32
            invariant
                i <= 32,
                forall|j: int| 0 <= j < i ==> self.bytes[j] == 0,
            decreases 32 - i,
        {
            if self.bytes[i] != 0 {
                assert(Identity::zero().bytes[i as int] == 0);
                return false;
            }
            i = i + 1;
        }
        assert(self.bytes =~= Identity::zero().bytes);
        true
    }

    /// The text form of this identity, as the address library prints it.
    pub fn to_text(&self) -> (text: String)
        ensures
            text@ == self.text(),
    {
        print_address(&self.bytes)
    }
}

impl PartialEq for Identity {
    fn eq(&self, other: &Self) -> (r: bool) {
        let mut i: usize = 0;
        while i < 32
            invariant
                i <= 32,
                forall|j: int| 0 <= j < i ==> self.bytes[j] == other.bytes[j],
            decreases 32 - i,
        {
            if self.bytes[i] != other.bytes[i] {
                return false;
            }
            i = i + 1;
        }
        assert(self.bytes =~= other.bytes);
        true
    }
}

impl Eq for Identity {

}

impl vstd::std_specs::cmp::PartialEqSpecImpl for Identity {
    open spec fn obeys_eq_spec() -> bool {
        true
    }

    open spec fn eq_spec(&self, other: &Self) -> bool {
        *self == *other
    }
}

impl Default for Identity {
    fn default() -> (id: Identity)
        ensures
            id == Identity::zero(),
    {
        Identity::none()
    }
}

/// Calls `anchor_lang::prelude::Pubkey::new_from_array` on the bytes and
/// `to_string` on the key, which prints the key as its `Display` does: in
/// base 58. The contract claims that the text depends on the 32 bytes and on
/// nothing else, and gives it its name; of what the text holds it says
/// nothing.
#[verifier::external_body]
fn print_address(bytes: &[u8; 32]) -> (text: String)
    ensures
        text@ == address_text(bytes@),
{
    anchor_lang::prelude::Pubkey::new_from_array(*bytes).to_string()
}

} // verus!
