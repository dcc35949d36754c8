//! Withdrawals: an outbid bidder takes the escrow back.

use vstd::prelude::*;
use crate::auction::{lemma_undo_restores, lemma_withdrawal_keeps_wf};
use crate::error::ErrorCode;
use crate::events::Transfer;
use crate::identity::Identity;
use crate::index_laws::lemma_with_listing_keeps_indexed;
use crate::registry::{lemma_registry_precedes_itself, lemma_with_listing, NftComAuction, RegistryView};

verus! {

/// Who receives a withdrawal: the recipient named, or the bidder if none is
/// named.
pub open spec fn recipient_of(to: Option<Identity>, bidder: Identity) -> Identity {
    match to {
        Some(named) => named,
        None => bidder,
    }
}

impl RegistryView {
    /// What a withdrawal by `bidder` from the listing `id` does: the registry
    /// after it and the amount released, or why the withdrawal is refused.
    pub open spec fn withdraw(self, id: Seq<char>, bidder: Identity) -> Result<(RegistryView, u64), ErrorCode> {
        if !self.has(id) {
            Err(ErrorCode::UnknownListing)
        } else {
            match self.listing(id).withdrawal(bidder) {
                Ok((next, released)) => Ok((self.with_listing(id, next), released)),
                Err(e) => Err(e),
            }
        }
    }
}

impl RegistryView {
    /// Whether a refund of `amount` to `bidder` from the listing `id` can be
    /// taken back.
    pub open spec fn refund_pending(self, id: Seq<char>, bidder: Identity, amount: u64) -> bool {
        self.has(id) && self.listing(id).refund_pending(bidder, amount)
    }

    /// The registry once a refund of `amount` to `bidder` from the listing
    /// `id` is taken back.
    pub open spec fn refund_undone(self, id: Seq<char>, bidder: Identity, amount: u64) -> RegistryView {
        self.with_listing(id, self.listing(id).refund_undone(bidder, amount))
    }
}

/// A withdrawal whose transfer fails is undone: right after a withdrawal the
/// refund can be taken back, and taking it back gives the registry as it was
/// before the withdrawal, with the bidder's balance in escrow again.
pub proof fn lemma_failed_transfer_undoes_withdrawal(registry: RegistryView, id: Seq<char>, bidder: Identity)
    requires
        registry.wf(),
        registry.withdraw(id, bidder) is Ok,
    ensures
        registry.withdraw(id, bidder)->Ok_0.0.refund_pending(
            id,
            bidder,
            registry.withdraw(id, bidder)->Ok_0.1,
        ),
        registry.withdraw(id, bidder)->Ok_0.0.refund_undone(
            id,
            bidder,
            registry.withdraw(id, bidder)->Ok_0.1,
        ) == registry,
{
    let a = registry.listing(id);
    let next = a.withdrawal(bidder)->Ok_0.0;
    let after = registry.withdraw(id, bidder)->Ok_0.0;
    assert(a.wf());
    lemma_withdrawal_keeps_wf(a, bidder);
    lemma_undo_restores(a, bidder);
    lemma_with_listing(registry, id, next);
    assert(after.refund_undone(id, bidder, registry.withdraw(id, bidder)->Ok_0.1).auctions
        =~= registry.auctions);
}

/// Releases what `bidder` holds in escrow on the listing `listing_id` and
/// returns the transfer that the host has to make, to `to` or, if no
/// recipient is named, to the bidder. The balance is zero when the function
/// returns, so that a second withdrawal finds nothing. A refused withdrawal
/// changes nothing.
pub fn withdraw(state: &mut NftComAuction, listing_id: &str, bidder: Identity, to: Option<Identity>) -> (r:
    Result<Transfer, ErrorCode>)
    requires
        old(state).wf(),
    ensures
        match old(state)@.withdraw(listing_id@, bidder) {
            Ok((next, released)) => r == Ok::<Transfer, ErrorCode>(
                Transfer { to: recipient_of(to, bidder), amount: released },
            ) && final(state)@ == next,
            Err(e) => r == Err::<Transfer, ErrorCode>(e) && *final(state) == *old(state),
        },
        final(state).wf(),
        old(state)@.precedes(final(state)@),
        old(state)@.indexed() ==> final(state)@.indexed(),
{
    proof {
        lemma_registry_precedes_itself(state@);
    }
    let at = match state.find_listing(listing_id) {
        Some(at) => at,
        None => {
            return Err(ErrorCode::UnknownListing);
        },
    };
    assert(state@.auctions[at as int] == state.auctions[at as int]@);
    match state.auctions[at].preview_withdrawal(bidder) {
        Ok(_) => {},
        Err(e) => {
            return Err(e);
        },
    }
    let released = match state.auctions[at].apply_withdrawal(bidder) {
        Ok(released) => released,
        Err(e) => {
            return Err(e);
        },
    };
    proof {
        let before = old(state)@;
        let next = state.auctions[at as int]@;
        assert(state@.auctions =~= before.auctions.update(at as int, next));
        lemma_with_listing(before, listing_id@, next);
        if before.indexed() {
            lemma_with_listing_keeps_indexed(before, listing_id@, next);
        }
    }
    let recipient = match to {
        Some(named) => named,
        None => bidder,
    };
    Ok(Transfer { to: recipient, amount: released })
}

/// Concludes a withdrawal once the host has tried to move the funds that
/// `withdraw` named in `refund`. Where the funds were moved, nothing changes.
/// Where they were not, the withdrawal has failed: the answer is
/// `TransferFailed`, and the refund is taken back, so that the bidder holds
/// the amount in escrow again and can withdraw later. A refund that cannot
/// be taken back, because the listing does not show it as released to this
/// bidder, is left alone.
pub fn conclude_withdrawal(
    state: &mut NftComAuction,
    listing_id: &str,
    bidder: Identity,
    refund: Transfer,
    moved: bool,
) -> (r: Result<(), ErrorCode>)
    requires
        old(state).wf(),
    ensures
        moved ==> r is Ok && *final(state) == *old(state),
        !moved ==> r == Err::<(), ErrorCode>(ErrorCode::TransferFailed),
        !moved && old(state)@.refund_pending(listing_id@, bidder, refund.amount) ==> final(state)@ == old(
            state,
        )@.refund_undone(listing_id@, bidder, refund.amount),
        !moved && !old(state)@.refund_pending(listing_id@, bidder, refund.amount) ==> *final(state)
            == *old(state),
        final(state).wf(),
        old(state)@.precedes(final(state)@),
        old(state)@.indexed() ==> final(state)@.indexed(),
{
    proof {
        lemma_registry_precedes_itself(state@);
    }
    if moved {
        return Ok(());
    }
    let at = match state.find_listing(listing_id) {
        Some(at) => at,
        None => {
            return Err(ErrorCode::TransferFailed);
        },
    };
    assert(state@.auctions[at as int] == state.auctions[at as int]@);
    if !state.auctions[at].refund_is_pending(bidder, refund.amount) {
        return Err(ErrorCode::TransferFailed);
    }
    state.auctions[at].undo_withdrawal(bidder, refund.amount);
    proof {
        let before = old(state)@;
        let next = state.auctions[at as int]@;
        assert(state@.auctions =~= before.auctions.update(at as int, next));
        lemma_with_listing(before, listing_id@, next);
        if before.indexed() {
            lemma_with_listing_keeps_indexed(before, listing_id@, next);
        }
    }
    Err(ErrorCode::TransferFailed)
}

} // verus!
