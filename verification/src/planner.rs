//! Planning a transfer that empties an account.

use vstd::prelude::*;
use crate::address::{Address, Anchor};
use crate::error::{ClientError, ConfigurationError};
use crate::instruction::{
    system_program_bytes, transfer, transfer_accounts, transfer_data, Instruction,
};
use crate::transaction::{
    fits_format, lemma_signer_count, mentions, must_sign, refers_to, signing, UnsignedTransaction,
};

verus! {

/// The amount to transfer so that nothing is left of `balance` once `fee`
/// is paid, or the failure where nothing would be transferred: what the
/// balance lacks to cover the fee.
pub open spec fn drain_plan(balance: u64, fee: u64) -> Result<u64, ClientError> {
    if balance > fee {
        Ok((balance - fee) as u64)
    } else {
        Err(ClientError::InsufficientFunds { shortfall: (fee - balance) as u64 })
    }
}

/// The amount that empties an account holding `source_balance` when the
/// network takes `estimated_fee`. A transfer of nothing is refused like one
/// that the balance cannot pay for.
pub fn plan_full_drain(source_balance: u64, estimated_fee: u64) -> (r: Result<u64, ClientError>)
    ensures
        r == drain_plan(source_balance, estimated_fee),
{
    if source_balance > estimated_fee {
        Ok(source_balance - estimated_fee)
    } else {
        Err(ClientError::InsufficientFunds { shortfall: estimated_fee - source_balance })
    }
}

/// What the fee of a message depends on.
#[derive(Clone, Copy, Debug, PartialEq, Eq, Structural)]
pub struct MessageShape {
    /// The number of instructions.
    pub instructions: usize,
    /// The number of addresses that have to sign.
    pub signers: usize,
}

/// A fee, and the shape of the message that it was estimated for.
#[derive(Clone, Copy, Debug, PartialEq, Eq, Structural)]
pub struct FeeEstimate {
    pub shape: MessageShape,
    pub fee: u64,
}

/// The shape of the message of a transaction.
pub open spec fn shape_of(ixs: Seq<Instruction>, payer: Address) -> MessageShape {
    MessageShape { instructions: ixs.len() as usize, signers: signing(ixs, payer).len() as usize }
}

/// Whether `tx` is the transfer of `amount` from `source`, which also pays
/// the fee, to `destination`.
pub open spec fn is_transfer(
    tx: UnsignedTransaction,
    source: Address,
    destination: Address,
    amount: u64,
    anchor: Anchor,
) -> bool {
    &&& tx.fee_payer == source
    &&& tx.anchor == anchor
    &&& tx.instructions@.len() == 1
    &&& tx.instructions@[0].program_id@ == system_program_bytes()
    &&& tx.instructions@[0].accounts@ == transfer_accounts(source, destination)
    &&& tx.instructions@[0].data@ == transfer_data(amount)
}

/// The transaction that moves `amount` from `source`, which also pays the
/// fee, to `destination`.
pub fn transfer_transaction(source: &Address, destination: &Address, amount: u64, anchor: Anchor) -> (tx:
    UnsignedTransaction)
    ensures
        is_transfer(tx, *source, *destination, amount, anchor),
{
    let mut instructions: Vec<Instruction> = Vec::new();
    instructions.push(transfer(source, destination, amount));
    UnsignedTransaction::new(instructions, *source, anchor)
}

/// The shape of the message of `tx`, for which a fee is to be estimated.
pub fn message_shape(tx: &UnsignedTransaction) -> (r: Result<MessageShape, ClientError>)
    ensures
        match r {
            Ok(shape) => fits_format(tx.instructions@, tx.fee_payer) && shape == shape_of(
                tx.instructions@,
                tx.fee_payer,
            ),
            Err(e) => !fits_format(tx.instructions@, tx.fee_payer) && e
                == ClientError::Configuration(ConfigurationError::TransactionTooLarge),
        },
{
    match tx.required_signers() {
        Ok(keys) => {
            proof {
                lemma_signer_count(keys@, tx.instructions@, tx.fee_payer);
            }
            Ok(MessageShape { instructions: tx.instructions.len(), signers: keys.len() })
        },
        Err(e) => Err(e),
    }
}

/// The shape of the message of a transfer whose source pays the fee: one
/// instruction, one signer.
pub open spec fn transfer_shape() -> MessageShape {
    MessageShape { instructions: 1, signers: 1 }
}

/// The message of a transfer whose source pays the fee has one instruction
/// and one signer, whatever the amount.
pub proof fn lemma_transfer_shape(
    tx: UnsignedTransaction,
    source: Address,
    destination: Address,
    amount: u64,
    anchor: Anchor,
)
    requires
        is_transfer(tx, source, destination, amount, anchor),
    ensures
        shape_of(tx.instructions@, tx.fee_payer) == transfer_shape(),
{
    let ixs = tx.instructions@;
    assert forall|a: Address| must_sign(ixs, source, a) implies a == source by {
        if a != source {
            // Only the first of the two accounts is marked as a signer.
            let i = choose|i: int| 0 <= i < ixs.len() && mentions(#[trigger] ixs[i], true, a);
            let j = choose|j: int|
                0 <= j < ixs[i].accounts@.len() && refers_to(#[trigger] ixs[i].accounts@[j], true, a);
            assert(j == 0);
        }
    }
    assert(signing(ixs, source) =~= set![source]);
}

/// Two builds of the same transfer have the same canonical bytes and the
/// same signers: nothing but the addresses, the amount and the anchor
/// enters the serialised form.
pub proof fn lemma_transfer_bytes_are_fixed(
    first: UnsignedTransaction,
    second: UnsignedTransaction,
    source: Address,
    destination: Address,
    amount: u64,
    anchor: Anchor,
)
    requires
        is_transfer(first, source, destination, amount, anchor),
        is_transfer(second, source, destination, amount, anchor),
    ensures
        first.canonical_bytes() == second.canonical_bytes(),
        first.canonical_signers() == second.canonical_signers(),
{
    assert(first.instructions.deep_view() =~= second.instructions.deep_view());
}

/// Why planning the transfer that empties an account fails, if it does: an
/// estimate for a message of another shape is refused first, then a
/// balance that leaves nothing to transfer.
pub open spec fn drain_failure(balance: u64, estimate: FeeEstimate) -> Option<ClientError> {
    if estimate.shape != transfer_shape() {
        Some(ClientError::Configuration(ConfigurationError::FeeForOtherMessage))
    } else {
        match drain_plan(balance, estimate.fee) {
            Ok(_) => None,
            Err(e) => Some(e),
        }
    }
}

/// The transaction that empties `source` into `destination`: the transfer
/// of what is left of `balance` once the estimated fee is paid.
///
/// The estimate has to be for a message of the shape of that transfer;
/// otherwise the call fails with `FeeForOtherMessage`, whatever the balance.
pub fn plan_drain_transfer(
    source: &Address,
    destination: &Address,
    balance: u64,
    estimate: &FeeEstimate,
    anchor: Anchor,
) -> (r: Result<UnsignedTransaction, ClientError>)
    ensures
        match r {
            Ok(tx) => {
                &&& drain_failure(balance, *estimate) is None
                &&& is_transfer(tx, *source, *destination, drain_plan(balance, estimate.fee)->Ok_0, anchor)
                &&& shape_of(tx.instructions@, tx.fee_payer) == estimate.shape
            },
            Err(e) => drain_failure(balance, *estimate) == Some(e),
        },
{
    if estimate.shape.instructions != 1 || estimate.shape.signers != 1 {
        return Err(ClientError::Configuration(ConfigurationError::FeeForOtherMessage));
    }
    match plan_full_drain(balance, estimate.fee) {
        Ok(amount) => {
            let tx = transfer_transaction(source, destination, amount, anchor);
            proof {
                lemma_transfer_shape(tx, *source, *destination, amount, anchor);
            }
            Ok(tx)
        },
        Err(e) => Err(e),
    }
}

} // verus!
