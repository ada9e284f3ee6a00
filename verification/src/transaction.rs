//! Assembling instructions into a transaction and signing it.

use vstd::prelude::*;
use crate::address::{Address, Anchor};
use crate::error::{ClientError, ConfigurationError};
use crate::instruction::{AccountRef, Instruction, InstructionView};
use crate::keys::{keypair_address, keypair_signature, KeyHolder, Signature};
use solana_program::instruction as wire;
use solana_program::message::Message;

verus! {

/// Longest list that the message format can prefix with its length.
pub const MAX_LIST_LEN: usize = 65535;

/// Most distinct addresses that one message can number.
pub const MAX_ADDRESSES: usize = 256;

/// Most distinct signers that one message can count.
pub const MAX_SIGNERS: usize = 255;

/// Whether the reference `r` is one to `a`; with `signers_only`, one that
/// also marks `a` as a signer.
pub open spec fn refers_to(r: AccountRef, signers_only: bool, a: Address) -> bool {
    r.address == a && (signers_only ==> r.is_signer)
}

/// Whether the first `n` account references of `ix` mention `a`. The target
/// program counts as mentioned unless only signers are asked for.
pub open spec fn mentions_within(ix: Instruction, signers_only: bool, a: Address, n: int) -> bool {
    ||| (!signers_only && ix.program_id == a)
    ||| exists|j: int| 0 <= j < n && refers_to(#[trigger] ix.accounts@[j], signers_only, a)
}

/// Whether `ix` mentions `a`.
pub open spec fn mentions(ix: Instruction, signers_only: bool, a: Address) -> bool {
    mentions_within(ix, signers_only, a, ix.accounts@.len() as int)
}

/// Whether `a` is the fee payer or is mentioned by one of the first `n` instructions.
pub open spec fn mentioned_within(
    ixs: Seq<Instruction>,
    payer: Address,
    signers_only: bool,
    a: Address,
    n: int,
) -> bool {
    ||| a == payer
    ||| exists|i: int| 0 <= i < n && mentions(#[trigger] ixs[i], signers_only, a)
}

/// Whether the transaction involves `a` at all: as fee payer, as a target
/// program, or as an account of an instruction.
pub open spec fn is_referenced(ixs: Seq<Instruction>, payer: Address, a: Address) -> bool {
    mentioned_within(ixs, payer, false, a, ixs.len() as int)
}

/// Whether `a` has to sign: it is the fee payer, or some instruction marks
/// it as a signer.
pub open spec fn must_sign(ixs: Seq<Instruction>, payer: Address, a: Address) -> bool {
    mentioned_within(ixs, payer, true, a, ixs.len() as int)
}

/// An address has to sign exactly when it is the fee payer or some account
/// reference of some instruction names it and marks it as a signer.
pub proof fn lemma_must_sign(ixs: Seq<Instruction>, payer: Address, a: Address)
    ensures
        must_sign(ixs, payer, a) <==> (a == payer || exists|i: int, j: int|
            0 <= i < ixs.len() && 0 <= j < ixs[i].accounts@.len() && (
            #[trigger] ixs[i].accounts@[j]).address == a && ixs[i].accounts@[j].is_signer),
{
    if must_sign(ixs, payer, a) && a != payer {
        let i = choose|i: int| 0 <= i < ixs.len() && mentions(#[trigger] ixs[i], true, a);
        let j = choose|j: int|
            0 <= j < ixs[i].accounts@.len() && refers_to(#[trigger] ixs[i].accounts@[j], true, a);
        assert(ixs[i].accounts@[j].address == a && ixs[i].accounts@[j].is_signer);
    }
}

/// A transaction involves an address exactly when it is the fee payer, the
/// target program of some instruction, or named by some account reference.
pub proof fn lemma_is_referenced(ixs: Seq<Instruction>, payer: Address, a: Address)
    ensures
        is_referenced(ixs, payer, a) <==> (a == payer || (exists|i: int|
            0 <= i < ixs.len() && (#[trigger] ixs[i]).program_id == a) || (exists|i: int, j: int|
            0 <= i < ixs.len() && 0 <= j < ixs[i].accounts@.len() && (
            #[trigger] ixs[i].accounts@[j]).address == a)),
{
    if is_referenced(ixs, payer, a) && a != payer {
        let i = choose|i: int| 0 <= i < ixs.len() && mentions(#[trigger] ixs[i], false, a);
        if ixs[i].program_id != a {
            let j = choose|j: int|
                0 <= j < ixs[i].accounts@.len() && refers_to(#[trigger] ixs[i].accounts@[j], false, a);
            assert(ixs[i].accounts@[j].address == a);
        }
    }
}

/// The addresses that the transaction involves.
pub open spec fn referenced(ixs: Seq<Instruction>, payer: Address) -> Set<Address> {
    Set::new(|a: Address| is_referenced(ixs, payer, a))
}

/// The addresses that have to sign the transaction.
pub open spec fn signing(ixs: Seq<Instruction>, payer: Address) -> Set<Address> {
    Set::new(|a: Address| must_sign(ixs, payer, a))
}

/// Whether the message format can hold the transaction: every list short
/// enough for its length prefix, and few enough distinct addresses and
/// signers to be numbered in one byte.
pub open spec fn fits_format(ixs: Seq<Instruction>, payer: Address) -> bool {
    &&& ixs.len() <= MAX_LIST_LEN
    &&& forall|i: int|
        0 <= i < ixs.len() ==> (#[trigger] ixs[i]).accounts@.len() <= MAX_LIST_LEN
            && ixs[i].data@.len() <= MAX_LIST_LEN
    &&& referenced(ixs, payer).len() <= MAX_ADDRESSES
    &&& signing(ixs, payer).len() <= MAX_SIGNERS
}

/// A list without repetitions that holds exactly the members of a set has
/// as many entries as the set has members.
proof fn lemma_table_counts(table: Seq<Address>, members: Set<Address>)
    requires
        table.no_duplicates(),
        forall|a: Address| table.contains(a) <==> members.contains(a),
    ensures
        members.finite(),
        members.len() == table.len(),
{
    broadcast use vstd::seq_lib::seq_to_set_is_finite;
    table.unique_seq_to_set();
    assert(table.to_set() =~= members);
}

/// The first place at which `table` holds `a`.
fn position_of(table: &Vec<Address>, a: &Address) -> (r: Option<usize>)
    ensures
        match r {
            Some(k) => k < table.len() && table@[k as int] == *a,
            None => !table@.contains(*a),
        },
{
    let mut k: usize = 0;
    while k < table.len()
        invariant
            k <= table.len(),
            forall|m: int| 0 <= m < k ==> table@[m] != *a,
        decreases table.len() - k,
    {
        if table[k].same(a) {
            return Some(k);
        }
        k += 1;
    }
    None
}

/// Adds `a` to `table` unless it is there already.
fn push_unique(table: &mut Vec<Address>, a: Address)
    requires
        old(table)@.no_duplicates(),
    ensures
        final(table)@.no_duplicates(),
        old(table)@.len() <= final(table)@.len() <= old(table)@.len() + 1,
        final(table)@.len() > 0,
        old(table)@.len() > 0 ==> final(table)@[0] == old(table)@[0],
        forall|b: Address|
            #![trigger final(table)@.contains(b)]
            final(table)@.contains(b) <==> old(table)@.contains(b) || b == a,
{
    if position_of(table, &a).is_none() {
        table.push(a);
        proof {
            let before = old(table)@;
            let after = table@;
            assert forall|b: Address| #![trigger after.contains(b)] after.contains(b) <==> before.contains(b) || b == a by {
                if before.contains(b) {
                    let k = choose|k: int| 0 <= k < before.len() && before[k] == b;
                    assert(after[k] == b);
                }
                if b == a {
                    assert(after[before.len() as int] == b);
                }
            }
        }
    }
}

/// The distinct addresses that the transaction mentions, the fee payer
/// first; with `signers_only`, those that have to sign.
fn distinct_addresses(ixs: &Vec<Instruction>, payer: &Address, signers_only: bool) -> (table: Vec<Address>)
    ensures
        table@.no_duplicates(),
        table@.len() > 0,
        table@[0] == *payer,
        forall|a: Address|
            #![trigger table@.contains(a)]
            table@.contains(a) <==> mentioned_within(ixs@, *payer, signers_only, a, ixs@.len() as int),
{
    let mut table: Vec<Address> = Vec::new();
    table.push(*payer);
    assert forall|a: Address|
        #![trigger table@.contains(a)]
        table@.contains(a) <==> mentioned_within(ixs@, *payer, signers_only, a, 0) by {
        if a == *payer {
            assert(table@[0] == a);
        }
    }
    let mut i: usize = 0;
    while i < ixs.len()
        invariant
            i <= ixs.len(),
            table@.no_duplicates(),
            table@.len() > 0,
            table@[0] == *payer,
            forall|a: Address|
                #![trigger table@.contains(a)]
                table@.contains(a) <==> mentioned_within(ixs@, *payer, signers_only, a, i as int),
        decreases ixs.len() - i,
    {
        let ix = &ixs[i];
        let ghost entry = table@;
        if !signers_only {
            push_unique(&mut table, ix.program_id);
        }
        let mut j: usize = 0;
        while j < ix.accounts.len()
            invariant
                j <= ix.accounts.len(),
                i < ixs.len(),
                *ix == ixs@[i as int],
                table@.no_duplicates(),
                table@.len() > 0,
                table@[0] == *payer,
                forall|a: Address|
                    #![trigger table@.contains(a)]
                    table@.contains(a) <==> entry.contains(a) || mentions_within(
                        *ix,
                        signers_only,
                        a,
                        j as int,
                    ),
            decreases ix.accounts.len() - j,
        {
            let r = ix.accounts[j];
            if !signers_only || r.is_signer {
                push_unique(&mut table, r.address);
            }
            proof {
                assert forall|a: Address|
                    #![trigger table@.contains(a)]
                    table@.contains(a) <==> entry.contains(a) || mentions_within(
                        *ix,
                        signers_only,
                        a,
                        j as int + 1,
                    ) by {
                    let here = refers_to(ix.accounts@[j as int], signers_only, a);
                    assert(mentions_within(*ix, signers_only, a, j as int + 1)
                        <==> mentions_within(*ix, signers_only, a, j as int) || here);
                }
            }
            j += 1;
        }
        proof {
            assert forall|a: Address|
                #![trigger table@.contains(a)]
                table@.contains(a) <==> mentioned_within(
                    ixs@,
                    *payer,
                    signers_only,
                    a,
                    i as int + 1,
                ) by {
                let here = mentions(ixs@[i as int], signers_only, a);
                assert(mentioned_within(ixs@, *payer, signers_only, a, i as int + 1)
                    <==> mentioned_within(ixs@, *payer, signers_only, a, i as int) || here);
            }
        }
        i += 1;
    }
    table
}

/// What compiling and serialising a message yields for the given
/// instructions, fee payer and anchor: the addresses that have to sign, in
/// the order of the message's account table, and the message's bytes.
pub uninterp spec fn compiled_message(
    instructions: Seq<InstructionView>,
    payer: Seq<u8>,
    anchor: Seq<u8>,
) -> (Seq<Seq<u8>>, Seq<u8>);

/// Whether `keys` can be the signing part of the account table: the fee
/// payer first, no address twice, and exactly the addresses that have to sign.
pub open spec fn signer_table(keys: Seq<Address>, ixs: Seq<Instruction>, payer: Address) -> bool {
    &&& keys.len() > 0
    &&& keys[0] == payer
    &&& keys.no_duplicates()
    &&& forall|a: Address| #[trigger] keys.contains(a) <==> must_sign(ixs, payer, a)
}

/// Calls `Message::new_with_blockhash` and, on the message it yields,
/// `Message::serialize`; the signer keys are the first
/// `num_required_signatures` entries of the message's `account_keys`.
///
/// Both results are a function of the arguments alone, which the contract
/// names. Of the signer keys it also claims what the compilation shows: it
/// puts the payer first, keeps each key once, and places before all others
/// the keys that are the payer or that some account reference marks as a
/// signer. The precondition keeps away the inputs on which the outside code
/// stops or numbers an account wrongly.
#[verifier::external_body]
fn compile_message(instructions: &Vec<Instruction>, payer: &Address, anchor: &Anchor) -> (compiled: (
    Vec<Address>,
    Vec<u8>,
))
    requires
        fits_format(instructions@, *payer),
    ensures
        compiled.0.deep_view() == compiled_message(instructions.deep_view(), payer@, anchor@).0,
        compiled.1@ == compiled_message(instructions.deep_view(), payer@, anchor@).1,
        signer_table(compiled.0@, instructions@, *payer),
{
    let outside: Vec<wire::Instruction> = instructions.iter().map(|ix| wire::Instruction {
        program_id: ix.program_id.bytes.into(),
        accounts: ix.accounts.iter().map(|r| wire::AccountMeta {
            pubkey: r.address.bytes.into(),
            is_signer: r.is_signer,
            is_writable: r.is_writable,
        }).collect(),
        data: ix.data.clone(),
    }).collect();
    let message = Message::new_with_blockhash(&outside, Some(&payer.bytes.into()), &anchor.bytes.into());
    let signers = usize::from(message.header.num_required_signatures);
    (message.account_keys[..signers].iter().map(|k| Address { bytes: k.to_bytes() }).collect(), message.serialize())
}

/// A signer table has one entry for each address that has to sign.
pub proof fn lemma_signer_count(keys: Seq<Address>, ixs: Seq<Instruction>, payer: Address)
    requires
        signer_table(keys, ixs, payer),
    ensures
        signing(ixs, payer).finite(),
        signing(ixs, payer).len() == keys.len(),
{
    lemma_table_counts(keys, signing(ixs, payer));
}

/// Whether one of `holders` signs for `a`.
pub open spec fn has_holder(holders: Seq<KeyHolder>, a: Address) -> bool {
    exists|k: int| 0 <= k < holders.len() && (#[trigger] holders[k]).spec_address() == a
}

/// Whether `holders[k]` is the first of `holders` that signs for `a`.
pub open spec fn is_first_holder(holders: Seq<KeyHolder>, a: Address, k: int) -> bool {
    &&& 0 <= k < holders.len()
    &&& holders[k].spec_address() == a
    &&& forall|m: int| 0 <= m < k ==> (#[trigger] holders[m]).spec_address() != a
}

/// The place of the first of `holders` that signs for `a`.
pub open spec fn first_holder(holders: Seq<KeyHolder>, a: Address) -> int {
    choose|k: int| is_first_holder(holders, a, k)
}

/// Whether every address that has to sign has a holder among `holders`.
pub open spec fn all_signers_held(ixs: Seq<Instruction>, payer: Address, holders: Seq<KeyHolder>) -> bool {
    forall|a: Address| must_sign(ixs, payer, a) ==> has_holder(holders, a)
}

/// Why signing fails, if it does: a transaction that the format cannot
/// hold is refused first, then one that lacks a signer.
pub open spec fn signing_failure(
    ixs: Seq<Instruction>,
    payer: Address,
    holders: Seq<KeyHolder>,
) -> Option<ClientError> {
    if !fits_format(ixs, payer) {
        Some(ClientError::Configuration(ConfigurationError::TransactionTooLarge))
    } else if !all_signers_held(ixs, payer, holders) {
        Some(ClientError::MissingSigner)
    } else {
        None
    }
}

/// There is only one first holder.
pub proof fn lemma_first_holder(holders: Seq<KeyHolder>, a: Address, k: int)
    requires
        is_first_holder(holders, a, k),
    ensures
        first_holder(holders, a) == k,
{
    assert(is_first_holder(holders, a, first_holder(holders, a)));
}

/// The first of `holders` that signs for `a`.
fn find_holder(holders: &[KeyHolder], a: &Address) -> (r: Option<usize>)
    ensures
        match r {
            Some(k) => is_first_holder(holders@, *a, k as int),
            None => !has_holder(holders@, *a),
        },
{
    let mut k: usize = 0;
    while k < holders.len()
        invariant
            k <= holders.len(),
            forall|m: int| 0 <= m < k ==> (#[trigger] holders@[m]).spec_address() != *a,
        decreases holders.len() - k,
    {
        if holders[k].address().same(a) {
            return Some(k);
        }
        k += 1;
    }
    None
}

/// For each of `keys`, in their order, the place of the holder that signs
/// for it: the first of `holders` with that address. It fails with
/// `MissingSigner` exactly when one of `keys` has no holder.
pub fn select_holders(keys: &Vec<Address>, holders: &[KeyHolder]) -> (r: Result<Vec<usize>, ClientError>)
    ensures
        match r {
            Ok(chosen) => {
                &&& chosen@.len() == keys@.len()
                &&& forall|i: int|
                    0 <= i < keys@.len() ==> is_first_holder(
                        holders@,
                        keys@[i],
                        (#[trigger] chosen@[i]) as int,
                    )
            },
            Err(e) => {
                &&& e == ClientError::MissingSigner
                &&& exists|i: int| 0 <= i < keys@.len() && !has_holder(holders@, #[trigger] keys@[i])
            },
        },
{
    let mut chosen: Vec<usize> = Vec::new();
    let mut i: usize = 0;
    while i < keys.len()
        invariant
            i <= keys.len(),
            chosen@.len() == i,
            forall|n: int|
                0 <= n < i ==> is_first_holder(holders@, keys@[n], (#[trigger] chosen@[n]) as int),
        decreases keys.len() - i,
    {
        match find_holder(holders, &keys[i]) {
            None => {
                return Err(ClientError::MissingSigner);
            },
            Some(k) => {
                chosen.push(k);
            },
        }
        i += 1;
    }
    Ok(chosen)
}

/// Instructions, the account that pays the fee, and the anchor that bounds
/// the window of acceptance. It is built anew for every submission attempt.
#[derive(Clone, Debug, PartialEq, Eq)]
pub struct UnsignedTransaction {
    pub instructions: Vec<Instruction>,
    pub fee_payer: Address,
    pub anchor: Anchor,
}

impl UnsignedTransaction {
    pub fn new(instructions: Vec<Instruction>, fee_payer: Address, anchor: Anchor) -> (tx: UnsignedTransaction)
        ensures
            tx == (UnsignedTransaction { instructions, fee_payer, anchor }),
    {
        UnsignedTransaction { instructions, fee_payer, anchor }
    }

    /// The canonical serialised form, over which signatures are computed.
    pub open spec fn canonical_bytes(&self) -> Seq<u8> {
        compiled_message(self.instructions.deep_view(), self.fee_payer@, self.anchor@).1
    }

    /// The addresses that have to sign, in the order of the account table.
    pub open spec fn canonical_signers(&self) -> Seq<Seq<u8>> {
        compiled_message(self.instructions.deep_view(), self.fee_payer@, self.anchor@).0
    }

    /// Whether the message format can hold this transaction.
    pub fn fits(&self) -> (ok: bool)
        ensures
            ok == fits_format(self.instructions@, self.fee_payer),
    {
        if self.instructions.len() > MAX_LIST_LEN {
            return false;
        }
        let mut i: usize = 0;
        while i < self.instructions.len()
            invariant
                i <= self.instructions.len(),
                forall|k: int|
                    0 <= k < i ==> (#[trigger] self.instructions@[k]).accounts@.len() <= MAX_LIST_LEN
                        && self.instructions@[k].data@.len() <= MAX_LIST_LEN,
            decreases self.instructions.len() - i,
        {
            if self.instructions[i].accounts.len() > MAX_LIST_LEN || self.instructions[i].data.len()
                > MAX_LIST_LEN {
                return false;
            }
            i += 1;
        }
        let all = distinct_addresses(&self.instructions, &self.fee_payer, false);
        let signers = distinct_addresses(&self.instructions, &self.fee_payer, true);
        proof {
            lemma_table_counts(all@, referenced(self.instructions@, self.fee_payer));
            lemma_table_counts(signers@, signing(self.instructions@, self.fee_payer));
        }
        all.len() <= MAX_ADDRESSES && signers.len() <= MAX_SIGNERS
    }

    /// The canonical serialised form of the transaction: the bytes that are
    /// signed, and for which a fee is to be estimated. They depend on the
    /// instructions, the fee payer and the anchor alone.
    pub fn message_bytes(&self) -> (r: Result<Vec<u8>, ClientError>)
        ensures
            match r {
                Ok(bytes) => fits_format(self.instructions@, self.fee_payer) && bytes@
                    == self.canonical_bytes(),
                Err(e) => !fits_format(self.instructions@, self.fee_payer) && e
                    == ClientError::Configuration(ConfigurationError::TransactionTooLarge),
            },
    {
        if !self.fits() {
            return Err(ClientError::Configuration(ConfigurationError::TransactionTooLarge));
        }
        let compiled = compile_message(&self.instructions, &self.fee_payer, &self.anchor);
        Ok(compiled.1)
    }

    /// The addresses that have to sign, in the order in which their
    /// signatures stand in the signed transaction: the fee payer first.
    pub fn required_signers(&self) -> (r: Result<Vec<Address>, ClientError>)
        ensures
            match r {
                Ok(keys) => {
                    &&& fits_format(self.instructions@, self.fee_payer)
                    &&& keys.deep_view() == self.canonical_signers()
                    &&& signer_table(keys@, self.instructions@, self.fee_payer)
                },
                Err(e) => !fits_format(self.instructions@, self.fee_payer) && e
                    == ClientError::Configuration(ConfigurationError::TransactionTooLarge),
            },
    {
        if !self.fits() {
            return Err(ClientError::Configuration(ConfigurationError::TransactionTooLarge));
        }
        let compiled = compile_message(&self.instructions, &self.fee_payer, &self.anchor);
        Ok(compiled.0)
    }

    /// Signs the transaction with those of `holders` whose addresses have
    /// to sign. Where several holders sign for one address, the first does.
    pub fn sign(self, holders: &[KeyHolder]) -> (r: Result<SignedTransaction, ClientError>)
        ensures
            match r {
                Ok(tx) => {
                    &&& signing_failure(self.instructions@, self.fee_payer, holders@) is None
                    &&& tx@.unsigned == self
                    &&& tx@.complete()
                    &&& forall|i: int|
                        0 <= i < tx@.signer_keys.len() ==> (#[trigger] tx@.signed_with[i])
                            == holders@[first_holder(holders@, tx@.signer_keys[i])].material()
                },
                Err(e) => signing_failure(self.instructions@, self.fee_payer, holders@) == Some(e),
            },
    {
        if !self.fits() {
            return Err(ClientError::Configuration(ConfigurationError::TransactionTooLarge));
        }
        let compiled = compile_message(&self.instructions, &self.fee_payer, &self.anchor);
        let keys = compiled.0;
        let message = compiled.1;
        let chosen = match select_holders(&keys, holders) {
            Ok(chosen) => chosen,
            Err(e) => {
                proof {
                    let i = choose|i: int| 0 <= i < keys@.len() && !has_holder(holders@, #[trigger] keys@[i]);
                    assert(keys@.contains(keys@[i]));
                }
                return Err(e);
            },
        };
        let mut signatures: Vec<Signature> = Vec::new();
        let ghost mut used: Seq<Seq<u8>> = Seq::empty();
        let mut i: usize = 0;
        while i < keys.len()
            invariant
                i <= keys.len(),
                signatures@.len() == i,
                used.len() == i,
                chosen@.len() == keys@.len(),
                forall|n: int|
                    0 <= n < keys@.len() ==> is_first_holder(
                        holders@,
                        keys@[n],
                        (#[trigger] chosen@[n]) as int,
                    ),
                forall|n: int|
                    0 <= n < i ==> {
                        &&& (#[trigger] used[n]) == holders@[first_holder(holders@, keys@[n])].material()
                        &&& keypair_address(used[n]) == Some(keys@[n]@)
                        &&& signatures@[n]@ == keypair_signature(used[n], message@)
                    },
            decreases keys.len() - i,
        {
            let k = chosen[i];
            proof {
                lemma_first_holder(holders@, keys@[i as int], k as int);
            }
            let holder = &holders[k];
            let signature = holder.sign(message.as_slice());
            signatures.push(signature);
            proof {
                used = used.push(holder.material());
            }
            i += 1;
        }
        proof {
            assert forall|a: Address|
                must_sign(self.instructions@, self.fee_payer, a) implies has_holder(holders@, a) by {
                assert(keys@.contains(a));
                let n = choose|n: int| 0 <= n < keys@.len() && keys@[n] == a;
                assert(is_first_holder(holders@, keys@[n], chosen@[n] as int));
            }
        }
        Ok(SignedTransaction { unsigned: self, signer_keys: keys, signatures, message, signed_with: Ghost(used) })
    }
}

/// A signed transaction as plain values.
pub struct SignedView {
    /// The transaction that was signed.
    pub unsigned: UnsignedTransaction,
    /// The addresses that signed, in the order of the account table.
    pub signer_keys: Seq<Address>,
    /// The signatures, each at the place of its address in `signer_keys`.
    pub signatures: Seq<Signature>,
    /// The bytes that were signed.
    pub message: Seq<u8>,
    /// The key material that produced each signature.
    pub signed_with: Seq<Seq<u8>>,
}

/// An unsigned transaction together with one signature for each address
/// that has to sign, in the order of the account table. It is made by
/// signing only, and nothing changes it afterwards: the bytes that were
/// signed stay the bytes that are sent.
pub struct SignedTransaction {
    unsigned: UnsignedTransaction,
    signer_keys: Vec<Address>,
    signatures: Vec<Signature>,
    message: Vec<u8>,
    signed_with: Ghost<Seq<Seq<u8>>>,
}

impl View for SignedTransaction {
    type V = SignedView;

    closed spec fn view(&self) -> SignedView {
        SignedView {
            unsigned: self.unsigned,
            signer_keys: self.signer_keys@,
            signatures: self.signatures@,
            message: self.message@,
            signed_with: self.signed_with@,
        }
    }
}

impl SignedView {
    /// What holds of every signed transaction: the signed bytes are the
    /// canonical form of the unsigned transaction, and every address that
    /// has to sign has, at its place, the signature over those bytes of a
    /// keypair with that address.
    pub open spec fn complete(self) -> bool {
        let tx = self.unsigned;
        &&& fits_format(tx.instructions@, tx.fee_payer)
        &&& signer_table(self.signer_keys, tx.instructions@, tx.fee_payer)
        &&& self.signer_keys.len() == tx.canonical_signers().len()
        &&& forall|i: int|
            0 <= i < self.signer_keys.len() ==> (#[trigger] self.signer_keys[i])@
                == tx.canonical_signers()[i]
        &&& self.message == tx.canonical_bytes()
        &&& self.signatures.len() == self.signer_keys.len()
        &&& self.signed_with.len() == self.signer_keys.len()
        &&& forall|i: int|
            0 <= i < self.signer_keys.len() ==> {
                &&& keypair_address(#[trigger] self.signed_with[i]) == Some(self.signer_keys[i]@)
                &&& self.signatures[i]@ == keypair_signature(self.signed_with[i], self.message)
            }
    }
}

impl SignedTransaction {
    #[verifier::type_invariant]
    spec fn well_formed(self) -> bool {
        self@.complete()
    }

    /// The transaction that was signed.
    pub fn unsigned(&self) -> (tx: &UnsignedTransaction)
        ensures
            *tx == self@.unsigned,
            self@.complete(),
    {
        proof {
            use_type_invariant(self);
        }
        &self.unsigned
    }

    /// The anchor under which the transaction was built.
    pub fn anchor(&self) -> (anchor: Anchor)
        ensures
            anchor == self@.unsigned.anchor,
    {
        self.unsigned.anchor
    }

    /// The addresses that signed, the fee payer first.
    pub fn signer_keys(&self) -> (keys: &Vec<Address>)
        ensures
            keys@ == self@.signer_keys,
            self@.complete(),
    {
        proof {
            use_type_invariant(self);
        }
        &self.signer_keys
    }

    /// The signatures, each at the place of its address in `signer_keys`.
    pub fn signatures(&self) -> (signatures: &Vec<Signature>)
        ensures
            signatures@ == self@.signatures,
            self@.complete(),
    {
        proof {
            use_type_invariant(self);
        }
        &self.signatures
    }

    /// The bytes that were signed.
    pub fn message(&self) -> (bytes: &Vec<u8>)
        ensures
            bytes@ == self@.message,
            self@.complete(),
    {
        proof {
            use_type_invariant(self);
        }
        &self.message
    }

    /// The identifier under which the network knows the transaction: the
    /// signature of the fee payer.
    pub fn id(&self) -> (id: Signature)
        ensures
            self@.complete(),
            id == self@.signatures[0],
    {
        proof {
            use_type_invariant(self);
        }
        self.signatures[0]
    }
}

/// Builds a transaction from `instructions`, `fee_payer` and `anchor`, and
/// signs it with `signers`. Nothing but memory is touched.
///
/// It fails with `MissingSigner` when the fee payer, or an address that an
/// instruction marks as a signer, has no holder among `signers`.
pub fn build_and_sign(
    instructions: Vec<Instruction>,
    fee_payer: Address,
    signers: &[KeyHolder],
    anchor: Anchor,
) -> (r: Result<SignedTransaction, ClientError>)
    ensures
        match r {
            Ok(tx) => {
                &&& signing_failure(instructions@, fee_payer, signers@) is None
                &&& tx@.unsigned == (UnsignedTransaction { instructions, fee_payer, anchor })
                &&& tx@.complete()
                &&& forall|i: int|
                    0 <= i < tx@.signer_keys.len() ==> (#[trigger] tx@.signed_with[i])
                        == signers@[first_holder(signers@, tx@.signer_keys[i])].material()
            },
            Err(e) => signing_failure(instructions@, fee_payer, signers@) == Some(e),
        },
{
    UnsignedTransaction::new(instructions, fee_payer, anchor).sign(signers)
}

} // verus!
