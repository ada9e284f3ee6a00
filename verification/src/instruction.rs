//! Instructions: a target program, the accounts it works on, and a payload.

use vstd::prelude::*;
use vstd::bytes::spec_u64_to_le_bytes;
use crate::address::Address;
use crate::encoding::{
    all_encodable, args_wire, decode_args, encode_args, parse_args, ArgKind, InstructionArgs,
};
use crate::error::ConfigurationError;
use solana_program::pubkey::Pubkey;

verus! {

/// A reference to an account from within an instruction.
#[derive(Clone, Copy, Debug, PartialEq, Eq)]
pub struct AccountRef {
    pub address: Address,
    pub is_signer: bool,
    pub is_writable: bool,
}

/// An account reference as plain values.
pub struct AccountRefView {
    pub address: Seq<u8>,
    pub is_signer: bool,
    pub is_writable: bool,
}

impl DeepView for AccountRef {
    type V = AccountRefView;

    open spec fn deep_view(&self) -> AccountRefView {
        AccountRefView {
            address: self.address@,
            is_signer: self.is_signer,
            is_writable: self.is_writable,
        }
    }
}

impl AccountRef {
    /// A reference to an account that the instruction may change.
    pub fn writable(address: Address, is_signer: bool) -> (r: AccountRef)
        ensures
            r == (AccountRef { address, is_signer, is_writable: true }),
    {
        AccountRef { address, is_signer, is_writable: true }
    }

    /// A reference to an account that the instruction only reads.
    pub fn readonly(address: Address, is_signer: bool) -> (r: AccountRef)
        ensures
            r == (AccountRef { address, is_signer, is_writable: false }),
    {
        AccountRef { address, is_signer, is_writable: false }
    }
}

/// One call of a program: the accounts in the order the program expects
/// them, and the encoded arguments.
#[derive(Clone, Debug, PartialEq, Eq)]
pub struct Instruction {
    pub program_id: Address,
    pub accounts: Vec<AccountRef>,
    pub data: Vec<u8>,
}

/// An instruction as plain values.
pub struct InstructionView {
    pub program_id: Seq<u8>,
    pub accounts: Seq<AccountRefView>,
    pub data: Seq<u8>,
}

impl DeepView for Instruction {
    type V = InstructionView;

    open spec fn deep_view(&self) -> InstructionView {
        InstructionView {
            program_id: self.program_id@,
            accounts: self.accounts.deep_view(),
            data: self.data@,
        }
    }
}

/// The address of the system program: thirty-two zero bytes.
pub open spec fn system_program_bytes() -> Seq<u8> {
    Seq::new(32, |i: int| 0u8)
}

/// The payload of a system transfer: the variant's index as four bytes,
/// then the amount as eight, both little-endian.
pub open spec fn transfer_data(amount: u64) -> Seq<u8> {
    seq![2u8, 0u8, 0u8, 0u8] + spec_u64_to_le_bytes(amount)
}

/// The accounts of a system transfer: the funding account, which signs, and
/// the recipient; both are written to.
pub open spec fn transfer_accounts(from: Address, to: Address) -> Seq<AccountRef> {
    seq![
        AccountRef { address: from, is_signer: true, is_writable: true },
        AccountRef { address: to, is_signer: false, is_writable: true },
    ]
}

/// Calls `solana_program::system_program::id`, which returns the constant
/// declared for the system program: the address whose bytes are all zero.
#[verifier::external_body]
fn system_program_id() -> (id: Address)
    ensures
        id@ == system_program_bytes(),
{
    Address { bytes: solana_program::system_program::id().to_bytes() }
}

/// Calls `solana_sdk::system_instruction::transfer`. It addresses the
/// system program, lists the funding account as a writable signer and the
/// recipient as writable, and serialises the `Transfer` variant, third in
/// its enum, with its one field.
#[verifier::external_body]
fn system_transfer(from: &Address, to: &Address, amount: u64) -> (ix: Instruction)
    ensures
        ix.program_id@ == system_program_bytes(),
        ix.accounts@ == transfer_accounts(*from, *to),
        ix.data@ == transfer_data(amount),
{
    let made = solana_sdk::system_instruction::transfer(
        &Pubkey::new_from_array(from.bytes),
        &Pubkey::new_from_array(to.bytes),
        amount,
    );
    Instruction {
        program_id: Address { bytes: made.program_id.to_bytes() },
        accounts: made.accounts.iter().map(|m| AccountRef {
            address: Address { bytes: m.pubkey.to_bytes() },
            is_signer: m.is_signer,
            is_writable: m.is_writable,
        }).collect(),
        data: made.data,
    }
}

/// The address of the system program.
pub fn system_program() -> (id: Address)
    ensures
        id@ == system_program_bytes(),
{
    system_program_id()
}

/// The instruction that moves `amount` from `from` to `to`.
pub fn transfer(from: &Address, to: &Address, amount: u64) -> (ix: Instruction)
    ensures
        ix.program_id@ == system_program_bytes(),
        ix.accounts@ == transfer_accounts(*from, *to),
        ix.data@ == transfer_data(amount),
{
    system_transfer(from, to, amount)
}

/// Packages `args`, in their wire layout, with the program they are for
/// and the accounts it works on. The accounts keep their order: the place
/// of an account tells the program its role.
pub fn encode(program_id: Address, accounts: Vec<AccountRef>, args: &InstructionArgs) -> (r: Result<
    Instruction,
    ConfigurationError,
>)
    ensures
        match r {
            Ok(ix) => {
                &&& all_encodable(args.deep_view().fields)
                &&& ix.program_id == program_id
                &&& ix.accounts@ == accounts@
                &&& ix.data@ == args_wire(args.deep_view())
            },
            Err(e) => !all_encodable(args.deep_view().fields) && e
                == ConfigurationError::FieldTooLong,
        },
{
    match encode_args(args) {
        Ok(data) => Ok(Instruction { program_id, accounts, data }),
        Err(e) => Err(e),
    }
}

/// Reads back the arguments of `ix`, whose fields have the types `layout`.
pub fn decode(ix: &Instruction, layout: &Vec<ArgKind>) -> (r: Option<InstructionArgs>)
    ensures
        r.deep_view() == parse_args(layout@, ix.data@),
{
    decode_args(layout, ix.data.as_slice())
}

} // verus!
