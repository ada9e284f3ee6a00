//! Addresses, validity anchors, and the derivation of program-owned addresses.

use vstd::prelude::*;
use vstd::utf8::encode_utf8;
use crate::base58::{base58_decoded, base58_encoded};
use crate::error::ConfigurationError;
use solana_program::pubkey::Pubkey;
use std::str::FromStr;

verus! {

/// Longest seed accepted when deriving an address.
pub const MAX_SEED_LEN: usize = 32;

/// Most seeds accepted when deriving an address; one slot of the format is
/// taken by the bump seed.
pub const MAX_SEEDS: usize = 15;

/// A fixed-length public identifier of an account.
#[derive(Clone, Copy, Debug, PartialEq, Eq, Hash)]
pub struct Address {
    pub bytes: [u8; 32],
}

impl View for Address {
    type V = Seq<u8>;

    open spec fn view(&self) -> Seq<u8> {
        self.bytes@
    }
}

impl DeepView for Address {
    type V = Seq<u8>;

    open spec fn deep_view(&self) -> Seq<u8> {
        self.bytes@
    }
}

/// A validity anchor: a recent checkpoint of the ledger that bounds the
/// window in which a transaction is accepted.
#[derive(Clone, Copy, Debug, PartialEq, Eq, Hash)]
pub struct Anchor {
    pub bytes: [u8; 32],
}

impl View for Anchor {
    type V = Seq<u8>;

    open spec fn view(&self) -> Seq<u8> {
        self.bytes@
    }
}

impl Anchor {
    pub fn new(bytes: [u8; 32]) -> (a: Anchor)
        ensures
            a.bytes == bytes,
    {
        Anchor { bytes }
    }

    /// Whether `self` and `other` are the same anchor.
    pub fn same(&self, other: &Anchor) -> (r: bool)
        ensures
            r == (*self == *other),
            r == (self@ == other@),
    {
        let mut i: usize = 0;
        while i < 32
            invariant
                i <= 32,
                forall|k: int| 0 <= k < i ==> self.bytes[k] == other.bytes[k],
            decreases 32 - i,
        {
            if self.bytes[i] != other.bytes[i] {
                return false;
            }
            i += 1;
        }
        proof {
            assert(self.bytes =~= other.bytes);
        }
        true
    }
}

/// Two addresses with the same bytes are the same address.
pub proof fn lemma_address_by_bytes(a: Address, b: Address)
    ensures
        a@ == b@ <==> a == b,
{
    if a@ == b@ {
        assert(a.bytes =~= b.bytes);
    }
}

impl Address {
    pub fn new(bytes: [u8; 32]) -> (a: Address)
        ensures
            a.bytes == bytes,
    {
        Address { bytes }
    }

    /// Whether `self` and `other` are the same address.
    pub fn same(&self, other: &Address) -> (r: bool)
        ensures
            r == (*self == *other),
            r == (self@ == other@),
    {
        let mut i: usize = 0;
        while i < 32
            invariant
                i <= 32,
                forall|k: int| 0 <= k < i ==> self.bytes[k] == other.bytes[k],
            decreases 32 - i,
        {
            if self.bytes[i] != other.bytes[i] {
                return false;
            }
            i += 1;
        }
        proof {
            assert(self.bytes =~= other.bytes);
        }
        true
    }
}

/// What the search for a program-owned address yields for the given seeds
/// and program identifier: the address and the bump seed that produced it,
/// or nothing where the search ends without one.
pub uninterp spec fn program_address_search(seeds: Seq<Seq<u8>>, program_id: Seq<u8>) -> Option<(Seq<u8>, u8)>;

/// Whether the bytes are a point of the curve on which keypairs live. An
/// address whose bytes are no such point has no private key.
pub uninterp spec fn on_curve(bytes: Seq<u8>) -> bool;

/// Most bytes that the text of an address can have.
pub const MAX_TEXT_LEN: usize = 44;

/// The address that a text stands for: the thirty-two bytes that it is
/// the base58 form of. A text that is too long to be one, or that stands
/// for more or fewer bytes, stands for none.
pub open spec fn address_parsed(text: Seq<char>) -> Option<Seq<u8>> {
    if encode_utf8(text).len() > MAX_TEXT_LEN {
        None
    } else {
        match base58_decoded(text) {
            Some(bytes) => if bytes.len() == 32 {
                Some(bytes)
            } else {
                None
            },
            None => None,
        }
    }
}

/// Calls `Pubkey::try_find_program_address`. The result is a function of the
/// seeds and the program identifier alone, which the contract names. The
/// search passes over every candidate that is a point of the curve, so no
/// address that it yields is one; nothing is claimed about when it yields any.
#[verifier::external_body]
fn search_program_address(seeds: &Vec<Vec<u8>>, program_id: &Address) -> (found: Option<(Address, u8)>)
    ensures
        found.deep_view() == program_address_search(seeds.deep_view(), program_id@),
        found matches Some((address, _)) ==> !on_curve(address@),
{
    let parts: Vec<&[u8]> = seeds.iter().map(|s| s.as_slice()).collect();
    Pubkey::try_find_program_address(&parts, &Pubkey::new_from_array(program_id.bytes))
        .map(|(key, bump)| (Address { bytes: key.to_bytes() }, bump))
}

/// Calls `Pubkey::is_on_curve`. The result is a function of the bytes
/// alone, which the contract names.
#[verifier::external_body]
fn curve_point(address: &Address) -> (on: bool)
    ensures
        on == on_curve(address@),
{
    Pubkey::new_from_array(address.bytes).is_on_curve()
}

/// Calls `Pubkey::from_str`. It refuses a text of more than forty-four
/// bytes, decodes the text as base58, and accepts what comes out if it has
/// thirty-two bytes.
#[verifier::external_body]
fn parse_pubkey(text: &str) -> (parsed: Option<Address>)
    ensures
        parsed.deep_view() == address_parsed(text@),
{
    Pubkey::from_str(text).ok().map(|key| Address { bytes: key.to_bytes() })
}

/// Calls `Pubkey::to_string`, which writes the base58 form of the bytes.
#[verifier::external_body]
fn pubkey_text(address: &Address) -> (text: String)
    ensures
        text@ == base58_encoded(address@),
{
    Pubkey::new_from_array(address.bytes).to_string()
}

/// Whether the seeds are few enough and each short enough to derive from.
pub open spec fn seeds_fit(seeds: Seq<Seq<u8>>) -> bool {
    &&& seeds.len() <= MAX_SEEDS
    &&& forall|i: int| 0 <= i < seeds.len() ==> (#[trigger] seeds[i]).len() <= MAX_SEED_LEN
}

/// The outcome of deriving from `seeds`, given what the search for an
/// address yields: seeds that do not fit are refused whatever was found.
pub open spec fn derived_from(
    seeds: Seq<Seq<u8>>,
    found: Option<(Seq<u8>, u8)>,
) -> Result<Seq<u8>, ConfigurationError> {
    if !seeds_fit(seeds) {
        Err(ConfigurationError::SeedTooLong)
    } else {
        match found {
            Some((address, _)) => Ok(address),
            None => Err(ConfigurationError::NoViableAddress),
        }
    }
}

/// The address that `derive` returns for `seeds` under `program_id`.
pub open spec fn derived_address(
    seeds: Seq<Seq<u8>>,
    program_id: Seq<u8>,
) -> Result<Seq<u8>, ConfigurationError> {
    derived_from(seeds, program_address_search(seeds, program_id))
}

/// The view of a derivation result.
pub open spec fn derivation_view(r: Result<Address, ConfigurationError>) -> Result<Seq<u8>, ConfigurationError> {
    match r {
        Ok(a) => Ok(a@),
        Err(e) => Err(e),
    }
}

/// Whether the seeds can be derived from: at most `MAX_SEEDS` of them, each
/// of at most `MAX_SEED_LEN` bytes.
pub fn check_seeds(seeds: &Vec<Vec<u8>>) -> (ok: bool)
    ensures
        ok == seeds_fit(seeds.deep_view()),
{
    if seeds.len() > MAX_SEEDS {
        return false;
    }
    let mut i: usize = 0;
    while i < seeds.len()
        invariant
            i <= seeds.len(),
            seeds.len() <= MAX_SEEDS,
            forall|k: int| 0 <= k < i ==> (#[trigger] seeds.deep_view()[k]).len() <= MAX_SEED_LEN,
        decreases seeds.len() - i,
    {
        assert(seeds.deep_view()[i as int] == seeds[i as int]@);
        if seeds[i].len() > MAX_SEED_LEN {
            return false;
        }
        i += 1;
    }
    true
}

/// The outcome of a derivation, given the seeds and what the search found.
pub fn resolve_derivation(seeds: &Vec<Vec<u8>>, found: Option<(Address, u8)>) -> (r: Result<Address, ConfigurationError>)
    ensures
        derivation_view(r) == derived_from(seeds.deep_view(), found.deep_view()),
        r matches Ok(address) ==> found matches Some((given, _)) && address == given,
{
    if !check_seeds(seeds) {
        return Err(ConfigurationError::SeedTooLong);
    }
    match found {
        Some((address, _)) => Ok(address),
        None => Err(ConfigurationError::NoViableAddress),
    }
}

/// Derives the program-owned address for `seeds` under `program_id`.
///
/// The result depends on the seeds and the program identifier alone, and
/// an address that comes out has no private key. It fails with
/// `SeedTooLong` exactly when there are more than `MAX_SEEDS` seeds or one
/// of them is longer than `MAX_SEED_LEN` bytes.
pub fn derive(seeds: &Vec<Vec<u8>>, program_id: &Address) -> (r: Result<Address, ConfigurationError>)
    ensures
        derivation_view(r) == derived_address(seeds.deep_view(), program_id@),
        r matches Ok(address) ==> !on_curve(address@),
        r == Err::<Address, ConfigurationError>(ConfigurationError::SeedTooLong) <==> !seeds_fit(
            seeds.deep_view(),
        ),
{
    let found = search_program_address(seeds, program_id);
    resolve_derivation(seeds, found)
}

/// Deriving twice from the same seeds and program identifier gives the same
/// address, or the same failure.
pub proof fn lemma_derive_deterministic(
    first: Result<Address, ConfigurationError>,
    second: Result<Address, ConfigurationError>,
    seeds: Seq<Seq<u8>>,
    program_id: Seq<u8>,
)
    requires
        derivation_view(first) == derived_address(seeds, program_id),
        derivation_view(second) == derived_address(seeds, program_id),
    ensures
        first == second,
{
    match (first, second) {
        (Ok(a), Ok(b)) => {
            lemma_address_by_bytes(a, b);
        },
        _ => {},
    }
}

impl Address {
    /// Reads an address from its base58 text.
    pub fn from_base58(text: &str) -> (r: Result<Address, ConfigurationError>)
        ensures
            derivation_view(r) == match address_parsed(text@) {
                Some(bytes) => Ok::<Seq<u8>, ConfigurationError>(bytes),
                None => Err(ConfigurationError::MalformedAddress),
            },
    {
        match parse_pubkey(text) {
            Some(address) => Ok(address),
            None => Err(ConfigurationError::MalformedAddress),
        }
    }

    /// Whether the address is a point of the curve, as the address of
    /// every keypair is.
    pub fn is_on_curve(&self) -> (on: bool)
        ensures
            on == on_curve(self@),
    {
        curve_point(self)
    }

    /// The base58 text of the address.
    pub fn to_base58(&self) -> (text: String)
        ensures
            text@ == base58_encoded(self@),
    {
        pubkey_text(self)
    }
}

} // verus!
