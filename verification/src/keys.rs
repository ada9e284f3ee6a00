//! Key holders and the signatures they produce.

use vstd::prelude::*;
use crate::address::Address;
use crate::error::ConfigurationError;
use solana_sdk::signer::keypair::Keypair;
use solana_sdk::signer::Signer;

verus! {

/// A signature over the bytes of a message.
#[derive(Clone, Copy, Debug, PartialEq, Eq, Hash)]
pub struct Signature {
    pub bytes: [u8; 64],
}

impl View for Signature {
    type V = Seq<u8>;

    open spec fn view(&self) -> Seq<u8> {
        self.bytes@
    }
}

/// The address of the keypair that `material` encodes, or nothing where the
/// bytes are not a keypair.
pub uninterp spec fn keypair_address(material: Seq<u8>) -> Option<Seq<u8>>;

/// The signature of the keypair encoded by `material` over `message`.
pub uninterp spec fn keypair_signature(material: Seq<u8>, message: Seq<u8>) -> Seq<u8>;

/// Calls `Keypair::from_bytes` and, on the keypair it yields, `Signer::pubkey`.
/// Whether the bytes are accepted, and the address they carry, are a
/// function of the bytes alone, which the contract names.
#[verifier::external_body]
fn read_keypair_address(material: &[u8]) -> (address: Option<Address>)
    ensures
        address.deep_view() == keypair_address(material@),
{
    Keypair::from_bytes(material).ok().map(|pair| Address { bytes: pair.pubkey().to_bytes() })
}

/// Calls `Signer::sign_message` on the keypair that `Keypair::from_bytes`
/// yields for `material`. Signing is deterministic: the signature is a
/// function of the key material and the message, which the contract names.
/// The bytes must be ones that `Keypair::from_bytes` accepts.
#[verifier::external_body]
fn sign_with_material(material: &Vec<u8>, message: &[u8]) -> (signature: Signature)
    requires
        keypair_address(material@) is Some,
    ensures
        signature@ == keypair_signature(material@, message@),
{
    Signature { bytes: Keypair::from_bytes(material).unwrap().sign_message(message).into() }
}

/// A keypair that signs for one address. The private material stays inside:
/// no operation hands it out or prints it.
pub struct KeyHolder {
    material: Vec<u8>,
    address: Address,
}

impl KeyHolder {
    #[verifier::type_invariant]
    spec fn well_formed(self) -> bool {
        keypair_address(self.material@) == Some(self.address@)
    }

    /// The encoded keypair that this holder signs with.
    pub closed spec fn material(&self) -> Seq<u8> {
        self.material@
    }

    /// The address that this holder signs for.
    pub closed spec fn spec_address(&self) -> Address {
        self.address
    }

    /// The signature that this holder produces over `message`.
    pub open spec fn signature_over(&self, message: Seq<u8>) -> Seq<u8> {
        keypair_signature(self.material(), message)
    }

    /// Makes a key holder from the persisted bytes of a keypair.
    pub fn from_bytes(material: &[u8]) -> (r: Result<KeyHolder, ConfigurationError>)
        ensures
            match r {
                Ok(holder) => {
                    &&& holder.material() == material@
                    &&& keypair_address(material@) == Some(holder.spec_address()@)
                },
                Err(e) => {
                    &&& e == ConfigurationError::MalformedKey
                    &&& keypair_address(material@) is None
                },
            },
    {
        match read_keypair_address(material) {
            Some(address) => {
                let mut owned: Vec<u8> = Vec::new();
                owned.extend_from_slice(material);
                assert(owned@ =~= material@);
                Ok(KeyHolder { material: owned, address })
            },
            None => Err(ConfigurationError::MalformedKey),
        }
    }

    /// The address that this holder signs for.
    #[verifier::when_used_as_spec(spec_address)]
    pub fn address(&self) -> (a: Address)
        ensures
            a == self.spec_address(),
            keypair_address(self.material()) == Some(a@),
    {
        proof {
            use_type_invariant(self);
        }
        self.address
    }

    /// Signs `message`.
    pub fn sign(&self, message: &[u8]) -> (signature: Signature)
        ensures
            signature@ == self.signature_over(message@),
            keypair_address(self.material()) == Some(self.spec_address()@),
    {
        proof {
            use_type_invariant(self);
        }
        sign_with_material(&self.material, message)
    }
}

} // verus!
