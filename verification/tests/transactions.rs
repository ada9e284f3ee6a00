use ledger_tx::address::{Address, Anchor};
use ledger_tx::error::{ClientError, ConfigurationError};
use ledger_tx::instruction::{system_program, transfer, AccountRef, Instruction};
use ledger_tx::keys::{KeyHolder, Signature};
use ledger_tx::submission::{Directive, NetworkReply, RetryPolicy, SubmissionClient};
use ledger_tx::transaction::{build_and_sign, UnsignedTransaction};
use solana_sdk::pubkey::Pubkey;
use solana_sdk::signer::keypair::{keypair_from_seed, Keypair};
use solana_sdk::signer::Signer;
use solana_sdk::transaction::Transaction;

fn keypair(seed: u8) -> Keypair {
    keypair_from_seed(&[seed; 32]).unwrap()
}

fn holder(seed: u8) -> KeyHolder {
    KeyHolder::from_bytes(&keypair(seed).to_bytes()).unwrap()
}

fn address_of(pair: &Keypair) -> Address {
    Address::new(pair.pubkey().to_bytes())
}

fn outside_signatures(tx: &Transaction) -> Vec<Signature> {
    tx.signatures.iter().map(|s| Signature { bytes: (*s).into() }).collect()
}

/// A network that answers from a script and counts how often it is asked.
struct ScriptedNetwork {
    replies: Vec<NetworkReply>,
    calls: usize,
}

impl ScriptedNetwork {
    fn send(&mut self) -> NetworkReply {
        let reply = self.replies[self.calls];
        self.calls += 1;
        reply
    }
}

#[test]
fn keygen() {
    let kp = Keypair::new();
    let holder = KeyHolder::from_bytes(&kp.to_bytes()).unwrap();
    assert_eq!(holder.address().bytes, kp.pubkey().to_bytes());
    assert_eq!(holder.address().to_base58(), kp.pubkey().to_string());
    println!("You've generated a new Solana wallet: {}", holder.address().to_base58());
    println!("");
    println!("To save your wallet, copy and paste the following into a JSON file:");
    println!("{:?}", kp.to_bytes());
}

#[test]
fn key_holder_rejects_bytes_that_are_no_keypair() {
    assert!(matches!(KeyHolder::from_bytes(&[1u8; 10]), Err(ConfigurationError::MalformedKey)));
    let mut bytes = keypair(3).to_bytes();
    bytes[40] ^= 0xff;
    assert!(matches!(KeyHolder::from_bytes(&bytes), Err(ConfigurationError::MalformedKey)));
    assert!(matches!(KeyHolder::from_bytes(&[]), Err(ConfigurationError::MalformedKey)));
}

#[test]
fn key_holder_signs_as_the_keypair_does() {
    let pair = keypair(5);
    let holder = holder(5);
    let message = b"any bytes at all".to_vec();
    let expected: [u8; 64] = pair.sign_message(&message).into();
    let signature = holder.sign(&message);
    assert_eq!(signature.bytes, expected);
    assert_ne!(signature.bytes[..16], message[..]);
    assert!(pair.sign_message(&message).verify(&holder.address().bytes, &message));
}

#[test]
fn transfer_instruction_has_the_system_layout() {
    let from = Address::new([1u8; 32]);
    let to = Address::new([2u8; 32]);
    let ix = transfer(&from, &to, 1_000_000);
    assert_eq!(ix.program_id, Address::new([0u8; 32]));
    assert_eq!(system_program(), Address::new([0u8; 32]));
    assert_eq!(system_program().to_base58(), "11111111111111111111111111111111");
    assert_eq!(
        ix.accounts,
        vec![
            AccountRef { address: from, is_signer: true, is_writable: true },
            AccountRef { address: to, is_signer: false, is_writable: true },
        ]
    );
    assert_eq!(ix.data, vec![2, 0, 0, 0, 0x40, 0x42, 0x0f, 0, 0, 0, 0, 0]);
}

#[test]
fn serialized_transfer_is_identical_across_builds() {
    let from = Address::new([1u8; 32]);
    let to = Address::new([2u8; 32]);
    let anchor = Anchor::new([9u8; 32]);
    let first = UnsignedTransaction::new(vec![transfer(&from, &to, 1_000_000)], from, anchor);
    let second = UnsignedTransaction::new(vec![transfer(&from, &to, 1_000_000)], from, anchor);
    let first_bytes = first.message_bytes().unwrap();
    let second_bytes = second.message_bytes().unwrap();
    assert_eq!(first_bytes, second_bytes);

    let mut expected: Vec<u8> = vec![1, 0, 1, 3];
    expected.extend_from_slice(&[1u8; 32]);
    expected.extend_from_slice(&[2u8; 32]);
    expected.extend_from_slice(&[0u8; 32]);
    expected.extend_from_slice(&[9u8; 32]);
    expected.extend_from_slice(&[1, 2, 2, 0, 1, 12]);
    expected.extend_from_slice(&[2, 0, 0, 0, 0x40, 0x42, 0x0f, 0, 0, 0, 0, 0]);
    assert_eq!(first_bytes, expected);
    assert_eq!(first_bytes.len(), 150);
}

#[test]
fn message_bytes_change_with_the_anchor() {
    let from = Address::new([1u8; 32]);
    let to = Address::new([2u8; 32]);
    let old = UnsignedTransaction::new(vec![transfer(&from, &to, 5)], from, Anchor::new([9u8; 32]));
    let new = UnsignedTransaction::new(vec![transfer(&from, &to, 5)], from, Anchor::new([8u8; 32]));
    assert_ne!(old.message_bytes().unwrap(), new.message_bytes().unwrap());
    assert_eq!(old.required_signers().unwrap(), new.required_signers().unwrap());
}

#[test]
fn transfer_to_wba() {
    let keypair = keypair(11);
    let to_pubkey = Pubkey::new_from_array([42u8; 32]);
    let recent_blockhash = solana_sdk::hash::Hash::new_from_array([7u8; 32]);

    let expected = Transaction::new_signed_with_payer(
        &[solana_sdk::system_instruction::transfer(&keypair.pubkey(), &to_pubkey, 1_000_000)],
        Some(&keypair.pubkey()),
        &[&keypair],
        recent_blockhash,
    );

    let from = address_of(&keypair);
    let to = Address::new([42u8; 32]);
    let transaction = build_and_sign(
        vec![transfer(&from, &to, 1_000_000)],
        from,
        &vec![holder(11)],
        Anchor::new([7u8; 32]),
    )
    .unwrap();
    assert_eq!(*transaction.message(), expected.message_data());
    assert_eq!(*transaction.signatures(), outside_signatures(&expected));
    assert_eq!(*transaction.signer_keys(), vec![from]);
    assert_eq!(transaction.id(), transaction.signatures()[0]);
    assert_eq!(transaction.anchor(), Anchor::new([7u8; 32]));
    assert_eq!(transaction.unsigned().fee_payer, from);

    let mut network = ScriptedNetwork { replies: vec![NetworkReply::Confirmed], calls: 0 };
    let mut client = SubmissionClient::new(RetryPolicy::recommended());
    assert_eq!(client.permit(&transaction), Ok(()));
    let reply = network.send();
    let signature = match client.record(&transaction, reply) {
        Directive::Done(signature) => signature,
        other => panic!("Failed to send transaction: {:?}", other),
    };
    assert_eq!(signature.bytes, <[u8; 64]>::from(expected.signatures[0]));
    assert_eq!(network.calls, 1);
}

#[test]
fn missing_signer_fails_before_any_network_call() {
    let payer = keypair(1);
    let other = keypair(2);
    let program = Address::new([50u8; 32]);
    let ix = Instruction {
        program_id: program,
        accounts: vec![
            AccountRef::writable(address_of(&payer), true),
            AccountRef::readonly(address_of(&other), true),
        ],
        data: vec![1, 2, 3],
    };
    let mut network = ScriptedNetwork { replies: vec![NetworkReply::Confirmed], calls: 0 };
    let built = build_and_sign(vec![ix.clone()], address_of(&payer), &vec![holder(1)], Anchor::new([7u8; 32]));
    match built {
        Err(e) => assert_eq!(e, ClientError::MissingSigner),
        Ok(_) => {
            network.send();
            panic!("a transaction without its signer was built");
        },
    }
    assert_eq!(network.calls, 0);

    let no_payer = build_and_sign(vec![ix.clone()], address_of(&payer), &vec![holder(2)], Anchor::new([7u8; 32]));
    assert!(matches!(no_payer, Err(ClientError::MissingSigner)));
    let nobody = build_and_sign(vec![ix], address_of(&payer), &vec![], Anchor::new([7u8; 32]));
    assert!(matches!(nobody, Err(ClientError::MissingSigner)));
}

#[test]
fn several_signers_sign_in_the_order_of_the_account_table() {
    let payer = keypair(21);
    let second = keypair(22);
    let third = keypair(23);
    let program = Pubkey::new_from_array([60u8; 32]);
    let outside_ix = solana_sdk::instruction::Instruction {
        program_id: program,
        accounts: vec![
            solana_sdk::instruction::AccountMeta::new_readonly(third.pubkey(), true),
            solana_sdk::instruction::AccountMeta::new(second.pubkey(), true),
            solana_sdk::instruction::AccountMeta::new(Pubkey::new_from_array([61u8; 32]), false),
            solana_sdk::instruction::AccountMeta::new(payer.pubkey(), true),
        ],
        data: vec![9, 9],
    };
    let expected = Transaction::new_signed_with_payer(
        &[outside_ix],
        Some(&payer.pubkey()),
        &[&third, &payer, &second],
        solana_sdk::hash::Hash::new_from_array([3u8; 32]),
    );

    let ix = Instruction {
        program_id: Address::new([60u8; 32]),
        accounts: vec![
            AccountRef::readonly(address_of(&third), true),
            AccountRef::writable(address_of(&second), true),
            AccountRef::writable(Address::new([61u8; 32]), false),
            AccountRef::writable(address_of(&payer), true),
        ],
        data: vec![9, 9],
    };
    let holders = vec![holder(23), holder(99), holder(21), holder(22), holder(21)];
    let transaction =
        build_and_sign(vec![ix], address_of(&payer), &holders, Anchor::new([3u8; 32])).unwrap();

    assert_eq!(*transaction.message(), expected.message_data());
    assert_eq!(*transaction.signatures(), outside_signatures(&expected));
    assert_eq!(transaction.signatures().len(), 3);
    assert_eq!(transaction.signer_keys()[0], address_of(&payer));
    assert_eq!(
        *transaction.signer_keys(),
        expected.message.account_keys[..3].iter().map(|k| Address::new(k.to_bytes())).collect::<Vec<_>>()
    );
    for (key, signature) in transaction.signer_keys().iter().zip(transaction.signatures().iter()) {
        let outside = solana_sdk::signature::Signature::from(signature.bytes);
        assert!(outside.verify(&key.bytes, transaction.message()));
    }
}

#[test]
fn fee_payer_signs_first_even_where_no_instruction_names_it() {
    let payer = keypair(31);
    let actor = keypair(32);
    let ix = Instruction {
        program_id: Address::new([70u8; 32]),
        accounts: vec![AccountRef::writable(address_of(&actor), true)],
        data: vec![],
    };
    let unsigned = UnsignedTransaction::new(vec![ix], address_of(&payer), Anchor::new([4u8; 32]));
    assert_eq!(unsigned.required_signers().unwrap(), vec![address_of(&payer), address_of(&actor)]);
    let transaction = unsigned.sign(&vec![holder(32), holder(31)]).unwrap();
    assert_eq!(transaction.signer_keys()[0], address_of(&payer));
    assert_eq!(transaction.message()[0], 2);
    let first = solana_sdk::signature::Signature::from(transaction.signatures()[0].bytes);
    assert!(first.verify(&payer.pubkey().to_bytes(), transaction.message()));
}

#[test]
fn transaction_without_instructions_needs_the_fee_payer_only() {
    let payer = keypair(33);
    let transaction =
        build_and_sign(vec![], address_of(&payer), &vec![holder(33)], Anchor::new([4u8; 32])).unwrap();
    assert_eq!(transaction.signatures().len(), 1);
    assert_eq!(*transaction.signer_keys(), vec![address_of(&payer)]);
}

fn instruction_with_accounts(first: u16, count: u16, is_signer: bool) -> Instruction {
    let mut accounts = Vec::new();
    for n in first..first + count {
        let mut bytes = [200u8; 32];
        bytes[0] = (n % 256) as u8;
        bytes[1] = (n / 256) as u8;
        accounts.push(AccountRef::writable(Address::new(bytes), is_signer));
    }
    Instruction { program_id: Address::new([0u8; 32]), accounts, data: vec![] }
}

#[test]
fn transaction_with_too_many_addresses_is_refused() {
    let payer = Address::new([1u8; 32]);
    // The payer, the program and 254 accounts: 256 addresses, which fit.
    let fits = UnsignedTransaction::new(vec![instruction_with_accounts(0, 254, false)], payer, Anchor::new([0u8; 32]));
    assert!(fits.fits());
    assert_eq!(fits.message_bytes().unwrap()[3..5], [0x80, 0x02]);
    // One account more does not.
    let over = UnsignedTransaction::new(vec![instruction_with_accounts(0, 255, false)], payer, Anchor::new([0u8; 32]));
    assert!(!over.fits());
    let too_large = ClientError::Configuration(ConfigurationError::TransactionTooLarge);
    assert_eq!(over.message_bytes(), Err(too_large));
    assert_eq!(over.required_signers(), Err(too_large));
    assert!(matches!(over.sign(&vec![holder(1)]), Err(e) if e == too_large));
    // The same account named 300 times is one address.
    let mut repeated = instruction_with_accounts(0, 1, false);
    for _ in 0..299 {
        let again = repeated.accounts[0];
        repeated.accounts.push(again);
    }
    assert!(UnsignedTransaction::new(vec![repeated], payer, Anchor::new([0u8; 32])).fits());
}

#[test]
fn transaction_with_too_many_signers_is_refused() {
    let payer = Address::new([1u8; 32]);
    // The payer and 254 others: 255 signers, which fit.
    let fits = UnsignedTransaction::new(vec![instruction_with_accounts(0, 254, true)], payer, Anchor::new([0u8; 32]));
    assert!(fits.fits());
    assert_eq!(fits.required_signers().unwrap().len(), 255);
    // The lack of a signer is reported only for a transaction that fits.
    assert!(matches!(fits.sign(&vec![]), Err(ClientError::MissingSigner)));
    let mut ixs = vec![instruction_with_accounts(0, 254, true)];
    ixs[0].program_id = payer;
    ixs[0].accounts.push(AccountRef::readonly(Address::new([201u8; 32]), true));
    let over = UnsignedTransaction::new(ixs, payer, Anchor::new([0u8; 32]));
    assert!(!over.fits());
    assert!(matches!(
        over.sign(&vec![]),
        Err(ClientError::Configuration(ConfigurationError::TransactionTooLarge))
    ));
}

#[test]
fn instruction_payload_too_long_for_its_prefix_is_refused() {
    let payer = Address::new([1u8; 32]);
    let mut ix = instruction_with_accounts(0, 1, false);
    ix.data = vec![0u8; 65535];
    let fits = UnsignedTransaction::new(vec![ix.clone()], payer, Anchor::new([0u8; 32]));
    assert!(fits.fits());
    assert_eq!(fits.message_bytes().unwrap().len(), 3 + 1 + 3 * 32 + 32 + 1 + 1 + 2 + 3 + 65535);
    ix.data.push(0);
    assert!(!UnsignedTransaction::new(vec![ix], payer, Anchor::new([0u8; 32])).fits());
}
