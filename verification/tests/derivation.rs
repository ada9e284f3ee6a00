use ledger_tx::address::{check_seeds, resolve_derivation, Address, Anchor};
use ledger_tx::encoding::{ArgKind, ArgValue, InstructionArgs};
use ledger_tx::error::{ClientError, ConfigurationError};
use ledger_tx::instruction::{decode, encode, system_program, AccountRef};
use ledger_tx::keys::KeyHolder;
use ledger_tx::submission::{Directive, NetworkReply, RetryPolicy, SubmissionClient};
use ledger_tx::transaction::build_and_sign;
use solana_sdk::pubkey::Pubkey;
use solana_sdk::signer::keypair::keypair_from_seed;
use solana_sdk::signer::Signer;
use solana_sdk::transaction::Transaction;

#[test]
fn derive_is_deterministic() {
    let program = Address::new([17u8; 32]);
    let seeds = vec![b"prereq".to_vec(), vec![5u8; 32]];
    let first = ledger_tx::address::derive(&seeds, &program);
    let second = ledger_tx::address::derive(&seeds.clone(), &Address::new([17u8; 32]));
    assert!(first.is_ok());
    assert_eq!(first, second);
}

#[test]
fn derive_finds_what_the_search_finds() {
    let program = Pubkey::new_from_array([17u8; 32]);
    let wallet = [5u8; 32];
    let (expected, _) = Pubkey::find_program_address(&[b"prereq", wallet.as_ref()], &program);
    let derived = ledger_tx::address::derive(&vec![b"prereq".to_vec(), wallet.to_vec()], &Address::new([17u8; 32])).unwrap();
    assert_eq!(derived.bytes, expected.to_bytes());
    assert!(!expected.is_on_curve());
    assert_ne!(derived, Address::new([17u8; 32]));
}

#[test]
fn derive_depends_on_seeds_and_program() {
    let program = Address::new([17u8; 32]);
    let base = ledger_tx::address::derive(&vec![b"prereq".to_vec()], &program).unwrap();
    assert_ne!(base, ledger_tx::address::derive(&vec![b"prereQ".to_vec()], &program).unwrap());
    assert_ne!(base, ledger_tx::address::derive(&vec![b"prereq".to_vec()], &Address::new([18u8; 32])).unwrap());
    assert_ne!(base, ledger_tx::address::derive(&vec![b"prereq".to_vec(), vec![0]], &program).unwrap());
    // The seeds are hashed one after the other: only their bytes in order count.
    assert_eq!(base, ledger_tx::address::derive(&vec![b"pre".to_vec(), b"req".to_vec()], &program).unwrap());
}

#[test]
fn derived_address_has_no_private_key() {
    let program = Address::new([17u8; 32]);
    for tag in 0..20u8 {
        let derived = ledger_tx::address::derive(&vec![vec![tag]], &program).unwrap();
        assert!(!derived.is_on_curve());
    }
    let pair = keypair_from_seed(&[1u8; 32]).unwrap();
    assert!(Address::new(pair.pubkey().to_bytes()).is_on_curve());
    assert!(KeyHolder::from_bytes(&pair.to_bytes()).unwrap().address().is_on_curve());
}

#[test]
fn derive_without_seeds() {
    let program = Pubkey::new_from_array([17u8; 32]);
    let (expected, _) = Pubkey::find_program_address(&[], &program);
    assert_eq!(ledger_tx::address::derive(&vec![], &Address::new([17u8; 32])).unwrap().bytes, expected.to_bytes());
}

#[test]
fn derive_refuses_a_seed_that_is_too_long() {
    let program = Address::new([17u8; 32]);
    assert!(ledger_tx::address::derive(&vec![vec![0u8; 32]], &program).is_ok());
    assert_eq!(ledger_tx::address::derive(&vec![vec![0u8; 33]], &program), Err(ConfigurationError::SeedTooLong));
    assert_eq!(
        ledger_tx::address::derive(&vec![b"ok".to_vec(), vec![0u8; 100]], &program),
        Err(ConfigurationError::SeedTooLong)
    );
}

#[test]
fn derive_refuses_too_many_seeds() {
    let program = Address::new([17u8; 32]);
    let fifteen: Vec<Vec<u8>> = (0..15u8).map(|n| vec![n; 32]).collect();
    assert!(ledger_tx::address::derive(&fifteen, &program).is_ok());
    let sixteen: Vec<Vec<u8>> = (0..16u8).map(|n| vec![n]).collect();
    assert_eq!(ledger_tx::address::derive(&sixteen, &program), Err(ConfigurationError::SeedTooLong));
}

#[test]
fn seeds_are_checked_by_count_and_length() {
    assert!(check_seeds(&vec![]));
    assert!(check_seeds(&vec![vec![]; 15]));
    assert!(!check_seeds(&vec![vec![]; 16]));
    assert!(check_seeds(&vec![vec![1u8; 32]]));
    assert!(!check_seeds(&vec![vec![1u8; 32], vec![1u8; 33]]));
}

#[test]
fn derivation_is_resolved_for_every_outcome_of_the_search() {
    let found = Address::new([3u8; 32]);
    let seeds = vec![b"tag".to_vec()];
    assert_eq!(resolve_derivation(&seeds, Some((found, 254))), Ok(found));
    assert_eq!(resolve_derivation(&seeds, None), Err(ConfigurationError::NoViableAddress));
    let long = vec![vec![0u8; 33]];
    assert_eq!(resolve_derivation(&long, Some((found, 254))), Err(ConfigurationError::SeedTooLong));
    assert_eq!(resolve_derivation(&long, None), Err(ConfigurationError::SeedTooLong));
}

#[test]
fn address_is_read_from_base58() {
    let text = "4vJ9JU1bJJE96FWSJKvHsmmFADCg4gpZQff4P3bkLKi";
    let address = Address::from_base58(text).unwrap();
    assert_eq!(address.bytes.to_vec(), bs58::decode(text).into_vec().unwrap());
    assert_eq!(address.to_base58(), text);
    assert_eq!(Address::from_base58("11111111111111111111111111111111"), Ok(Address::new([0u8; 32])));
    assert_eq!(Address::new([0u8; 32]).to_base58(), "11111111111111111111111111111111");
    assert_eq!(Address::new([255u8; 32]).to_base58(), Pubkey::new_from_array([255u8; 32]).to_string());
}

#[test]
fn malformed_address_text_is_refused() {
    let malformed = Err(ConfigurationError::MalformedAddress);
    assert_eq!(Address::from_base58("<your WBA public key>"), malformed);
    assert_eq!(Address::from_base58(""), malformed);
    assert_eq!(Address::from_base58("abc"), malformed);
    assert_eq!(Address::from_base58("0OIl"), malformed);
    assert_eq!(Address::from_base58("111111111111111111111111111111111"), malformed);
}

#[test]
fn addresses_and_anchors_compare_by_bytes() {
    let a = Address::new([1u8; 32]);
    let mut other = [1u8; 32];
    assert!(a.same(&Address::new(other)));
    other[31] = 2;
    assert!(!a.same(&Address::new(other)));
    let anchor = Anchor::new([1u8; 32]);
    assert!(anchor.same(&Anchor::new([1u8; 32])));
    assert!(!anchor.same(&Anchor::new(other)));
}

#[test]
fn submit_completion() {
    let pair = keypair_from_seed(&[77u8; 32]).unwrap();
    let signer = KeyHolder::from_bytes(&pair.to_bytes()).unwrap();
    let program = Address::new([99u8; 32]);
    let recent_blockhash = Anchor::new([13u8; 32]);

    let prereq = ledger_tx::address::derive(&vec![b"prereq".to_vec(), signer.address().bytes.to_vec()], &program).unwrap();
    let (expected_prereq, _) = Pubkey::find_program_address(
        &[b"prereq", pair.pubkey().to_bytes().as_ref()],
        &Pubkey::new_from_array([99u8; 32]),
    );
    assert_eq!(prereq.bytes, expected_prereq.to_bytes());

    let args = InstructionArgs { tag: 0, fields: vec![ArgValue::Bytes(b"testaccount".to_vec())] };
    let accounts = vec![
        AccountRef::writable(signer.address(), true),
        AccountRef::writable(prereq, false),
        AccountRef::readonly(system_program(), false),
    ];
    let instruction = encode(program, accounts.clone(), &args).unwrap();
    assert_eq!(instruction.accounts, accounts);
    assert_eq!(instruction.program_id, program);
    assert_eq!(decode(&instruction, &vec![ArgKind::Bytes]), Some(args));

    let outside = solana_sdk::instruction::Instruction {
        program_id: Pubkey::new_from_array([99u8; 32]),
        accounts: vec![
            solana_sdk::instruction::AccountMeta::new(pair.pubkey(), true),
            solana_sdk::instruction::AccountMeta::new(expected_prereq, false),
            solana_sdk::instruction::AccountMeta::new_readonly(solana_sdk::system_program::id(), false),
        ],
        data: instruction.data.clone(),
    };
    let expected = Transaction::new_signed_with_payer(
        &[outside],
        Some(&pair.pubkey()),
        &[&pair],
        solana_sdk::hash::Hash::new_from_array([13u8; 32]),
    );

    let transaction =
        build_and_sign(vec![instruction], signer.address(), &vec![signer], recent_blockhash).unwrap();
    assert_eq!(*transaction.message(), expected.message_data());
    assert_eq!(transaction.id().bytes, <[u8; 64]>::from(expected.signatures[0]));

    let mut client = SubmissionClient::new(RetryPolicy::recommended());
    assert_eq!(client.permit(&transaction), Ok(()));
    assert_eq!(
        client.record(&transaction, NetworkReply::Unconfirmed),
        Directive::CheckStatus(transaction.id())
    );
    assert_eq!(client.record(&transaction, NetworkReply::Confirmed), Directive::Done(transaction.id()));
    assert_ne!(ClientError::Transport, ClientError::AnchorExpired);
}
