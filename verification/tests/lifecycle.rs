//! Lifecycle tests driven by real chip signatures.
//!
//! The signer identities are host addresses, generated deterministically by
//! the host test environment and bound into the signed digests through
//! their host serialization; the signatures were produced by two physical
//! chips over exactly those digests.

use nfc_nft::account::{AccountId, PublicKey};
use nfc_nft::crypto::{compute_chip_digest, recover_chip_key};
use nfc_nft::errors::NonFungibleTokenError;
use nfc_nft::token::NFCtoNFT;
use soroban_sdk::testutils::Address as _;
use soroban_sdk::xdr::ToXdr;
use soroban_sdk::{Address, Env};

struct TestSignature {
    nonce: u32,
    message: &'static [u8],
    sig_r: [u8; 32],
    sig_s: [u8; 32],
    public_key: [u8; 65],
}

const TEST_MESSAGE: &[u8] = b"test message for minting";

const CHIP1_PUBLIC_KEY: [u8; 65] = [
    0x04, 0xbd, 0xc2, 0x5d, 0x45, 0x2c, 0xaf, 0xaa, 0x18, 0x2b, 0x6b, 0x5e, 0x68, 0xbe, 0xe9,
    0xf2, 0xe0, 0xe1, 0x2e, 0xd4, 0x7d, 0x09, 0xc3, 0xe6, 0xae, 0xbd, 0x99, 0xf1, 0xc9, 0xe9,
    0x90, 0xaf, 0xe1, 0xf8, 0xd8, 0x5e, 0x91, 0xd5, 0xec, 0x53, 0x6a, 0xeb, 0x2d, 0xfa, 0x22,
    0x44, 0xea, 0x48, 0x2d, 0x7f, 0xd4, 0x72, 0xca, 0x47, 0x21, 0x9d, 0x16, 0xf7, 0xeb, 0x33,
    0x1c, 0x23, 0x38, 0x4c, 0x8c,
];

const CHIP2_PUBLIC_KEY: [u8; 65] = [
    0x04, 0xc8, 0x11, 0x2d, 0xcf, 0x92, 0x32, 0x7f, 0x44, 0x6e, 0xb0, 0x68, 0xa7, 0x76, 0x58,
    0xa1, 0xa0, 0xcf, 0x04, 0xff, 0x3e, 0x71, 0x52, 0xf1, 0xf0, 0x92, 0x6d, 0xb6, 0x0a, 0xe2,
    0xaa, 0xcf, 0xb9, 0x43, 0xe2, 0xc0, 0xff, 0x0e, 0x0a, 0x3d, 0x9f, 0x39, 0x5d, 0xb0, 0xc2,
    0xd4, 0xe5, 0x94, 0xda, 0xc5, 0x7b, 0x56, 0xe4, 0x3c, 0x1e, 0xce, 0x80, 0x8f, 0x0c, 0x06,
    0xf6, 0x1b, 0x04, 0x57, 0xec,
];

const TEST_SIGNATURES: &[TestSignature] = &[
    // Chip 1, nonce 1
    TestSignature {
        nonce: 1,
        message: TEST_MESSAGE,
        sig_r: [
            0xf9, 0xec, 0x5f, 0x12, 0x93, 0xc2, 0x1e, 0xc5, 0x32, 0x35, 0xfd, 0xe2, 0x9c, 0xa5,
            0x92, 0xef, 0xc2, 0x1b, 0x18, 0xdc, 0x19, 0x55, 0xf4, 0xbf, 0x0d, 0xaa, 0x27, 0xa1,
            0xaa, 0x24, 0xa5, 0xe2,
        ],
        sig_s: [
            0x6a, 0xa0, 0x71, 0x09, 0x5e, 0xfd, 0x37, 0xd6, 0x5e, 0x7e, 0x18, 0x6a, 0xeb, 0xc3,
            0xd7, 0xb8, 0x28, 0x7d, 0xe2, 0x6e, 0x75, 0x7d, 0x13, 0x8d, 0x5e, 0xed, 0x86, 0x10,
            0xe4, 0x8a, 0x28, 0x91,
        ],
        public_key: CHIP1_PUBLIC_KEY,
    },
    // Chip 1, nonce 2
    TestSignature {
        nonce: 2,
        message: TEST_MESSAGE,
        sig_r: [
            0xeb, 0xa4, 0xab, 0x7b, 0x96, 0xe3, 0xea, 0xa7, 0x21, 0xd4, 0x80, 0x63, 0x69, 0xdc,
            0xd6, 0xb9, 0x89, 0x76, 0xbc, 0xfe, 0x71, 0xba, 0xe4, 0x08, 0x1f, 0x3e, 0x87, 0xb9,
            0xc0, 0xa4, 0x89, 0x13,
        ],
        sig_s: [
            0x43, 0xc1, 0xa3, 0x3c, 0x90, 0x73, 0xb9, 0xca, 0x6a, 0x87, 0x0e, 0x04, 0xa8, 0x27,
            0x71, 0x0c, 0xff, 0x99, 0xf5, 0x12, 0x7f, 0x87, 0x3a, 0x99, 0x98, 0x03, 0x32, 0x00,
            0x23, 0xbf, 0x77, 0x17,
        ],
        public_key: CHIP1_PUBLIC_KEY,
    },
    // Chip 1, nonce 3
    TestSignature {
        nonce: 3,
        message: TEST_MESSAGE,
        sig_r: [
            0x7a, 0x01, 0x83, 0x82, 0x8d, 0xf8, 0x76, 0xf5, 0xdb, 0xf2, 0x50, 0x04, 0x16, 0x6b,
            0x92, 0x84, 0x56, 0xb2, 0x27, 0x94, 0x11, 0x8b, 0x4c, 0x7c, 0x5b, 0x24, 0x8f, 0xe2,
            0x3a, 0x2f, 0x4b, 0xbd,
        ],
        sig_s: [
            0x19, 0x8a, 0xd9, 0xc4, 0x17, 0x75, 0xe1, 0x50, 0x6c, 0x8a, 0xb8, 0x79, 0x03, 0x49,
            0x5f, 0xcc, 0x62, 0x62, 0x6a, 0xbe, 0x71, 0xa6, 0x7f, 0xfa, 0x7f, 0x3a, 0x14, 0x03,
            0x21, 0x72, 0xf7, 0x47,
        ],
        public_key: CHIP1_PUBLIC_KEY,
    },
    // Chip 2, nonce 3
    TestSignature {
        nonce: 3,
        message: TEST_MESSAGE,
        sig_r: [
            0x90, 0x69, 0x71, 0x9e, 0x2d, 0x2c, 0x63, 0xb3, 0x3e, 0x47, 0x7b, 0x0b, 0x3d, 0x2b,
            0x6e, 0x3a, 0x06, 0xc7, 0x51, 0x82, 0xd0, 0x4e, 0x22, 0x69, 0x40, 0x6b, 0x25, 0xb0,
            0xaf, 0xe2, 0x8c, 0xbf,
        ],
        sig_s: [
            0x50, 0xcb, 0x88, 0x84, 0xc3, 0x66, 0x27, 0x3c, 0xe5, 0xe8, 0x5e, 0x31, 0x87, 0xa4,
            0xe8, 0xb5, 0xa0, 0xf6, 0x86, 0xf6, 0xb1, 0xbf, 0xbd, 0x21, 0xa4, 0x1d, 0x99, 0x89,
            0x21, 0x95, 0x7b, 0x31,
        ],
        public_key: CHIP2_PUBLIC_KEY,
    },
    // Chip 2, nonce 4
    TestSignature {
        nonce: 4,
        message: TEST_MESSAGE,
        sig_r: [
            0xfa, 0xfc, 0x7a, 0x18, 0xdd, 0xed, 0x25, 0xe3, 0xc4, 0x3c, 0x01, 0x49, 0xbc, 0x7a,
            0x2a, 0x26, 0xf0, 0x3f, 0xeb, 0x4d, 0x91, 0x65, 0xac, 0x1c, 0x4e, 0x47, 0x73, 0x91,
            0x56, 0xe8, 0xec, 0x7d,
        ],
        sig_s: [
            0x22, 0xc7, 0xfe, 0x08, 0xbd, 0x74, 0x51, 0x06, 0x9a, 0x32, 0x35, 0xb9, 0xd0, 0x37,
            0x7a, 0x2b, 0x38, 0x0f, 0x57, 0x9b, 0x7c, 0x41, 0xb4, 0xea, 0x09, 0xd0, 0x8f, 0x66,
            0xce, 0x60, 0xc4, 0x5a,
        ],
        public_key: CHIP2_PUBLIC_KEY,
    },
];

// Normalize s to low form, as the recovery path expects.
fn normalize_s(s: &[u8; 32]) -> [u8; 32] {
    const HALF_ORDER: [u8; 32] = [
        0x7F, 0xFF, 0xFF, 0xFF, 0xFF, 0xFF, 0xFF, 0xFF, 0xFF, 0xFF, 0xFF, 0xFF, 0xFF, 0xFF, 0xFF,
        0xFF, 0xFF, 0xFF, 0xFF, 0xFF, 0xFF, 0xFF, 0xFF, 0xFF, 0x5D, 0x57, 0x6E, 0x73, 0x57, 0xA4,
        0x50, 0x1D,
    ];
    const CURVE_ORDER: [u8; 32] = [
        0xFF, 0xFF, 0xFF, 0xFF, 0xFF, 0xFF, 0xFF, 0xFF, 0xFF, 0xFF, 0xFF, 0xFF, 0xFF, 0xFF, 0xFF,
        0xFE, 0xBA, 0xAE, 0xDC, 0xE6, 0xAF, 0x48, 0xA0, 0x3B, 0xBF, 0xD2, 0x5E, 0x8C, 0xD0, 0x36,
        0x41, 0x41,
    ];

    let mut s_greater_than_half = false;
    for i in 0..32 {
        if s[i] > HALF_ORDER[i] {
            s_greater_than_half = true;
            break;
        } else if s[i] < HALF_ORDER[i] {
            break;
        }
    }

    if s_greater_than_half {
        let mut result = [0u8; 32];
        let mut borrow = 0u16;
        for i in (0..32).rev() {
            let curve_byte = CURVE_ORDER[i] as u16;
            let s_byte = s[i] as u16;
            let total_to_subtract = s_byte + borrow;

            if curve_byte >= total_to_subtract {
                result[i] = (curve_byte - total_to_subtract) as u8;
                borrow = 0;
            } else {
                result[i] = ((256u16 + curve_byte) - total_to_subtract) as u8;
                borrow = 1;
            }
        }
        result
    } else {
        *s
    }
}

/// The engine-side identity of a host address: its host serialization.
fn account_id_of(e: &Env, a: &Address) -> AccountId {
    AccountId::new(a.clone().to_xdr(e).into_iter().collect())
}

/// Assemble the 64-byte signature (with s normalized) and find the recovery
/// id that recovers the expected chip key from `digest`.
fn signature_and_recovery_id(digest: &Vec<u8>, sig: &TestSignature) -> (Vec<u8>, u32) {
    let s_normalized = normalize_s(&sig.sig_s);
    let mut sig_bytes = vec![0u8; 64];
    sig_bytes[..32].copy_from_slice(&sig.sig_r);
    sig_bytes[32..].copy_from_slice(&s_normalized);
    let expected = sig.public_key.to_vec();
    for rid in 0u32..=3u32 {
        if let Some(recovered) = recover_chip_key(digest, &sig_bytes, rid as u8) {
            if recovered == expected {
                return (sig_bytes, rid);
            }
        }
    }
    panic!("No valid recovery ID found for test signature");
}

fn new_contract(admin: &AccountId, holding: &AccountId) -> NFCtoNFT {
    NFCtoNFT::new(
        admin.clone(),
        holding.clone(),
        b"TestNFT".to_vec(),
        b"TNFT".to_vec(),
        b"ipfs://abcd".to_vec(),
        10_000u32,
    )
}

#[test]
fn test_metadata() {
    let admin = AccountId::new(b"admin".to_vec());
    let holding = AccountId::new(b"contract".to_vec());
    let c = new_contract(&admin, &holding);

    assert_eq!(c.name(), b"TestNFT".to_vec());
    assert_eq!(c.symbol(), b"TNFT".to_vec());
}

#[test]
fn test_claim() {
    let e = Env::default();

    let admin = Address::generate(&e);
    let claimant = Address::generate(&e);
    let contract = Address::generate(&e);
    let admin_id = account_id_of(&e, &admin);
    let claimant_id = account_id_of(&e, &claimant);
    let holding_id = account_id_of(&e, &contract);
    let mut c = new_contract(&admin_id, &holding_id);

    // Chip 1, nonce 1 (mint)
    let mint_sig = &TEST_SIGNATURES[0];
    let message = mint_sig.message.to_vec();
    let mint_digest = compute_chip_digest(&message, admin_id.as_bytes(), mint_sig.nonce);
    let (mint_signature, mint_recovery_id) = signature_and_recovery_id(&mint_digest, mint_sig);
    let public_key = PublicKey::new(mint_sig.public_key.to_vec());

    let token_id = c
        .mint(&message, &mint_signature, mint_recovery_id, &public_key, mint_sig.nonce)
        .expect("mint");
    assert_eq!(token_id, 0u32);

    // Verify token is unclaimed after mint
    assert!(c.owner_of(token_id).is_err(), "Token should be unclaimed after mint");

    // Chip 1, nonce 2 (claim)
    let claim_sig = &TEST_SIGNATURES[1];
    let message = claim_sig.message.to_vec();
    let claim_digest = compute_chip_digest(&message, claimant_id.as_bytes(), claim_sig.nonce);
    let (claim_signature, claim_recovery_id) = signature_and_recovery_id(&claim_digest, claim_sig);

    let claimed_token_id = c
        .claim(
            &claimant_id,
            &message,
            &claim_signature,
            claim_recovery_id,
            &public_key,
            claim_sig.nonce,
        )
        .expect("claim");
    assert_eq!(claimed_token_id, token_id, "Claim should return the same token ID");

    let owner = c.owner_of(token_id).unwrap();
    assert_eq!(owner, claimant_id, "Token should be owned by claimant after claim");

    let claimant_balance = c.balance(&claimant_id);
    assert_eq!(claimant_balance, 1u32, "Claimant should have balance of 1 after claiming");

    // Verify clawback
    c.clawback(token_id).expect("clawback");
    let claimant_balance = c.balance(&claimant_id);
    assert_eq!(claimant_balance, 0u32, "Claimant should have balance of 0 after clawback");
    let owner = c.owner_of(token_id).unwrap();
    assert_eq!(owner, holding_id, "Token should be owned by the contract");

    let token_uri = c.token_uri(0).unwrap();
    assert_eq!(token_uri, b"ipfs://abcd/0".to_vec());
}

#[test]
fn test_nonce_reuse_prevention() {
    let e = Env::default();

    let admin = Address::generate(&e);
    let admin_id = account_id_of(&e, &admin);
    let holding = AccountId::new(b"contract".to_vec());
    let mut c = new_contract(&admin_id, &holding);

    // Chip 1, nonce 1
    let sig = &TEST_SIGNATURES[0];
    let message = sig.message.to_vec();
    let digest = compute_chip_digest(&message, admin_id.as_bytes(), sig.nonce);
    let (signature, recovery_id) = signature_and_recovery_id(&digest, sig);
    let public_key = PublicKey::new(sig.public_key.to_vec());

    // First mint should succeed
    c.mint(&message, &signature, recovery_id, &public_key, sig.nonce).expect("first mint");

    // Second mint with the same nonce must be refused (nonce reuse prevention)
    let repeat = c.mint(&message, &signature, recovery_id, &public_key, sig.nonce);
    assert_eq!(repeat, Err(NonFungibleTokenError::InvalidSignature));
}

#[test]
fn test_transfer() {
    let e = Env::default();

    let admin = Address::generate(&e);
    let claimant = Address::generate(&e);
    let recipient = Address::generate(&e);
    let admin_id = account_id_of(&e, &admin);
    let claimant_id = account_id_of(&e, &claimant);
    let recipient_id = account_id_of(&e, &recipient);
    let holding = AccountId::new(b"contract".to_vec());
    let mut c = new_contract(&admin_id, &holding);

    // Chip 1, nonce 1 (mint)
    let mint_sig = &TEST_SIGNATURES[0];
    let message = mint_sig.message.to_vec();
    let mint_digest = compute_chip_digest(&message, admin_id.as_bytes(), mint_sig.nonce);
    let (mint_signature, mint_recovery_id) = signature_and_recovery_id(&mint_digest, mint_sig);
    let public_key = PublicKey::new(mint_sig.public_key.to_vec());
    let token_id = c
        .mint(&message, &mint_signature, mint_recovery_id, &public_key, mint_sig.nonce)
        .expect("mint");
    assert_eq!(token_id, 0u32);

    // Chip 1, nonce 2 (claim)
    let claim_sig = &TEST_SIGNATURES[1];
    let message = claim_sig.message.to_vec();
    let claim_digest = compute_chip_digest(&message, claimant_id.as_bytes(), claim_sig.nonce);
    let (claim_signature, claim_recovery_id) = signature_and_recovery_id(&claim_digest, claim_sig);
    let claimed_token_id = c
        .claim(
            &claimant_id,
            &message,
            &claim_signature,
            claim_recovery_id,
            &public_key,
            claim_sig.nonce,
        )
        .expect("claim");
    assert_eq!(claimed_token_id, token_id);

    // Verify initial ownership and balance
    assert_eq!(c.owner_of(token_id).unwrap(), claimant_id);
    assert_eq!(c.balance(&claimant_id), 1u32);
    assert_eq!(c.balance(&recipient_id), 0u32);

    // Chip 1, nonce 3 (transfer)
    let transfer_sig = &TEST_SIGNATURES[2];
    let message = transfer_sig.message.to_vec();
    let transfer_digest =
        compute_chip_digest(&message, claimant_id.as_bytes(), transfer_sig.nonce);
    let (transfer_signature, transfer_recovery_id) =
        signature_and_recovery_id(&transfer_digest, transfer_sig);
    c.transfer(
        &claimant_id,
        &recipient_id,
        token_id,
        &message,
        &transfer_signature,
        transfer_recovery_id,
        &public_key,
        transfer_sig.nonce,
    )
    .expect("transfer");

    let new_owner = c.owner_of(token_id).unwrap();
    assert_eq!(new_owner, recipient_id, "Token should be owned by recipient after transfer");

    assert_eq!(c.balance(&claimant_id), 0u32, "Claimant balance should be 0 after transfer");
    assert_eq!(c.balance(&recipient_id), 1u32, "Recipient balance should be 1 after transfer");
}

#[test]
fn test_multiple_chips_and_nfts() {
    let e = Env::default();

    let admin = Address::generate(&e);
    let claimant1 = Address::generate(&e);
    let claimant2 = Address::generate(&e);
    let admin_id = account_id_of(&e, &admin);
    let claimant1_id = account_id_of(&e, &claimant1);
    let claimant2_id = account_id_of(&e, &claimant2);
    let holding = AccountId::new(b"contract".to_vec());
    let mut c = new_contract(&admin_id, &holding);

    // Chip 1: Mint NFT 1 (nonce 1) and claim it (nonce 2)
    let mint1_sig = &TEST_SIGNATURES[0];
    let message = mint1_sig.message.to_vec();
    let mint1_digest = compute_chip_digest(&message, admin_id.as_bytes(), mint1_sig.nonce);
    let (mint1_signature, mint1_recovery_id) = signature_and_recovery_id(&mint1_digest, mint1_sig);
    let public_key_1 = PublicKey::new(mint1_sig.public_key.to_vec());
    let token_id_1 = c
        .mint(&message, &mint1_signature, mint1_recovery_id, &public_key_1, mint1_sig.nonce)
        .expect("mint 1");
    assert_eq!(token_id_1, 0u32);

    let claim1_sig = &TEST_SIGNATURES[1];
    let message = claim1_sig.message.to_vec();
    let claim1_digest = compute_chip_digest(&message, claimant1_id.as_bytes(), claim1_sig.nonce);
    let (claim1_signature, claim1_recovery_id) =
        signature_and_recovery_id(&claim1_digest, claim1_sig);
    let claimed_token_id_1 = c
        .claim(
            &claimant1_id,
            &message,
            &claim1_signature,
            claim1_recovery_id,
            &public_key_1,
            claim1_sig.nonce,
        )
        .expect("claim 1");
    assert_eq!(claimed_token_id_1, token_id_1);

    // Chip 2: Mint NFT 2 (nonce 3) and claim it (nonce 4)
    let mint2_sig = &TEST_SIGNATURES[3];
    let message = mint2_sig.message.to_vec();
    let mint2_digest = compute_chip_digest(&message, admin_id.as_bytes(), mint2_sig.nonce);
    let (mint2_signature, mint2_recovery_id) = signature_and_recovery_id(&mint2_digest, mint2_sig);
    let public_key_2 = PublicKey::new(mint2_sig.public_key.to_vec());
    let token_id_2 = c
        .mint(&message, &mint2_signature, mint2_recovery_id, &public_key_2, mint2_sig.nonce)
        .expect("mint 2");
    assert_eq!(token_id_2, 1u32, "Second token should have ID 1");

    let claim2_sig = &TEST_SIGNATURES[4];
    let message = claim2_sig.message.to_vec();
    let claim2_digest = compute_chip_digest(&message, claimant2_id.as_bytes(), claim2_sig.nonce);
    let (claim2_signature, claim2_recovery_id) =
        signature_and_recovery_id(&claim2_digest, claim2_sig);
    let claimed_token_id_2 = c
        .claim(
            &claimant2_id,
            &message,
            &claim2_signature,
            claim2_recovery_id,
            &public_key_2,
            claim2_sig.nonce,
        )
        .expect("claim 2");
    assert_eq!(claimed_token_id_2, token_id_2);

    // Verify both NFTs exist independently
    assert_eq!(c.owner_of(token_id_1).unwrap(), claimant1_id, "NFT 1 should be owned by claimant1");
    assert_eq!(c.owner_of(token_id_2).unwrap(), claimant2_id, "NFT 2 should be owned by claimant2");

    // Verify both public keys are stored correctly
    let stored_public_key_1 = c.public_key(token_id_1).unwrap();
    assert_eq!(stored_public_key_1, public_key_1, "NFT 1 should have Chip 1's public key");
    let stored_public_key_2 = c.public_key(token_id_2).unwrap();
    assert_eq!(stored_public_key_2, public_key_2, "NFT 2 should have Chip 2's public key");

    // Verify token IDs are mapped correctly
    let stored_token_id_1 = c.token_id(&public_key_1).unwrap();
    assert_eq!(stored_token_id_1, token_id_1, "Chip 1's public key should map to token ID 1");
    let stored_token_id_2 = c.token_id(&public_key_2).unwrap();
    assert_eq!(stored_token_id_2, token_id_2, "Chip 2's public key should map to token ID 2");

    // Verify balances are tracked separately
    assert_eq!(c.balance(&claimant1_id), 1u32, "Claimant1 should have balance of 1");
    assert_eq!(c.balance(&claimant2_id), 1u32, "Claimant2 should have balance of 1");

    // Verify token URIs are different
    assert_eq!(c.token_uri(token_id_1).unwrap(), b"ipfs://abcd/0".to_vec());
    assert_eq!(c.token_uri(token_id_2).unwrap(), b"ipfs://abcd/1".to_vec());

    // The id counter equals the number of successful mints
    assert_eq!(c.next_token_id(), 2u32);
}
