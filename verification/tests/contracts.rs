use trident::contracts::counter::Counter;
use trident::contracts::escrow::{Escrow, EscrowError, EscrowEvent, Payment};
use trident::contracts::nft::{Nft, NftError, NftEvent};
use trident::contracts::token::{Token, TokenNotice};

#[test]
fn increment_returns_running_total() {
    let mut client = Counter::default();

    assert_eq!(client.count(), 0);
    assert_eq!(client.increment(), 1);
    assert_eq!(client.increment(), 2);
    assert_eq!(client.count(), 2);
}

#[test]
fn mint_then_transfer_changes_owner() {
    let mut client = Nft::default();

    let (token_id, minted) = client.mint("alice");
    assert_eq!(client.owner_of(token_id), "alice");
    assert!(matches!(minted, NftEvent::Mint { to, token_id: 0 } if to == "alice"));

    let moved = client.transfer("alice", "bob", token_id).unwrap();
    assert_eq!(client.owner_of(token_id), "bob");
    assert!(matches!(moved, NftEvent::Transfer { from, to, .. } if from == "alice" && to == "bob"));
}

#[test]
fn transfer_by_non_owner_fails() {
    let mut client = Nft::default();

    let (token_id, _) = client.mint("alice");
    let result = client.transfer("mallory", "bob", token_id);
    assert!(result.is_err());
    assert!(matches!(result, Err(NftError::NotOwner)));
    assert_eq!(NftError::NotOwner.code(), 1);
    assert_eq!(client.owner_of(token_id), "alice");
}

#[test]
fn tokens_are_numbered_in_the_order_of_minting() {
    let mut client = Nft::default();
    assert!(!client.has_token(0));
    assert_eq!(client.mint("alice").0, 0);
    assert_eq!(client.mint("bob").0, 1);
    assert!(client.has_token(1));
    assert!(!client.has_token(2));
    assert_eq!(client.owner_of(0), "alice");
}

fn token(name: &str, symbol: &str) -> Token {
    let mut client = Token::default();
    client.initialize("admin", 7, name, symbol);
    client
}

fn reference_token() -> Token {
    token("Trident Reference Token", "TRT")
}

#[test]
fn mint_and_transfer_update_balances() {
    let mut client = reference_token();

    client.mint("alice", 1_000);
    assert_eq!(client.balance("alice"), 1_000);
    assert_eq!(client.admin(), "admin");

    client.transfer("alice", "bob", 400);
    assert_eq!(client.balance("alice"), 600);
    assert_eq!(client.balance("bob"), 400);
}

#[test]
fn approve_then_transfer_from_spends_allowance() {
    let mut client = reference_token();

    client.mint("alice", 500);
    client.approve("alice", "spender", 200, 100);
    assert_eq!(client.allowance("alice", "spender"), 200);

    client.transfer_from("spender", "alice", "bob", 150);
    assert_eq!(client.balance("alice"), 350);
    assert_eq!(client.balance("bob"), 150);
    assert_eq!(client.allowance("alice", "spender"), 50);
}

#[test]
fn burn_reduces_balance() {
    let mut client = reference_token();

    client.mint("alice", 300);
    client.burn("alice", 100);
    assert_eq!(client.balance("alice"), 200);
}

#[test]
fn metadata_round_trips() {
    let client = reference_token();
    assert_eq!(client.decimals(), 7);
    assert_eq!(client.name(), "Trident Reference Token");
    assert_eq!(client.symbol(), "TRT");
}

#[test]
fn a_transfer_to_oneself_changes_nothing() {
    let mut client = reference_token();
    client.mint("alice", 10);
    assert!(client.can_transfer("alice", "alice", 10));
    client.transfer("alice", "alice", 10);
    assert_eq!(client.balance("alice"), 10);
}

#[test]
fn transfers_need_the_funds() {
    let mut client = reference_token();
    client.mint("alice", 10);
    assert!(!client.can_transfer("alice", "bob", 11));
    assert!(!client.can_transfer("alice", "bob", -1));
    assert!(client.can_transfer("alice", "bob", 10));
}

#[test]
fn burning_from_a_holder_spends_the_allowance() {
    let mut client = reference_token();
    client.mint("alice", 10);
    client.approve("alice", "spender", 6, 1);
    let notice = client.burn_from("spender", "alice", 4);
    assert!(matches!(notice, TokenNotice::Burn { from, amount: 4 } if from == "alice"));
    assert_eq!(client.balance("alice"), 6);
    assert_eq!(client.allowance("alice", "spender"), 2);
}

#[test]
fn the_administrator_can_be_replaced() {
    let mut client = Token::default();
    assert!(!client.is_initialized());
    client.initialize("first", 2, "N", "S");
    assert!(client.is_initialized());
    client.set_admin("second");
    assert_eq!(client.admin(), "second");
    let notice = client.mint("alice", 1);
    assert!(matches!(notice, TokenNotice::Mint { admin, .. } if admin == "second"));
}

fn funded_token() -> Token {
    let mut client = token("Escrow Test Token", "ETT");
    client.mint("depositor", 1_000);
    client
}

fn escrow() -> Escrow {
    let mut client = Escrow::default();
    client.initialize("depositor", "beneficiary", "arbiter", "token", 1_000);
    client
}

fn pay(token: &mut Token, payment: &Payment) {
    assert_eq!(payment.token, "token");
    assert!(token.can_transfer(&payment.from, &payment.to, payment.amount));
    token.transfer(&payment.from, &payment.to, payment.amount);
}

#[test]
fn release_before_deposit_fails() {
    let mut client = escrow();
    let result = client.release("escrow");
    assert!(result.is_err());
    assert!(matches!(result, Err(EscrowError::NotDeposited)));
    assert_eq!(EscrowError::NotDeposited.code(), 1);
}

#[test]
fn deposit_then_release_pays_beneficiary() {
    let mut token = funded_token();
    let mut client = escrow();

    let (payment, event) = client.deposit("escrow");
    pay(&mut token, &payment);
    assert!(matches!(event, EscrowEvent::Deposited { amount: 1_000 }));
    assert_eq!(token.balance("depositor"), 0);
    assert_eq!(token.balance("escrow"), 1_000);

    let (payment, event) = client.release("escrow").unwrap();
    pay(&mut token, &payment);
    assert!(matches!(event, EscrowEvent::Released));
    assert_eq!(token.balance("beneficiary"), 1_000);
    assert_eq!(token.balance("escrow"), 0);

    // A settled escrow cannot be released or refunded again.
    assert!(client.release("escrow").is_err());
    assert!(client.refund("escrow").is_err());
    assert!(matches!(client.refund("escrow"), Err(EscrowError::AlreadySettled)));
    assert_eq!(EscrowError::AlreadySettled.code(), 2);
}

#[test]
fn deposit_then_refund_returns_to_depositor() {
    let mut token = funded_token();
    let mut client = escrow();

    let (payment, _) = client.deposit("escrow");
    pay(&mut token, &payment);
    let (payment, event) = client.refund("escrow").unwrap();
    pay(&mut token, &payment);

    assert!(matches!(event, EscrowEvent::Refunded));
    assert_eq!(token.balance("depositor"), 1_000);
    assert_eq!(token.balance("beneficiary"), 0);
}

#[test]
fn escrows_name_who_authorises() {
    let client = escrow();
    assert!(client.is_initialized());
    assert!(!Escrow::default().is_initialized());
    assert_eq!(client.depositor(), "depositor");
    assert_eq!(client.arbiter(), "arbiter");
}
