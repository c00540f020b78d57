use oracle::account::{compare_accounts, Position};
use oracle::chain::CallContext;
use oracle::broker::Oracle;

fn owner_context() -> CallContext {
    CallContext {
        current_account_id: "broker.near".to_string(),
        signer_account_id: "owner.near".to_string(),
        predecessor_account_id: "owner.near".to_string(),
        block_timestamp: 0,
        prepaid_gas: 0,
        used_gas: 0,
    }
}

fn accepted(account: &str) -> bool {
    let mut contract =
        Oracle::new("link.near".to_string(), "owner.near".to_string(), false).unwrap();
    contract.add_authorization(&owner_context(), account.to_string()).is_ok()
}

#[test]
fn accounts_are_ordered_by_their_bytes() {
    let order = |a: &str, b: &str| compare_accounts(&a.to_string(), &b.to_string());
    assert_eq!(order("alice_near", "bob_near"), Position::Before);
    assert_eq!(order("bob_near", "alice_near"), Position::After);
    assert_eq!(order("bob", "bob"), Position::Same);
    assert_eq!(order("bob", "bob_near"), Position::Before);
    assert_eq!(order("bob_near", "bob"), Position::After);
    assert_eq!(order("", "a"), Position::Before);
    assert_eq!(order("", ""), Position::Same);
    assert_eq!(order("a-b", "a.b"), Position::Before);
    assert_eq!(order("a_b", "a.b"), Position::After);
    assert_eq!(order("Z", "a"), Position::Before);
    assert_eq!(order("z", "é"), Position::Before);
    assert_eq!(order("é", "€"), Position::Before);
    for (a, b) in [("alice", "bob"), ("a", "ab"), ("é", "e"), ("10", "9"), ("", "")] {
        let expected = match a.cmp(b) {
            std::cmp::Ordering::Less => Position::Before,
            std::cmp::Ordering::Equal => Position::Same,
            std::cmp::Ordering::Greater => Position::After,
        };
        assert_eq!(order(a, b), expected);
    }
}

#[test]
fn account_names_follow_the_rules_of_the_ledger() {
    for valid in [
        "aa",
        "a-a",
        "100",
        "near",
        "b-o_w_e-n",
        "b.owen",
        "a.b-a.ra",
        "over.9000",
        "illia.cheapaccounts.near",
        "0123456789012345678901234567890123456789012345678901234567890123",
        "alice_near",
        "callback.sender.testnet",
    ] {
        assert!(accepted(valid), "{} was refused", valid);
    }
    for invalid in [
        "",
        "a",
        "A",
        "Abc",
        "-near",
        "near-",
        "near.",
        ".near",
        "near@",
        "неар",
        "0__0",
        "0_-_0",
        "..",
        "a..near",
        "nEar",
        "_bowen",
        "hello world",
        "01234567890123456789012345678901234567890123456789012345678901234",
        "some-complex-address@gmail.com",
    ] {
        assert!(!accepted(invalid), "{} was accepted", invalid);
    }
}
