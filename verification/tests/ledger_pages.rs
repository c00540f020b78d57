use oracle::ledger::Ledger;
use oracle::registry::AuthorizedNodes;
use oracle::request::OracleRequest;

fn record(requester: &str, payment: u128) -> OracleRequest {
    OracleRequest {
        caller_account: requester.to_string(),
        request_spec: "spec".to_string(),
        callback_address: "callback.testnet".to_string(),
        callback_method: "cb".to_string(),
        data: "data".to_string(),
        payment,
        expiration: 42,
    }
}

fn filled() -> Ledger {
    let mut ledger = Ledger::new();
    for (account, nonce, payment) in [
        ("dave", 3u128, 30u128),
        ("bob", 9, 90),
        ("alice", 2, 20),
        ("carol", 1, 10),
        ("bob", 4, 40),
        ("erin", 5, 50),
        ("bob", 6, 60),
    ] {
        assert!(ledger.insert(account.to_string(), nonce, record(account, payment)));
    }
    ledger
}

fn accounts_of(ledger: &Ledger, cursor: Option<&str>, max: u64) -> Vec<(String, u64)> {
    let page = match cursor {
        None => ledger.summary(max),
        Some(account) => ledger.summary_from(&account.to_string(), max),
    };
    page.into_iter().map(|entry| (entry.account, entry.total_requests)).collect()
}

fn named(entries: &[(&str, u64)]) -> Vec<(String, u64)> {
    entries.iter().map(|(account, count)| (account.to_string(), *count)).collect()
}

#[test]
fn ledger_lists_accounts_in_ascending_order() {
    let ledger = filled();
    assert_eq!(ledger.len(), 5);
    assert_eq!(
        accounts_of(&ledger, None, 10),
        named(&[("alice", 1), ("bob", 3), ("carol", 1), ("dave", 1), ("erin", 1)])
    );
}

#[test]
fn summary_is_capped_by_max_and_by_the_ledger() {
    let ledger = filled();
    assert_eq!(accounts_of(&ledger, None, 0), named(&[]));
    assert_eq!(accounts_of(&ledger, None, 1), named(&[("alice", 1)]));
    assert_eq!(accounts_of(&ledger, None, 5).len(), 5);
    assert_eq!(accounts_of(&ledger, None, 6).len(), 5);
    assert_eq!(accounts_of(&ledger, None, u64::MAX).len(), 5);
    assert_eq!(accounts_of(&Ledger::new(), None, 3), named(&[]));
}

#[test]
fn summary_resumes_after_the_cursor() {
    let ledger = filled();
    assert_eq!(
        accounts_of(&ledger, Some("bob"), 2),
        named(&[("carol", 1), ("dave", 1)])
    );
    // a cursor that the ledger does not know
    assert_eq!(accounts_of(&ledger, Some("bz"), 1), named(&[("carol", 1)]));
    assert_eq!(accounts_of(&ledger, Some(""), 1), named(&[("alice", 1)]));
    assert_eq!(accounts_of(&ledger, Some("erin"), 3), named(&[]));
    assert_eq!(accounts_of(&ledger, Some("zed"), 3), named(&[]));
    assert_eq!(accounts_of(&ledger, Some("alice"), 0), named(&[]));
}

#[test]
fn pages_follow_each_other_without_overlap_or_gap() {
    let ledger = filled();
    for size in 1u64..7 {
        let mut walked: Vec<(String, u64)> = Vec::new();
        let mut page = accounts_of(&ledger, None, size);
        while let Some(last) = page.last().cloned() {
            assert!(page.len() as u64 <= size);
            walked.extend(page);
            page = accounts_of(&ledger, Some(&last.0), size);
        }
        assert_eq!(walked, accounts_of(&ledger, None, u64::MAX));
    }
    let first = accounts_of(&ledger, None, 2);
    let second = accounts_of(&ledger, Some("bob"), 2);
    let both: Vec<(String, u64)> = first.into_iter().chain(second).collect();
    assert_eq!(both, accounts_of(&ledger, None, 4));
}

#[test]
fn requests_of_an_account_come_by_ascending_nonce() {
    let ledger = filled();
    let page = ledger.requests_page(&"bob".to_string(), 10).unwrap();
    let nonces: Vec<(u128, u128)> =
        page.iter().map(|entry| (entry.nonce, entry.request.payment)).collect();
    assert_eq!(nonces, vec![(4, 40), (6, 60), (9, 90)]);
    let page = ledger.requests_page(&"bob".to_string(), 2).unwrap();
    let nonces: Vec<u128> = page.iter().map(|entry| entry.nonce).collect();
    assert_eq!(nonces, vec![4, 6]);
    assert!(ledger.requests_page(&"bob".to_string(), 0).unwrap().is_empty());
    assert!(ledger.requests_page(&"zed".to_string(), 3).is_none());
}

#[test]
fn all_requests_cuts_accounts_and_requests() {
    let ledger = filled();
    let pages = ledger.all_requests(2, 2);
    let seen: Vec<(String, Vec<u128>)> = pages
        .into_iter()
        .map(|page| (page.account, page.requests.iter().map(|entry| entry.nonce).collect()))
        .collect();
    assert_eq!(
        seen,
        vec![("alice".to_string(), vec![2u128]), ("bob".to_string(), vec![4u128, 6])]
    );
    assert_eq!(ledger.all_requests(u64::MAX, u64::MAX).len(), 5);
    assert!(ledger.all_requests(0, 5).is_empty());
    let none: Vec<usize> =
        ledger.all_requests(5, 0).iter().map(|page| page.requests.len()).collect();
    assert_eq!(none, vec![0, 0, 0, 0, 0]);
}

#[test]
fn a_pair_names_at_most_one_request() {
    let mut ledger = filled();
    assert!(!ledger.insert("bob".to_string(), 4, record("bob", 1_000)));
    let kept = ledger.get(&"bob".to_string(), 4).unwrap();
    assert_eq!(kept.payment, 40);
    assert_eq!(ledger.requests_page(&"bob".to_string(), 10).unwrap().len(), 3);
    assert!(ledger.contains(&"bob".to_string(), 4));
    assert!(!ledger.contains(&"bob".to_string(), 5));
    assert!(!ledger.contains(&"zed".to_string(), 4));
    assert!(ledger.get(&"bob".to_string(), 5).is_none());
    assert!(ledger.get(&"zed".to_string(), 4).is_none());
}

#[test]
fn removal_keeps_the_account() {
    let mut ledger = filled();
    assert!(ledger.remove(&"carol".to_string(), 1));
    assert!(!ledger.remove(&"carol".to_string(), 1));
    assert!(!ledger.remove(&"zed".to_string(), 1));
    assert!(ledger.contains_key(&"carol".to_string()));
    assert!(!ledger.contains_key(&"zed".to_string()));
    assert!(ledger.requests_page(&"carol".to_string(), 3).unwrap().is_empty());
    assert_eq!(
        accounts_of(&ledger, None, 10),
        named(&[("alice", 1), ("bob", 3), ("carol", 0), ("dave", 1), ("erin", 1)])
    );
    assert!(ledger.remove(&"bob".to_string(), 6));
    let nonces: Vec<u128> = ledger
        .requests_page(&"bob".to_string(), 10)
        .unwrap()
        .iter()
        .map(|entry| entry.nonce)
        .collect();
    assert_eq!(nonces, vec![4, 9]);
    // the nonce can be taken again once its request is gone
    assert!(ledger.insert("carol".to_string(), 1, record("carol", 11)));
    assert_eq!(ledger.get(&"carol".to_string(), 1).unwrap().payment, 11);
}

#[test]
fn opening_an_account_adds_no_request() {
    let mut ledger = Ledger::new();
    assert!(ledger.open_account("bob".to_string()));
    assert!(!ledger.open_account("bob".to_string()));
    assert!(ledger.open_account("alice".to_string()));
    assert_eq!(accounts_of(&ledger, None, 10), named(&[("alice", 0), ("bob", 0)]));
    assert!(ledger.insert("bob".to_string(), 1, record("bob", 1)));
    assert_eq!(accounts_of(&ledger, None, 10), named(&[("alice", 0), ("bob", 1)]));
    ledger.clear();
    assert_eq!(ledger.len(), 0);
    assert!(!ledger.contains_key(&"bob".to_string()));
}

#[test]
fn authorized_nodes_are_a_set_in_order_of_arrival() {
    let mut nodes = AuthorizedNodes::new();
    assert!(nodes.to_vec().is_empty());
    assert!(nodes.insert("carol".to_string()));
    assert!(nodes.insert("alice".to_string()));
    assert!(!nodes.insert("carol".to_string()));
    assert!(nodes.insert("bob".to_string()));
    assert_eq!(nodes.to_vec(), vec!["carol".to_string(), "alice".to_string(), "bob".to_string()]);
    assert!(nodes.contains(&"alice".to_string()));
    assert!(!nodes.contains(&"dave".to_string()));
    assert!(nodes.remove(&"alice".to_string()));
    assert!(!nodes.remove(&"alice".to_string()));
    assert_eq!(nodes.to_vec(), vec!["carol".to_string(), "bob".to_string()]);
    assert!(!nodes.contains(&"alice".to_string()));
}
