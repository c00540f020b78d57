use base64::encode;
use oracle::chain::{CallArguments, CallContext, PromiseOutcome};
use oracle::error::OracleError;
use oracle::model::{
    EXPIRY_TIME, MINIMUM_CONSUMER_GAS_LIMIT, SINGLE_CALL_GAS, TRANSFER_FROM_NEAR_COST,
};
use oracle::broker::Oracle;
use oracle::request::{RequestsJSON, SummaryJSON};

fn link() -> String {
    "link_near".to_string()
}

fn alice() -> String {
    "alice_near".to_string()
}

fn bob() -> String {
    "bob_near".to_string()
}

fn get_context(signer_account_id: String) -> CallContext {
    CallContext {
        current_account_id: alice(),
        signer_account_id,
        predecessor_account_id: alice(),
        block_timestamp: 0,
        prepaid_gas: 10u64.pow(18),
        used_gas: 0,
    }
}

fn transferred() -> Vec<PromiseOutcome> {
    vec![PromiseOutcome::Successful]
}

fn quoted(text: &str) -> String {
    serde_json::to_string(text).unwrap()
}

fn requests_to_json(page: &[RequestsJSON]) -> String {
    let entries: Vec<String> = page
        .iter()
        .map(|entry| {
            format!(
                "{{\"nonce\":\"{}\",\"request\":{{\"caller_account\":{},\"request_spec\":{},\"callback_address\":{},\"callback_method\":{},\"data\":{},\"payment\":{},\"expiration\":{}}}}}",
                entry.nonce,
                quoted(&entry.request.caller_account),
                quoted(&entry.request.request_spec),
                quoted(&entry.request.callback_address),
                quoted(&entry.request.callback_method),
                quoted(&entry.request.data),
                entry.request.payment,
                entry.request.expiration
            )
        })
        .collect();
    format!("[{}]", entries.join(","))
}

fn summary_to_json(page: &[SummaryJSON]) -> String {
    let entries: Vec<String> = page
        .iter()
        .map(|entry| {
            format!(
                "{{\"account\":{},\"total_requests\":{}}}",
                quoted(&entry.account),
                entry.total_requests
            )
        })
        .collect();
    format!("[{}]", entries.join(","))
}

#[test]
fn make_request_validate_commitment() {
    let context = get_context(alice());
    let mut contract = Oracle::new(link(), alice(), false).unwrap();
    let sender = alice();
    let payment: u128 = 51319_u128;
    let spec_id = encode("unique spec id".to_string());
    let nonce = 1_u128;
    let data_version: u128 = 131_u128;
    let data = encode("BAT".to_string());
    contract
        .store_request(
            &context,
            &transferred(),
            sender,
            payment,
            spec_id,
            "callback.sender.testnet".to_string(),
            "my_callback_fn".to_string(),
            nonce,
            data_version,
            data,
        )
        .unwrap();

    // second validate the serialized requests
    let max_requests: u64 = 1u64;
    let serialized_output = contract.get_requests(alice(), max_requests).unwrap();
    let expiration_string = contract.requests().get(&alice(), nonce).unwrap().expiration.to_string();
    let expected_before_expiration = "[{\"nonce\":\"1\",\"request\":{\"caller_account\":\"alice_near\",\"request_spec\":\"dW5pcXVlIHNwZWMgaWQ=\",\"callback_address\":\"callback.sender.testnet\",\"callback_method\":\"my_callback_fn\",\"data\":\"QkFU\",\"payment\":51319,\"expiration\":";
    let expected_after_expiration = "}}]";
    let expected_result =
        format!("{}{}{}", expected_before_expiration, expiration_string, expected_after_expiration);
    let output_string = requests_to_json(serialized_output.as_slice());
    assert_eq!(expected_result, output_string);
}

#[test]
#[should_panic(expected = "Existing account and nonce in requests")]
fn make_duplicate_request() {
    let context = get_context(alice());
    let mut contract = Oracle::new(link(), alice(), false).unwrap();
    let payment: u128 = 6_u128;
    let spec_id = encode("unique spec id".to_string());
    let callback_address = "callback.testnet".to_string();
    let callback_method = "test_callback".to_string();
    let nonce: u128 = 1_u128;
    let data_version: u128 = 131_u128;
    let data = encode("BAT".to_string());

    contract
        .request(
            &context,
            payment,
            spec_id.clone(),
            callback_address.clone(),
            callback_method.clone(),
            nonce,
            data_version,
            data.clone(),
        )
        .unwrap();
    contract
        .store_request(
            &context,
            &transferred(),
            alice(),
            payment,
            spec_id.clone(),
            callback_address.clone(),
            callback_method.clone(),
            nonce,
            data_version,
            data.clone(),
        )
        .unwrap();

    if let Err(refusal) = contract.request(
        &context,
        payment,
        spec_id.clone(),
        callback_address.clone(),
        callback_method.clone(),
        nonce,
        data_version,
        data.clone(),
    ) {
        panic!("{}", refusal.message());
    }
    contract
        .store_request(
            &context,
            &transferred(),
            alice(),
            payment,
            spec_id,
            callback_address,
            callback_method,
            nonce,
            data_version,
            data,
        )
        .unwrap();
}

#[test]
fn check_authorization() {
    let context = get_context(alice());
    let mut contract = Oracle::new(link(), alice(), false).unwrap();
    let mut authorizations = contract.get_all_authorizations();
    let empty_vec: Vec<String> = Vec::new();
    assert_eq!(empty_vec, authorizations);
    contract.add_authorization(&context, alice()).unwrap();
    authorizations = contract.get_all_authorizations();
    let only_alice: Vec<String> = vec![alice()];
    assert_eq!(only_alice, authorizations);
    contract.add_authorization(&context, bob()).unwrap();
    let bob_is_authorized = contract.is_authorized(bob());
    assert_eq!(true, bob_is_authorized);
    contract.remove_authorization(&context, bob()).unwrap();
    assert_eq!(only_alice, authorizations);
}

#[test]
fn multiple_requests_to_json() {
    // Context: Alice
    let mut context = get_context(alice());
    // Set up contract
    let mut contract = Oracle::new(link(), alice(), false).unwrap();
    // Alice stores two requests
    contract
        .store_request(
            &context,
            &transferred(),
            alice(),
            6_u128,
            "unique-id".to_string(),
            "callback.testnet".to_string(),
            "test_callback".to_string(),
            1_u128,
            131_u128,
            "BAT".to_string(),
        )
        .unwrap();
    contract
        .store_request(
            &context,
            &transferred(),
            alice(),
            6_u128,
            "unique-id".to_string(),
            "callback.testnet".to_string(),
            "test_callback".to_string(),
            2_u128,
            131_u128,
            "NEAR".to_string(),
        )
        .unwrap();
    // Context: Bob
    context = get_context(bob());
    contract
        .store_request(
            &context,
            &transferred(),
            bob(),
            6_u128,
            "unique-id".to_string(),
            "callback.testnet".to_string(),
            "test_callback".to_string(),
            1_u128,
            131_u128,
            "BAT".to_string(),
        )
        .unwrap();
    // Context: Link
    context = get_context(link());
    contract
        .store_request(
            &context,
            &transferred(),
            link(),
            6_u128,
            "unique-id".to_string(),
            "callback.testnet".to_string(),
            "test_callback".to_string(),
            1_u128,
            131_u128,
            "BAT".to_string(),
        )
        .unwrap();

    let max_num_accounts: u64 = 2u64;
    let mut json_result = contract.get_requests_summary(max_num_accounts);
    let mut output_string = summary_to_json(json_result.as_slice());
    let mut expected_result = "[{\"account\":\"alice_near\",\"total_requests\":2},{\"account\":\"bob_near\",\"total_requests\":1}]";
    assert_eq!(output_string, expected_result);

    // now start after "alice_near"
    json_result = contract.get_requests_summary_from(alice(), max_num_accounts);
    expected_result = "[{\"account\":\"bob_near\",\"total_requests\":1},{\"account\":\"link_near\",\"total_requests\":1}]";
    output_string = summary_to_json(json_result.as_slice());
    assert_eq!(output_string, expected_result);
}

#[test]
fn add_request_fulfill() {
    let context = get_context(alice());
    let mut contract = Oracle::new(link(), alice(), false).unwrap();
    // make request
    let payment: u128 = 6_u128;
    let spec_id = encode("unique spec id".to_string());
    let callback_address = context.current_account_id.clone();
    let callback_method = "test_callback".to_string();
    let nonce = 1_u128;
    let data_version: u128 = 131_u128;
    let data = encode("BAT".to_string());

    println!("Number of requests: {}", contract.requests().len());
    contract
        .request(
            &context,
            payment,
            spec_id.clone(),
            callback_address.clone(),
            callback_method.clone(),
            nonce,
            data_version,
            data.clone(),
        )
        .unwrap();
    contract
        .store_request(
            &context,
            &transferred(),
            alice(),
            payment,
            spec_id,
            callback_address.clone(),
            callback_method.clone(),
            nonce,
            data_version,
            data.clone(),
        )
        .unwrap();
    let max_num_accounts: u64 = 1u64;
    println!("{}", summary_to_json(contract.get_requests_summary(max_num_accounts).as_slice()));
    // authorize bob
    contract.add_authorization(&context, bob()).unwrap();

    // fulfill request
    let context = get_context(bob());
    let expiration = contract.requests().get(&alice(), nonce).unwrap().expiration;
    contract
        .fulfill_request(
            &context,
            alice(),
            1,
            payment,
            callback_address,
            callback_method,
            expiration,
            data,
        )
        .unwrap();
}

fn submit(contract: &mut Oracle, requester: String, payment: u128, nonce: u128) {
    let mut asking = get_context(requester.clone());
    asking.predecessor_account_id = requester.clone();
    let chain = contract
        .request(
            &asking,
            payment,
            "spec".to_string(),
            "callback.testnet".to_string(),
            "cb".to_string(),
            nonce,
            1,
            "payload".to_string(),
        )
        .unwrap();
    let storing = get_context(requester);
    match chain.callback.arguments {
        CallArguments::StoreRequest {
            sender,
            payment,
            spec_id,
            callback_address,
            callback_method,
            nonce,
            data_version,
            data,
        } => contract
            .store_request(
                &storing,
                &transferred(),
                sender,
                payment,
                spec_id,
                callback_address,
                callback_method,
                nonce,
                data_version,
                data,
            )
            .unwrap(),
        other => panic!("no store_request after the transfer: {:?}", other),
    }
}

#[test]
fn request_asks_for_the_payment_and_then_for_the_record() {
    let contract = Oracle::new(link(), alice(), false).unwrap();
    let mut context = get_context(bob());
    context.predecessor_account_id = bob();
    context.prepaid_gas = 300_000_000_000_000;
    context.used_gas = 5_000_000_000_000;
    let chain = contract
        .request(
            &context,
            6,
            "spec".to_string(),
            "callback.testnet".to_string(),
            "cb".to_string(),
            7,
            131,
            "payload".to_string(),
        )
        .unwrap();
    assert_eq!(chain.first.account_id, link());
    assert_eq!(chain.first.method_name, "transfer_from");
    assert_eq!(chain.first.amount, TRANSFER_FROM_NEAR_COST);
    assert_eq!(chain.first.amount, 36_500_000_000_000_000_000_000u128);
    assert_eq!(chain.first.gas, 20_000_000_000_000u64);
    match &chain.first.arguments {
        CallArguments::TransferFrom { owner_id, new_owner_id, amount } => {
            assert_eq!(owner_id, &bob());
            assert_eq!(new_owner_id, &alice());
            assert_eq!(*amount, 6);
        }
        other => panic!("unexpected arguments {:?}", other),
    }
    assert_eq!(chain.callback.account_id, alice());
    assert_eq!(chain.callback.method_name, "store_request");
    assert_eq!(chain.callback.amount, 0);
    assert_eq!(chain.callback.gas, 275_000_000_000_000u64);
    match &chain.callback.arguments {
        CallArguments::StoreRequest {
            sender,
            payment,
            spec_id,
            callback_address,
            callback_method,
            nonce,
            data_version,
            data,
        } => {
            assert_eq!(sender, &bob());
            assert_eq!(*payment, 6);
            assert_eq!(spec_id, "spec");
            assert_eq!(callback_address, "callback.testnet");
            assert_eq!(callback_method, "cb");
            assert_eq!(*nonce, 7);
            assert_eq!(*data_version, 131);
            assert_eq!(data, "payload");
        }
        other => panic!("unexpected arguments {:?}", other),
    }
}

#[test]
fn request_is_refused_without_gas_for_the_chain() {
    let contract = Oracle::new(link(), alice(), false).unwrap();
    let mut context = get_context(bob());
    context.prepaid_gas = SINGLE_CALL_GAS + 4;
    context.used_gas = 5;
    let refusal = contract
        .request(&context, 6, "s".to_string(), bob(), "cb".to_string(), 1, 1, "d".to_string())
        .unwrap_err();
    assert_eq!(refusal, OracleError::UpstreamCallFailed);
    context.used_gas = 4;
    let chain = contract
        .request(&context, 6, "s".to_string(), bob(), "cb".to_string(), 1, 1, "d".to_string())
        .unwrap();
    assert_eq!(chain.callback.gas, 0);
    context.prepaid_gas = SINGLE_CALL_GAS - 1;
    context.used_gas = 0;
    let refusal = contract
        .request(&context, 6, "s".to_string(), bob(), "cb".to_string(), 1, 1, "d".to_string())
        .unwrap_err();
    assert_eq!(refusal, OracleError::UpstreamCallFailed);
}

#[test]
fn request_does_not_call_back_to_the_token() {
    let contract = Oracle::new(link(), alice(), false).unwrap();
    let context = get_context(bob());
    let refusal = contract
        .request(&context, 6, "s".to_string(), link(), "cb".to_string(), 1, 1, "d".to_string())
        .unwrap_err();
    assert_eq!(refusal, OracleError::InvalidIdentity);
}

#[test]
fn stored_request_expires_after_the_window() {
    let mut contract = Oracle::new(link(), alice(), false).unwrap();
    let mut context = get_context(alice());
    context.block_timestamp = 1_000;
    contract
        .store_request(
            &context,
            &transferred(),
            bob(),
            6,
            "spec".to_string(),
            "callback.testnet".to_string(),
            "cb".to_string(),
            1,
            131,
            "payload".to_string(),
        )
        .unwrap();
    let record = contract.requests().get(&bob(), 1).unwrap();
    assert_eq!(EXPIRY_TIME, 300_000_000_000u64);
    assert_eq!(record.expiration, 300_000_001_000u64);
    assert_eq!(record.caller_account, bob());
    assert_eq!(record.request_spec, "spec");
    assert_eq!(record.callback_address, "callback.testnet");
    assert_eq!(record.callback_method, "cb");
    assert_eq!(record.data, "payload");
    assert_eq!(record.payment, 6);
    assert_eq!(contract.get_withdrawable_tokens(), 6);
    assert!(!record.is_stale(1_000));
    assert!(!record.is_stale(300_000_001_000));
    assert!(record.is_stale(300_000_001_001));
}

#[test]
fn second_submission_is_refused_and_refunded() {
    let mut contract = Oracle::new(link(), alice(), false).unwrap();
    submit(&mut contract, bob(), 6, 1);
    assert_eq!(contract.get_withdrawable_tokens(), 6);

    let mut asking = get_context(bob());
    asking.predecessor_account_id = bob();
    let refusal = contract
        .request(&asking, 9, "other".to_string(), bob(), "cb".to_string(), 1, 1, "d".to_string())
        .unwrap_err();
    assert_eq!(refusal, OracleError::DuplicateRequest);

    let storing = get_context(bob());
    let rejection = contract
        .store_request(
            &storing,
            &transferred(),
            bob(),
            9,
            "other".to_string(),
            bob(),
            "cb".to_string(),
            1,
            1,
            "d".to_string(),
        )
        .unwrap_err();
    assert_eq!(rejection.error, OracleError::DuplicateRequest);
    let refund = rejection.refund.unwrap();
    assert_eq!(refund.first.account_id, link());
    assert_eq!(refund.first.method_name, "transfer");
    assert_eq!(refund.first.amount, 0);
    assert_eq!(refund.first.gas, SINGLE_CALL_GAS);
    match &refund.first.arguments {
        CallArguments::Transfer { owner_id, new_owner_id, amount } => {
            assert_eq!(owner_id, &alice());
            assert_eq!(new_owner_id, &bob());
            assert_eq!(*amount, 9);
        }
        other => panic!("unexpected arguments {:?}", other),
    }
    assert_eq!(refund.callback.account_id, alice());
    assert_eq!(refund.callback.method_name, "panic");
    match &refund.callback.arguments {
        CallArguments::Panic { error_message } => {
            assert_eq!(error_message, "Existing account and nonce in requests");
        }
        other => panic!("unexpected arguments {:?}", other),
    }

    assert_eq!(contract.get_withdrawable_tokens(), 6);
    let page = contract.get_requests(bob(), 10).unwrap();
    assert_eq!(page.len(), 1);
    assert_eq!(page[0].nonce, 1);
    assert_eq!(page[0].request.payment, 6);
    assert_eq!(page[0].request.request_spec, "spec");
}

#[test]
fn store_request_is_a_continuation_of_a_confirmed_transfer() {
    let mut contract = Oracle::new(link(), alice(), false).unwrap();
    let mut outside = get_context(bob());
    outside.predecessor_account_id = bob();
    let rejection = contract
        .store_request(
            &outside,
            &transferred(),
            bob(),
            6,
            "s".to_string(),
            bob(),
            "cb".to_string(),
            1,
            1,
            "d".to_string(),
        )
        .unwrap_err();
    assert_eq!(rejection.error, OracleError::Unauthorized);
    assert!(rejection.refund.is_none());

    let inside = get_context(bob());
    for outcomes in [
        vec![],
        vec![PromiseOutcome::Failed],
        vec![PromiseOutcome::NotReady],
        vec![PromiseOutcome::Successful, PromiseOutcome::Successful],
    ] {
        let rejection = contract
            .store_request(
                &inside,
                &outcomes,
                bob(),
                6,
                "s".to_string(),
                bob(),
                "cb".to_string(),
                1,
                1,
                "d".to_string(),
            )
            .unwrap_err();
        assert_eq!(rejection.error, OracleError::PaymentTransferFailed);
        assert!(rejection.refund.is_none());
    }
    assert_eq!(contract.get_withdrawable_tokens(), 0);
    assert_eq!(contract.requests().len(), 0);
}

#[test]
fn store_request_returns_a_payment_that_does_not_fit_the_books() {
    let mut contract = Oracle::new(link(), alice(), false).unwrap();
    let context = get_context(alice());
    contract
        .store_request(
            &context,
            &transferred(),
            bob(),
            u128::MAX,
            "s".to_string(),
            bob(),
            "cb".to_string(),
            1,
            1,
            "d".to_string(),
        )
        .unwrap();
    let rejection = contract
        .store_request(
            &context,
            &transferred(),
            bob(),
            1,
            "s".to_string(),
            bob(),
            "cb".to_string(),
            2,
            1,
            "d".to_string(),
        )
        .unwrap_err();
    assert_eq!(rejection.error, OracleError::UpstreamCallFailed);
    assert!(rejection.refund.is_some());
    assert_eq!(contract.get_withdrawable_tokens(), u128::MAX);
    assert!(!contract.requests().contains(&bob(), 2));

    let mut late = get_context(alice());
    late.block_timestamp = u64::MAX - EXPIRY_TIME + 1;
    let mut fresh = Oracle::new(link(), alice(), false).unwrap();
    let rejection = fresh
        .store_request(
            &late,
            &transferred(),
            bob(),
            1,
            "s".to_string(),
            bob(),
            "cb".to_string(),
            2,
            1,
            "d".to_string(),
        )
        .unwrap_err();
    assert_eq!(rejection.error, OracleError::UpstreamCallFailed);
    assert!(rejection.refund.is_some());
    late.block_timestamp = u64::MAX - EXPIRY_TIME;
    fresh
        .store_request(
            &late,
            &transferred(),
            bob(),
            1,
            "s".to_string(),
            bob(),
            "cb".to_string(),
            2,
            1,
            "d".to_string(),
        )
        .unwrap();
    assert_eq!(fresh.requests().get(&bob(), 2).unwrap().expiration, u64::MAX);
}

#[test]
fn fulfillment_is_reserved_for_authorized_nodes() {
    let mut contract = Oracle::new(link(), alice(), false).unwrap();
    submit(&mut contract, alice(), 6, 1);
    let stranger = get_context(bob());
    let refusal = contract
        .fulfill_request(
            &stranger,
            alice(),
            1,
            6,
            "callback.testnet".to_string(),
            "cb".to_string(),
            0,
            "answer".to_string(),
        )
        .unwrap_err();
    assert_eq!(refusal, OracleError::Unauthorized);
    assert!(contract.requests().contains(&alice(), 1));

    // the owner may fulfill without being listed
    assert!(contract.is_authorized(alice()));
    assert!(!contract.is_authorized(bob()));
    let owner = get_context(alice());
    let chain = contract
        .fulfill_request(
            &owner,
            alice(),
            1,
            6,
            "callback.testnet".to_string(),
            "cb".to_string(),
            0,
            "answer".to_string(),
        )
        .unwrap();
    assert_eq!(chain.first.account_id, "callback.testnet");
    assert_eq!(chain.first.method_name, "cb");
    assert_eq!(chain.first.amount, 0);
    assert_eq!(chain.first.gas, SINGLE_CALL_GAS);
    match &chain.first.arguments {
        CallArguments::Deliver { price } => assert_eq!(price, "answer"),
        other => panic!("unexpected arguments {:?}", other),
    }
    assert_eq!(chain.callback.account_id, alice());
    assert_eq!(chain.callback.method_name, "fulfillment_post_callback");
    assert_eq!(chain.callback.gas, SINGLE_CALL_GAS);
    match &chain.callback.arguments {
        CallArguments::FulfillmentPostCallback { account, nonce } => {
            assert_eq!(account, &alice());
            assert_eq!(*nonce, 1);
        }
        other => panic!("unexpected arguments {:?}", other),
    }
}

#[test]
fn fulfillment_needs_gas_for_the_consumer() {
    let contract = Oracle::new(link(), alice(), false).unwrap();
    let mut context = get_context(alice());
    assert_eq!(MINIMUM_CONSUMER_GAS_LIMIT, 1_000_000_000u64);
    context.prepaid_gas = 1_000_000_000;
    context.used_gas = 0;
    let refusal = contract
        .fulfill_request(&context, bob(), 1, 6, bob(), "cb".to_string(), 0, "a".to_string())
        .unwrap_err();
    assert_eq!(refusal, OracleError::UpstreamCallFailed);
    context.prepaid_gas = 1_000_000_001;
    assert!(contract
        .fulfill_request(&context, bob(), 1, 6, bob(), "cb".to_string(), 0, "a".to_string())
        .is_ok());
    context.prepaid_gas = 5;
    context.used_gas = 6;
    let refusal = contract
        .fulfill_request(&context, bob(), 1, 6, bob(), "cb".to_string(), 0, "a".to_string())
        .unwrap_err();
    assert_eq!(refusal, OracleError::UpstreamCallFailed);
}

#[test]
fn cleanup_follows_a_callback_that_succeeded() {
    let mut contract = Oracle::new(link(), alice(), false).unwrap();
    submit(&mut contract, bob(), 6, 1);
    submit(&mut contract, bob(), 7, 2);
    let context = get_context(alice());

    let mut outside = get_context(alice());
    outside.predecessor_account_id = bob();
    assert_eq!(
        contract.fulfillment_post_callback(&outside, &transferred(), bob(), 1),
        Err(OracleError::Unauthorized)
    );
    assert_eq!(
        contract.fulfillment_post_callback(&context, &vec![PromiseOutcome::Failed], bob(), 1),
        Err(OracleError::UpstreamCallFailed)
    );
    assert!(contract.requests().contains(&bob(), 1));

    assert_eq!(contract.fulfillment_post_callback(&context, &transferred(), bob(), 1), Ok(()));
    assert!(!contract.requests().contains(&bob(), 1));
    let page = contract.get_requests(bob(), 10).unwrap();
    assert_eq!(page.len(), 1);
    assert_eq!(page[0].nonce, 2);
    assert_eq!(contract.get_withdrawable_tokens(), 13);

    // nothing to clean up: nothing changes
    assert_eq!(contract.fulfillment_post_callback(&context, &transferred(), bob(), 1), Ok(()));
    assert_eq!(contract.get_requests(bob(), 10).unwrap().len(), 1);
}

#[test]
fn authorizations_are_managed_by_the_owner() {
    let mut contract = Oracle::new(link(), alice(), false).unwrap();
    let stranger = get_context(bob());
    assert_eq!(contract.add_authorization(&stranger, bob()), Err(OracleError::Unauthorized));
    assert_eq!(contract.remove_authorization(&stranger, bob()), Err(OracleError::Unauthorized));
    assert_eq!(contract.reset(&stranger), Err(OracleError::Unauthorized));
    assert_eq!(
        contract.withdraw(&stranger, bob(), 0).unwrap_err(),
        OracleError::Unauthorized
    );
    assert!(contract.get_all_authorizations().is_empty());

    let owner = get_context(alice());
    for malformed in ["", "a", "Abc", "-near", "near.", "a..near", "hello world", "bob_near@"] {
        assert_eq!(
            contract.add_authorization(&owner, malformed.to_string()),
            Err(OracleError::InvalidIdentity)
        );
    }
    assert!(contract.get_all_authorizations().is_empty());
    contract.add_authorization(&owner, bob()).unwrap();
    contract.add_authorization(&owner, link()).unwrap();
    contract.add_authorization(&owner, bob()).unwrap();
    assert_eq!(contract.get_all_authorizations(), vec![bob(), link()]);
    contract.remove_authorization(&owner, bob()).unwrap();
    assert_eq!(contract.get_all_authorizations(), vec![link()]);
    assert!(!contract.is_authorized(bob()));
    assert!(contract.is_authorized(link()));
    contract.remove_authorization(&owner, bob()).unwrap();
    assert_eq!(contract.get_all_authorizations(), vec![link()]);
}

#[test]
fn withdrawal_moves_funds_before_the_books() {
    let mut contract = Oracle::new(link(), alice(), false).unwrap();
    submit(&mut contract, bob(), 6, 1);
    let owner = get_context(alice());

    assert_eq!(
        contract.withdraw(&owner, "Bob".to_string(), 1).unwrap_err(),
        OracleError::InvalidIdentity
    );
    assert_eq!(
        contract.withdraw(&owner, bob(), 7).unwrap_err(),
        OracleError::InsufficientBalance
    );
    let chain = contract.withdraw(&owner, bob(), 4).unwrap();
    assert_eq!(chain.first.account_id, link());
    assert_eq!(chain.first.method_name, "transfer");
    assert_eq!(chain.first.amount, 0);
    assert_eq!(chain.first.gas, SINGLE_CALL_GAS);
    match &chain.first.arguments {
        CallArguments::Transfer { owner_id, new_owner_id, amount } => {
            assert_eq!(owner_id, &alice());
            assert_eq!(new_owner_id, &bob());
            assert_eq!(*amount, 4);
        }
        other => panic!("unexpected arguments {:?}", other),
    }
    assert_eq!(chain.callback.account_id, alice());
    assert_eq!(chain.callback.method_name, "post_withdraw");
    assert_eq!(chain.callback.gas, 40_000_000_000_000u64);
    match &chain.callback.arguments {
        CallArguments::PostWithdraw { amount } => assert_eq!(*amount, 4),
        other => panic!("unexpected arguments {:?}", other),
    }
    // asking changes nothing
    assert_eq!(contract.get_withdrawable_tokens(), 6);

    let mut outside = get_context(alice());
    outside.predecessor_account_id = bob();
    assert_eq!(contract.post_withdraw(&outside, &transferred(), 4), Err(OracleError::Unauthorized));
    assert_eq!(
        contract.post_withdraw(&owner, &vec![PromiseOutcome::Failed], 4),
        Err(OracleError::UpstreamCallFailed)
    );
    assert_eq!(contract.post_withdraw(&owner, &vec![], 4), Err(OracleError::UpstreamCallFailed));
    assert_eq!(contract.get_withdrawable_tokens(), 6);
    assert_eq!(contract.post_withdraw(&owner, &transferred(), 4), Ok(()));
    assert_eq!(contract.get_withdrawable_tokens(), 2);
    assert_eq!(
        contract.post_withdraw(&owner, &transferred(), 3),
        Err(OracleError::InsufficientBalance)
    );
    assert_eq!(contract.get_withdrawable_tokens(), 2);
    assert_eq!(contract.post_withdraw(&owner, &transferred(), 2), Ok(()));
    assert_eq!(contract.get_withdrawable_tokens(), 0);
}

#[test]
fn books_balance_while_requests_are_live() {
    let mut contract = Oracle::new(link(), alice(), false).unwrap();
    let owner = get_context(alice());
    let mut paid_out: u128 = 0;
    let live = |contract: &Oracle| -> u128 {
        contract
            .get_all_requests(u64::MAX, u64::MAX)
            .iter()
            .map(|page| page.requests.iter().map(|entry| entry.request.payment).sum::<u128>())
            .sum()
    };
    assert_eq!(contract.get_withdrawable_tokens(), live(&contract) - paid_out);
    submit(&mut contract, bob(), 6, 1);
    assert_eq!(contract.get_withdrawable_tokens(), live(&contract) - paid_out);
    submit(&mut contract, alice(), 10, 1);
    submit(&mut contract, bob(), 5, 2);
    assert_eq!(live(&contract), 21);
    assert_eq!(contract.get_withdrawable_tokens(), live(&contract) - paid_out);
    contract.post_withdraw(&owner, &transferred(), 8).unwrap();
    paid_out += 8;
    assert_eq!(contract.get_withdrawable_tokens(), 13);
    assert_eq!(contract.get_withdrawable_tokens(), live(&contract) - paid_out);
    contract.add_authorization(&owner, bob()).unwrap();
    assert_eq!(contract.get_withdrawable_tokens(), live(&contract) - paid_out);
    assert!(contract.post_withdraw(&owner, &transferred(), 14).is_err());
    assert_eq!(contract.get_withdrawable_tokens(), live(&contract) - paid_out);
}

#[test]
fn owner_submits_and_a_node_fulfills() {
    // owner = A, fulfiller registry initially empty
    let a = alice();
    let b = bob();
    let mut contract = Oracle::new(link(), a.clone(), false).unwrap();
    let as_a = get_context(a.clone());
    assert!(contract.get_all_authorizations().is_empty());

    contract
        .request(&as_a, 6, "S".to_string(), a.clone(), "cb".to_string(), 1, 1, "P".to_string())
        .unwrap();
    contract
        .store_request(
            &as_a,
            &transferred(),
            a.clone(),
            6,
            "S".to_string(),
            a.clone(),
            "cb".to_string(),
            1,
            1,
            "P".to_string(),
        )
        .unwrap();
    assert_eq!(contract.get_withdrawable_tokens(), 6);

    let second = contract.request(
        &as_a,
        6,
        "S".to_string(),
        a.clone(),
        "cb".to_string(),
        1,
        1,
        "P".to_string(),
    );
    assert_eq!(second.unwrap_err(), OracleError::DuplicateRequest);
    assert_eq!(contract.get_withdrawable_tokens(), 6);

    assert_eq!(contract.add_authorization(&as_a, b.clone()), Ok(()));

    let as_b = get_context(b.clone());
    let chain = contract
        .fulfill_request(&as_b, a.clone(), 1, 6, a.clone(), "cb".to_string(), 0, "P".to_string())
        .unwrap();
    match chain.callback.arguments {
        CallArguments::FulfillmentPostCallback { account, nonce } => {
            // the callback succeeded; the broker calls itself
            assert_eq!(
                contract.fulfillment_post_callback(&as_b, &transferred(), account, nonce),
                Ok(())
            );
        }
        other => panic!("unexpected arguments {:?}", other),
    }

    let page = contract.get_requests(a.clone(), 1);
    assert!(page.is_ok());
    assert!(page.unwrap().is_empty());
    assert_eq!(
        contract.get_requests("carol_near".to_string(), 1).unwrap_err(),
        OracleError::NoRequestsForAccount
    );
}

#[test]
fn reset_forgets_the_requests_and_keeps_the_rest() {
    let mut contract = Oracle::new(link(), alice(), false).unwrap();
    let owner = get_context(alice());
    submit(&mut contract, bob(), 6, 1);
    contract.add_authorization(&owner, bob()).unwrap();
    assert_eq!(contract.reset(&owner), Ok(()));
    assert_eq!(contract.requests().len(), 0);
    assert!(contract.get_requests_summary(10).is_empty());
    assert_eq!(contract.get_requests(bob(), 1).unwrap_err(), OracleError::NoRequestsForAccount);
    assert_eq!(contract.get_withdrawable_tokens(), 6);
    assert_eq!(contract.get_all_authorizations(), vec![bob()]);
    assert_eq!(contract.owner(), &alice());
    assert_eq!(contract.link_account(), &link());
}

#[test]
fn panic_hands_the_message_to_the_broker_alone() {
    let contract = Oracle::new(link(), alice(), false).unwrap();
    let inside = get_context(bob());
    assert_eq!(contract.panic(&inside, "refunded".to_string()), Ok("refunded".to_string()));
    let mut outside = get_context(alice());
    outside.predecessor_account_id = bob();
    assert_eq!(contract.panic(&outside, "refunded".to_string()), Err(OracleError::Unauthorized));
}

#[test]
fn setup_checks_the_accounts_first() {
    assert_eq!(
        Oracle::new(link(), "Alice".to_string(), false).unwrap_err(),
        OracleError::InvalidIdentity
    );
    assert_eq!(
        Oracle::new("l".to_string(), alice(), false).unwrap_err(),
        OracleError::InvalidIdentity
    );
    assert_eq!(
        Oracle::new("l".to_string(), alice(), true).unwrap_err(),
        OracleError::InvalidIdentity
    );
    assert_eq!(Oracle::new(link(), alice(), true).unwrap_err(), OracleError::AlreadyInitialized);
    let contract = Oracle::new(link(), alice(), false).unwrap();
    assert_eq!(contract.owner(), &alice());
    assert_eq!(contract.link_account(), &link());
    assert_eq!(contract.get_withdrawable_tokens(), 0);
    assert_eq!(contract.requests().len(), 0);
    assert!(contract.get_all_authorizations().is_empty());
}

#[test]
fn errors_have_their_messages() {
    assert_eq!(OracleError::NotInitialized.message(), "Oracle should be initialized before usage");
    assert_eq!(OracleError::AlreadyInitialized.message(), "Already initialized");
    assert_eq!(OracleError::DuplicateRequest.message(), "Existing account and nonce in requests");
    assert_eq!(
        OracleError::InsufficientBalance.message(),
        "Amount requested is greater than withdrawable balance."
    );
    assert_eq!(OracleError::InvalidIdentity.message(), "Account ID is invalid.");
    assert_eq!(OracleError::NoRequestsForAccount.message(), "Account has no requests.");
    assert_eq!(
        OracleError::UpstreamCallFailed.message(),
        "The promise failed. See receipt failures."
    );
    assert_eq!(OracleError::PaymentTransferFailed.message(), "The payment was not transferred.");
    assert_eq!(
        OracleError::Unauthorized.message(),
        "Only the account entitled to it can call this method."
    );
}

#[test]
fn stored_state_comes_back_as_it_was() {
    let mut requests = oracle::ledger::Ledger::new();
    requests.open_account(bob());
    let record = oracle::request::OracleRequest {
        caller_account: alice(),
        request_spec: "spec".to_string(),
        callback_address: "callback.testnet".to_string(),
        callback_method: "cb".to_string(),
        data: "data".to_string(),
        payment: 4,
        expiration: 9,
    };
    requests.insert(alice(), 3, record);
    let mut nodes = oracle::registry::AuthorizedNodes::new();
    nodes.insert(bob());
    let contract = Oracle::from_parts(alice(), link(), 4, requests, nodes);
    assert_eq!(contract.owner(), &alice());
    assert_eq!(contract.link_account(), &link());
    assert_eq!(contract.get_withdrawable_tokens(), 4);
    assert_eq!(contract.get_all_authorizations(), vec![bob()]);
    assert!(contract.authorized_nodes().contains(&bob()));
    assert_eq!(
        summary_to_json(contract.get_requests_summary(5).as_slice()),
        "[{\"account\":\"alice_near\",\"total_requests\":1},{\"account\":\"bob_near\",\"total_requests\":0}]"
    );
    assert_eq!(contract.requests().get(&alice(), 3).unwrap().expiration, 9);
}
