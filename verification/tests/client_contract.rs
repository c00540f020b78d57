use base64::encode;
use oracle::chain::{CallArguments, CallContext};
use oracle::client::ClientContract;
use oracle::price::{decode_price, read_price, PriceError};

fn alice_client() -> String {
    "alice_near".to_string()
}

fn oracle_account() -> String {
    "oracle.testnet".to_string()
}

fn client_context(signer_account_id: String) -> CallContext {
    CallContext {
        current_account_id: alice_client(),
        signer_account_id,
        predecessor_account_id: alice_client(),
        block_timestamp: 0,
        prepaid_gas: 10u64.pow(18),
        used_gas: 0,
    }
}

#[test]
fn test_token_price() {
    let context = client_context(alice_client());
    let mut contract = ClientContract::new(oracle_account());
    let mut returned_nonce = contract.get_token_price(&context, "eyJnZXQiOiJodHRwczovL21pbi1hcGkuY3J5cHRvY29tcGFyZS5jb20vZGF0YS9wcmljZT9mc3ltPUVUSCZ0c3ltcz1VU0QiLCJwYXRoIjoiVVNEIiwidGltZXMiOjEwMH0".to_string(), "dW5pcXVlIHNwZWMgaWQ=".to_string()).unwrap().nonce;
    assert_eq!(1, returned_nonce);
    returned_nonce = contract.get_token_price(&context, "eyJnZXQiOiJodHRwczovL21pbi1hcGkuY3J5cHRvY29tcGFyZS5jb20vZGF0YS9wcmljZT9mc3ltPUVUSCZ0c3ltcz1VU0QiLCJwYXRoIjoiVVNEIiwidGltZXMiOjEwMH0".to_string(), "dW5pcXVlIHNwZWMgaWQ=".to_string()).unwrap().nonce;
    assert_eq!(2, returned_nonce);
}

#[test]
fn token_price_is_asked_of_the_oracle() {
    let context = client_context(alice_client());
    let mut contract = ClientContract::new(oracle_account());
    let request =
        contract.get_token_price(&context, "QkFU".to_string(), "c3BlYw==".to_string()).unwrap();
    assert_eq!(request.nonce, 1);
    assert_eq!(request.call.account_id, oracle_account());
    assert_eq!(request.call.method_name, "request");
    assert_eq!(request.call.amount, 0);
    assert_eq!(request.call.gas, 200_000_000_000_000u64);
    match request.call.arguments {
        CallArguments::Request {
            payment,
            spec_id,
            callback_address,
            callback_method,
            nonce,
            data_version,
            data,
        } => {
            assert_eq!(payment, 10);
            assert_eq!(spec_id, "c3BlYw==");
            assert_eq!(callback_address, alice_client());
            assert_eq!(callback_method, "token_price_callback");
            assert_eq!(nonce, 1);
            assert_eq!(data_version, 1);
            assert_eq!(data, "QkFU");
        }
        other => panic!("unexpected arguments {:?}", other),
    }
}

#[test]
fn answers_are_kept_by_nonce() {
    let mut contract = ClientContract::new(oracle_account());
    assert_eq!(contract.get_received_val(1), "-1");
    assert_eq!(contract.token_price_callback(2, encode("11.5")), Ok(()));
    assert_eq!(contract.token_price_callback(1, encode("7")), Ok(()));
    assert_eq!(contract.token_price_callback(3, encode("0.25")), Ok(()));
    assert_eq!(contract.get_received_val(1), "7");
    assert_eq!(contract.get_received_val(2), "11.5");
    assert_eq!(contract.get_received_val(3), "0.25");
    assert_eq!(contract.get_received_val(4), "-1");
    // a later answer for the same nonce takes the place of the earlier one
    assert_eq!(contract.token_price_callback(2, encode("12")), Ok(()));
    assert_eq!(contract.get_received_val(2), "12");

    let all: Vec<(u128, String)> =
        contract.get_received_vals(10).into_iter().map(|kept| (kept.nonce, kept.value)).collect();
    assert_eq!(
        all,
        vec![(1, "7".to_string()), (2, "12".to_string()), (3, "0.25".to_string())]
    );
    let two: Vec<u128> = contract.get_received_vals(2).iter().map(|kept| kept.nonce).collect();
    assert_eq!(two, vec![1, 2]);
    assert!(contract.get_received_vals(0).is_empty());
    assert_eq!(contract.get_received_vals(u128::MAX).len(), 3);
}

#[test]
fn unreadable_answers_are_refused() {
    let mut contract = ClientContract::new(oracle_account());
    assert_eq!(
        contract.token_price_callback(1, "not base64!".to_string()),
        Err(PriceError::InvalidBase64)
    );
    assert_eq!(contract.token_price_callback(1, "QkF".to_string()), Err(PriceError::InvalidBase64));
    assert_eq!(
        contract.token_price_callback(1, encode([0xffu8, 0xfe])),
        Err(PriceError::InvalidUtf8)
    );
    assert_eq!(contract.get_received_val(1), "-1");
    assert!(contract.get_received_vals(5).is_empty());
}

#[test]
fn callback_of_the_plain_client_reads_the_price() {
    let mut contract = oracle::oracle_client::ClientContract::default();
    assert_eq!(contract.token_price_callback("QkFU".to_string()), Ok("BAT".to_string()));
    assert_eq!(contract.token_price_callback(encode("19.99")), Ok("19.99".to_string()));
    assert_eq!(contract.token_price_callback("".to_string()), Ok("".to_string()));
    assert_eq!(contract.token_price_callback("Q".to_string()), Err(PriceError::InvalidBase64));
    assert_eq!(contract.token_price_callback("/w==".to_string()), Err(PriceError::InvalidUtf8));
}

#[test]
fn prices_are_base64_of_utf8() {
    assert_eq!(decode_price(&"dW5pcXVlIHNwZWMgaWQ=".to_string()), Ok("unique spec id".to_string()));
    assert_eq!(decode_price(&encode("prix: 3 €")), Ok("prix: 3 €".to_string()));
    assert_eq!(decode_price(&"QkFU".to_string()), Ok("BAT".to_string()));
    // the text itself is not handed back
    assert!(decode_price(&"QkFU".to_string()) != Ok("QkFU".to_string()));
    assert_eq!(decode_price(&"QkFU\n".to_string()), Err(PriceError::InvalidBase64));
    assert_eq!(decode_price(&"QkF=".to_string()), Err(PriceError::InvalidBase64));
    assert_eq!(decode_price(&"gA==".to_string()), Err(PriceError::InvalidUtf8));
}

#[test]
fn decoded_bytes_are_read_as_text() {
    assert_eq!(read_price(None), Err(PriceError::InvalidBase64));
    assert_eq!(read_price(Some(vec![])), Ok("".to_string()));
    assert_eq!(read_price(Some(vec![0x42, 0x41, 0x54])), Ok("BAT".to_string()));
    assert_eq!(read_price(Some(vec![0xe2, 0x82, 0xac])), Ok("€".to_string()));
    assert_eq!(read_price(Some(vec![0xe2, 0x82])), Err(PriceError::InvalidUtf8));
    assert_eq!(read_price(Some(vec![0xc0, 0x80])), Err(PriceError::InvalidUtf8));
    assert_eq!(read_price(Some(vec![0xed, 0xa0, 0x80])), Err(PriceError::InvalidUtf8));
}

#[test]
fn stored_requester_comes_back_as_it_was() {
    let mut received = oracle::client::ReceivedValues::new();
    received.insert(4, "four".to_string());
    received.insert(2, "two".to_string());
    assert_eq!(received.get(2), Some("two".to_string()));
    assert_eq!(received.get(3), None);
    let mut contract = ClientContract::from_parts(oracle_account(), 7, received);
    assert_eq!(contract.oracle_account(), &oracle_account());
    assert_eq!(contract.nonce(), 7);
    assert_eq!(contract.get_received_val(4), "four");
    let context = client_context(alice_client());
    let request = contract
        .get_token_price(&context, "QkFU".to_string(), "c3BlYw==".to_string())
        .unwrap();
    assert_eq!(request.nonce, 8);
    assert_eq!(contract.nonce(), 8);

    let mut exhausted =
        ClientContract::from_parts(oracle_account(), u128::MAX, oracle::client::ReceivedValues::new());
    assert!(exhausted
        .get_token_price(&context, "QkFU".to_string(), "c3BlYw==".to_string())
        .is_none());
    assert_eq!(exhausted.nonce(), u128::MAX);
}
