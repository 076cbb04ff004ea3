use cli_utils::error::CliError;
use cli_utils::ledger::{
    api_outcome, chain_id, fund_account, get_account, get_account_with_state, get_auth_key,
    get_sequence_number, profile_or_submit, wait_for_transactions, Account, Funding, FundingEvent,
    TransactionAction, WaitLimits, Waiting, FAUCET_OK, FAUCET_REQUEST_BODY,
    MAX_SERVER_LAG_WAIT_SECS, TRANSACTION_DEADLINE_SECS,
};

fn account() -> Account {
    Account { authentication_key: vec![7, 8], sequence_number: 42 }
}

fn is_api_error<T>(res: Result<T, CliError>, expected: &str) -> bool {
    matches!(res, Err(CliError::ApiError(message)) if message == expected)
}

fn posted() -> Funding<Vec<u8>> {
    fund_account("http://faucet/", 100, "0x1")
}

#[test]
fn accounts() {
    assert_eq!(get_account(Ok(account())).unwrap().sequence_number, 42);
    assert_eq!(get_account_with_state(Ok((account(), 5u8))).unwrap().1, 5);
    assert_eq!(get_sequence_number(Ok(account())).unwrap(), 42);
    assert_eq!(get_auth_key(Ok(account())).unwrap(), vec![7, 8]);
    assert_eq!(chain_id(Ok(4)).unwrap(), 4);
    assert_eq!(api_outcome(Ok(5u8)).unwrap(), 5);
}

#[test]
fn requests_that_fail() {
    let err = || "no such account".to_string();
    assert!(is_api_error(get_account(Err(err())), "no such account"));
    assert!(is_api_error(get_account_with_state::<u8>(Err(err())), "no such account"));
    assert!(is_api_error(get_sequence_number(Err(err())), "no such account"));
    assert!(is_api_error(get_auth_key(Err(err())), "no such account"));
    assert!(is_api_error(chain_id(Err(err())), "no such account"));
}

#[test]
fn faucet_request() {
    assert!(
        matches!(posted(), Funding::Post { url, body } if url == "http://faucet/mint?amount=100&auth_key=0x1" && body == "{}")
    );
    let most: Funding<u8> = fund_account("f/", u64::MAX, "a");
    assert!(
        matches!(most, Funding::Post { url, .. } if url == "f/mint?amount=18446744073709551615&auth_key=a")
    );
    assert_eq!(FAUCET_REQUEST_BODY, "{}");
}

#[test]
fn faucet_that_funds() {
    let state = posted().step(FundingEvent::Replied(Ok(FAUCET_OK)));
    assert!(matches!(state, Funding::ReadBody));
    let state = state.step(FundingEvent::BodyRead(Ok(vec![1, 2])));
    assert!(matches!(state, Funding::Done(Ok(hashes)) if hashes == vec![1, 2]));
}

#[test]
fn faucet_with_another_status() {
    for (status, text) in [
        (404, "Faucet issue: 404 Not Found"),
        (201, "Faucet issue: 201 Created"),
        (500, "Faucet issue: 500 Internal Server Error"),
        (799, "Faucet issue: 799 <unknown status code>"),
    ] {
        match posted().step(FundingEvent::Replied(Ok(status))) {
            Funding::Done(res) => assert!(is_api_error(res, text)),
            _ => panic!("{}", status),
        }
    }
}

#[test]
fn faucet_that_does_not_reply() {
    match posted().step(FundingEvent::Replied(Err("timed out".to_string()))) {
        Funding::Done(res) => {
            assert!(is_api_error(res, "Failed to fund account with faucet: timed out"))
        }
        _ => panic!(),
    }
}

#[test]
fn faucet_with_another_body() {
    let state = posted()
        .step(FundingEvent::Replied(Ok(200)))
        .step(FundingEvent::BodyRead(Err("not hashes".to_string())));
    assert!(
        matches!(state, Funding::Done(Err(CliError::UnexpectedError(message))) if message == "not hashes")
    );
}

#[test]
fn transactions_are_waited_for_in_turn() {
    let mut state = wait_for_transactions(Ok(1000), 3);
    let mut waited = Vec::new();
    while let Waiting::WaitFor { index, count, limits } = state {
        waited.push((index, count, limits));
        state = state.step(Ok(()));
    }
    let limits = WaitLimits {
        deadline: 1030,
        max_server_lag_wait_secs: Some(60),
        timeout_from_call_secs: None,
    };
    assert_eq!(waited, vec![(0, 3, limits), (1, 3, limits), (2, 3, limits)]);
    assert!(matches!(state, Waiting::Done(Ok(()))));
}

#[test]
fn no_transactions() {
    assert!(matches!(wait_for_transactions(Ok(0), 0), Waiting::Done(Ok(()))));
}

#[test]
fn first_failure_is_returned() {
    let state = wait_for_transactions(Ok(1000), 3)
        .step(Ok(()))
        .step(Err(CliError::ApiError("failed".to_string())))
        .step(Err(CliError::AbortedError))
        .step(Ok(()));
    match state {
        Waiting::Done(res) => assert!(is_api_error(res, "failed")),
        _ => panic!(),
    }
}

#[test]
fn time_that_is_not_known() {
    let state = wait_for_transactions(Err("clock".to_string()), 3);
    assert!(
        matches!(state, Waiting::Done(Err(CliError::UnexpectedError(message))) if message == "clock")
    );
    assert_eq!((TRANSACTION_DEADLINE_SECS, MAX_SERVER_LAG_WAIT_SECS), (30, 60));
}

#[test]
fn gas_profile_or_submission() {
    assert_eq!(profile_or_submit(true), TransactionAction::ProfileGas);
    assert_eq!(profile_or_submit(false), TransactionAction::Submit);
}
