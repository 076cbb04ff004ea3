//! What commands ask of a node and of a faucet.
use vstd::prelude::*;
use vstd::string::StringExecFns;

use crate::error::{CliError, CliErrorView, CliTypedResult};
use crate::text::{decimal_text, followed_by};

verus! {

/// How many seconds a transaction is waited for at most, from the time at which
/// the waiting begins.
pub const TRANSACTION_DEADLINE_SECS: u64 = 30;

/// How many seconds a node is waited for that lags behind the ledger.
pub const MAX_SERVER_LAG_WAIT_SECS: u64 = 60;

/// The status of a faucet's reply that funded the account.
pub const FAUCET_OK: u16 = 200;

/// The body of the request to a faucet.
pub const FAUCET_REQUEST_BODY: &'static str = "{}";

/// An account as the node knows it.
#[derive(Debug)]
pub struct Account {
    pub authentication_key: Vec<u8>,
    pub sequence_number: u64,
}

/// What comes of a request to the node: an error is an API error.
pub fn api_outcome<T>(reply: Result<T, String>) -> (res: CliTypedResult<T>)
    ensures
        match reply {
            Ok(value) => res == Ok::<T, CliError>(value),
            Err(err) => res matches Err(error) && error@ == CliErrorView::ApiError(err@),
        },
{
    match reply {
        Ok(value) => Ok(value),
        Err(err) => Err(CliError::ApiError(err)),
    }
}

/// Retrieves account resource from the rest client: `reply` is the account, or the
/// text of the client's error
pub fn get_account(reply: Result<Account, String>) -> (res: CliTypedResult<Account>)
    ensures
        match reply {
            Ok(account) => res == Ok::<Account, CliError>(account),
            Err(err) => res matches Err(error) && error@ == CliErrorView::ApiError(err@),
        },
{
    api_outcome(reply)
}

/// Retrieves account resource from the rest client's reply, with the state of the
/// ledger at which it was read
pub fn get_account_with_state<S>(reply: Result<(Account, S), String>) -> (res: CliTypedResult<
    (Account, S),
>)
    ensures
        match reply {
            Ok(parts) => res == Ok::<(Account, S), CliError>(parts),
            Err(err) => res matches Err(error) && error@ == CliErrorView::ApiError(err@),
        },
{
    api_outcome(reply)
}

/// Retrieves sequence number from the rest client's reply
pub fn get_sequence_number(reply: Result<Account, String>) -> (res: CliTypedResult<u64>)
    ensures
        match reply {
            Ok(account) => res == Ok::<u64, CliError>(account.sequence_number),
            Err(err) => res matches Err(error) && error@ == CliErrorView::ApiError(err@),
        },
{
    match get_account(reply) {
        Ok(account) => Ok(account.sequence_number),
        Err(error) => Err(error),
    }
}

/// Retrieves the auth key from the rest client's reply
pub fn get_auth_key(reply: Result<Account, String>) -> (res: CliTypedResult<Vec<u8>>)
    ensures
        match reply {
            Ok(account) => res == Ok::<Vec<u8>, CliError>(account.authentication_key),
            Err(err) => res matches Err(error) && error@ == CliErrorView::ApiError(err@),
        },
{
    match get_account(reply) {
        Ok(account) => Ok(account.authentication_key),
        Err(error) => Err(error),
    }
}

/// Retrieves the chain id from the rest client's reply, the ledger information
pub fn chain_id(reply: Result<u8, String>) -> (res: CliTypedResult<u8>)
    ensures
        match reply {
            Ok(id) => res == Ok::<u8, CliError>(id),
            Err(err) => res matches Err(error) && error@ == CliErrorView::ApiError(err@),
        },
{
    api_outcome(reply)
}

/// The reason phrase that the `Display` implementation of `reqwest::StatusCode`
/// prints behind a status code.
pub uninterp spec fn reason_phrase(status: u16) -> Seq<char>;

/// The `Display` implementation of `reqwest::StatusCode`, on the code that
/// `StatusCode::from_u16` makes of a number of three digits: the number, a space
/// and the code's reason phrase, or a phrase for codes without one.
#[verifier::external_body]
fn status_text(status: u16) -> (res: String)
    requires
        100 <= status <= 999,
    ensures
        res@ == crate::text::decimal(status as nat) + " "@ + reason_phrase(status),
{
    reqwest::StatusCode::from_u16(status).unwrap().to_string()
}

/// The URL of the request by which a faucet funds an account.
pub open spec fn fund_url(faucet_url: Seq<char>, num_octas: nat, address: Seq<char>) -> Seq<char> {
    faucet_url + "mint?amount="@ + crate::text::decimal(num_octas) + "&auth_key="@ + address
}

/// Where funding an account stands, and so what is to be done next.
#[derive(Debug)]
pub enum Funding<T> {
    /// A request with this body is to be posted to this URL.
    Post { url: String, body: String },
    /// The hashes of transactions are to be read from the body of the reply.
    ReadBody,
    /// This is the outcome.
    Done(CliTypedResult<T>),
}

/// The state of funding an account.
pub enum FundingView<T> {
    Post { url: Seq<char>, body: Seq<char> },
    ReadBody,
    Done(Result<T, CliErrorView>),
}

impl<T> View for Funding<T> {
    type V = FundingView<T>;

    open spec fn view(&self) -> FundingView<T> {
        match *self {
            Funding::Post { url, body } => FundingView::Post { url: url@, body: body@ },
            Funding::ReadBody => FundingView::ReadBody,
            Funding::Done(Ok(hashes)) => FundingView::Done(Ok(hashes)),
            Funding::Done(Err(error)) => FundingView::Done(Err(error@)),
        }
    }
}

/// What came of doing what the funding of an account asked for.
#[derive(Debug)]
pub enum FundingEvent<T> {
    /// The status of the faucet's reply, or why there is no reply.
    Replied(Result<u16, String>),
    /// The hashes in the body of the reply, or why they cannot be read.
    BodyRead(Result<T, String>),
}

/// An event of funding an account.
pub enum FundingEventView<T> {
    Replied(Result<u16, Seq<char>>),
    BodyRead(Result<T, Seq<char>>),
}

impl<T> View for FundingEvent<T> {
    type V = FundingEventView<T>;

    open spec fn view(&self) -> FundingEventView<T> {
        match *self {
            FundingEvent::Replied(Ok(status)) => FundingEventView::Replied(Ok(status)),
            FundingEvent::Replied(Err(err)) => FundingEventView::Replied(Err(err@)),
            FundingEvent::BodyRead(Ok(hashes)) => FundingEventView::BodyRead(Ok(hashes)),
            FundingEvent::BodyRead(Err(err)) => FundingEventView::BodyRead(Err(err@)),
        }
    }
}

impl<T> FundingEventView<T> {
    /// Whether the status of a reply is a number of three digits.
    pub open spec fn well_formed(self) -> bool {
        self matches FundingEventView::Replied(Ok(status)) ==> 100 <= status <= 999
    }
}

/// Where funding an account stands after an event. An event that it did not ask
/// for changes nothing.
pub open spec fn funded<T>(state: FundingView<T>, event: FundingEventView<T>) -> FundingView<T> {
    match (state, event) {
        (FundingView::Post { .. }, FundingEventView::Replied(reply)) => match reply {
            Ok(status) => if status == FAUCET_OK {
                FundingView::ReadBody
            } else {
                FundingView::Done(
                    Err(
                        CliErrorView::ApiError(
                            "Faucet issue: "@ + crate::text::decimal(status as nat) + " "@
                                + reason_phrase(status),
                        ),
                    ),
                )
            },
            Err(err) => FundingView::Done(
                Err(CliErrorView::ApiError("Failed to fund account with faucet: "@ + err)),
            ),
        },
        (FundingView::ReadBody, FundingEventView::BodyRead(body)) => match body {
            Ok(hashes) => FundingView::Done(Ok(hashes)),
            Err(err) => FundingView::Done(Err(CliErrorView::UnexpectedError(err))),
        },
        _ => state,
    }
}

/// Fund account (and possibly create it) from a faucet: the request to begin with
pub fn fund_account<T>(faucet_url: &str, num_octas: u64, address: &str) -> (res: Funding<T>)
    ensures
        res@ == (FundingView::<T>::Post {
            url: fund_url(faucet_url@, num_octas as nat, address@),
            body: "{}"@,
        }),
        res matches Funding::Post { url, body } && body@ == "{}"@ && url@ == faucet_url@
            + "mint?amount="@ + crate::text::decimal(num_octas as nat) + "&auth_key="@ + address@,
{
    let mut url = followed_by(faucet_url, "mint?amount=");
    let amount = decimal_text(num_octas);
    url.append(amount.as_str());
    url.append("&auth_key=");
    url.append(address);
    Funding::Post { url, body: FAUCET_REQUEST_BODY.to_owned() }
}

impl<T> Funding<T> {
    /// Takes what came of doing what was asked for.
    pub fn step(self, event: FundingEvent<T>) -> (res: Funding<T>)
        requires
            event@.well_formed(),
        ensures
            res@ == funded(self@, event@),
            self is Done ==> res == self,
            self is Post && event == FundingEvent::<T>::Replied(Ok(200u16)) ==> res
                == Funding::<T>::ReadBody,
            self is ReadBody ==> (event matches FundingEvent::BodyRead(Ok(hashes)) ==> res
                == Funding::Done(Ok(hashes))),
    {
        match self {
            Funding::Post { url, body } => match event {
                FundingEvent::Replied(Ok(status)) => if status == FAUCET_OK {
                    Funding::ReadBody
                } else {
                    let text = status_text(status);
                    let message = followed_by("Faucet issue: ", text.as_str());
                    proof {
                        let number = crate::text::decimal(status as nat);
                        assert(message@ =~= "Faucet issue: "@ + number + " "@ + reason_phrase(
                            status,
                        ));
                    }
                    Funding::Done(Err(CliError::ApiError(message)))
                },
                FundingEvent::Replied(Err(err)) => {
                    let message = followed_by("Failed to fund account with faucet: ", err.as_str());
                    Funding::Done(Err(CliError::ApiError(message)))
                },
                _ => Funding::Post { url, body },
            },
            Funding::ReadBody => match event {
                FundingEvent::BodyRead(Ok(hashes)) => Funding::Done(Ok(hashes)),
                FundingEvent::BodyRead(Err(err)) => Funding::Done(
                    Err(CliError::UnexpectedError(err)),
                ),
                _ => Funding::ReadBody,
            },
            Funding::Done(outcome) => Funding::Done(outcome),
        }
    }
}

/// An account is funded exactly where the faucet replies with the one status
/// that says so and the hashes can be read from the body.
pub proof fn law_funded<T>(
    url: Seq<char>,
    body: Seq<char>,
    reply: Result<u16, Seq<char>>,
    reply_body: Result<T, Seq<char>>,
    hashes: T,
)
    ensures
        funded(
            funded(FundingView::Post { url, body }, FundingEventView::Replied(reply)),
            FundingEventView::BodyRead(reply_body),
        ) == FundingView::Done(Ok::<T, CliErrorView>(hashes)) <==> reply == Ok::<u16, Seq<char>>(
            FAUCET_OK,
        ) && reply_body == Ok::<T, Seq<char>>(hashes),
{
}

/// How long a transaction is waited for.
#[derive(Debug, Clone, Copy, PartialEq, Eq)]
pub struct WaitLimits {
    /// The time, in seconds since the Unix epoch, at which it expires.
    pub deadline: u64,
    /// For how many seconds a node is waited for that lags behind the ledger.
    pub max_server_lag_wait_secs: Option<u64>,
    /// For how many seconds it is waited for in all, if that is limited.
    pub timeout_from_call_secs: Option<u64>,
}

/// The limits of a wait.
pub struct WaitLimitsView {
    pub deadline: int,
    pub max_server_lag_wait_secs: Option<u64>,
    pub timeout_from_call_secs: Option<u64>,
}

impl View for WaitLimits {
    type V = WaitLimitsView;

    open spec fn view(&self) -> WaitLimitsView {
        WaitLimitsView {
            deadline: self.deadline as int,
            max_server_lag_wait_secs: self.max_server_lag_wait_secs,
            timeout_from_call_secs: self.timeout_from_call_secs,
        }
    }
}

/// The limits of a wait that begins at this time.
pub open spec fn limits_from(now: int) -> WaitLimitsView {
    WaitLimitsView {
        deadline: now + TRANSACTION_DEADLINE_SECS,
        max_server_lag_wait_secs: Some(MAX_SERVER_LAG_WAIT_SECS),
        timeout_from_call_secs: None,
    }
}

/// Where the wait for some transactions stands.
#[derive(Debug)]
pub enum Waiting {
    /// The transaction at `index` is to be waited for, within these limits.
    WaitFor { index: usize, count: usize, limits: WaitLimits },
    /// This is the outcome.
    Done(CliTypedResult<()>),
}

/// The state of a wait.
pub enum WaitingView {
    WaitFor { index: int, count: int, limits: WaitLimitsView },
    Done(Result<(), CliErrorView>),
}

impl View for Waiting {
    type V = WaitingView;

    open spec fn view(&self) -> WaitingView {
        match *self {
            Waiting::WaitFor { index, count, limits } => WaitingView::WaitFor {
                index: index as int,
                count: count as int,
                limits: limits@,
            },
            Waiting::Done(Ok(())) => WaitingView::Done(Ok(())),
            Waiting::Done(Err(error)) => WaitingView::Done(Err(error@)),
        }
    }
}

impl WaitingView {
    /// Whether the transaction that is waited for is one of them.
    pub open spec fn well_formed(self) -> bool {
        match self {
            WaitingView::WaitFor { index, count, limits: _ } => 0 <= index < count,
            WaitingView::Done(_) => true,
        }
    }
}

/// The wait for the transaction at `index` of `count`.
pub open spec fn waiting_at(index: int, count: int, limits: WaitLimitsView) -> WaitingView {
    if index < count {
        WaitingView::WaitFor { index, count, limits }
    } else {
        WaitingView::Done(Ok(()))
    }
}

/// Where a wait stands after what came of waiting for one transaction.
pub open spec fn waited(state: WaitingView, outcome: Result<(), CliErrorView>) -> WaitingView {
    match state {
        WaitingView::WaitFor { index, count, limits } => match outcome {
            Ok(()) => waiting_at(index + 1, count, limits),
            Err(error) => WaitingView::Done(Err(error)),
        },
        WaitingView::Done(_) => state,
    }
}

/// The contents of what came of waiting for one transaction.
pub open spec fn wait_outcome(outcome: CliTypedResult<()>) -> Result<(), CliErrorView> {
    match outcome {
        Ok(()) => Ok(()),
        Err(error) => Err(error@),
    }
}

/// Wait for transactions, returning an error if any of them fail: the one to begin
/// with.
///
/// `now` is the number of seconds since the Unix epoch, or why it is not known.
pub fn wait_for_transactions(now: Result<u64, String>, count: usize) -> (res: Waiting)
    requires
        now matches Ok(now) ==> now + TRANSACTION_DEADLINE_SECS <= u64::MAX,
    ensures
        match now {
            Ok(now) => res@ == waiting_at(0, count as int, limits_from(now as int)),
            Err(err) => res@ == WaitingView::Done(Err(CliErrorView::UnexpectedError(err@))),
        },
        res@.well_formed(),
        match now {
            Ok(now) => if count == 0 {
                res == Waiting::Done(Ok(()))
            } else {
                &&& res matches Waiting::WaitFor { index: 0, count: all, limits }
                &&& all == count
                &&& limits.deadline - now == 30
                &&& limits.max_server_lag_wait_secs == Some(60u64)
                &&& limits.timeout_from_call_secs is None
            },
            Err(err) => res matches Waiting::Done(Err(CliError::UnexpectedError(message)))
                && message@ == err@,
        },
{
    match now {
        Ok(now) => {
            let limits = WaitLimits {
                deadline: now + TRANSACTION_DEADLINE_SECS,
                max_server_lag_wait_secs: Some(MAX_SERVER_LAG_WAIT_SECS),
                timeout_from_call_secs: None,
            };
            if count == 0 {
                Waiting::Done(Ok(()))
            } else {
                Waiting::WaitFor { index: 0, count, limits }
            }
        },
        Err(err) => Waiting::Done(Err(CliError::UnexpectedError(err))),
    }
}

impl Waiting {
    /// Takes what came of waiting for the transaction that was asked for.
    pub fn step(self, outcome: CliTypedResult<()>) -> (res: Waiting)
        requires
            self@.well_formed(),
        ensures
            res@ == waited(self@, wait_outcome(outcome)),
            res@.well_formed(),
            match self {
                Waiting::WaitFor { index, count, limits } => match outcome {
                    Ok(()) => if index + 1 < count {
                        res == (Waiting::WaitFor { index: (index + 1) as usize, count, limits })
                    } else {
                        res == Waiting::Done(Ok(()))
                    },
                    Err(error) => res == Waiting::Done(Err(error)),
                },
                Waiting::Done(_) => res == self,
            },
    {
        match self {
            Waiting::WaitFor { index, count, limits } => match outcome {
                Ok(()) => {
                    let next: usize = index + 1;
                    if next < count {
                        Waiting::WaitFor { index: next, count, limits }
                    } else {
                        Waiting::Done(Ok(()))
                    }
                },
                Err(error) => Waiting::Done(Err(error)),
            },
            Waiting::Done(done) => Waiting::Done(done),
        }
    }
}

/// Where a wait stands after these outcomes, in order.
pub open spec fn run_waits(
    state: WaitingView,
    outcomes: Seq<Result<(), CliErrorView>>,
) -> WaitingView
    decreases outcomes.len(),
{
    if outcomes.len() == 0 {
        state
    } else {
        run_waits(waited(state, outcomes[0]), outcomes.drop_first())
    }
}

proof fn lemma_done_stays(
    done: Result<(), CliErrorView>,
    outcomes: Seq<Result<(), CliErrorView>>,
)
    ensures
        run_waits(WaitingView::Done(done), outcomes) == WaitingView::Done(done),
    decreases outcomes.len(),
{
    if outcomes.len() > 0 {
        lemma_done_stays(done, outcomes.drop_first());
    }
}

/// As long as no wait fails, the transactions are waited for one after the
/// other, each within the same limits, and after the last one all is well.
pub proof fn law_each_is_waited_for(
    index: int,
    count: int,
    limits: WaitLimitsView,
    outcomes: Seq<Result<(), CliErrorView>>,
)
    requires
        0 <= index <= count,
        index + outcomes.len() <= count,
        forall|i: int| 0 <= i < outcomes.len() ==> #[trigger] outcomes[i] is Ok,
    ensures
        run_waits(waiting_at(index, count, limits), outcomes) == waiting_at(
            index + outcomes.len(),
            count,
            limits,
        ),
    decreases outcomes.len(),
{
    if outcomes.len() > 0 {
        let rest = outcomes.drop_first();
        assert(outcomes[0] is Ok);
        assert forall|i: int| 0 <= i < rest.len() implies #[trigger] rest[i] is Ok by {
            assert(rest[i] == outcomes[i + 1]);
        }
        law_each_is_waited_for(index + 1, count, limits, rest);
    }
}

/// The first wait that fails ends it all with its error, whatever would have
/// come later.
pub proof fn law_first_failure_is_returned(
    index: int,
    count: int,
    limits: WaitLimitsView,
    outcomes: Seq<Result<(), CliErrorView>>,
    failed: int,
)
    requires
        0 <= index,
        index + outcomes.len() <= count,
        0 <= failed < outcomes.len(),
        outcomes[failed] is Err,
        forall|i: int| 0 <= i < failed ==> #[trigger] outcomes[i] is Ok,
    ensures
        run_waits(waiting_at(index, count, limits), outcomes) == WaitingView::Done(
            outcomes[failed],
        ),
    decreases outcomes.len(),
{
    let rest = outcomes.drop_first();
    if failed == 0 {
        lemma_done_stays(outcomes[0], rest);
    } else {
        assert(outcomes[0] is Ok);
        assert(rest[failed - 1] == outcomes[failed]);
        assert forall|i: int| 0 <= i < failed - 1 implies #[trigger] rest[i] is Ok by {
            assert(rest[i] == outcomes[i + 1]);
        }
        law_first_failure_is_returned(index + 1, count, limits, rest, failed - 1);
    }
}

/// What is done with a transaction.
#[derive(Debug, Clone, Copy, PartialEq, Eq, Structural)]
pub enum TransactionAction {
    /// Its gas is profiled.
    ProfileGas,
    /// It is submitted for execution.
    Submit,
}

/// Either get gas profile or submit for execution, as the transaction options say.
pub fn profile_or_submit(profile_gas: bool) -> (res: TransactionAction)
    ensures
        res == (if profile_gas {
            TransactionAction::ProfileGas
        } else {
            TransactionAction::Submit
        }),
{
    if profile_gas {
        TransactionAction::ProfileGas
    } else {
        TransactionAction::Submit
    }
}

/// The request to a faucet names the amount and the address that were given: the
/// digits between `mint?amount=` and `&auth_key=` read back as the number of octas,
/// and the address follows to the end.
pub proof fn law_request_names_amount_and_address(
    faucet_url: Seq<char>,
    num_octas: nat,
    address: Seq<char>,
)
    ensures
        exists|digits: Seq<char>|
            {
                &&& fund_url(faucet_url, num_octas, address) == faucet_url + "mint?amount="@ + digits
                    + "&auth_key="@ + address
                &&& #[trigger] crate::text::decimal_value(digits) == num_octas
                &&& digits.len() > 0
                &&& forall|i: int| 0 <= i < digits.len() ==> '0' <= #[trigger] digits[i] <= '9'
                &&& digits[0] == '0' ==> digits.len() == 1
            },
{
    crate::text::law_decimal_reads_back(num_octas);
    let digits = crate::text::decimal(num_octas);
    assert(crate::text::decimal_value(digits) == num_octas);
}

/// Requests to one faucet are the same only for the same amount and address.
pub proof fn law_requests_differ(
    faucet_url: Seq<char>,
    num_octas: nat,
    address: Seq<char>,
    other_octas: nat,
    other_address: Seq<char>,
)
    requires
        fund_url(faucet_url, num_octas, address) == fund_url(
            faucet_url,
            other_octas,
            other_address,
        ),
    ensures
        num_octas == other_octas,
        address == other_address,
{
    let url = fund_url(faucet_url, num_octas, address);
    let front = faucet_url + "mint?amount="@;
    let digits = crate::text::decimal(num_octas);
    let other = crate::text::decimal(other_octas);
    reveal_strlit("&auth_key=");
    crate::text::law_decimal_reads_back(num_octas);
    crate::text::law_decimal_reads_back(other_octas);
    let n = front.len() as int;
    assert(url.skip(n) =~= digits + "&auth_key="@ + address);
    assert(url.skip(n) =~= other + "&auth_key="@ + other_address);
    let rest = url.skip(n);
    assert(rest[digits.len() as int] == '&');
    assert(rest[other.len() as int] == '&');
    if digits.len() < other.len() {
        assert(rest[digits.len() as int] == other[digits.len() as int]);
    }
    if other.len() < digits.len() {
        assert(rest[other.len() as int] == digits[other.len() as int]);
    }
    assert(digits =~= rest.take(digits.len() as int));
    assert(other =~= rest.take(digits.len() as int));
    let back = digits.len() + "&auth_key="@.len();
    assert(address =~= rest.skip(back as int));
    assert(other_address =~= rest.skip(back as int));
}

/// A faucet funds an account by the status 200 and by no other; any other status,
/// no reply, and a body without hashes end in an error that tells which it was.
pub proof fn law_faucet_outcomes<T>(
    url: Seq<char>,
    body: Seq<char>,
    status: u16,
    err: Seq<char>,
    hashes: T,
)
    ensures
        funded(FundingView::<T>::Post { url, body }, FundingEventView::Replied(Ok(200u16)))
            == FundingView::<T>::ReadBody,
        status != 200 ==> exists|digits: Seq<char>|
            {
                &&& #[trigger] crate::text::decimal_value(digits) == status
                &&& forall|i: int| 0 <= i < digits.len() ==> '0' <= #[trigger] digits[i] <= '9'
                &&& funded(
                    FundingView::<T>::Post { url, body },
                    FundingEventView::Replied(Ok(status)),
                ) == FundingView::<T>::Done(
                    Err(
                        CliErrorView::ApiError(
                            "Faucet issue: "@ + digits + " "@ + reason_phrase(status),
                        ),
                    ),
                )
            },
        funded(FundingView::<T>::Post { url, body }, FundingEventView::Replied(Err(err)))
            == FundingView::<T>::Done(
            Err(CliErrorView::ApiError("Failed to fund account with faucet: "@ + err)),
        ),
        funded(FundingView::ReadBody, FundingEventView::BodyRead(Ok(hashes))) == FundingView::Done(
            Ok(hashes),
        ),
        funded(FundingView::ReadBody, FundingEventView::BodyRead(Err::<T, _>(err)))
            == FundingView::<T>::Done(Err(CliErrorView::UnexpectedError(err))),
{
    crate::text::law_decimal_reads_back(status as nat);
    let digits = crate::text::decimal(status as nat);
    assert(crate::text::decimal_value(digits) == status);
}

/// An outcome of funding is final, and an event that was not asked for changes
/// nothing.
pub proof fn law_funding_waits_for_its_event<T>(
    url: Seq<char>,
    body: Seq<char>,
    outcome: Result<T, CliErrorView>,
    event: FundingEventView<T>,
)
    ensures
        funded(FundingView::Done(outcome), event) == FundingView::Done(outcome),
        event is BodyRead ==> funded(FundingView::Post { url, body }, event) == (
        FundingView::<T>::Post { url, body }),
        event is Replied ==> funded(FundingView::ReadBody, event) == FundingView::<T>::ReadBody,
{
}

/// Every transaction is waited for in its turn, each until 30 seconds after the
/// time at which the waiting began and a node that lags behind for 60 seconds at
/// most, and after the last one all is well.
pub proof fn law_deadline_of_each_wait(
    now: int,
    count: int,
    outcomes: Seq<Result<(), CliErrorView>>,
)
    requires
        outcomes.len() <= count,
        forall|i: int| 0 <= i < outcomes.len() ==> #[trigger] outcomes[i] is Ok,
    ensures
        outcomes.len() < count ==> (run_waits(waiting_at(0, count, limits_from(now)), outcomes)
            matches WaitingView::WaitFor { index, count: all, limits } && {
            &&& index == outcomes.len()
            &&& all == count
            &&& limits.deadline - now == 30
            &&& limits.deadline > now
            &&& limits.max_server_lag_wait_secs == Some(60u64)
            &&& limits.timeout_from_call_secs is None
        }),
        outcomes.len() == count ==> run_waits(waiting_at(0, count, limits_from(now)), outcomes)
            == WaitingView::Done(Ok(())),
{
    law_each_is_waited_for(0, count, limits_from(now), outcomes);
}

/// The first wait that fails ends the waiting with its error, and the waits before
/// it were those for the transactions before it.
pub proof fn law_failure_ends_the_waiting(
    now: int,
    count: int,
    outcomes: Seq<Result<(), CliErrorView>>,
    failed: int,
)
    requires
        outcomes.len() <= count,
        0 <= failed < outcomes.len(),
        outcomes[failed] is Err,
        forall|i: int| 0 <= i < failed ==> #[trigger] outcomes[i] is Ok,
    ensures
        run_waits(waiting_at(0, count, limits_from(now)), outcomes) == WaitingView::Done(
            outcomes[failed],
        ),
        run_waits(waiting_at(0, count, limits_from(now)), outcomes.take(failed))
            matches WaitingView::WaitFor { index, .. } && index == failed,
{
    law_first_failure_is_returned(0, count, limits_from(now), outcomes, failed);
    let before = outcomes.take(failed);
    assert forall|i: int| 0 <= i < before.len() implies #[trigger] before[i] is Ok by {
        assert(before[i] == outcomes[i]);
    }
    law_deadline_of_each_wait(now, count, before);
}

/// An account is funded by posting `{}` to the faucet, with the amount and the address
/// that were given: the amount reads back from its digits.
pub proof fn law_account_is_funded_with_the_amount<T>(
    faucet_url: &str,
    num_octas: u64,
    address: &str,
    res: Funding<T>,
)
    requires
        call_ensures(fund_account::<T>, (faucet_url, num_octas, address), res),
    ensures
        res matches Funding::Post { url, body } && body@ == "{}"@ && exists|digits: Seq<char>|
            {
                &&& url@ == faucet_url@ + "mint?amount="@ + digits + "&auth_key="@ + address@
                &&& #[trigger] crate::text::decimal_value(digits) == num_octas
                &&& digits.len() > 0
                &&& forall|i: int| 0 <= i < digits.len() ==> '0' <= #[trigger] digits[i] <= '9'
            },
{
    crate::text::law_decimal_reads_back(num_octas as nat);
    let digits = crate::text::decimal(num_octas as nat);
    assert(crate::text::decimal_value(digits) == num_octas);
}

/// The waiting begins with the first transaction, until 30 seconds from now; without
/// transactions it is over, and without the time it fails.
pub proof fn law_waiting_begins(now: Result<u64, String>, count: usize, res: Waiting)
    requires
        call_ensures(wait_for_transactions, (now, count), res),
    ensures
        now matches Ok(now) ==> count > 0 ==> (res matches Waiting::WaitFor {
            index,
            count: all,
            limits,
        } && {
            &&& index == 0
            &&& all == count
            &&& limits.deadline - now == 30
            &&& limits.max_server_lag_wait_secs == Some(60u64)
            &&& limits.timeout_from_call_secs is None
        }),
        now is Ok && count == 0 ==> res == Waiting::Done(Ok(())),
        now matches Err(err) ==> (res matches Waiting::Done(Err(CliError::UnexpectedError(message)))
            && message@ == err@),
{
}

/// A wait that succeeds leads to the next transaction within the same limits, or to the
/// end behind the last one; a wait that fails ends it all with its error.
pub proof fn law_waiting_goes_on(
    index: usize,
    count: usize,
    limits: WaitLimits,
    outcome: CliTypedResult<()>,
    res: Waiting,
)
    requires
        index < count,
        call_ensures(Waiting::step, (Waiting::WaitFor { index, count, limits }, outcome), res),
    ensures
        outcome is Ok && index + 1 < count ==> (res matches Waiting::WaitFor {
            index: next,
            count: all,
            limits: same,
        } && next == index + 1 && all == count && same == limits),
        outcome is Ok && index + 1 == count ==> res == Waiting::Done(Ok(())),
        outcome matches Err(error) ==> res == Waiting::Done(Err(error)),
{
}

/// The status 200 leads to the body and any other one to an API error; the hashes in
/// the body are the outcome.
pub proof fn law_funding_goes_on<T>(
    url: String,
    body: String,
    status: u16,
    hashes: T,
    replied: Funding<T>,
    done: Funding<T>,
)
    requires
        call_ensures(
            Funding::<T>::step,
            (Funding::Post { url, body }, FundingEvent::Replied(Ok(status))),
            replied,
        ),
        call_ensures(
            Funding::<T>::step,
            (Funding::ReadBody, FundingEvent::BodyRead(Ok(hashes))),
            done,
        ),
    ensures
        status == 200 <==> replied is ReadBody,
        status != 200 ==> (replied matches Funding::Done(Err(CliError::ApiError(message)))
            && exists|digits: Seq<char>|
            {
                &&& #[trigger] crate::text::decimal_value(digits) == status
                &&& message@ == "Faucet issue: "@ + digits + " "@ + reason_phrase(status)
            }),
        done == Funding::Done(Ok(hashes)),
{
    crate::text::law_decimal_reads_back(status as nat);
    let digits = crate::text::decimal(status as nat);
    assert(crate::text::decimal_value(digits) == status);
}

/// What the node replies about an account is handed on as it is, or the part of it that
/// was asked for.
pub proof fn law_account_is_handed_on<S>(
    account: Account,
    state: S,
    id: u8,
    whole: CliTypedResult<Account>,
    both: CliTypedResult<(Account, S)>,
    number: CliTypedResult<u64>,
    key: CliTypedResult<Vec<u8>>,
    chain: CliTypedResult<u8>,
)
    requires
        call_ensures(get_account, (Ok(account),), whole),
        call_ensures(get_account_with_state::<S>, (Ok((account, state)),), both),
        call_ensures(get_sequence_number, (Ok(account),), number),
        call_ensures(get_auth_key, (Ok(account),), key),
        call_ensures(chain_id, (Ok(id),), chain),
    ensures
        whole == Ok::<Account, CliError>(account),
        both == Ok::<(Account, S), CliError>((account, state)),
        number == Ok::<u64, CliError>(account.sequence_number),
        key == Ok::<Vec<u8>, CliError>(account.authentication_key),
        chain == Ok::<u8, CliError>(id),
{
}

/// Whatever was asked of the node, an error of the client is an API error with its
/// text.
pub proof fn law_client_errors_are_api_errors<S>(
    err: String,
    whole: CliTypedResult<Account>,
    both: CliTypedResult<(Account, S)>,
    number: CliTypedResult<u64>,
    key: CliTypedResult<Vec<u8>>,
    chain: CliTypedResult<u8>,
)
    requires
        call_ensures(get_account, (Err(err),), whole),
        call_ensures(get_account_with_state::<S>, (Err(err),), both),
        call_ensures(get_sequence_number, (Err(err),), number),
        call_ensures(get_auth_key, (Err(err),), key),
        call_ensures(chain_id, (Err(err),), chain),
    ensures
        whole matches Err(CliError::ApiError(message)) && message@ == err@,
        both matches Err(CliError::ApiError(message)) && message@ == err@,
        number matches Err(CliError::ApiError(message)) && message@ == err@,
        key matches Err(CliError::ApiError(message)) && message@ == err@,
        chain matches Err(CliError::ApiError(message)) && message@ == err@,
{
}

/// The gas is profiled where the options say so, and otherwise the transaction is
/// submitted.
pub proof fn law_gas_is_profiled_on_demand(profile_gas: bool, res: TransactionAction)
    requires
        call_ensures(profile_or_submit, (profile_gas,), res),
    ensures
        res is ProfileGas <==> profile_gas,
        res is Submit <==> !profile_gas,
{
}

} // verus!
