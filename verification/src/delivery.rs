//! How what is sent to a service fares, and when it is sent again.

use vstd::prelude::*;

verus! {

/// What a failed request calls for.
#[derive(Clone, Copy, Debug, PartialEq, Eq, Structural)]
pub enum FailureKind {
    /// Sending it again may help.
    Retryable,
    /// The account has to be authorized again.
    Authentication,
    /// Nothing helps.
    Permanent,
}

/// A request that failed.
#[derive(Debug)]
pub struct ApiFailure {
    pub kind: FailureKind,
    pub message: String,
}

/// The contents of an [`ApiFailure`].
#[verifier::ext_equal]
pub ghost struct ApiFailureView {
    pub kind: FailureKind,
    pub message: Seq<char>,
}

impl View for ApiFailure {
    type V = ApiFailureView;

    open spec fn view(&self) -> ApiFailureView {
        ApiFailureView { kind: self.kind, message: self.message@ }
    }
}

/// How a request fared.
pub open spec fn fared(result: Result<(), ApiFailure>) -> Result<(), ApiFailureView> {
    match result {
        Ok(_) => Ok(()),
        Err(failure) => Err(failure@),
    }
}

/// What came of sending a request.
#[derive(Debug)]
pub enum Exchange {
    /// The request could not be sent; the reason.
    RequestFailed(String),
    /// The answer could not be read; the reason.
    ReadFailed(String),
    /// The answer.
    Answered { status: crate::web::HttpStatus, body: String },
}

/// The longest pause before something is sent again, in seconds.
pub const MAX_BACKOFF: u64 = 60;

/// The pause after a pause of `backoff` seconds: twice as long, a minute at most.
pub open spec fn backoff_after(backoff: u64) -> u64 {
    if backoff * 2 <= MAX_BACKOFF {
        (backoff * 2) as u64
    } else {
        MAX_BACKOFF
    }
}

/// The pause after a pause of `backoff` seconds.
pub fn next_backoff(backoff: u64) -> (next: u64)
    ensures
        next == backoff_after(backoff),
{
    if backoff <= MAX_BACKOFF / 2 {
        backoff * 2
    } else {
        MAX_BACKOFF
    }
}

/// The pause after `tries` failures in a row, from a second on.
pub open spec fn backoff_of(tries: nat) -> u64
    decreases tries,
{
    if tries == 0 {
        1
    } else {
        backoff_after(backoff_of((tries - 1) as nat))
    }
}

/// Pauses grow from a second to a minute and stay there: they never shrink, and from the seventh
/// on each is a minute.
pub proof fn law_backoff_grows_to_a_minute(tries: nat)
    ensures
        1 <= backoff_of(tries) <= MAX_BACKOFF,
        backoff_of(tries) <= backoff_of(tries + 1),
        tries >= 6 ==> backoff_of(tries) == MAX_BACKOFF,
    decreases tries,
{
    if tries > 0 {
        law_backoff_grows_to_a_minute((tries - 1) as nat);
        reveal_with_fuel(backoff_of, 8);
    } else {
        reveal_with_fuel(backoff_of, 2);
    }
}

/// What follows an attempt.
#[derive(Clone, Copy, Debug, PartialEq, Eq, Structural)]
pub enum NextAttempt {
    /// There is no other attempt.
    Settled,
    /// Another attempt follows after this many seconds.
    After(u64),
}

/// The attempts at one thing that is sent: how many seconds pass before the next one.
#[derive(Clone, Copy, Debug, PartialEq, Eq, Structural)]
pub struct Attempts {
    pub backoff: u64,
}

impl Attempts {
    /// Before the first attempt.
    pub fn new() -> (attempts: Self)
        ensures
            attempts.backoff == backoff_of(0),
    {
        Attempts { backoff: 1 }
    }

    /// After what followed an attempt: each pause makes the next one longer.
    pub open spec fn after(self, next: NextAttempt) -> Attempts {
        match next {
            NextAttempt::Settled => self,
            NextAttempt::After(_) => Attempts { backoff: backoff_after(self.backoff) },
        }
    }
}

/// How an account stands: whether it is authenticated, and what happened last.
#[verifier::ext_equal]
pub ghost struct AccountView {
    pub authenticated: bool,
    pub detail: Seq<char>,
}

impl AccountView {
    /// How an account stands before anything was sent.
    pub open spec fn waiting() -> AccountView {
        AccountView { authenticated: false, detail: "waiting for a track"@ }
    }

    /// How the account stands after something settled: a success authenticates, and only a
    /// failure of authentication takes that back.
    pub open spec fn settled(
        self,
        result: Result<(), ApiFailureView>,
        success: Seq<char>,
    ) -> AccountView {
        match result {
            Ok(_) => AccountView { authenticated: true, detail: success },
            Err(failure) => AccountView {
                authenticated: self.authenticated && failure.kind != FailureKind::Authentication,
                detail: failure.message,
            },
        }
    }

    /// How the account stands while something is tried again.
    pub open spec fn retrying(self, prefix: Seq<char>, message: Seq<char>) -> AccountView {
        AccountView { authenticated: self.authenticated, detail: prefix + message }
    }

    /// How the account stands after an attempt. What is `repeated` is tried again as long as that
    /// may help.
    pub open spec fn after_attempt(
        self,
        repeated: bool,
        result: Result<(), ApiFailureView>,
        success: Seq<char>,
        prefix: Seq<char>,
    ) -> AccountView {
        if repeated && may_help_again(result) {
            self.retrying(prefix, result->Err_0.message)
        } else {
            self.settled(result, success)
        }
    }
}

/// The attempt failed in a way that another one may mend.
pub open spec fn may_help_again(result: Result<(), ApiFailureView>) -> bool {
    match result {
        Ok(_) => false,
        Err(failure) => failure.kind == FailureKind::Retryable,
    }
}

/// What follows an attempt. What is `repeated` is tried again, after a pause, as long as that may
/// help; nothing else is.
pub open spec fn attempt_after(
    repeated: bool,
    backoff: u64,
    result: Result<(), ApiFailureView>,
) -> NextAttempt {
    if repeated && may_help_again(result) {
        NextAttempt::After(backoff)
    } else {
        NextAttempt::Settled
    }
}

/// Takes note of how an attempt fared, and says what follows.
pub(crate) fn note_attempt(
    authenticated: &mut bool,
    detail: &mut String,
    attempts: &mut Attempts,
    repeated: bool,
    result: &Result<(), ApiFailure>,
    success: &str,
    prefix: &str,
) -> (next: NextAttempt)
    ensures
        next == attempt_after(repeated, old(attempts).backoff, fared(*result)),
        *final(attempts) == old(attempts).after(next),
        (AccountView { authenticated: *final(authenticated), detail: final(detail)@ }) == (
        AccountView { authenticated: *old(authenticated), detail: old(detail)@ }).after_attempt(
            repeated,
            fared(*result),
            success@,
            prefix@,
        ),
{
    match result {
        Ok(_) => {
            *authenticated = true;
            *detail = success.to_owned();
            NextAttempt::Settled
        },
        Err(failure) => {
            if repeated && failure.kind == FailureKind::Retryable {
                let mut text = prefix.to_owned();
                text.append(failure.message.as_str());
                *detail = text;
                let pause: u64 = attempts.backoff;
                attempts.backoff = next_backoff(pause);
                NextAttempt::After(pause)
            } else {
                if failure.kind == FailureKind::Authentication {
                    *authenticated = false;
                }
                *detail = failure.message.clone();
                NextAttempt::Settled
            }
        },
    }
}

/// Attempts at one thing are apart by the pauses in their order: each retry moves on to the next
/// one, and only a retry does.
pub proof fn law_retries_follow_the_backoff(tries: nat, pause: u64)
    ensures
        (Attempts { backoff: backoff_of(tries) }).after(NextAttempt::After(pause)) == (Attempts {
            backoff: backoff_of(tries + 1),
        }),
        (Attempts { backoff: backoff_of(tries) }).after(NextAttempt::Settled) == (Attempts {
            backoff: backoff_of(tries),
        }),
{
}

/// A success authenticates the account, and no failure but one of authentication takes that back.
pub proof fn law_authentication_is_kept(
    account: AccountView,
    repeated: bool,
    result: Result<(), ApiFailureView>,
    success: Seq<char>,
    prefix: Seq<char>,
)
    ensures
        result is Ok ==> account.after_attempt(repeated, result, success, prefix).authenticated,
        result is Err && result->Err_0.kind != FailureKind::Authentication ==>
            account.after_attempt(repeated, result, success, prefix).authenticated
            == account.authenticated,
        result is Err && result->Err_0.kind == FailureKind::Authentication ==>
            !account.after_attempt(repeated, result, success, prefix).authenticated,
{
}

/// Only a listen that failed in a way that may pass is tried again, after the pause that is due;
/// everything else is settled by one attempt.
pub proof fn law_only_passing_failures_are_retried(
    repeated: bool,
    backoff: u64,
    result: Result<(), ApiFailureView>,
)
    ensures
        attempt_after(repeated, backoff, result) is After <==> repeated && result is Err
            && result->Err_0.kind == FailureKind::Retryable,
        attempt_after(repeated, backoff, result) is After ==> attempt_after(
            repeated,
            backoff,
            result,
        ) == NextAttempt::After(backoff),
{
}

/// What is said of an account is what happened last: the success, the failure in its own words, or
/// that something is tried again, and why.
pub proof fn law_accounts_say_what_happened(
    account: AccountView,
    repeated: bool,
    result: Result<(), ApiFailureView>,
    success: Seq<char>,
    prefix: Seq<char>,
)
    ensures
        ({
            let said = account.after_attempt(repeated, result, success, prefix).detail;
            &&& result is Ok ==> said == success
            &&& result is Err && repeated && result->Err_0.kind == FailureKind::Retryable ==> said
                == prefix + result->Err_0.message
            &&& result is Err && !(repeated && result->Err_0.kind == FailureKind::Retryable)
                ==> said == result->Err_0.message
        }),
        AccountView::waiting().detail == "waiting for a track"@,
        !AccountView::waiting().authenticated,
{
}

/// The pauses are one, two, four, eight, sixteen, thirty-two and then sixty seconds.
pub proof fn law_pauses_double(tries: nat)
    ensures
        backoff_of(0) == 1,
        backoff_of(tries) <= 30 ==> backoff_of(tries + 1) == 2 * backoff_of(tries),
        backoff_of(tries) > 30 ==> backoff_of(tries + 1) == 60,
        backoff_of(tries) <= 60,
{
    law_backoff_grows_to_a_minute(tries);
}

/// How a request fared is shown as it is.
pub proof fn law_failures_are_shown_as_they_are(failure: ApiFailure)
    ensures
        fared(Ok(())) is Ok,
        fared(Err(failure)) is Err,
        fared(Err(failure))->Err_0.kind == failure.kind,
        fared(Err(failure))->Err_0.message == failure.message@,
        failure@.kind == failure.kind && failure@.message == failure.message@,
{
}

} // verus!
