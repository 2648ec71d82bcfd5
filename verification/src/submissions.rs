//! What is submitted to a listening history, one thing after the other.

use vstd::prelude::*;

use crate::delivery::{Attempts, NextAttempt};
use crate::playback::ScrobbleAction;

verus! {

/// The actions that wait to be submitted, the first one next, and the attempts at that one.
#[derive(Debug)]
pub struct Submissions {
    pub queue: Vec<ScrobbleAction>,
    pub attempts: Attempts,
}

/// The contents of [`Submissions`].
#[verifier::ext_equal]
pub ghost struct SubmissionsView {
    pub queue: Seq<crate::playback::ScrobbleActionView>,
    pub backoff: u64,
}

impl View for Submissions {
    type V = SubmissionsView;

    open spec fn view(&self) -> SubmissionsView {
        SubmissionsView {
            queue: crate::playback::action_views(self.queue@),
            backoff: self.attempts.backoff,
        }
    }
}

/// How a request fared.
pub type Fared = Result<(), crate::delivery::ApiFailureView>;

impl SubmissionsView {
    /// Nothing waits.
    pub open spec fn empty() -> SubmissionsView {
        SubmissionsView { queue: Seq::empty(), backoff: crate::delivery::backoff_of(0) }
    }

    /// Another action waits, behind the others.
    pub open spec fn received(self, action: crate::playback::ScrobbleActionView) -> SubmissionsView {
        SubmissionsView { queue: self.queue.push(action), ..self }
    }

    /// What follows a request for the first action: only a listen is tried again.
    pub open spec fn next(self, result: Fared) -> NextAttempt {
        crate::delivery::attempt_after(self.queue[0] is Scrobble, self.backoff, result)
    }

    /// After a request for the first action: once that is settled the one behind it is the first,
    /// and its attempts begin anew.
    pub open spec fn tried(self, result: Fared) -> SubmissionsView {
        match self.next(result) {
            NextAttempt::Settled => SubmissionsView {
                queue: self.queue.skip(1),
                backoff: crate::delivery::backoff_of(0),
            },
            NextAttempt::After(_) => SubmissionsView {
                backoff: crate::delivery::backoff_after(self.backoff),
                ..self
            },
        }
    }
}

impl Submissions {
    /// Nothing waits.
    pub fn new() -> (submissions: Self)
        ensures
            submissions@ == SubmissionsView::empty(),
    {
        let submissions = Submissions { queue: Vec::new(), attempts: Attempts::new() };
        assert(submissions@.queue =~= Seq::empty());
        submissions
    }

    /// Puts an action behind those that wait.
    pub fn receive(&mut self, action: ScrobbleAction)
        ensures
            final(self)@ == old(self)@.received(action@),
    {
        let ghost before = self.queue@;
        self.queue.push(action);
        assert(self@.queue =~= crate::playback::action_views(before).push(action@));
    }

    /// The action that is submitted next, if one waits.
    pub fn current(&self) -> (action: Option<&ScrobbleAction>)
        ensures
            match action {
                Some(action) => self@.queue.len() > 0 && self@.queue[0] == action@,
                None => self@.queue.len() == 0,
            },
    {
        if self.queue.len() == 0 {
            None
        } else {
            assert(self@.queue[0] == self.queue@[0]@);
            Some(&self.queue[0])
        }
    }

    /// Takes the first action away once it is settled.
    pub(crate) fn conclude(&mut self, next: NextAttempt)
        requires
            old(self)@.queue.len() > 0,
        ensures
            final(self)@ == (match next {
                NextAttempt::Settled => SubmissionsView {
                    queue: old(self)@.queue.skip(1),
                    backoff: crate::delivery::backoff_of(0),
                },
                NextAttempt::After(_) => old(self)@,
            }),
    {
        let ghost before = self.queue@;
        match next {
            NextAttempt::Settled => {
                self.queue.remove(0);
                self.attempts = Attempts::new();
                assert(self@.queue =~= crate::playback::action_views(before).skip(1));
            },
            NextAttempt::After(_) => {},
        }
    }
}

/// What happens to submissions.
pub ghost enum SubmissionEvent {
    /// An action is handed in.
    Received(crate::playback::ScrobbleActionView),
    /// The first action was requested, and fared like this.
    Tried(Fared),
}

/// A request that was made, how it fared, and what followed.
#[verifier::ext_equal]
pub ghost struct Request {
    pub action: crate::playback::ScrobbleActionView,
    pub result: Fared,
    pub next: NextAttempt,
}

/// What waits after a course of events that begins with nothing.
pub open spec fn waiting(events: Seq<SubmissionEvent>) -> SubmissionsView
    decreases events.len(),
{
    if events.len() == 0 {
        SubmissionsView::empty()
    } else {
        let before = waiting(events.drop_last());
        match events.last() {
            SubmissionEvent::Received(action) => before.received(action),
            SubmissionEvent::Tried(result) => before.tried(result),
        }
    }
}

/// A request is only made for an action that waits.
pub open spec fn is_course(events: Seq<SubmissionEvent>) -> bool
    decreases events.len(),
{
    events.len() == 0 || {
        &&& is_course(events.drop_last())
        &&& events.last() is Tried ==> waiting(events.drop_last()).queue.len() > 0
    }
}

/// The actions that were handed in, in their order.
pub open spec fn handed_in(events: Seq<SubmissionEvent>) -> Seq<
    crate::playback::ScrobbleActionView,
>
    decreases events.len(),
{
    if events.len() == 0 {
        Seq::empty()
    } else {
        match events.last() {
            SubmissionEvent::Received(action) => handed_in(events.drop_last()).push(action),
            SubmissionEvent::Tried(_) => handed_in(events.drop_last()),
        }
    }
}

/// The requests that were made, in their order.
pub open spec fn requests(events: Seq<SubmissionEvent>) -> Seq<Request>
    decreases events.len(),
{
    if events.len() == 0 {
        Seq::empty()
    } else {
        let before = waiting(events.drop_last());
        match events.last() {
            SubmissionEvent::Received(_) => requests(events.drop_last()),
            SubmissionEvent::Tried(result) => requests(events.drop_last()).push(
                Request { action: before.queue[0], result, next: before.next(result) },
            ),
        }
    }
}

/// How often each action was tried again that is settled, in the order in which they settled.
pub open spec fn retries(events: Seq<SubmissionEvent>) -> Seq<nat>
    decreases events.len(),
{
    if events.len() == 0 {
        Seq::empty()
    } else {
        let before = waiting(events.drop_last());
        match events.last() {
            SubmissionEvent::Received(_) => retries(events.drop_last()),
            SubmissionEvent::Tried(result) => if before.next(result) == NextAttempt::Settled {
                retries(events.drop_last()).push(open_tries(events.drop_last()))
            } else {
                retries(events.drop_last())
            },
        }
    }
}

/// How often the first action was tried that is not settled yet.
pub open spec fn open_tries(events: Seq<SubmissionEvent>) -> nat
    decreases events.len(),
{
    if events.len() == 0 {
        0
    } else {
        let before = waiting(events.drop_last());
        match events.last() {
            SubmissionEvent::Received(_) => open_tries(events.drop_last()),
            SubmissionEvent::Tried(result) => if before.next(result) == NextAttempt::Settled {
                0
            } else {
                open_tries(events.drop_last()) + 1
            },
        }
    }
}

/// An action and what followed a request for it.
pub type Step = (crate::playback::ScrobbleActionView, NextAttempt);

/// Requests for one action that did not settle it: one after the other, with the pauses in their
/// order, from a second to a minute.
pub open spec fn repeats(action: crate::playback::ScrobbleActionView, count: nat) -> Seq<Step> {
    Seq::new(
        count,
        |i: int| (action, NextAttempt::After(crate::delivery::backoff_of(i as nat))),
    )
}

/// The requests for actions that settled, one action after the other: each is tried again so many
/// times, and then settles.
pub open spec fn one_by_one(
    actions: Seq<crate::playback::ScrobbleActionView>,
    counts: Seq<nat>,
) -> Seq<Step>
    decreases actions.len(),
{
    if actions.len() == 0 {
        Seq::empty()
    } else {
        one_by_one(actions.drop_last(), counts.drop_last()) + repeats(
            actions.last(),
            counts.last(),
        ).push((actions.last(), NextAttempt::Settled))
    }
}

/// The requests without how they fared.
pub open spec fn steps(requests: Seq<Request>) -> Seq<Step> {
    requests.map_values(|request: Request| (request.action, request.next))
}

/// What was handed in is what settled and then what waits, in one order.
proof fn lemma_queue_is_the_rest(events: Seq<SubmissionEvent>)
    requires
        is_course(events),
    ensures
        retries(events).len() + waiting(events).queue.len() == handed_in(events).len(),
        waiting(events).queue == handed_in(events).skip(retries(events).len() as int),
        waiting(events).backoff == crate::delivery::backoff_of(open_tries(events)),
        open_tries(events) > 0 ==> waiting(events).queue.len() > 0 && waiting(events).queue[0]
            is Scrobble,
    decreases events.len(),
{
    if events.len() > 0 {
        let front = events.drop_last();
        lemma_queue_is_the_rest(front);
        let settled = retries(front).len() as int;
        match events.last() {
            SubmissionEvent::Received(action) => {
                assert(waiting(events).queue =~= handed_in(events).skip(settled));
            },
            SubmissionEvent::Tried(result) => {
                if waiting(front).next(result) == NextAttempt::Settled {
                    assert(waiting(events).queue =~= handed_in(events).skip(settled + 1));
                }
            },
        }
    } else {
        assert(waiting(events).queue =~= handed_in(events).skip(0));
    }
}

/// Whatever is handed in and however requests fare, over a whole course of events:
///
/// - The actions are submitted one by one in the order in which they were handed in: no request
///   for a later one is made before an earlier one is settled.
/// - A listen that fails in a way that another attempt may mend is requested again, the very same,
///   after pauses of one, two, four seconds and so on up to a minute, until it succeeds or fails
///   otherwise.
/// - An announcement is requested once and never again.
pub proof fn law_actions_are_submitted_one_by_one(events: Seq<SubmissionEvent>)
    requires
        is_course(events),
    ensures
        ({
            let settled = retries(events).len();
            let handed = handed_in(events);
            let tries = open_tries(events);
            &&& settled <= handed.len()
            &&& waiting(events).queue == handed.skip(settled as int)
            &&& tries > 0 ==> settled < handed.len() && handed[settled as int] is Scrobble
            &&& steps(requests(events)) == one_by_one(handed.take(settled as int), retries(events))
                + repeats(handed[settled as int], tries)
            &&& forall|i: int|
                0 <= i < settled && !(#[trigger] handed[i] is Scrobble) ==> retries(events)[i] == 0
            &&& forall|i: int|
                0 <= i < requests(events).len() ==> {
                    let request = #[trigger] requests(events)[i];
                    request.next is After <==> request.action is Scrobble
                        && crate::delivery::may_help_again(request.result)
                }
        }),
    decreases events.len(),
{
    lemma_queue_is_the_rest(events);
    let made = requests(events);
    let handed = handed_in(events);
    let counts = retries(events);
    let settled = counts.len() as int;
    let tries = open_tries(events);
    if events.len() == 0 {
        assert(steps(made) =~= one_by_one(handed.take(0), counts) + repeats(handed[0], 0));
    } else {
        let front = events.drop_last();
        law_actions_are_submitted_one_by_one(front);
        lemma_queue_is_the_rest(front);
        let before = handed_in(front);
        let known = retries(front);
        match events.last() {
            SubmissionEvent::Received(action) => {
                assert(handed.take(settled) =~= before.take(settled));
                if tries > 0 {
                    assert(handed[settled] == before[settled]);
                } else {
                    assert(repeats(handed[settled], 0) =~= repeats(before[settled], 0));
                }
                assert forall|i: int|
                    0 <= i < settled && !(#[trigger] handed[i] is Scrobble) implies counts[i]
                    == 0 by {
                    assert(before[i] == handed[i]);
                }
            },
            SubmissionEvent::Tried(result) => {
                let head = waiting(front).queue[0];
                assert(head == before[known.len() as int]);
                let next = waiting(front).next(result);
                assert(made.drop_last() =~= requests(front));
                assert(steps(made) =~= steps(requests(front)).push((head, next)));
                let old_tries = open_tries(front);
                if next == NextAttempt::Settled {
                    assert(handed.take(settled).drop_last() =~= before.take(settled - 1));
                    assert(counts.drop_last() =~= known);
                    assert(repeats(handed[settled], 0) =~= Seq::empty());
                    assert(steps(made) =~= one_by_one(handed.take(settled), counts) + repeats(
                        handed[settled],
                        0,
                    ));
                    assert forall|i: int|
                        0 <= i < settled && !(#[trigger] handed[i] is Scrobble) implies counts[i]
                        == 0 by {
                        if i < settled - 1 {
                            assert(known[i] == counts[i]);
                        }
                    }
                } else {
                    assert(repeats(head, tries) =~= repeats(head, old_tries).push((head, next)));
                    assert(steps(made) =~= one_by_one(handed.take(settled), counts) + repeats(
                        head,
                        tries,
                    ));
                }
                assert forall|i: int| 0 <= i < made.len() implies {
                    let request = #[trigger] made[i];
                    request.next is After <==> request.action is Scrobble
                        && crate::delivery::may_help_again(request.result)
                } by {
                    if i < made.len() - 1 {
                        assert(made[i] == requests(front)[i]);
                    }
                }
            },
        }
    }
}

/// While a request is to be repeated, its action is the one that waits.
proof fn lemma_repeated_action_waits(events: Seq<SubmissionEvent>)
    requires
        is_course(events),
        requests(events).len() > 0,
        requests(events).last().next is After,
    ensures
        waiting(events).queue.len() > 0,
        waiting(events).queue[0] == requests(events).last().action,
    decreases events.len(),
{
    if events.last() is Received {
        lemma_repeated_action_waits(events.drop_last());
    }
}

/// What is requested again is the very same action: the same message, and the same beginning.
pub proof fn law_repeated_requests_are_the_same(events: Seq<SubmissionEvent>, at: int)
    requires
        is_course(events),
        0 <= at < requests(events).len() - 1,
        requests(events)[at].next is After,
    ensures
        requests(events)[at + 1].action == requests(events)[at].action,
    decreases events.len(),
{
    let front = events.drop_last();
    if events.last() is Received || at < requests(events).len() - 2 {
        law_repeated_requests_are_the_same(front, at);
    } else {
        lemma_repeated_action_waits(front);
    }
}

/// What is handed in waits behind everything else. A request concerns the first action alone: a
/// listen that failed in a way that may pass stays the first, with a pause that doubles up to a
/// minute, and in every other case the one behind it is the first, with a pause of a second.
pub proof fn law_requests_concern_the_first_action(
    before: SubmissionsView,
    action: crate::playback::ScrobbleActionView,
    result: Fared,
)
    requires
        before.queue.len() > 0,
        before.backoff <= 60,
    ensures
        before.received(action).queue.len() == before.queue.len() + 1,
        before.received(action).queue.last() == action,
        before.received(action).queue.drop_last() == before.queue,
        before.received(action).backoff == before.backoff,
        ({
            let after = before.tried(result);
            let again = before.queue[0] is Scrobble && result is Err && result->Err_0.kind
                == crate::delivery::FailureKind::Retryable;
            &&& again ==> after.queue == before.queue && after.backoff == (if before.backoff <= 30 {
                2 * before.backoff
            } else {
                60
            }) && before.next(result) == NextAttempt::After(before.backoff)
            &&& !again ==> after.queue == before.queue.drop_first() && after.backoff == 1
                && before.next(result) == NextAttempt::Settled
        }),
{
    crate::delivery::law_pauses_double(0);
    assert(before.received(action).queue.drop_last() =~= before.queue);
    assert(before.queue.skip(1) =~= before.queue.drop_first());
}

/// At first nothing waits; views show every field as it is.
pub proof fn law_views_show_every_field(submissions: Submissions)
    ensures
        SubmissionsView::empty().queue.len() == 0,
        SubmissionsView::empty().backoff == 1,
        submissions@.queue == crate::playback::action_views(submissions.queue@),
        submissions@.backoff == submissions.attempts.backoff,
{
    crate::delivery::law_pauses_double(0);
}

} // verus!
