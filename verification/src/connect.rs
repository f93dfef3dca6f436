//! Connecting: the order in which a connection is opened and its
//! subscriptions are asked for.
//!
//! A connect is a [`ConnectPlan`]. The plan says what is to be done next
//! ([`ConnectPlan::next_action`]); its driver does it and reports how it went
//! ([`ConnectPlan::advance`]). The plan itself waits for nothing.

use crate::model::{
    level_of, text_of, ConnectionProfile, Outcome, OutcomeView, ProfileView, QosLevel,
    SubscriptionSpec, SubscriptionView,
};
use crate::settings::{
    configure, configured, fresh_id, ConfigView, ConnectError, ConnectFault, ConnectionConfig,
};
use crate::uuid::{is_random_form, Uuid};
use vstd::prelude::*;

verus! {

/// One subscription to ask for: a topic filter and a service level.
#[derive(Debug, Clone, PartialEq, Eq)]
pub struct SubscribeRequest {
    pub filter: String,
    pub level: QosLevel,
}

/// The mathematical value of a [`SubscribeRequest`].
pub struct RequestView {
    pub filter: Seq<char>,
    pub level: QosLevel,
}

impl View for SubscribeRequest {
    type V = RequestView;

    open spec fn view(&self) -> RequestView {
        RequestView { filter: self.filter@, level: self.level }
    }
}

/// The mathematical values of a list of wanted subscriptions.
pub open spec fn subscription_views(subscriptions: Seq<SubscriptionSpec>) -> Seq<SubscriptionView> {
    Seq::new(subscriptions.len(), |i: int| subscriptions[i]@)
}

/// The mathematical values of a list of requests.
pub open spec fn request_views(requests: Seq<SubscribeRequest>) -> Seq<RequestView> {
    Seq::new(requests.len(), |i: int| requests[i]@)
}

/// The requests that a list of wanted subscriptions asks for: one for
/// each, in the same order, with the same filter, at the level of its number.
pub open spec fn requests_for(subscriptions: Seq<SubscriptionView>) -> Seq<RequestView> {
    Seq::new(
        subscriptions.len(),
        |i: int| RequestView { filter: subscriptions[i].filter, level: level_of(subscriptions[i].qos) },
    )
}

/// How far a connect has come.
pub enum PhaseView {
    /// The connection is to be opened.
    Opening,
    /// The connection is open, and `sent` requests have been sent.
    Subscribing { sent: nat },
    /// The connection could not be opened.
    OpenFailed { reason: Seq<char> },
    /// A request could not be sent. The connection stays open.
    SubscribeFailed { filter: Seq<char>, reason: Seq<char> },
}

/// The mathematical value of a [`ConnectPlan`].
pub struct PlanView {
    pub config: ConfigView,
    pub requests: Seq<RequestView>,
    pub phase: PhaseView,
}

/// What the driver of a connect is to do.
pub enum ActionView {
    Open,
    Subscribe(RequestView),
    Finish(Result<(), ConnectFault>),
}

/// The plan of a connect that has not begun.
pub open spec fn initial_plan(config: ConfigView, requests: Seq<RequestView>) -> PlanView {
    PlanView { config, requests, phase: PhaseView::Opening }
}

/// What is to be done next under `plan`.
///
/// First the connection is opened. Then the requests are sent in order,
/// one at a time. When all are sent the connect has succeeded. A failure
/// ends it with the error of the action that failed.
pub open spec fn next_action(plan: PlanView) -> ActionView {
    match plan.phase {
        PhaseView::Opening => ActionView::Open,
        PhaseView::Subscribing { sent } => if sent < plan.requests.len() {
            ActionView::Subscribe(plan.requests[sent as int])
        } else {
            ActionView::Finish(Ok(()))
        },
        PhaseView::OpenFailed { reason } => ActionView::Finish(Err(ConnectFault::OpenFailed(reason))),
        PhaseView::SubscribeFailed { filter, reason } => ActionView::Finish(
            Err(ConnectFault::SubscribeFailed { filter, reason }),
        ),
    }
}

/// The plan after its next action went as `outcome` says. A plan whose next
/// action is to finish stays as it is.
pub open spec fn advance(plan: PlanView, outcome: OutcomeView) -> PlanView {
    match plan.phase {
        PhaseView::Opening => match outcome {
            OutcomeView::Done => PlanView { phase: PhaseView::Subscribing { sent: 0 }, ..plan },
            OutcomeView::Failed(reason) => PlanView { phase: PhaseView::OpenFailed { reason }, ..plan },
        },
        PhaseView::Subscribing { sent } => if sent < plan.requests.len() {
            match outcome {
                OutcomeView::Done => PlanView {
                    phase: PhaseView::Subscribing { sent: sent + 1 },
                    ..plan
                },
                OutcomeView::Failed(reason) => PlanView {
                    phase: PhaseView::SubscribeFailed {
                        filter: plan.requests[sent as int].filter,
                        reason,
                    },
                    ..plan
                },
            }
        } else {
            plan
        },
        _ => plan,
    }
}

/// The plan after its actions went as `outcomes` say, one after the other.
pub open spec fn drive(plan: PlanView, outcomes: Seq<OutcomeView>) -> PlanView
    decreases outcomes.len(),
{
    if outcomes.len() == 0 {
        plan
    } else {
        advance(drive(plan, outcomes.drop_last()), outcomes.last())
    }
}

/// The requests that were handed to the driver while the plan's actions
/// went as `outcomes` say, in the order in which they were handed out.
pub open spec fn issued(plan: PlanView, outcomes: Seq<OutcomeView>) -> Seq<RequestView>
    decreases outcomes.len(),
{
    if outcomes.len() == 0 {
        Seq::empty()
    } else {
        let earlier = issued(plan, outcomes.drop_last());
        match next_action(drive(plan, outcomes.drop_last())) {
            ActionView::Subscribe(request) => earlier.push(request),
            _ => earlier,
        }
    }
}

/// `count` outcomes, each of them `Done`.
pub open spec fn all_done(count: nat) -> Seq<OutcomeView> {
    Seq::new(count, |i: int| OutcomeView::Done)
}

/// While every action succeeds, the plan sends the requests one by one in
/// their order: after the opening and `sent` requests, exactly the first
/// `sent` requests have been handed out.
pub proof fn lemma_requests_go_in_order(config: ConfigView, requests: Seq<RequestView>, sent: nat)
    requires
        sent <= requests.len(),
    ensures
        drive(initial_plan(config, requests), all_done(sent + 1)) == (PlanView {
            phase: PhaseView::Subscribing { sent },
            ..initial_plan(config, requests)
        }),
        issued(initial_plan(config, requests), all_done(sent + 1)) == requests.take(sent as int),
    decreases sent,
{
    let plan = initial_plan(config, requests);
    let outcomes = all_done(sent + 1);
    if sent == 0 {
        assert(outcomes.drop_last() =~= Seq::<OutcomeView>::empty());
        assert(drive(plan, outcomes.drop_last()) == plan);
        assert(issued(plan, outcomes.drop_last()) == Seq::<RequestView>::empty());
        assert(issued(plan, outcomes) =~= requests.take(0));
    } else {
        let earlier = (sent - 1) as nat;
        lemma_requests_go_in_order(config, requests, earlier);
        assert(outcomes.drop_last() =~= all_done(earlier + 1));
        assert(outcomes.last() == OutcomeView::Done);
        assert(requests.take(earlier as int).push(requests[earlier as int]) =~= requests.take(
            sent as int,
        ));
    }
}

/// A connect whose actions all succeed sends every request, in order, and
/// then succeeds.
pub proof fn lemma_connect_succeeds(config: ConfigView, requests: Seq<RequestView>)
    ensures
        next_action(drive(initial_plan(config, requests), all_done(requests.len() + 1)))
            == ActionView::Finish(Ok(())),
        issued(initial_plan(config, requests), all_done(requests.len() + 1)) == requests,
{
    lemma_requests_go_in_order(config, requests, requests.len());
    assert(requests.take(requests.len() as int) =~= requests);
}

/// A plan without requests hands out none, however its actions go, and it
/// succeeds as soon as the connection is open.
pub proof fn lemma_no_subscriptions(config: ConfigView, outcomes: Seq<OutcomeView>)
    ensures
        issued(initial_plan(config, Seq::empty()), outcomes) == Seq::<RequestView>::empty(),
        next_action(advance(initial_plan(config, Seq::empty()), OutcomeView::Done))
            == ActionView::Finish(Ok(())),
    decreases outcomes.len(),
{
    let plan = initial_plan(config, Seq::empty());
    if outcomes.len() > 0 {
        lemma_no_subscriptions(config, outcomes.drop_last());
        lemma_requests_stay(plan, outcomes.drop_last());
    }
}

/// Driving a plan changes neither its settings nor its requests.
pub proof fn lemma_requests_stay(plan: PlanView, outcomes: Seq<OutcomeView>)
    ensures
        drive(plan, outcomes).requests == plan.requests,
        drive(plan, outcomes).config == plan.config,
    decreases outcomes.len(),
{
    if outcomes.len() > 0 {
        lemma_requests_stay(plan, outcomes.drop_last());
    }
}

/// Once a plan's next action is to finish, nothing changes it and no
/// request is handed out any more.
pub proof fn lemma_finished_stays(plan: PlanView, outcomes: Seq<OutcomeView>)
    requires
        next_action(plan) is Finish,
    ensures
        drive(plan, outcomes) == plan,
        issued(plan, outcomes) == Seq::<RequestView>::empty(),
    decreases outcomes.len(),
{
    if outcomes.len() > 0 {
        lemma_finished_stays(plan, outcomes.drop_last());
    }
}

/// Driving a plan by two runs of outcomes one after the other is driving
/// it by the first, and then by the second from where the first left it.
pub proof fn lemma_drive_in_parts(plan: PlanView, first: Seq<OutcomeView>, second: Seq<OutcomeView>)
    ensures
        drive(plan, first + second) == drive(drive(plan, first), second),
        issued(plan, first + second) == issued(plan, first) + issued(drive(plan, first), second),
    decreases second.len(),
{
    if second.len() == 0 {
        assert(first + second =~= first);
        assert(issued(plan, first) + issued(drive(plan, first), second) =~= issued(plan, first));
    } else {
        let whole = first + second;
        assert(whole.drop_last() =~= first + second.drop_last());
        assert(whole.last() == second.last());
        lemma_drive_in_parts(plan, first, second.drop_last());
        assert(issued(plan, whole) =~= issued(plan, first) + issued(drive(plan, first), second));
    }
}

/// The first request that cannot be sent ends the connect: its filter and
/// the reason are the connect's error, the requests before it and itself
/// are the only ones handed out, and whatever is reported afterwards
/// changes nothing.
pub proof fn lemma_first_failure_ends(
    config: ConfigView,
    requests: Seq<RequestView>,
    sent: nat,
    reason: Seq<char>,
    later: Seq<OutcomeView>,
)
    requires
        sent < requests.len(),
    ensures
        next_action(
            drive(
                initial_plan(config, requests),
                all_done(sent + 1) + seq![OutcomeView::Failed(reason)] + later,
            ),
        ) == ActionView::Finish(
            Err(ConnectFault::SubscribeFailed { filter: requests[sent as int].filter, reason }),
        ),
        issued(
            initial_plan(config, requests),
            all_done(sent + 1) + seq![OutcomeView::Failed(reason)] + later,
        ) == requests.take(sent + 1 as int),
{
    let plan = initial_plan(config, requests);
    let failure = seq![OutcomeView::Failed(reason)];
    lemma_requests_go_in_order(config, requests, sent);
    let open = drive(plan, all_done(sent + 1));
    lemma_drive_in_parts(plan, all_done(sent + 1), failure);
    assert(failure.drop_last() =~= Seq::<OutcomeView>::empty());
    assert(drive(open, failure.drop_last()) == open);
    assert(issued(open, failure.drop_last()) == Seq::<RequestView>::empty());
    let failed = drive(open, failure);
    assert(issued(open, failure) =~= seq![requests[sent as int]]);
    lemma_drive_in_parts(plan, all_done(sent + 1) + failure, later);
    lemma_finished_stays(failed, later);
    assert(requests.take(sent as int) + seq![requests[sent as int]] =~= requests.take(sent + 1 as int));
}

/// What the plan hands to its driver.
#[derive(Debug, PartialEq, Eq)]
pub enum ConnectAction {
    /// Open the connection with the plan's settings and put its handle
    /// into the slot ([`ConnectionConfig::open_into`]); then start the bridge
    /// on its event stream, and close the handle that the slot gave back, if
    /// it gave one.
    Open,
    /// Send this request on the connection's handle.
    Subscribe(SubscribeRequest),
    /// Return this result to the caller of the connect.
    Finish(Result<(), ConnectError>),
}

impl View for ConnectAction {
    type V = ActionView;

    open spec fn view(&self) -> ActionView {
        match self {
            ConnectAction::Open => ActionView::Open,
            ConnectAction::Subscribe(request) => ActionView::Subscribe(request@),
            ConnectAction::Finish(Ok(())) => ActionView::Finish(Ok(())),
            ConnectAction::Finish(Err(error)) => ActionView::Finish(Err(error@)),
        }
    }
}

enum Phase {
    Opening,
    Subscribing { sent: usize },
    OpenFailed { reason: String },
    SubscribeFailed { filter: String, reason: String },
}

/// One connect: the settings of its connection, the requests to send on
/// it, and how far it has come.
pub struct ConnectPlan {
    config: ConnectionConfig,
    requests: Vec<SubscribeRequest>,
    phase: Phase,
}

impl View for ConnectPlan {
    type V = PlanView;

    closed spec fn view(&self) -> PlanView {
        PlanView {
            config: self.config@,
            requests: request_views(self.requests@),
            phase: match self.phase {
                Phase::Opening => PhaseView::Opening,
                Phase::Subscribing { sent } => PhaseView::Subscribing { sent: sent as nat },
                Phase::OpenFailed { reason } => PhaseView::OpenFailed { reason: reason@ },
                Phase::SubscribeFailed { filter, reason } => PhaseView::SubscribeFailed {
                    filter: filter@,
                    reason: reason@,
                },
            },
        }
    }
}

/// The mathematical value of a plan or the error in its place.
pub open spec fn planned(outcome: Result<ConnectPlan, ConnectError>) -> Result<PlanView, ConnectFault> {
    match outcome {
        Ok(plan) => Ok(plan@),
        Err(error) => Err(error@),
    }
}

/// The plan of a connect whose settings came out as `settings` says: with
/// settings, the plan that has not begun, with a request for each
/// subscription; without, the error in their place.
pub open spec fn plan_with(
    settings: Result<ConfigView, ConnectFault>,
    subscriptions: Seq<SubscriptionView>,
) -> Result<PlanView, ConnectFault> {
    match settings {
        Ok(config) => Ok(initial_plan(config, requests_for(subscriptions))),
        Err(fault) => Err(fault),
    }
}

/// The plan of a connect with `profile` and `subscriptions`, where
/// `spare_id` is the client identifier at hand for a profile that names
/// none: the profile's settings and a request for each subscription, or the
/// error that the profile's settings run into.
pub open spec fn plan_for(
    profile: ProfileView,
    subscriptions: Seq<SubscriptionView>,
    spare_id: Option<Seq<char>>,
) -> Result<PlanView, ConnectFault> {
    plan_with(configure(profile, spare_id), subscriptions)
}

/// Makes the requests for a list of wanted subscriptions.
pub fn requests_from(subscriptions: &Vec<SubscriptionSpec>) -> (requests: Vec<SubscribeRequest>)
    ensures
        request_views(requests@) == requests_for(subscription_views(subscriptions@)),
{
    let mut requests: Vec<SubscribeRequest> = Vec::new();
    let mut i: usize = 0;
    while i < subscriptions.len()
        invariant
            i <= subscriptions@.len(),
            requests@.len() == i,
            forall|j: int|
                0 <= j < i ==> (#[trigger] requests@[j])@ == (RequestView {
                    filter: subscriptions@[j].filter@,
                    level: level_of(subscriptions@[j].qos),
                }),
        decreases subscriptions@.len() - i,
    {
        let wanted = &subscriptions[i];
        requests.push(SubscribeRequest { filter: wanted.filter.clone(), level: wanted.level() });
        i += 1;
    }
    assert(request_views(requests@) =~= requests_for(subscription_views(subscriptions@)));
    requests
}

impl ConnectPlan {
    /// Plans a connect whose settings came out as `settings` says. No
    /// subscription is refused for its level.
    pub fn with_settings(
        settings: Result<ConnectionConfig, ConnectError>,
        subscriptions: Vec<SubscriptionSpec>,
    ) -> (outcome: Result<ConnectPlan, ConnectError>)
        ensures
            planned(outcome) == plan_with(configured(settings), subscription_views(subscriptions@)),
    {
        match settings {
            Ok(config) => Ok(
                ConnectPlan {
                    config,
                    requests: requests_from(&subscriptions),
                    phase: Phase::Opening,
                },
            ),
            Err(error) => Err(error),
        }
    }

    /// Plans a connect, with `spare_id` at hand as the client identifier of
    /// a profile that names none.
    pub fn prepare_with_spare_id(
        profile: ConnectionProfile,
        subscriptions: Vec<SubscriptionSpec>,
        spare_id: Option<String>,
    ) -> (outcome: Result<ConnectPlan, ConnectError>)
        ensures
            planned(outcome) == plan_for(
                profile@,
                subscription_views(subscriptions@),
                text_of(spare_id),
            ),
    {
        ConnectPlan::with_settings(ConnectionConfig::with_spare_id(profile, spare_id), subscriptions)
    }

    /// Plans a connect, where `fresh` is what a draw of a fresh identifier
    /// gave: a profile that names no client identifier gets the one made
    /// from it.
    pub fn prepare_with_fresh_id(
        profile: ConnectionProfile,
        subscriptions: Vec<SubscriptionSpec>,
        fresh: Option<Uuid>,
    ) -> (outcome: Result<ConnectPlan, ConnectError>)
        ensures
            planned(outcome) == plan_for(
                profile@,
                subscription_views(subscriptions@),
                fresh_id(fresh),
            ),
    {
        ConnectPlan::with_settings(ConnectionConfig::with_fresh_id(profile, fresh), subscriptions)
    }

    /// Plans a connect. The address is resolved first. Then a profile that
    /// names no client identifier gets one made from a fresh random
    /// identifier.
    pub fn prepare(profile: ConnectionProfile, subscriptions: Vec<SubscriptionSpec>) -> (outcome:
        Result<ConnectPlan, ConnectError>)
        ensures
            profile@.client_id is Some ==> planned(outcome) == plan_for(
                profile@,
                subscription_views(subscriptions@),
                None,
            ),
            profile@.client_id is None ==> exists|fresh: Option<Uuid>|
                {
                    &&& fresh matches Some(uuid) ==> is_random_form(uuid@)
                    &&& planned(outcome) == #[trigger] plan_for(
                        profile@,
                        subscription_views(subscriptions@),
                        fresh_id(fresh),
                    )
                },
    {
        let ghost wanted = subscription_views(subscriptions@);
        let settings = ConnectionConfig::from_profile(profile);
        let ghost settled = configured(settings);
        let outcome = ConnectPlan::with_settings(settings, subscriptions);
        proof {
            if profile@.client_id is None {
                let fresh = choose|fresh: Option<Uuid>|
                    {
                        &&& fresh matches Some(uuid) ==> is_random_form(uuid@)
                        &&& settled == #[trigger] configure(profile@, fresh_id(fresh))
                    };
                assert(planned(outcome) == plan_for(profile@, wanted, fresh_id(fresh)));
            }
        }
        outcome
    }

    /// The settings of the plan's connection.
    pub fn config(&self) -> (config: &ConnectionConfig)
        ensures
            config@ == self@.config,
    {
        &self.config
    }

    /// What the driver is to do next.
    pub fn next_action(&self) -> (action: ConnectAction)
        ensures
            action@ == next_action(self@),
    {
        match &self.phase {
            Phase::Opening => ConnectAction::Open,
            Phase::Subscribing { sent } => {
                if *sent < self.requests.len() {
                    let request = &self.requests[*sent];
                    ConnectAction::Subscribe(
                        SubscribeRequest { filter: request.filter.clone(), level: request.level },
                    )
                } else {
                    ConnectAction::Finish(Ok(()))
                }
            },
            Phase::OpenFailed { reason } => ConnectAction::Finish(
                Err(ConnectError::OpenFailed(reason.clone())),
            ),
            Phase::SubscribeFailed { filter, reason } => ConnectAction::Finish(
                Err(ConnectError::SubscribeFailed { filter: filter.clone(), reason: reason.clone() }),
            ),
        }
    }

    /// Takes the driver's report of the action it was handed last.
    pub fn advance(&mut self, outcome: Outcome)
        ensures
            final(self)@ == advance(old(self)@, outcome@),
    {
        match &self.phase {
            Phase::Opening => {
                match outcome {
                    Outcome::Done => {
                        self.phase = Phase::Subscribing { sent: 0 };
                    },
                    Outcome::Failed(reason) => {
                        self.phase = Phase::OpenFailed { reason };
                    },
                }
            },
            Phase::Subscribing { sent } => {
                let sent = *sent;
                if sent < self.requests.len() {
                    match outcome {
                        Outcome::Done => {
                            self.phase = Phase::Subscribing { sent: sent + 1 };
                        },
                        Outcome::Failed(reason) => {
                            let filter = self.requests[sent].filter.clone();
                            self.phase = Phase::SubscribeFailed { filter, reason };
                        },
                    }
                }
            },
            _ => {},
        }
    }
}

} // verus!
