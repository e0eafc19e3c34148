//! The control loop's decisions: reconciles the desired set of partner
//! configurations against the map of running sessions. The loop body runs
//! outside the library and feeds each observation in as an event; every
//! decision — what to stop, what to start, what to drop — is computed and
//! pinned down here.

use crate::session::{config_eq, spec_config_eq, PartnerConfig};
use vstd::prelude::*;

verus! {

/// How long a best-effort bookkeeping send may wait, in milliseconds.
pub const CHANNEL_SEND_TIMEOUT_MILLIS: u64 = 100;

/// One observation handed to the control loop.
#[derive(Debug)]
pub enum Event {
    /// The cooperative shutdown signal fired.
    Shutdown,
    /// A configuration fetch succeeded with this desired set.
    ConfigFetched(Vec<PartnerConfig>),
    /// A configuration fetch failed; the previous desired set stands.
    ConfigFetchFailed,
    /// The reconciliation timer fired; the carried sender handles were
    /// observed closed.
    ReconcileTick(Vec<u64>),
    /// A session finished initializing; its shutdown sender got this handle.
    SessionStarted(PartnerConfig, u64),
}

/// One order the control loop must carry out, in list order.
#[derive(Debug, PartialEq)]
pub enum Action {
    /// Send a best-effort health removal for this partner.
    SendHealthRemove(String),
    /// Send the stop command to this session's shutdown sender.
    StopSession(u64),
    /// Initialize a session for this configuration, off the loop's thread.
    StartSession(PartnerConfig),
    /// Shorten the next configuration fetch to the retry interval.
    ShortenConfigRetry,
    /// Leave the control loop.
    Exit,
}

/// Whether two orders say the same thing.
pub open spec fn spec_action_eq(a: Action, b: Action) -> bool {
    match (a, b) {
        (Action::SendHealthRemove(x), Action::SendHealthRemove(y)) => x@ == y@,
        (Action::StopSession(x), Action::StopSession(y)) => x == y,
        (Action::StartSession(x), Action::StartSession(y)) => spec_config_eq(x, y),
        (Action::ShortenConfigRetry, Action::ShortenConfigRetry) => true,
        (Action::Exit, Action::Exit) => true,
        _ => false,
    }
}

/// Whether two order lists say the same thing, order for order.
pub open spec fn spec_actions_equiv(a: Seq<Action>, b: Seq<Action>) -> bool {
    a.len() == b.len() && forall|i: int|
        0 <= i < a.len() ==> spec_action_eq(#[trigger] a[i], b[i])
}

/// Whether the list holds a configuration saying the same as this one.
pub open spec fn contains_config(list: Seq<PartnerConfig>, config: PartnerConfig) -> bool {
    exists|i: int| 0 <= i < list.len() && spec_config_eq(#[trigger] list[i], config)
}

/// Whether a tracked entry's configuration says the same as this one.
pub open spec fn senders_contain(
    senders: Seq<(PartnerConfig, u64)>,
    config: PartnerConfig,
) -> bool {
    exists|i: int| 0 <= i < senders.len() && spec_config_eq((#[trigger] senders[i]).0, config)
}

/// Whether this handle is among the observed-closed ones.
pub open spec fn closed_contains(closed: Seq<u64>, id: u64) -> bool {
    exists|i: int| 0 <= i < closed.len() && #[trigger] closed[i] == id
}

/// Whether the configurations carry pairwise distinct partner identities.
pub open spec fn spec_ids_distinct(list: Seq<PartnerConfig>) -> bool {
    forall|i: int, j: int|
        0 <= i < j < list.len() ==> (#[trigger] list[i]).partner_id@ != (
        #[trigger] list[j]).partner_id@
}

/// Whether the tracked entries carry pairwise distinct partner identities.
pub open spec fn spec_sender_ids_distinct(senders: Seq<(PartnerConfig, u64)>) -> bool {
    forall|i: int, j: int|
        0 <= i < j < senders.len() ==> (#[trigger] senders[i]).0.partner_id@ != (
        #[trigger] senders[j]).0.partner_id@
}

/// The tracked entries that survive a configuration refresh: those whose
/// configuration is still desired, in tracking order. Considers the first
/// `n` entries.
pub open spec fn spec_cleanup_senders(
    senders: Seq<(PartnerConfig, u64)>,
    desired: Seq<PartnerConfig>,
    n: int,
) -> Seq<(PartnerConfig, u64)>
    decreases n,
{
    if n <= 0 {
        Seq::empty()
    } else {
        spec_cleanup_senders(senders, desired, n - 1) + if contains_config(
            desired,
            senders[n - 1].0,
        ) {
            seq![senders[n - 1]]
        } else {
            Seq::empty()
        }
    }
}

/// The orders a configuration refresh produces: for each tracked entry that
/// is no longer desired, in tracking order, a health removal followed by a
/// stop. Considers the first `n` entries.
pub open spec fn spec_cleanup_actions(
    senders: Seq<(PartnerConfig, u64)>,
    desired: Seq<PartnerConfig>,
    n: int,
) -> Seq<Action>
    decreases n,
{
    if n <= 0 {
        Seq::empty()
    } else {
        spec_cleanup_actions(senders, desired, n - 1) + if contains_config(
            desired,
            senders[n - 1].0,
        ) {
            Seq::empty()
        } else {
            seq![
                Action::SendHealthRemove(senders[n - 1].0.partner_id),
                Action::StopSession(senders[n - 1].1),
            ]
        }
    }
}

/// The start orders for desired partners with no tracked session, in
/// desired order. Considers the first `n` desired entries.
pub open spec fn spec_missing_actions(
    desired: Seq<PartnerConfig>,
    senders: Seq<(PartnerConfig, u64)>,
    n: int,
) -> Seq<Action>
    decreases n,
{
    if n <= 0 {
        Seq::empty()
    } else {
        spec_missing_actions(desired, senders, n - 1) + if senders_contain(
            senders,
            desired[n - 1],
        ) {
            Seq::empty()
        } else {
            seq![Action::StartSession(desired[n - 1])]
        }
    }
}

/// The tracked entries whose channel was not observed closed, in tracking
/// order. Considers the first `n` entries.
pub open spec fn spec_live_senders(
    senders: Seq<(PartnerConfig, u64)>,
    closed: Seq<u64>,
    n: int,
) -> Seq<(PartnerConfig, u64)>
    decreases n,
{
    if n <= 0 {
        Seq::empty()
    } else {
        spec_live_senders(senders, closed, n - 1) + if closed_contains(closed, senders[n - 1].1) {
            Seq::empty()
        } else {
            seq![senders[n - 1]]
        }
    }
}

/// The restart orders for tracked entries whose channel was observed
/// closed, in tracking order. Considers the first `n` entries.
pub open spec fn spec_dead_actions(
    senders: Seq<(PartnerConfig, u64)>,
    closed: Seq<u64>,
    n: int,
) -> Seq<Action>
    decreases n,
{
    if n <= 0 {
        Seq::empty()
    } else {
        spec_dead_actions(senders, closed, n - 1) + if closed_contains(closed, senders[n - 1].1) {
            seq![Action::StartSession(senders[n - 1].0)]
        } else {
            Seq::empty()
        }
    }
}

/// The stop orders of a shutdown, one per tracked entry in tracking order.
pub open spec fn spec_stop_actions(senders: Seq<(PartnerConfig, u64)>, n: int) -> Seq<Action>
    decreases n,
{
    if n <= 0 {
        Seq::empty()
    } else {
        spec_stop_actions(senders, n - 1).push(Action::StopSession(senders[n - 1].1))
    }
}

/// The tracked entries after recording a started session: the first entry
/// saying the same as the started configuration gets the new handle, and a
/// new partner is appended.
pub open spec fn spec_record_sender(
    senders: Seq<(PartnerConfig, u64)>,
    config: PartnerConfig,
    id: u64,
) -> Seq<(PartnerConfig, u64)>
    decreases senders.len(),
{
    if senders.len() == 0 {
        seq![(config, id)]
    } else if spec_config_eq(senders[0].0, config) {
        seq![(senders[0].0, id)] + senders.drop_first()
    } else {
        seq![senders[0]] + spec_record_sender(senders.drop_first(), config, id)
    }
}

/// The state after one event.
pub open spec fn spec_step_state(
    desired: Option<Seq<PartnerConfig>>,
    senders: Seq<(PartnerConfig, u64)>,
    event: Event,
) -> (Option<Seq<PartnerConfig>>, Seq<(PartnerConfig, u64)>) {
    match event {
        Event::Shutdown => (desired, Seq::empty()),
        Event::ConfigFetched(list) => (
            Some(list@),
            spec_cleanup_senders(senders, list@, senders.len() as int),
        ),
        Event::ConfigFetchFailed => (desired, senders),
        Event::ReconcileTick(closed) => match desired {
            None => (desired, senders),
            Some(_) => (desired, spec_live_senders(senders, closed@, senders.len() as int)),
        },
        Event::SessionStarted(config, id) => (desired, spec_record_sender(senders, config, id)),
    }
}

/// The orders one event produces, in the order they must be carried out.
pub open spec fn spec_step_actions(
    desired: Option<Seq<PartnerConfig>>,
    senders: Seq<(PartnerConfig, u64)>,
    event: Event,
) -> Seq<Action> {
    match event {
        Event::Shutdown => spec_stop_actions(senders, senders.len() as int).push(Action::Exit),
        Event::ConfigFetched(list) => spec_cleanup_actions(senders, list@, senders.len() as int),
        Event::ConfigFetchFailed => seq![Action::ShortenConfigRetry],
        Event::ReconcileTick(closed) => match desired {
            None => Seq::empty(),
            Some(d) => spec_missing_actions(d, senders, d.len() as int) + spec_dead_actions(
                senders,
                closed@,
                senders.len() as int,
            ),
        },
        Event::SessionStarted(_, _) => Seq::empty(),
    }
}

/// The control loop's state: the desired set, absent until a fetch first
/// succeeds, and the map from running partner configuration to its
/// shutdown-sender handle.
#[derive(Debug)]
pub struct SessionManager {
    partners_config: Option<Vec<PartnerConfig>>,
    session_senders: Vec<(PartnerConfig, u64)>,
}

impl SessionManager {
    /// The desired set, as fetched.
    pub closed spec fn desired(&self) -> Option<Seq<PartnerConfig>> {
        match self.partners_config {
            Some(list) => Some(list@),
            None => None,
        }
    }

    /// The tracked sessions: configuration and shutdown-sender handle.
    pub closed spec fn actual(&self) -> Seq<(PartnerConfig, u64)> {
        self.session_senders@
    }

    /// Partner identities are unique keys, in the desired set and among the
    /// tracked sessions.
    pub open spec fn wf(&self) -> bool {
        &&& spec_sender_ids_distinct(self.actual())
        &&& match self.desired() {
            Some(d) => spec_ids_distinct(d),
            None => true,
        }
    }

    /// A fresh manager: nothing desired yet, nothing tracked.
    pub fn new() -> (r: SessionManager)
        ensures
            r.wf(),
            r.desired() is None,
            r.actual() == Seq::<(PartnerConfig, u64)>::empty(),
    {
        SessionManager { partners_config: None, session_senders: Vec::new() }
    }

    /// What is required of an event before it is stepped: a fetched desired
    /// set keys partners uniquely, and a started session does not smuggle in
    /// a second configuration for a tracked partner identity.
    pub open spec fn event_wf(&self, event: Event) -> bool {
        match event {
            Event::ConfigFetched(list) => spec_ids_distinct(list@),
            Event::SessionStarted(config, _) => forall|j: int|
                0 <= j < self.actual().len() && (#[trigger] self.actual()[j]).0.partner_id@
                    == config.partner_id@ ==> spec_config_eq(self.actual()[j].0, config),
            _ => true,
        }
    }

    /// Steps the control loop by one event: the new state and the produced
    /// orders are exactly what [`spec_step_state`] and [`spec_step_actions`]
    /// say for the old state.
    #[verifier::loop_isolation(false)]
    pub fn step(&mut self, event: Event) -> (actions: Vec<Action>)
        requires
            old(self).wf(),
            old(self).event_wf(event),
        ensures
            final(self).wf(),
            final(self).desired() == spec_step_state(
                old(self).desired(),
                old(self).actual(),
                event,
            ).0,
            final(self).actual() == spec_step_state(
                old(self).desired(),
                old(self).actual(),
                event,
            ).1,
            spec_actions_equiv(
                actions@,
                spec_step_actions(old(self).desired(), old(self).actual(), event),
            ),
    {
        match event {
            Event::Shutdown => self.on_shutdown(),
            Event::ConfigFetched(list) => self.on_config_fetched(list),
            Event::ConfigFetchFailed => {
                let mut actions: Vec<Action> = Vec::new();
                actions.push(Action::ShortenConfigRetry);
                actions
            },
            Event::ReconcileTick(closed) => self.on_reconcile_tick(closed),
            Event::SessionStarted(config, id) => self.on_session_started(config, id),
        }
    }

    /// Shutdown branch: stop every tracked session and leave the loop.
    #[verifier::loop_isolation(false)]
    fn on_shutdown(&mut self) -> (actions: Vec<Action>)
        requires
            old(self).wf(),
        ensures
            final(self).wf(),
            final(self).desired() == old(self).desired(),
            final(self).actual() == Seq::<(PartnerConfig, u64)>::empty(),
            spec_actions_equiv(
                actions@,
                spec_stop_actions(old(self).actual(), old(self).actual().len() as int).push(
                    Action::Exit,
                ),
            ),
    {
        let ghost orig = self.session_senders@;
        let mut actions: Vec<Action> = Vec::new();
        let mut i: usize = 0;
        while i < self.session_senders.len()
            invariant
                self.session_senders@ == orig,
                i <= orig.len(),
                actions@ == spec_stop_actions(orig, i as int),
            decreases orig.len() - i,
        {
            actions.push(Action::StopSession(self.session_senders[i].1));
            i += 1;
        }
        self.session_senders = Vec::new();
        actions.push(Action::Exit);
        actions
    }

    /// Configuration refresh branch: install the new desired set, then drop
    /// and stop every tracked session it no longer asks for, removing its
    /// health record first.
    #[verifier::loop_isolation(false)]
    fn on_config_fetched(&mut self, list: Vec<PartnerConfig>) -> (actions: Vec<Action>)
        requires
            old(self).wf(),
            spec_ids_distinct(list@),
        ensures
            final(self).wf(),
            final(self).desired() == Some(list@),
            final(self).actual() == spec_cleanup_senders(
                old(self).actual(),
                list@,
                old(self).actual().len() as int,
            ),
            spec_actions_equiv(
                actions@,
                spec_cleanup_actions(old(self).actual(), list@, old(self).actual().len() as int),
            ),
    {
        let ghost orig = self.session_senders@;
        let mut old_senders: Vec<(PartnerConfig, u64)> = Vec::new();
        core::mem::swap(&mut old_senders, &mut self.session_senders);
        let mut actions: Vec<Action> = Vec::new();
        let total = old_senders.len();
        let mut k: usize = 0;
        while old_senders.len() > 0
            invariant
                self.partners_config == old(self).partners_config,
                k <= orig.len(),
                orig.len() == total,
                old_senders@.len() == orig.len() - k,
                old_senders@ == orig.subrange(k as int, orig.len() as int),
                self.session_senders@ == spec_cleanup_senders(orig, list@, k as int),
                spec_actions_equiv(actions@, spec_cleanup_actions(orig, list@, k as int)),
            decreases old_senders@.len(),
        {
            proof {
                assert(orig.subrange(k as int, orig.len() as int)[0] == orig[k as int]);
            }
            let entry = old_senders.remove(0);
            proof {
                assert(old_senders@ =~= orig.subrange(k as int + 1, orig.len() as int));
            }
            let keep = contains_config_exec(&list, &entry.0);
            if keep {
                self.session_senders.push(entry);
            } else {
                actions.push(Action::SendHealthRemove(entry.0.partner_id.clone()));
                actions.push(Action::StopSession(entry.1));
            }
            k += 1;
        }
        proof {
            lemma_cleanup_senders_entries(orig, list@, orig.len() as int);
        }
        self.partners_config = Some(list);
        actions
    }

    /// Reconciliation branch: if a desired set was ever fetched, start the
    /// desired partners with no tracked session, then drop and restart the
    /// tracked sessions whose channel was observed closed.
    #[verifier::loop_isolation(false)]
    fn on_reconcile_tick(&mut self, closed: Vec<u64>) -> (actions: Vec<Action>)
        requires
            old(self).wf(),
        ensures
            final(self).wf(),
            final(self).desired() == old(self).desired(),
            final(self).actual() == spec_step_state(
                old(self).desired(),
                old(self).actual(),
                Event::ReconcileTick(closed),
            ).1,
            spec_actions_equiv(
                actions@,
                spec_step_actions(old(self).desired(), old(self).actual(), Event::ReconcileTick(closed)),
            ),
    {
        let ghost orig = self.session_senders@;
        let mut actions: Vec<Action> = Vec::new();
        let desired = match &self.partners_config {
            None => {
                return actions;
            },
            Some(desired) => desired,
        };
        let ghost d = desired@;
        let mut i: usize = 0;
        while i < desired.len()
            invariant
                i <= d.len(),
                self.session_senders@ == orig,
                spec_actions_equiv(actions@, spec_missing_actions(d, orig, i as int)),
            decreases d.len() - i,
        {
            if !senders_contain_exec(&self.session_senders, &desired[i]) {
                actions.push(Action::StartSession(desired[i].clone()));
            }
            i += 1;
        }
        let mut old_senders: Vec<(PartnerConfig, u64)> = Vec::new();
        core::mem::swap(&mut old_senders, &mut self.session_senders);
        let total = old_senders.len();
        let ghost missing_done = actions@;
        let mut k: usize = 0;
        while old_senders.len() > 0
            invariant
                self.partners_config == old(self).partners_config,
                k <= orig.len(),
                orig.len() == total,
                old_senders@.len() == orig.len() - k,
                old_senders@ == orig.subrange(k as int, orig.len() as int),
                self.session_senders@ == spec_live_senders(orig, closed@, k as int),
                actions@.len() >= missing_done.len(),
                actions@.subrange(0, missing_done.len() as int) == missing_done,
                spec_actions_equiv(
                    actions@.skip(missing_done.len() as int),
                    spec_dead_actions(orig, closed@, k as int),
                ),
                spec_actions_equiv(missing_done, spec_missing_actions(d, orig, d.len() as int)),
            decreases old_senders@.len(),
        {
            proof {
                assert(orig.subrange(k as int, orig.len() as int)[0] == orig[k as int]);
            }
            let entry = old_senders.remove(0);
            let ghost previous_actions = actions@;
            proof {
                assert(old_senders@ =~= orig.subrange(k as int + 1, orig.len() as int));
            }
            if closed_contains_exec(&closed, entry.1) {
                proof {
                    crate::session::lemma_config_eq_reflexive(entry.0);
                }
                actions.push(Action::StartSession(entry.0));
                proof {
                    assert(actions@.skip(missing_done.len() as int) =~= previous_actions.skip(
                        missing_done.len() as int,
                    ).push(actions@.last()));
                }
            } else {
                self.session_senders.push(entry);
            }
            proof {
                assert(actions@.subrange(0, missing_done.len() as int) =~= missing_done);
            }
            k += 1;
        }
        proof {
            lemma_live_senders_entries(orig, closed@, orig.len() as int);
            assert(actions@ =~= actions@.subrange(0, missing_done.len() as int) + actions@.skip(
                missing_done.len() as int,
            ));
        }
        actions
    }

    /// Bookkeeping branch: record a started session's shutdown sender,
    /// replacing the tracked handle of the same configuration if one is
    /// still there.
    #[verifier::loop_isolation(false)]
    fn on_session_started(&mut self, config: PartnerConfig, id: u64) -> (actions: Vec<Action>)
        requires
            old(self).wf(),
            forall|j: int|
                0 <= j < old(self).actual().len() && (#[trigger] old(
                    self,
                ).actual()[j]).0.partner_id@ == config.partner_id@ ==> spec_config_eq(
                    old(self).actual()[j].0,
                    config,
                ),
        ensures
            final(self).wf(),
            final(self).desired() == old(self).desired(),
            final(self).actual() == spec_record_sender(old(self).actual(), config, id),
            actions@ == Seq::<Action>::empty(),
    {
        let ghost orig = self.session_senders@;
        let mut j: usize = 0;
        while j < self.session_senders.len()
            invariant
                self.partners_config == old(self).partners_config,
                self.session_senders@ == orig,
                j <= orig.len(),
                forall|m: int| 0 <= m < j ==> !spec_config_eq((#[trigger] orig[m]).0, config),
            decreases orig.len() - j,
        {
            if config_eq(&self.session_senders[j].0, &config) {
                self.session_senders[j].1 = id;
                proof {
                    assert(self.session_senders@ =~= orig.update(
                        j as int,
                        (orig[j as int].0, id),
                    ));
                    lemma_record_sender_found(orig, config, id, j as int);
                    assert forall|p: int, q: int|
                        0 <= p < q < self.session_senders@.len() implies (
                    #[trigger] self.session_senders@[p]).0.partner_id@ != (
                    #[trigger] self.session_senders@[q]).0.partner_id@ by {
                        assert(self.session_senders@[p].0 == orig[p].0);
                        assert(self.session_senders@[q].0 == orig[q].0);
                    }
                }
                return Vec::new();
            }
            j += 1;
        }
        proof {
            lemma_record_sender_appended(orig, config, id);
        }
        self.session_senders.push((config, id));
        proof {
            assert forall|p: int, q: int|
                0 <= p < q < self.session_senders@.len() implies (
            #[trigger] self.session_senders@[p]).0.partner_id@ != (
            #[trigger] self.session_senders@[q]).0.partner_id@ by {
                if q == orig.len() {
                    if self.session_senders@[p].0.partner_id@ == config.partner_id@ {
                        assert(spec_config_eq(orig[p].0, config));
                    }
                } else {
                    assert(self.session_senders@[p].0 == orig[p].0);
                    assert(self.session_senders@[q].0 == orig[q].0);
                }
            }
        }
        Vec::new()
    }
}

/// Decides whether the list holds a configuration saying the same as this.
fn contains_config_exec(list: &Vec<PartnerConfig>, config: &PartnerConfig) -> (r: bool)
    ensures
        r == contains_config(list@, *config),
{
    let mut i: usize = 0;
    while i < list.len()
        invariant
            i <= list@.len(),
            forall|j: int| 0 <= j < i ==> !spec_config_eq(#[trigger] list@[j], *config),
        decreases list@.len() - i,
    {
        if config_eq(&list[i], config) {
            return true;
        }
        i += 1;
    }
    false
}

/// Decides whether a tracked entry's configuration says the same as this.
fn senders_contain_exec(senders: &Vec<(PartnerConfig, u64)>, config: &PartnerConfig) -> (r: bool)
    ensures
        r == senders_contain(senders@, *config),
{
    let mut i: usize = 0;
    while i < senders.len()
        invariant
            i <= senders@.len(),
            forall|j: int| 0 <= j < i ==> !spec_config_eq((#[trigger] senders@[j]).0, *config),
        decreases senders@.len() - i,
    {
        if config_eq(&senders[i].0, config) {
            return true;
        }
        i += 1;
    }
    false
}

/// Decides whether this handle was observed closed.
fn closed_contains_exec(closed: &Vec<u64>, id: u64) -> (r: bool)
    ensures
        r == closed_contains(closed@, id),
{
    let mut i: usize = 0;
    while i < closed.len()
        invariant
            i <= closed@.len(),
            forall|j: int| 0 <= j < i ==> #[trigger] closed@[j] != id,
        decreases closed@.len() - i,
    {
        if closed[i] == id {
            return true;
        }
        i += 1;
    }
    false
}

/// Every entry a refresh keeps stood, in order, among the first `n` tracked
/// entries, and the kept entries still carry distinct partner identities.
pub proof fn lemma_cleanup_senders_entries(
    senders: Seq<(PartnerConfig, u64)>,
    desired: Seq<PartnerConfig>,
    n: int,
)
    requires
        0 <= n <= senders.len(),
    ensures
        forall|p: int|
            0 <= p < spec_cleanup_senders(senders, desired, n).len() ==> exists|i: int|
                0 <= i < n && senders[i] == #[trigger] spec_cleanup_senders(senders, desired, n)[p],
        spec_sender_ids_distinct(senders) ==> spec_sender_ids_distinct(
            spec_cleanup_senders(senders, desired, n),
        ),
    decreases n,
{
    if n > 0 {
        lemma_cleanup_senders_entries(senders, desired, n - 1);
        let prev = spec_cleanup_senders(senders, desired, n - 1);
        let cur = spec_cleanup_senders(senders, desired, n);
        assert forall|p: int| 0 <= p < cur.len() implies exists|i: int|
            0 <= i < n && senders[i] == #[trigger] cur[p] by {
            if p < prev.len() {
                assert(cur[p] == prev[p]);
                let i = choose|i: int| 0 <= i < n - 1 && senders[i] == prev[p];
                assert(senders[i] == cur[p]);
            } else {
                assert(senders[n - 1] == cur[p]);
            }
        }
        if spec_sender_ids_distinct(senders) {
            assert forall|p: int, q: int| 0 <= p < q < cur.len() implies (
            #[trigger] cur[p]).0.partner_id@ != (#[trigger] cur[q]).0.partner_id@ by {
                let i = choose|i: int| 0 <= i < n && senders[i] == cur[p];
                let j = choose|j: int| 0 <= j < n && senders[j] == cur[q];
                if q < prev.len() {
                } else {
                    assert(cur[q] == senders[n - 1]);
                    let i2 = choose|i2: int| 0 <= i2 < n - 1 && senders[i2] == prev[p];
                    assert(senders[i2].0.partner_id@ != senders[n - 1].0.partner_id@);
                }
            }
        }
    }
}

/// Every entry a tick keeps stood, in order, among the first `n` tracked
/// entries, and the kept entries still carry distinct partner identities.
pub proof fn lemma_live_senders_entries(
    senders: Seq<(PartnerConfig, u64)>,
    closed: Seq<u64>,
    n: int,
)
    requires
        0 <= n <= senders.len(),
    ensures
        forall|p: int|
            0 <= p < spec_live_senders(senders, closed, n).len() ==> exists|i: int|
                0 <= i < n && senders[i] == #[trigger] spec_live_senders(senders, closed, n)[p],
        spec_sender_ids_distinct(senders) ==> spec_sender_ids_distinct(
            spec_live_senders(senders, closed, n),
        ),
    decreases n,
{
    if n > 0 {
        lemma_live_senders_entries(senders, closed, n - 1);
        let prev = spec_live_senders(senders, closed, n - 1);
        let cur = spec_live_senders(senders, closed, n);
        assert forall|p: int| 0 <= p < cur.len() implies exists|i: int|
            0 <= i < n && senders[i] == #[trigger] cur[p] by {
            if p < prev.len() {
                assert(cur[p] == prev[p]);
                let i = choose|i: int| 0 <= i < n - 1 && senders[i] == prev[p];
                assert(senders[i] == cur[p]);
            } else {
                assert(senders[n - 1] == cur[p]);
            }
        }
        if spec_sender_ids_distinct(senders) {
            assert forall|p: int, q: int| 0 <= p < q < cur.len() implies (
            #[trigger] cur[p]).0.partner_id@ != (#[trigger] cur[q]).0.partner_id@ by {
                let i = choose|i: int| 0 <= i < n && senders[i] == cur[p];
                let j = choose|j: int| 0 <= j < n && senders[j] == cur[q];
                if q < prev.len() {
                } else {
                    assert(cur[q] == senders[n - 1]);
                    let i2 = choose|i2: int| 0 <= i2 < n - 1 && senders[i2] == prev[p];
                    assert(senders[i2].0.partner_id@ != senders[n - 1].0.partner_id@);
                }
            }
        }
    }
}

/// How many start orders the list holds for configurations saying the same
/// as this one.
pub open spec fn spec_count_starts(actions: Seq<Action>, config: PartnerConfig) -> int
    decreases actions.len(),
{
    if actions.len() == 0 {
        0
    } else {
        spec_count_starts(actions.drop_last(), config) + match actions.last() {
            Action::StartSession(c) => if spec_config_eq(c, config) {
                1int
            } else {
                0int
            },
            _ => 0int,
        }
    }
}

/// How many health-removal orders the list holds for this partner identity.
pub open spec fn spec_count_removes(actions: Seq<Action>, partner_id: Seq<char>) -> int
    decreases actions.len(),
{
    if actions.len() == 0 {
        0
    } else {
        spec_count_removes(actions.drop_last(), partner_id) + match actions.last() {
            Action::SendHealthRemove(p) => if p@ == partner_id {
                1int
            } else {
                0int
            },
            _ => 0int,
        }
    }
}

/// Start counts add up over concatenation.
proof fn lemma_count_starts_concat(a: Seq<Action>, b: Seq<Action>, config: PartnerConfig)
    ensures
        spec_count_starts(a + b, config) == spec_count_starts(a, config) + spec_count_starts(
            b,
            config,
        ),
    decreases b.len(),
{
    if b.len() == 0 {
        assert(a + b =~= a);
    } else {
        lemma_count_starts_concat(a, b.drop_last(), config);
        assert((a + b).drop_last() =~= a + b.drop_last());
        assert((a + b).last() == b.last());
    }
}

/// A failed configuration fetch leaves the desired set and every tracked
/// session exactly as they were, and only shortens the retry interval: no
/// running session is stopped on its account.
pub proof fn lemma_fetch_failure_preserves_state(
    desired: Option<Seq<PartnerConfig>>,
    senders: Seq<(PartnerConfig, u64)>,
)
    ensures
        spec_step_state(desired, senders, Event::ConfigFetchFailed) == (desired, senders),
        spec_step_actions(desired, senders, Event::ConfigFetchFailed) == seq![
            Action::ShortenConfigRetry,
        ],
{
}

/// Counting helper for a refresh: a no-longer-desired tracked partner gets
/// exactly one health removal, immediately followed by its stop order.
proof fn lemma_cleanup_counts(
    senders: Seq<(PartnerConfig, u64)>,
    desired: Seq<PartnerConfig>,
    n: int,
    j: int,
)
    requires
        spec_sender_ids_distinct(senders),
        0 <= j < senders.len(),
        !contains_config(desired, senders[j].0),
        0 <= n <= senders.len(),
    ensures
        spec_count_removes(spec_cleanup_actions(senders, desired, n), senders[j].0.partner_id@)
            == if j < n {
            1int
        } else {
            0int
        },
        j < n ==> exists|k: int|
            {
                &&& 0 <= k
                &&& k + 1 < spec_cleanup_actions(senders, desired, n).len()
                &&& #[trigger] spec_cleanup_actions(senders, desired, n)[k]
                    == Action::SendHealthRemove(senders[j].0.partner_id)
                &&& spec_cleanup_actions(senders, desired, n)[k + 1] == Action::StopSession(
                    senders[j].1,
                )
            },
    decreases n,
{
    if n > 0 {
        lemma_cleanup_counts(senders, desired, n - 1, j);
        let prev = spec_cleanup_actions(senders, desired, n - 1);
        let cur = spec_cleanup_actions(senders, desired, n);
        if contains_config(desired, senders[n - 1].0) {
            assert(cur =~= prev);
            if n - 1 == j {
                assert(false);
            }
        } else {
            assert(cur.drop_last() =~= prev.push(
                Action::SendHealthRemove(senders[n - 1].0.partner_id),
            ));
            assert(cur.drop_last().drop_last() =~= prev);
            assert(cur.len() == prev.len() + 2);
            assert(cur.last() == Action::StopSession(senders[n - 1].1));
            assert(cur.drop_last().last() == Action::SendHealthRemove(
                senders[n - 1].0.partner_id,
            ));
            assert(cur[prev.len() as int] == Action::SendHealthRemove(
                senders[n - 1].0.partner_id,
            ));
            assert(cur[prev.len() as int + 1] == Action::StopSession(senders[n - 1].1));
            let pid = senders[j].0.partner_id@;
            if n - 1 == j {
                assert(spec_count_removes(cur.drop_last(), pid) == spec_count_removes(prev, pid)
                    + 1);
                assert(spec_count_removes(cur, pid) == spec_count_removes(cur.drop_last(), pid));
            } else {
                assert(senders[n - 1].0.partner_id@ != pid);
                assert(spec_count_removes(cur.drop_last(), pid) == spec_count_removes(prev, pid));
                assert(spec_count_removes(cur, pid) == spec_count_removes(cur.drop_last(), pid));
            }
            if j < n - 1 {
                let k = choose|k: int|
                    {
                        &&& 0 <= k
                        &&& k + 1 < prev.len()
                        &&& #[trigger] prev[k] == Action::SendHealthRemove(senders[j].0.partner_id)
                        &&& prev[k + 1] == Action::StopSession(senders[j].1)
                    };
                assert(cur[k] == Action::SendHealthRemove(senders[j].0.partner_id));
                assert(cur[k + 1] == Action::StopSession(senders[j].1));
            }
        }
    }
}

/// A partner dropped from the desired set is told goodbye exactly once per
/// refresh: one health removal, immediately followed by its stop order, and
/// its entry leaves the tracked map in the same step.
pub proof fn lemma_removed_partner_stopped(
    senders: Seq<(PartnerConfig, u64)>,
    desired: Seq<PartnerConfig>,
    j: int,
)
    requires
        spec_sender_ids_distinct(senders),
        0 <= j < senders.len(),
        !contains_config(desired, senders[j].0),
    ensures
        spec_count_removes(
            spec_cleanup_actions(senders, desired, senders.len() as int),
            senders[j].0.partner_id@,
        ) == 1,
        exists|k: int|
            {
                &&& 0 <= k
                &&& k + 1 < spec_cleanup_actions(senders, desired, senders.len() as int).len()
                &&& #[trigger] spec_cleanup_actions(senders, desired, senders.len() as int)[k]
                    == Action::SendHealthRemove(senders[j].0.partner_id)
                &&& spec_cleanup_actions(senders, desired, senders.len() as int)[k + 1]
                    == Action::StopSession(senders[j].1)
            },
        !senders_contain(
            spec_cleanup_senders(senders, desired, senders.len() as int),
            senders[j].0,
        ),
    decreases senders.len(),
{
    lemma_cleanup_counts(senders, desired, senders.len() as int, j);
    lemma_cleanup_senders_entries(senders, desired, senders.len() as int);
    let kept = spec_cleanup_senders(senders, desired, senders.len() as int);
    if senders_contain(kept, senders[j].0) {
        let p = choose|p: int| 0 <= p < kept.len() && spec_config_eq((#[trigger] kept[p]).0, senders[j].0);
        let i = choose|i: int| 0 <= i < senders.len() && senders[i] == kept[p];
        lemma_kept_entry_is_desired(senders, desired, senders.len() as int, p);
        if i != j {
            assert(senders[i].0.partner_id@ != senders[j].0.partner_id@);
        }
        assert(false);
    }
}

/// Every entry a refresh keeps has a desired configuration.
proof fn lemma_kept_entry_is_desired(
    senders: Seq<(PartnerConfig, u64)>,
    desired: Seq<PartnerConfig>,
    n: int,
    p: int,
)
    requires
        0 <= n <= senders.len(),
        0 <= p < spec_cleanup_senders(senders, desired, n).len(),
    ensures
        contains_config(desired, spec_cleanup_senders(senders, desired, n)[p].0),
    decreases n,
{
    if n > 0 {
        let prev = spec_cleanup_senders(senders, desired, n - 1);
        if p < prev.len() {
            lemma_kept_entry_is_desired(senders, desired, n - 1, p);
        }
    }
}

/// Counting helper for a tick: the restart orders hold exactly one start
/// for a tracked partner whose channel was observed closed.
proof fn lemma_dead_counts(
    senders: Seq<(PartnerConfig, u64)>,
    closed: Seq<u64>,
    n: int,
    j: int,
)
    requires
        spec_sender_ids_distinct(senders),
        0 <= j < senders.len(),
        closed_contains(closed, senders[j].1),
    ensures
        0 <= n <= senders.len() ==> spec_count_starts(
            spec_dead_actions(senders, closed, n),
            senders[j].0,
        ) == if j < n {
            1int
        } else {
            0int
        },
    decreases n,
{
    if 0 < n <= senders.len() {
        lemma_dead_counts(senders, closed, n - 1, j);
        let prev = spec_dead_actions(senders, closed, n - 1);
        let cur = spec_dead_actions(senders, closed, n);
        if closed_contains(closed, senders[n - 1].1) {
            assert(cur.drop_last() =~= prev);
            assert(cur.last() == Action::StartSession(senders[n - 1].0));
            if n - 1 == j {
                crate::session::lemma_config_eq_reflexive(senders[j].0);
            } else {
                if spec_config_eq(senders[n - 1].0, senders[j].0) {
                    assert(senders[n - 1].0.partner_id@ == senders[j].0.partner_id@);
                    assert(false);
                }
            }
        } else {
            assert(cur =~= prev);
            if n - 1 == j {
                assert(false);
            }
        }
    }
}

/// The start orders for missing partners never start a partner that still
/// has a tracked entry.
proof fn lemma_missing_no_start_for_tracked(
    desired: Seq<PartnerConfig>,
    senders: Seq<(PartnerConfig, u64)>,
    n: int,
    j: int,
)
    requires
        0 <= j < senders.len(),
        0 <= n <= desired.len(),
    ensures
        spec_count_starts(spec_missing_actions(desired, senders, n), senders[j].0) == 0,
    decreases n,
{
    if n > 0 {
        lemma_missing_no_start_for_tracked(desired, senders, n - 1, j);
        let prev = spec_missing_actions(desired, senders, n - 1);
        let cur = spec_missing_actions(desired, senders, n);
        if senders_contain(senders, desired[n - 1]) {
            assert(cur =~= prev);
        } else {
            assert(cur.drop_last() =~= prev);
            assert(cur.last() == Action::StartSession(desired[n - 1]));
            if spec_config_eq(desired[n - 1], senders[j].0) {
                crate::session::lemma_config_eq_symmetric(desired[n - 1], senders[j].0);
                assert(spec_config_eq(senders[j].0, desired[n - 1]));
                assert(false);
            }
        }
    }
}

/// A tracked partner whose channel reports closed is removed and restarted
/// exactly once by the tick: the tick's orders hold exactly one start for
/// its configuration, and its entry leaves the tracked map in the same
/// step; a repetition of the tick while the restart is pending starts it
/// exactly once again through the missing-partner path.
pub proof fn lemma_dead_session_restarted_once(
    desired: Seq<PartnerConfig>,
    senders: Seq<(PartnerConfig, u64)>,
    closed: Seq<u64>,
    j: int,
)
    requires
        spec_sender_ids_distinct(senders),
        0 <= j < senders.len(),
        closed_contains(closed, senders[j].1),
    ensures
        spec_count_starts(
            spec_missing_actions(desired, senders, desired.len() as int) + spec_dead_actions(
                senders,
                closed,
                senders.len() as int,
            ),
            senders[j].0,
        ) == 1,
        !senders_contain(spec_live_senders(senders, closed, senders.len() as int), senders[j].0),
{
    lemma_count_starts_concat(
        spec_missing_actions(desired, senders, desired.len() as int),
        spec_dead_actions(senders, closed, senders.len() as int),
        senders[j].0,
    );
    lemma_missing_no_start_for_tracked(desired, senders, desired.len() as int, j);
    lemma_dead_counts(senders, closed, senders.len() as int, j);
    lemma_live_senders_entries(senders, closed, senders.len() as int);
    let kept = spec_live_senders(senders, closed, senders.len() as int);
    if senders_contain(kept, senders[j].0) {
        let p = choose|p: int| 0 <= p < kept.len() && spec_config_eq((#[trigger] kept[p]).0, senders[j].0);
        let i = choose|i: int| 0 <= i < senders.len() && senders[i] == kept[p];
        lemma_kept_entry_is_live(senders, closed, senders.len() as int, p);
        if i == j {
            assert(false);
        } else {
            assert(senders[i].0.partner_id@ != senders[j].0.partner_id@);
            assert(false);
        }
    }
}

/// Every entry a tick keeps has a channel that was not observed closed.
proof fn lemma_kept_entry_is_live(
    senders: Seq<(PartnerConfig, u64)>,
    closed: Seq<u64>,
    n: int,
    p: int,
)
    requires
        0 <= n <= senders.len(),
        0 <= p < spec_live_senders(senders, closed, n).len(),
    ensures
        !closed_contains(closed, spec_live_senders(senders, closed, n)[p].1),
    decreases n,
{
    if n > 0 {
        let prev = spec_live_senders(senders, closed, n - 1);
        if p < prev.len() {
            lemma_kept_entry_is_live(senders, closed, n - 1, p);
        }
    }
}

/// The missing-partner path starts a desired, untracked partner exactly
/// once per tick.
proof fn lemma_missing_start_once(
    desired: Seq<PartnerConfig>,
    senders: Seq<(PartnerConfig, u64)>,
    n: int,
    i: int,
)
    requires
        spec_ids_distinct(desired),
        0 <= i < desired.len(),
        !senders_contain(senders, desired[i]),
        0 <= n <= desired.len(),
    ensures
        spec_count_starts(spec_missing_actions(desired, senders, n), desired[i]) == if i < n {
            1int
        } else {
            0int
        },
    decreases n,
{
    if n > 0 {
        lemma_missing_start_once(desired, senders, n - 1, i);
        let prev = spec_missing_actions(desired, senders, n - 1);
        let cur = spec_missing_actions(desired, senders, n);
        if senders_contain(senders, desired[n - 1]) {
            assert(cur =~= prev);
            if n - 1 == i {
                assert(false);
            }
        } else {
            assert(cur.drop_last() =~= prev);
            assert(cur.last() == Action::StartSession(desired[n - 1]));
            if n - 1 == i {
                crate::session::lemma_config_eq_reflexive(desired[i]);
            } else {
                if spec_config_eq(desired[n - 1], desired[i]) {
                    assert(desired[n - 1].partner_id@ == desired[i].partner_id@);
                    assert(false);
                }
            }
        }
    }
}

/// A configuration change that replaces one partner's entry restarts that
/// partner's session fully, never in place: the refresh says goodbye to the
/// old configuration exactly once (health removal, then stop, entry
/// dropped), and the following tick starts the new configuration exactly
/// once through the missing-partner path.
pub proof fn lemma_config_change_restarts(
    senders: Seq<(PartnerConfig, u64)>,
    new_desired: Seq<PartnerConfig>,
    j: int,
    i: int,
)
    requires
        spec_sender_ids_distinct(senders),
        spec_ids_distinct(new_desired),
        0 <= j < senders.len(),
        !contains_config(new_desired, senders[j].0),
        0 <= i < new_desired.len(),
        !senders_contain(senders, new_desired[i]),
    ensures
        spec_count_removes(
            spec_cleanup_actions(senders, new_desired, senders.len() as int),
            senders[j].0.partner_id@,
        ) == 1,
        !senders_contain(
            spec_cleanup_senders(senders, new_desired, senders.len() as int),
            senders[j].0,
        ),
        spec_count_starts(
            spec_missing_actions(
                new_desired,
                spec_cleanup_senders(senders, new_desired, senders.len() as int),
                new_desired.len() as int,
            ),
            new_desired[i],
        ) == 1,
{
    lemma_removed_partner_stopped(senders, new_desired, j);
    let kept = spec_cleanup_senders(senders, new_desired, senders.len() as int);
    lemma_cleanup_senders_entries(senders, new_desired, senders.len() as int);
    if senders_contain(kept, new_desired[i]) {
        let p = choose|p: int|
            0 <= p < kept.len() && spec_config_eq((#[trigger] kept[p]).0, new_desired[i]);
        let m = choose|m: int| 0 <= m < senders.len() && senders[m] == kept[p];
        assert(spec_config_eq(senders[m].0, new_desired[i]));
        assert(false);
    }
    lemma_missing_start_once(new_desired, kept, new_desired.len() as int, i);
}

/// Recording a session for a tracked configuration updates that entry's
/// handle in place.
proof fn lemma_record_sender_found(
    senders: Seq<(PartnerConfig, u64)>,
    config: PartnerConfig,
    id: u64,
    j: int,
)
    requires
        0 <= j < senders.len(),
        spec_config_eq(senders[j].0, config),
        forall|m: int| 0 <= m < j ==> !spec_config_eq((#[trigger] senders[m]).0, config),
    ensures
        spec_record_sender(senders, config, id) == senders.update(j, (senders[j].0, id)),
    decreases senders.len(),
{
    if j == 0 {
        assert(spec_record_sender(senders, config, id) =~= senders.update(
            0,
            (senders[0].0, id),
        ));
    } else {
        assert(senders.drop_first()[j - 1] == senders[j]);
        assert forall|m: int| 0 <= m < j - 1 implies !spec_config_eq(
            (#[trigger] senders.drop_first()[m]).0,
            config,
        ) by {
            assert(senders.drop_first()[m] == senders[m + 1]);
        }
        lemma_record_sender_found(senders.drop_first(), config, id, j - 1);
        assert(spec_record_sender(senders, config, id) =~= senders.update(
            j,
            (senders[j].0, id),
        ));
    }
}

/// Recording a session for an untracked configuration appends it.
proof fn lemma_record_sender_appended(
    senders: Seq<(PartnerConfig, u64)>,
    config: PartnerConfig,
    id: u64,
)
    requires
        forall|m: int|
            0 <= m < senders.len() ==> !spec_config_eq((#[trigger] senders[m]).0, config),
    ensures
        spec_record_sender(senders, config, id) == senders.push((config, id)),
    decreases senders.len(),
{
    if senders.len() == 0 {
        assert(spec_record_sender(senders, config, id) =~= senders.push((config, id)));
    } else {
        assert forall|m: int| 0 <= m < senders.drop_first().len() implies !spec_config_eq(
            (#[trigger] senders.drop_first()[m]).0,
            config,
        ) by {
            assert(senders.drop_first()[m] == senders[m + 1]);
        }
        lemma_record_sender_appended(senders.drop_first(), config, id);
        assert(spec_record_sender(senders, config, id) =~= senders.push((config, id)));
    }
}

} // verus!
