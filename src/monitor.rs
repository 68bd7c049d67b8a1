//! Change detection and the decisions of one polling cycle.
//!
//! A cycle goes: enumerate the interfaces, select the VPN candidates, take
//! the first candidate that differs from the last reported state, report it,
//! and commit it only once the endpoint has acknowledged it. The caller runs
//! the cycles: it enumerates, sends the report that `Monitor::plan` asks for,
//! hands the outcome to `Monitor::complete`, and sleeps between cycles.
use vstd::prelude::*;
use crate::config::TrackerConfig;
use crate::iface::{InterfaceRecord, InterfaceSnapshot, same_state};
use crate::report::{ReportError, ReportRequest, ipv4_text, report_request};
use crate::selector::{NamePolicy, select, selected};

verus! {

/// Pause between two cycles, in seconds.
pub const POLL_INTERVAL_SECS: u64 = 30;

/// Whether a candidate is a change against the last reported state.
pub open spec fn is_change(last: Option<InterfaceSnapshot>, c: InterfaceSnapshot) -> bool {
    match last {
        None => true,
        Some(l) => !same_state(l, c),
    }
}

/// The candidate a cycle acts on: the first one that is a change.
pub open spec fn chosen(last: Option<InterfaceSnapshot>, cands: Seq<InterfaceSnapshot>) -> Option<
    InterfaceSnapshot,
>
    decreases cands.len(),
{
    if cands.len() == 0 {
        None
    } else if is_change(last, cands[0]) {
        Some(cands[0])
    } else {
        chosen(last, cands.drop_first())
    }
}

/// The last reported state after one cycle over `cands`, where `delivered`
/// tells whether the report (if one was sent) was acknowledged.
pub open spec fn next_state(
    last: Option<InterfaceSnapshot>,
    cands: Seq<InterfaceSnapshot>,
    delivered: bool,
) -> Option<InterfaceSnapshot> {
    match chosen(last, cands) {
        Some(c) => if delivered { Some(c) } else { last },
        None => last,
    }
}

/// The last reported state after a run of cycles.
pub open spec fn after_cycles(
    last: Option<InterfaceSnapshot>,
    polls: Seq<Seq<InterfaceSnapshot>>,
    delivered: Seq<bool>,
) -> Option<InterfaceSnapshot>
    decreases polls.len(),
{
    if polls.len() == 0 || delivered.len() == 0 {
        last
    } else {
        after_cycles(
            next_state(last, polls[0], delivered[0]),
            polls.drop_first(),
            delivered.drop_first(),
        )
    }
}

/// How many reports a run of cycles sends.
pub open spec fn reports_sent(
    last: Option<InterfaceSnapshot>,
    polls: Seq<Seq<InterfaceSnapshot>>,
    delivered: Seq<bool>,
) -> nat
    decreases polls.len(),
{
    if polls.len() == 0 || delivered.len() == 0 {
        0
    } else {
        (if chosen(last, polls[0]) is Some { 1nat } else { 0nat }) + reports_sent(
            next_state(last, polls[0], delivered[0]),
            polls.drop_first(),
            delivered.drop_first(),
        )
    }
}

/// A candidate equal to the last reported state is never a change, so a run
/// of polls that each return only such candidates sends no report and leaves
/// the last reported state as it was, whatever the report outcomes would be.
pub proof fn lemma_unchanged_polls_send_nothing(
    last: InterfaceSnapshot,
    polls: Seq<Seq<InterfaceSnapshot>>,
    delivered: Seq<bool>,
)
    requires
        forall|i: int, j: int|
            0 <= i < polls.len() && 0 <= j < polls[i].len() ==> same_state(
                #[trigger] polls[i][j],
                last,
            ),
    ensures
        forall|i: int, j: int|
            0 <= i < polls.len() && 0 <= j < polls[i].len() ==> !is_change(
                Some(last),
                #[trigger] polls[i][j],
            ),
        after_cycles(Some(last), polls, delivered) == Some(last),
        reports_sent(Some(last), polls, delivered) == 0,
    decreases polls.len(),
{
    if polls.len() > 0 && delivered.len() > 0 {
        lemma_no_change_chosen_none(Some(last), polls[0]);
        let rest = polls.drop_first();
        assert forall|i: int, j: int| 0 <= i < rest.len() && 0 <= j < rest[i].len() implies same_state(
            #[trigger] rest[i][j],
            last,
        ) by {
            assert(rest[i] == polls[i + 1]);
        }
        lemma_unchanged_polls_send_nothing(last, rest, delivered.drop_first());
    }
}

/// When no candidate is a change, the cycle acts on none.
pub proof fn lemma_no_change_chosen_none(last: Option<InterfaceSnapshot>, cands: Seq<InterfaceSnapshot>)
    requires
        forall|j: int| 0 <= j < cands.len() ==> !is_change(last, #[trigger] cands[j]),
    ensures
        chosen(last, cands) is None,
    decreases cands.len(),
{
    if cands.len() > 0 {
        let rest = cands.drop_first();
        assert forall|j: int| 0 <= j < rest.len() implies !is_change(last, #[trigger] rest[j]) by {
            assert(rest[j] == cands[j + 1]);
        }
        lemma_no_change_chosen_none(last, rest);
    }
}

/// The candidate a cycle reports becomes the last reported state exactly when
/// the report is acknowledged; a failed report leaves the state unchanged.
pub proof fn lemma_commit_only_on_success(
    last: Option<InterfaceSnapshot>,
    cands: Seq<InterfaceSnapshot>,
    c: InterfaceSnapshot,
)
    requires
        chosen(last, cands) == Some(c),
    ensures
        is_change(last, c),
        next_state(last, cands, true) == Some(c),
        next_state(last, cands, false) == last,
    decreases cands.len(),
{
    if cands.len() > 0 && !is_change(last, cands[0]) {
        lemma_commit_only_on_success(last, cands.drop_first(), c);
    }
}

/// An empty enumeration yields no candidate, so its cycle reports nothing and
/// leaves the last reported state unchanged.
pub proof fn lemma_empty_enumeration(
    policy: NamePolicy,
    last: Option<InterfaceSnapshot>,
    delivered: bool,
)
    ensures
        selected(policy, Seq::<InterfaceRecord>::empty()).len() == 0,
        chosen(last, selected(policy, Seq::<InterfaceRecord>::empty())) is None,
        next_state(last, selected(policy, Seq::<InterfaceRecord>::empty()), delivered) == last,
{
}

/// The state kept between cycles: the last snapshot the endpoint acknowledged.
pub struct MonitorState {
    pub last_reported: Option<InterfaceSnapshot>,
}

impl MonitorState {
    /// The state before any report succeeded.
    pub fn new() -> (r: Self)
        ensures
            r.last_reported is None,
    {
        MonitorState { last_reported: None }
    }

    /// Whether a candidate differs from the last reported state.
    pub fn is_change(&self, candidate: &InterfaceSnapshot) -> (r: bool)
        ensures
            r == is_change(self.last_reported, *candidate),
    {
        match &self.last_reported {
            None => true,
            Some(last) => !last.same_state(candidate),
        }
    }

    /// Replace the last reported state; only for an acknowledged report.
    pub fn commit(&mut self, candidate: InterfaceSnapshot)
        ensures
            final(self).last_reported == Some(candidate),
    {
        self.last_reported = Some(candidate);
    }

    /// Position of the first candidate that is a change, if any.
    pub fn first_change(&self, cands: &Vec<InterfaceSnapshot>) -> (r: Option<usize>)
        ensures
            r is None <==> chosen(self.last_reported, cands@) is None,
            r matches Some(i) ==> {
                &&& i < cands@.len()
                &&& chosen(self.last_reported, cands@) == Some(cands@[i as int])
                &&& forall|j: int| 0 <= j < i ==> !is_change(self.last_reported, #[trigger] cands@[j])
            },
    {
        let mut i: usize = 0;
        assert(cands@.subrange(0, cands@.len() as int) == cands@);
        while i < cands.len()
            invariant
                i <= cands@.len(),
                chosen(self.last_reported, cands@) == chosen(
                    self.last_reported,
                    cands@.subrange(i as int, cands@.len() as int),
                ),
                forall|j: int| 0 <= j < i ==> !is_change(self.last_reported, #[trigger] cands@[j]),
            decreases cands.len() - i,
        {
            let ghost rest = cands@.subrange(i as int, cands@.len() as int);
            assert(rest[0] == cands@[i as int]);
            if self.is_change(&cands[i]) {
                return Some(i);
            }
            assert(rest.drop_first() == cands@.subrange(i + 1, cands@.len() as int));
            i = i + 1;
        }
        None
    }

    /// Take the outcome of the report of `candidate` into account: commit it
    /// when the endpoint acknowledged it, keep the state otherwise so that the
    /// same change is tried again on the next cycle.
    pub fn record_outcome(&mut self, candidate: InterfaceSnapshot, outcome: &Result<(), ReportError>)
        ensures
            final(self).last_reported == (if outcome is Ok {
                Some(candidate)
            } else {
                old(self).last_reported
            }),
    {
        if outcome.is_ok() {
            self.commit(candidate);
        }
    }
}

/// Why the monitor refused to start.
#[derive(Clone, Copy, Debug, PartialEq, Eq, Structural)]
pub enum MonitorError {
    /// The token or the report URL is missing.
    ConfigInvalid,
}

/// A report that a cycle asks to be sent.
pub struct PendingReport {
    /// The candidate being reported; commit it only once acknowledged.
    pub snapshot: InterfaceSnapshot,
    /// What to post.
    pub request: ReportRequest,
}

/// The monitoring core: a valid configuration, the VPN naming convention,
/// and the state kept between cycles.
pub struct Monitor {
    config: TrackerConfig,
    policy: NamePolicy,
    state: MonitorState,
}

impl Monitor {
    /// The configuration the monitor reports with.
    pub closed spec fn config(&self) -> TrackerConfig {
        self.config
    }

    /// The naming convention of VPN interfaces.
    pub closed spec fn policy(&self) -> NamePolicy {
        self.policy
    }

    /// The last acknowledged snapshot.
    pub closed spec fn last(&self) -> Option<InterfaceSnapshot> {
        self.state.last_reported
    }

    /// A monitor only ever holds a valid configuration.
    pub open spec fn wf(&self) -> bool {
        self.config().valid()
    }

    /// Start monitoring; refused when the token or the report URL is empty.
    pub fn new(config: TrackerConfig, policy: NamePolicy) -> (r: Result<Self, MonitorError>)
        ensures
            r is Ok <==> config.valid(),
            r is Err ==> r == Err::<Self, MonitorError>(MonitorError::ConfigInvalid),
            r matches Ok(m) ==> {
                &&& m.wf()
                &&& m.config() == config
                &&& m.policy() == policy
                &&& m.last() is None
            },
    {
        if !config.is_valid() {
            return Err(MonitorError::ConfigInvalid);
        }
        Ok(Monitor { config, policy, state: MonitorState::new() })
    }

    /// The last acknowledged snapshot.
    pub fn last_reported(&self) -> (r: &Option<InterfaceSnapshot>)
        ensures
            *r == self.last(),
    {
        &self.state.last_reported
    }

    /// Decide what this cycle does with an enumeration: report the first VPN
    /// candidate that differs from the last reported state, or nothing.
    pub fn plan(&self, records: &Vec<InterfaceRecord>) -> (r: Option<PendingReport>)
        ensures
            r is None <==> chosen(self.last(), selected(self.policy(), records@)) is None,
            r matches Some(p) ==> {
                &&& chosen(self.last(), selected(self.policy(), records@)) == Some(p.snapshot)
                &&& p.request.url == self.config().report_url
                &&& p.request.token == self.config().token
                &&& p.request.body@ == ipv4_text(p.snapshot.address)
            },
    {
        let mut cands = select(&self.policy, records);
        match self.state.first_change(&cands) {
            None => None,
            Some(i) => {
                let snapshot = cands.swap_remove(i);
                let request = report_request(&snapshot, &self.config);
                Some(PendingReport { snapshot, request })
            },
        }
    }

    /// Close a cycle with the outcome of its report: the snapshot becomes the
    /// last reported state on success, and nothing changes on failure.
    pub fn complete(&mut self, snapshot: InterfaceSnapshot, outcome: Result<(), ReportError>)
        ensures
            final(self).config() == old(self).config(),
            final(self).policy() == old(self).policy(),
            final(self).last() == (if outcome is Ok {
                Some(snapshot)
            } else {
                old(self).last()
            }),
    {
        self.state.record_outcome(snapshot, &outcome);
    }
}

} // verus!
