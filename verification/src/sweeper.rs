//! The sweeper: what is left to do once the store has recycled what expired.
//!
//! Expired items are refused when they are used, whether or not they were swept; the
//! sweeper cleans up behind them and leaves a record of what it recycled.

use crate::control::Actor;
use crate::domain::{texts, AuditEvent, AuditFacts, ConnOrigin};
use crate::error::DaemonError;
use vstd::prelude::*;

verus! {

/// What expires.
#[derive(Clone, Copy, Debug, PartialEq, Eq, PartialOrd, Ord, Structural)]
pub enum ExpiryClass {
    TempGrant,
    Credential,
    ModeState,
    ApprovalTimeout,
}

/// All that expires, in order.
pub open spec fn all_classes() -> Seq<ExpiryClass> {
    seq![
        ExpiryClass::TempGrant,
        ExpiryClass::Credential,
        ExpiryClass::ModeState,
        ExpiryClass::ApprovalTimeout,
    ]
}

/// The kind of the audit record of a class.
pub open spec fn kind_of(class: ExpiryClass) -> Seq<char> {
    if class == ExpiryClass::ModeState {
        "mode_change"@
    } else {
        "policy_change"@
    }
}

impl ExpiryClass {
    /// All that expires, in order.
    pub fn all() -> (classes: [ExpiryClass; 4])
        ensures
            classes@ == all_classes(),
    {
        let classes = [
            ExpiryClass::TempGrant,
            ExpiryClass::Credential,
            ExpiryClass::ModeState,
            ExpiryClass::ApprovalTimeout,
        ];
        assert(classes@ =~= all_classes());
        classes
    }

    /// The kind of the audit record.
    pub fn audit_kind(&self) -> (kind: &'static str)
        ensures
            kind@ == kind_of(*self),
    {
        match self {
            ExpiryClass::ModeState => "mode_change",
            _ => "policy_change",
        }
    }
}

/// Why something ended that has expired; also how the sweeper's records word it.
pub const END_REASON_EXPIRED: &'static str = "expired";

/// What one sweep of the store came to.
#[derive(Debug)]
pub struct SweepReport {
    /// Who the sweep is charged to.
    pub actor: Actor,
    /// How many items of each class were recycled.
    pub recycled: Vec<(ExpiryClass, usize)>,
    /// Why the recycled grants ended.
    pub temp_grant_end_reason: &'static str,
    /// Whether the snapshot was rebuilt under the same lock.
    pub snapshot_rebuilt_in_critical_section: bool,
    /// The revision of the rebuilt snapshot.
    pub rebuilt_policy_rev: u64,
}

/// How many items of a class were recycled, by the first entry for it.
pub open spec fn count_of(recycled: Seq<(ExpiryClass, usize)>, class: ExpiryClass) -> usize
    decreases recycled.len(),
{
    if recycled.len() == 0 {
        0
    } else if recycled[0].0 == class {
        recycled[0].1
    } else {
        count_of(recycled.skip(1), class)
    }
}

impl SweepReport {
    /// How many items of a class were recycled.
    pub fn recycled_of(&self, class: ExpiryClass) -> (n: usize)
        ensures
            n == count_of(self.recycled@, class),
    {
        let mut i: usize = 0;
        assert(self.recycled@.skip(0) =~= self.recycled@);
        while i < self.recycled.len()
            invariant
                i <= self.recycled@.len(),
                count_of(self.recycled@, class) == count_of(self.recycled@.skip(i as int), class),
            decreases self.recycled@.len() - i,
        {
            assert(self.recycled@.skip(i as int).skip(1) =~= self.recycled@.skip(i + 1));
            if self.recycled[i].0 == class {
                return self.recycled[i].1;
            }
            i = i + 1;
        }
        0
    }
}

/// The record of the recycled items of a class.
pub open spec fn recycle_facts(class: ExpiryClass, rev: u64) -> AuditFacts {
    AuditFacts {
        v: 1,
        kind: kind_of(class),
        entry: "system"@,
        origin: ConnOrigin::UnixPeer { uid: 0, gid: 0 },
        principal: None,
        resource: Seq::empty(),
        capability: None,
        objects: Seq::empty(),
        decision: END_REASON_EXPIRED@,
        stage: None,
        reason: Seq::empty(),
        policy_rev: rev,
    }
}

/// Makes the record of the recycled items of a class.
pub fn recycle_event(class: ExpiryClass, report: &SweepReport) -> (event: AuditEvent)
    ensures
        event@ == recycle_facts(class, report.rebuilt_policy_rev),
{
    let event = AuditEvent {
        v: 1,
        kind: class.audit_kind().to_owned(),
        entry: "system".to_owned(),
        origin: ConnOrigin::UnixPeer { uid: 0, gid: 0 },
        principal: None,
        resource: String::new(),
        capability: None,
        objects: Vec::new(),
        decision: END_REASON_EXPIRED.to_owned(),
        stage: None,
        reason: String::new(),
        policy_rev: report.rebuilt_policy_rev,
    };
    assert(texts(event.objects@) =~= Seq::<Seq<char>>::empty());
    event
}

/// The records of a sweep: one for each of the first `n` classes of which something
/// was recycled, in order.
pub open spec fn recycle_records(report: SweepReport, n: int) -> Seq<AuditFacts>
    decreases n,
{
    if n <= 0 {
        Seq::empty()
    } else {
        let class = all_classes()[n - 1];
        let before = recycle_records(report, n - 1);
        if count_of(report.recycled@, class) > 0 {
            before.push(recycle_facts(class, report.rebuilt_policy_rev))
        } else {
            before
        }
    }
}

/// What some records say.
pub open spec fn facts(events: Seq<AuditEvent>) -> Seq<AuditFacts> {
    events.map_values(|e: AuditEvent| e@)
}

/// One tick of the sweeper: the report of the sweep, and the records still to be
/// written.
pub struct Tick {
    report: SweepReport,
    events: Vec<AuditEvent>,
    written: usize,
}

/// The sweeper.
pub struct Sweeper {}

impl Sweeper {
    /// Takes the report of a sweep. A sweep that failed, or that did not rebuild the
    /// snapshot along with it, leaves no record.
    pub fn tick(swept: Result<SweepReport, DaemonError>) -> (tick: Result<Tick, DaemonError>)
        ensures
            match swept {
                Ok(report) => if report.snapshot_rebuilt_in_critical_section {
                    tick matches Ok(t) && {
                        &&& t.wf()
                        &&& t.report() == report
                        &&& t.events() == recycle_records(report, 4)
                        &&& t.written() == 0
                    }
                } else {
                    tick matches Err(e) && e == DaemonError::Boot
                },
                Err(e) => tick matches Err(f) && f == e,
            },
    {
        let report = match swept {
            Ok(report) => report,
            Err(e) => {
                return Err(e);
            },
        };
        if !report.snapshot_rebuilt_in_critical_section {
            return Err(DaemonError::Boot);
        }
        let classes = ExpiryClass::all();
        let mut events: Vec<AuditEvent> = Vec::new();
        let mut i: usize = 0;
        assert(facts(events@) =~= Seq::<AuditFacts>::empty());
        while i < 4
            invariant
                i <= 4,
                classes@ == all_classes(),
                facts(events@) == recycle_records(report, i as int),
            decreases 4 - i,
        {
            let class = classes[i];
            if report.recycled_of(class) > 0 {
                let ghost before = events@;
                let event = recycle_event(class, &report);
                let ghost added = event@;
                events.push(event);
                assert(facts(events@) =~= facts(before).push(added));
            }
            i = i + 1;
        }
        Ok(Tick { report, events, written: 0 })
    }
}

impl Tick {
    /// The report of the sweep.
    pub closed spec fn report(&self) -> SweepReport {
        self.report
    }

    /// The records of the sweep.
    pub closed spec fn events(&self) -> Seq<AuditFacts> {
        facts(self.events@)
    }

    /// How many of them were written.
    pub closed spec fn written(&self) -> int {
        self.written as int
    }

    /// No more records were written than there are.
    pub open spec fn wf(&self) -> bool {
        0 <= self.written() <= self.events().len()
    }

    /// The record to be written next; none where all were.
    pub fn next_event(&self) -> (event: Option<&AuditEvent>)
        requires
            self.wf(),
        ensures
            match event {
                Some(e) => self.written() < self.events().len() && e@
                    == self.events()[self.written()],
                None => self.written() == self.events().len(),
            },
    {
        if self.written < self.events.len() {
            let event = &self.events[self.written];
            assert(self.events()[self.written as int] == event@);
            Some(event)
        } else {
            None
        }
    }

    /// Takes whether the record that was next could be written. If not, the tick has
    /// failed and the rest is not tried.
    pub fn recorded(self, ok: bool) -> (tick: Result<Tick, DaemonError>)
        requires
            self.wf(),
            self.written() < self.events().len(),
        ensures
            if ok {
                tick matches Ok(t) && {
                    &&& t.wf()
                    &&& t.report() == self.report()
                    &&& t.events() == self.events()
                    &&& t.written() == self.written() + 1
                }
            } else {
                tick matches Err(e) && e == DaemonError::Boot
            },
    {
        if !ok {
            return Err(DaemonError::Boot);
        }
        let n: usize = self.events.len();
        assert(self.written < n);
        Ok(Tick { report: self.report, events: self.events, written: self.written + 1 })
    }

    /// The report of a tick whose records were all written.
    pub fn finish(self) -> (report: SweepReport)
        requires
            self.wf(),
            self.written() == self.events().len(),
        ensures
            report == self.report(),
    {
        self.report
    }
}

/// A class of which nothing was recycled leaves no record, and a sweep that recycled
/// nothing leaves none at all.
pub proof fn nothing_recycled_leaves_no_record(report: SweepReport, n: int)
    requires
        0 <= n <= 4,
        forall|i: int| 0 <= i < 4 ==> count_of(report.recycled@, #[trigger] all_classes()[i]) == 0,
    ensures
        recycle_records(report, n) == Seq::<AuditFacts>::empty(),
    decreases n,
{
    if n > 0 {
        nothing_recycled_leaves_no_record(report, n - 1);
        assert(count_of(report.recycled@, all_classes()[n - 1]) == 0);
    }
}

/// Each of the four classes is swept, once: grants, credentials, modes and approvals, in
/// this order.
pub proof fn every_class_is_swept(class: ExpiryClass)
    ensures
        all_classes().len() == 4,
        all_classes()[0] == ExpiryClass::TempGrant,
        all_classes()[1] == ExpiryClass::Credential,
        all_classes()[2] == ExpiryClass::ModeState,
        all_classes()[3] == ExpiryClass::ApprovalTimeout,
        all_classes().contains(class),
        all_classes().no_duplicates(),
{
    let all = all_classes();
    assert(all[0] == ExpiryClass::TempGrant && all[1] == ExpiryClass::Credential && all[2]
        == ExpiryClass::ModeState && all[3] == ExpiryClass::ApprovalTimeout);
}

/// Of a class as many items count as recycled as the first entry for it says, and none
/// where there is no entry.
pub proof fn first_entry_of_a_class_counts(
    recycled: Seq<(ExpiryClass, usize)>,
    class: ExpiryClass,
    i: int,
)
    requires
        0 <= i <= recycled.len(),
        forall|j: int| 0 <= j < i ==> (#[trigger] recycled[j]).0 != class,
        i < recycled.len() ==> recycled[i].0 == class,
    ensures
        i < recycled.len() ==> count_of(recycled, class) == recycled[i].1,
        i == recycled.len() ==> count_of(recycled, class) == 0,
    decreases i,
{
    if i > 0 {
        assert(recycled[0].0 != class);
        assert forall|j: int| 0 <= j < i - 1 implies (#[trigger] recycled.skip(1)[j]).0 != class by {
            assert(recycled[j + 1].0 != class);
        }
        first_entry_of_a_class_counts(recycled.skip(1), class, i - 1);
    }
}

/// A record of the sweeper is a change of the mode for modes and a change of the policy
/// for everything else. It is the system's own, names no one and nothing, says that
/// something expired, and carries the revision of the rebuilt policy.
pub proof fn records_tell_what_expired(class: ExpiryClass, rev: u64)
    ensures
        class == ExpiryClass::ModeState ==> recycle_facts(class, rev).kind == "mode_change"@,
        class != ExpiryClass::ModeState ==> recycle_facts(class, rev).kind == "policy_change"@,
        recycle_facts(class, rev).v == 1,
        recycle_facts(class, rev).entry == "system"@,
        recycle_facts(class, rev).origin == (ConnOrigin::UnixPeer { uid: 0, gid: 0 }),
        recycle_facts(class, rev).principal is None,
        recycle_facts(class, rev).resource.len() == 0,
        recycle_facts(class, rev).capability is None,
        recycle_facts(class, rev).objects.len() == 0,
        recycle_facts(class, rev).decision == "expired"@,
        recycle_facts(class, rev).stage is None,
        recycle_facts(class, rev).reason.len() == 0,
        recycle_facts(class, rev).policy_rev == rev,
{
}

/// The records that a class leaves: one where something of it was recycled.
pub open spec fn record_of_class(report: SweepReport, class: ExpiryClass) -> Seq<AuditFacts> {
    if count_of(report.recycled@, class) > 0 {
        seq![recycle_facts(class, report.rebuilt_policy_rev)]
    } else {
        Seq::empty()
    }
}

/// A sweep leaves one record for each class of which something was recycled, however much
/// that was, in the order grants, credentials, modes and approvals.
pub proof fn each_recycled_class_leaves_one_record(report: SweepReport)
    ensures
        recycle_records(report, 4) == record_of_class(report, ExpiryClass::TempGrant)
            + record_of_class(report, ExpiryClass::Credential) + record_of_class(
            report,
            ExpiryClass::ModeState,
        ) + record_of_class(report, ExpiryClass::ApprovalTimeout),
{
    every_class_is_swept(ExpiryClass::TempGrant);
    assert(recycle_records(report, 0) =~= Seq::<AuditFacts>::empty());
    assert(recycle_records(report, 1) =~= record_of_class(report, ExpiryClass::TempGrant));
    assert(recycle_records(report, 2) =~= record_of_class(report, ExpiryClass::TempGrant)
        + record_of_class(report, ExpiryClass::Credential));
    assert(recycle_records(report, 3) =~= record_of_class(report, ExpiryClass::TempGrant)
        + record_of_class(report, ExpiryClass::Credential) + record_of_class(
        report,
        ExpiryClass::ModeState,
    ));
}

/// What some records say is what each of them says, in order.
pub proof fn facts_are_those_of_the_records(events: Seq<AuditEvent>, i: int)
    requires
        0 <= i < events.len(),
    ensures
        facts(events).len() == events.len(),
        facts(events)[i] == events[i]@,
{
}

} // verus!
