//! Health of the software RAID arrays.
//!
//! The caller reads the status attributes of each configured array and
//! hands over what it found; the functions here turn that into warnings and
//! errors.  The report is built afresh from every reading and remembers
//! nothing.

use crate::text::{decimal, parse_count, parsed_count, push_decimal, same_text, trimmed, upper};
use vstd::prelude::*;

verus! {

/// What was found in one member slot of an array.
pub enum MemberStatus {
    /// The slot has no status entry.
    Absent,
    /// The slot is there but its state could not be read.
    Unreadable,
    /// The state of the member as read, not yet trimmed.
    State(String),
}

/// What was read of one array.  `None` stands for an attribute that could
/// not be read.
pub struct MdStatus {
    /// The degraded indicator, `0` for a healthy array.
    pub degraded: Option<String>,
    /// The number of member slots the array is configured with.
    pub raid_disks: Option<String>,
    /// The slots in order, slot 0 first.  Slots past the end of this list
    /// count as unreadable.
    pub members: Vec<MemberStatus>,
}

/// Why the inspection of an array was given up.
#[derive(Debug, Clone, Copy, PartialEq, Eq, Structural)]
pub enum QueryError {
    /// The degraded indicator could not be read.
    Degraded,
    /// The number of member slots could not be read.
    MemberCount,
    /// The number of member slots is not a number.
    MemberCountFormat,
    /// The state of the member in this slot could not be read.
    MemberState(usize),
}

/// The messages about all arrays.
pub struct RaidReport {
    pub errors: Vec<String>,
    pub warnings: Vec<String>,
}

/// The warning for a degraded array.
pub open spec fn degraded_text(dev: Seq<char>) -> Seq<char> {
    "md: "@ + dev + " DEGRADED"@
}

/// The warning for an array that could not be inspected.
pub open spec fn query_error_text(dev: Seq<char>) -> Seq<char> {
    dev + ": query error"@
}

/// The error for a member slot without a status entry.
pub open spec fn not_found_text(dev: Seq<char>, slot: nat) -> Seq<char> {
    dev + ": rd"@ + decimal(slot) + " NOTFOUND"@
}

/// The error for a member that is not in sync: its state, trimmed and in
/// upper case.
pub open spec fn state_text(dev: Seq<char>, slot: nat, state: Seq<char>) -> Seq<char> {
    dev + ": rd"@ + decimal(slot) + " "@ + upper(trimmed(state))
}

/// What the member slots of one array gave.
pub struct MemberFindings {
    pub errors: Seq<Seq<char>>,
    /// The slot at which the inspection stopped, if it did.
    pub stopped_at: Option<nat>,
}

/// The findings from the first `n` member slots of array `dev`.  Slots are
/// taken in order; an absent slot and a member that is not in sync each
/// add an error; the first unreadable slot stops the inspection.
pub open spec fn member_findings(
    dev: Seq<char>,
    members: Seq<MemberStatus>,
    n: nat,
) -> MemberFindings
    decreases n,
{
    if n == 0 {
        MemberFindings { errors: Seq::empty(), stopped_at: None }
    } else {
        let slot = (n - 1) as nat;
        let before = member_findings(dev, members, slot);
        if before.stopped_at is Some {
            before
        } else if slot >= members.len() {
            MemberFindings { stopped_at: Some(slot), ..before }
        } else {
            match members[slot as int] {
                MemberStatus::Absent => MemberFindings {
                    errors: before.errors.push(not_found_text(dev, slot)),
                    ..before
                },
                MemberStatus::Unreadable => MemberFindings { stopped_at: Some(slot), ..before },
                MemberStatus::State(state) => if trimmed(state@) == "in_sync"@ {
                    before
                } else {
                    MemberFindings {
                        errors: before.errors.push(state_text(dev, slot, state@)),
                        ..before
                    }
                },
            }
        }
    }
}

/// What the inspection of one array gave.
pub struct Findings {
    pub warnings: Seq<Seq<char>>,
    pub errors: Seq<Seq<char>>,
    /// Why the inspection was given up, if it was.
    pub failure: Option<QueryError>,
}

/// The findings for array `dev`.  The degraded indicator is looked at
/// first and warns unless it reads `0`; then come the member slots, as many
/// as the array is configured with.  The inspection is given up at the
/// first attribute that could not be read or understood; what was found
/// before stays.
pub open spec fn device_findings(dev: Seq<char>, status: MdStatus) -> Findings {
    match status.degraded {
        None => Findings {
            warnings: Seq::empty(),
            errors: Seq::empty(),
            failure: Some(QueryError::Degraded),
        },
        Some(degraded) => {
            let warnings = if trimmed(degraded@) == "0"@ {
                Seq::empty()
            } else {
                seq![degraded_text(dev)]
            };
            match status.raid_disks {
                None => Findings {
                    warnings,
                    errors: Seq::empty(),
                    failure: Some(QueryError::MemberCount),
                },
                Some(count) => match parsed_count(trimmed(count@)) {
                    None => Findings {
                        warnings,
                        errors: Seq::empty(),
                        failure: Some(QueryError::MemberCountFormat),
                    },
                    Some(n) => {
                        let members = member_findings(dev, status.members@, n);
                        Findings {
                            warnings,
                            errors: members.errors,
                            failure: match members.stopped_at {
                                Some(slot) => Some(QueryError::MemberState(slot as usize)),
                                None => None,
                            },
                        }
                    },
                },
            }
        },
    }
}

/// The messages about all arrays, as mathematical sequences.
pub struct ReportModel {
    pub errors: Seq<Seq<char>>,
    pub warnings: Seq<Seq<char>>,
}

/// The report on the first `n` of the arrays `devices`, whose readings are
/// `statuses` in the same order.  Arrays are taken in order.  An array
/// whose inspection was given up, or for which there is no reading, adds
/// the query-error warning after its other warnings.
pub open spec fn report_of(devices: Seq<Seq<char>>, statuses: Seq<MdStatus>, n: nat) -> ReportModel
    decreases n,
{
    if n == 0 {
        ReportModel { errors: Seq::empty(), warnings: Seq::empty() }
    } else {
        let i = (n - 1) as int;
        let before = report_of(devices, statuses, i as nat);
        if i < statuses.len() {
            let found = device_findings(devices[i], statuses[i]);
            ReportModel {
                errors: before.errors + found.errors,
                warnings: before.warnings + found.warnings + if found.failure is Some {
                    seq![query_error_text(devices[i])]
                } else {
                    Seq::empty()
                },
            }
        } else {
            ReportModel {
                errors: before.errors,
                warnings: before.warnings.push(query_error_text(devices[i])),
            }
        }
    }
}

/// Once the inspection has stopped, further slots change nothing.
proof fn lemma_stop_is_final(dev: Seq<char>, members: Seq<MemberStatus>, k: nat, n: nat)
    requires
        k <= n,
        member_findings(dev, members, k).stopped_at is Some,
    ensures
        member_findings(dev, members, n) == member_findings(dev, members, k),
    decreases n,
{
    if k < n {
        lemma_stop_is_final(dev, members, k, (n - 1) as nat);
    }
}

impl View for RaidReport {
    type V = ReportModel;

    open spec fn view(&self) -> ReportModel {
        ReportModel { errors: self.errors.deep_view(), warnings: self.warnings.deep_view() }
    }
}

impl RaidReport {
    /// A report without messages.
    pub fn new() -> (r: RaidReport)
        ensures
            r@.errors == Seq::<Seq<char>>::empty(),
            r@.warnings == Seq::<Seq<char>>::empty(),
    {
        let r = RaidReport { errors: Vec::new(), warnings: Vec::new() };
        assert(r@.errors =~= Seq::<Seq<char>>::empty());
        assert(r@.warnings =~= Seq::<Seq<char>>::empty());
        r
    }

    /// Whether any warning or error is pending.
    pub fn has_alarms(&self) -> (b: bool)
        ensures
            b == (self@.errors.len() > 0 || self@.warnings.len() > 0),
    {
        !self.warnings.is_empty() || !self.errors.is_empty()
    }

    fn push_error(&mut self, message: String)
        ensures
            final(self)@.errors == old(self)@.errors.push(message@),
            final(self)@.warnings == old(self)@.warnings,
    {
        self.errors.push(message);
        assert(self@.errors =~= old(self)@.errors.push(message@));
    }

    fn push_warning(&mut self, message: String)
        ensures
            final(self)@.warnings == old(self)@.warnings.push(message@),
            final(self)@.errors == old(self)@.errors,
    {
        self.warnings.push(message);
        assert(self@.warnings =~= old(self)@.warnings.push(message@));
    }
}

fn member_message(dev: &str, slot: usize) -> (line: String)
    ensures
        line@ == dev@ + ": rd"@ + decimal(slot as nat),
{
    let mut line = String::from_str(dev);
    line.append(": rd");
    push_decimal(&mut line, slot as u64);
    line
}

/// Adds what the member slots of array `dev` give to `report`.
fn check_members(
    dev: &str,
    members: &Vec<MemberStatus>,
    count: usize,
    report: &mut RaidReport,
) -> (r: Result<(), QueryError>)
    ensures
        final(report)@.warnings == old(report)@.warnings,
        final(report)@.errors == old(report)@.errors + member_findings(
            dev@,
            members@,
            count as nat,
        ).errors,
        match r {
            Ok(()) => member_findings(dev@, members@, count as nat).stopped_at is None,
            Err(e) => {
                &&& e is MemberState
                &&& member_findings(dev@, members@, count as nat).stopped_at == Some(e->0 as nat)
            },
        },
{
    let mut slot: usize = 0;
    assert(report@.errors + Seq::<Seq<char>>::empty() =~= report@.errors);
    while slot < count
        invariant
            slot <= count,
            report@.warnings == old(report)@.warnings,
            member_findings(dev@, members@, slot as nat).stopped_at is None,
            report@.errors == old(report)@.errors + member_findings(
                dev@,
                members@,
                slot as nat,
            ).errors,
        decreases count - slot,
    {
        let ghost before = member_findings(dev@, members@, slot as nat);
        let ghost base = old(report)@.errors;
        if slot >= members.len() {
            proof {
                lemma_stop_is_final(dev@, members@, (slot + 1) as nat, count as nat);
            }
            return Err(QueryError::MemberState(slot));
        }
        match &members[slot] {
            MemberStatus::Absent => {
                let mut line = member_message(dev, slot);
                line.append(" NOTFOUND");
                report.push_error(line);
                assert(report@.errors =~= base + before.errors.push(
                    not_found_text(dev@, slot as nat),
                ));
            },
            MemberStatus::Unreadable => {
                proof {
                    lemma_stop_is_final(dev@, members@, (slot + 1) as nat, count as nat);
                }
                return Err(QueryError::MemberState(slot));
            },
            MemberStatus::State(state) => {
                let state = state.as_str().trim();
                if !same_text(state, "in_sync") {
                    let mut line = member_message(dev, slot);
                    line.append(" ");
                    line.append(state.to_ascii_uppercase().as_str());
                    report.push_error(line);
                    assert(report@.errors =~= base + before.errors.push(
                        state_text(dev@, slot as nat, members@[slot as int]->State_0@),
                    ));
                }
            },
        }
        slot += 1;
    }
    Ok(())
}

/// The number of member slots that the text of the slot-count attribute
/// gives, if it gives one.  The caller reads that many slots.
pub fn member_slots(raid_disks: &str) -> (n: Option<usize>)
    ensures
        match n {
            Some(count) => parsed_count(trimmed(raid_disks@)) == Some(count as nat),
            None => parsed_count(trimmed(raid_disks@)) is None,
        },
{
    parse_count(raid_disks.trim())
}

/// Inspects the reading `status` of array `dev` and adds what it finds to
/// `report`.  Fails where the reading is incomplete; what was found up to
/// there has been added all the same.
pub fn check_md_dev(dev: &str, status: &MdStatus, report: &mut RaidReport) -> (r: Result<
    (),
    QueryError,
>)
    ensures
        final(report)@.warnings == old(report)@.warnings + device_findings(dev@, *status).warnings,
        final(report)@.errors == old(report)@.errors + device_findings(dev@, *status).errors,
        match r {
            Ok(()) => device_findings(dev@, *status).failure is None,
            Err(e) => device_findings(dev@, *status).failure == Some(e),
        },
{
    assert(report@.errors + Seq::<Seq<char>>::empty() =~= report@.errors);
    assert(report@.warnings + Seq::<Seq<char>>::empty() =~= report@.warnings);
    let degraded = match &status.degraded {
        Some(text) => text,
        None => {
            return Err(QueryError::Degraded);
        },
    };
    if !same_text(degraded.as_str().trim(), "0") {
        let mut line = String::from_str("md: ");
        line.append(dev);
        line.append(" DEGRADED");
        report.push_warning(line);
        assert(report@.warnings =~= old(report)@.warnings + seq![degraded_text(dev@)]);
    }
    let count = match &status.raid_disks {
        Some(text) => text,
        None => {
            return Err(QueryError::MemberCount);
        },
    };
    let num_disks = match member_slots(count.as_str()) {
        Some(n) => n,
        None => {
            return Err(QueryError::MemberCountFormat);
        },
    };
    check_members(dev, &status.members, num_disks, report)
}

/// Builds the report on the arrays `devices` from their readings
/// `statuses`, given in the same order.
pub fn check_md_raid(devices: &Vec<String>, statuses: &Vec<MdStatus>) -> (report: RaidReport)
    ensures
        report@ == report_of(devices.deep_view(), statuses@, devices.len() as nat),
{
    let mut report = RaidReport::new();
    let mut i: usize = 0;
    while i < devices.len()
        invariant
            i <= devices.len(),
            report@ == report_of(devices.deep_view(), statuses@, i as nat),
        decreases devices.len() - i,
    {
        let ghost before = report@;
        let dev = devices[i].as_str();
        assert(devices.deep_view()[i as int] == dev@);
        let failed = if i < statuses.len() {
            check_md_dev(dev, &statuses[i], &mut report).is_err()
        } else {
            true
        };
        let ghost found = report@;
        if failed {
            let mut line = String::from_str(dev);
            line.append(": query error");
            report.push_warning(line);
            assert(report@.warnings =~= found.warnings + seq![query_error_text(dev@)]);
        } else {
            assert(report@.warnings =~= found.warnings + Seq::<Seq<char>>::empty());
        }
        i += 1;
    }
    report
}

} // verus!
