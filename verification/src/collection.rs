//! A consistent observation of the host: two passes that agree, or the second try marked
//! as raced.

use vstd::prelude::*;
use crate::canonical::{
    candidate_pids, canonical, canonical_rows, edges_exceed, names_pid, owner_edges,
    pids_ascending,
};
use crate::metadata::ObservationLimits;
use crate::native::{
    CollectedPass, NativeObservationPass, NativeSocketRow, ProcessRead, ProcessReadTable,
};
use crate::observation::{
    MetadataProfile, NetworkSnapshot, ObservationError, ObservationScope,
};
use crate::passes::{change_between, compare_passes, PassChange};
use crate::snapshot::{attempt_settled, settle_attempt};
use crate::time::SystemTime;
use crate::watch_output::validate_wall_interval;

verus! {

/// The host that is observed.
pub trait ObservationSource {
    fn wall_clock(&mut self) -> (r: Result<SystemTime, ObservationError>);

    /// One pass over the sockets and their owners.
    fn collect_native_pass(&mut self, profile: MetadataProfile) -> (r: Result<
        NativeObservationPass,
        ObservationError,
    >);

    /// Read the processes with these PIDs, in their order, with at most this many bytes
    /// beyond their identities.
    fn read_processes(
        &mut self,
        sorted_pids: &Vec<u32>,
        profile: MetadataProfile,
        optional_metadata_bytes_remaining: usize,
    ) -> (r: Result<Vec<(u32, ProcessRead)>, ObservationError>);
}

/// One question to the host, with its answer.
#[derive(Debug)]
pub enum SourceCall {
    WallClock(Result<SystemTime, ObservationError>),
    NativePass {
        profile: MetadataProfile,
        answer: Result<NativeObservationPass, ObservationError>,
    },
    Reads {
        pids: Vec<u32>,
        profile: MetadataProfile,
        optional_bytes: usize,
        answer: Result<Vec<(u32, ProcessRead)>, ObservationError>,
    },
}

/// A host, and what it was asked and answered.
pub struct SourceRecord<S> {
    pub source: S,
    pub asked: Ghost<Seq<SourceCall>>,
}

impl<S: ObservationSource> SourceRecord<S> {
    /// The questions so far with their answers, the oldest first.
    pub open spec fn calls(self) -> Seq<SourceCall> {
        self.asked@
    }

    pub fn new(source: S) -> (r: SourceRecord<S>)
        ensures
            r.source == source,
            r.calls().len() == 0,
    {
        SourceRecord { source, asked: Ghost(Seq::empty()) }
    }

    pub fn wall_clock(&mut self) -> (r: Result<SystemTime, ObservationError>)
        ensures
            final(self).calls() == old(self).calls().push(SourceCall::WallClock(r)),
    {
        let answer = self.source.wall_clock();
        proof {
            self.asked@ = self.asked@.push(SourceCall::WallClock(answer));
        }
        answer
    }

    pub fn collect_native_pass(&mut self, profile: MetadataProfile) -> (r: Result<
        NativeObservationPass,
        ObservationError,
    >)
        ensures
            final(self).calls() == old(self).calls().push(
                SourceCall::NativePass { profile, answer: r },
            ),
    {
        let answer = self.source.collect_native_pass(profile);
        proof {
            self.asked@ = self.asked@.push(SourceCall::NativePass { profile, answer });
        }
        answer
    }

    pub fn read_processes(
        &mut self,
        sorted_pids: &Vec<u32>,
        profile: MetadataProfile,
        optional_metadata_bytes_remaining: usize,
    ) -> (r: Result<Vec<(u32, ProcessRead)>, ObservationError>)
        ensures
            final(self).calls() == old(self).calls().push(
                SourceCall::Reads {
                    pids: *sorted_pids,
                    profile,
                    optional_bytes: optional_metadata_bytes_remaining,
                    answer: r,
                },
            ),
    {
        let answer = self.source.read_processes(
            sorted_pids,
            profile,
            optional_metadata_bytes_remaining,
        );
        proof {
            self.asked@ = self.asked@.push(
                SourceCall::Reads {
                    pids: *sorted_pids,
                    profile,
                    optional_bytes: optional_metadata_bytes_remaining,
                    answer,
                },
            );
        }
        answer
    }
}

/// Accept a wall clock reading that is not before an earlier one.
pub fn validate_wall_clock_interval(started: SystemTime, completed: SystemTime) -> (r: Result<
    (),
    ObservationError,
>)
    ensures
        r == if started.nanos <= completed.nanos {
            Ok::<(), ObservationError>(())
        } else {
            Err(ObservationError::InvalidWallClockInterval)
        },
{
    validate_wall_interval(started, completed)
}

/// Exactly the PIDs that the rows name, in ascending order.
pub open spec fn lists_pids(rows: Seq<NativeSocketRow>, pids: Seq<u32>) -> bool {
    pids_ascending(pids) && forall|pid: u32| #[trigger] pids.contains(pid) <==> names_pid(rows, pid)
}

/// So many reads more are more than the limits allow.
pub open spec fn reads_exceed(
    count: nat,
    read_in_attempt: usize,
    read_in_all: usize,
    limits: ObservationLimits,
) -> bool {
    ||| count > limits.candidate_pids
    ||| read_in_attempt + count > limits.identity_reads_per_attempt
    ||| read_in_all + count > limits.identity_reads_total
}

/// What the limits say of a pass before any process is read: the PIDs to read, or the
/// first limit that it breaks.
pub open spec fn pass_admitted(
    rows: Seq<NativeSocketRow>,
    read_in_attempt: usize,
    read_in_all: usize,
    limits: ObservationLimits,
    r: Result<Vec<u32>, ObservationError>,
) -> bool {
    match r {
        Ok(pids) => {
            &&& rows.len() <= limits.sockets
            &&& owner_edges(rows) <= limits.owner_edges
            &&& lists_pids(rows, pids@)
            &&& !reads_exceed(pids@.len(), read_in_attempt, read_in_all, limits)
        },
        Err(error) => if rows.len() > limits.sockets {
            error == ObservationError::SocketObservationLimitExceeded
        } else if owner_edges(rows) > limits.owner_edges {
            error == ObservationError::OwnerAttributionLimitExceeded
        } else {
            error == ObservationError::ProcessIdentityLimitExceeded && exists|pids: Seq<u32>|
                #[trigger] lists_pids(rows, pids) && reads_exceed(
                    pids.len(),
                    read_in_attempt,
                    read_in_all,
                    limits,
                )
        },
    }
}

/// Check a pass against the limits before any process is read, and list the PIDs to
/// read. Sockets are counted first, then owners, then PIDs.
pub fn admit_pass(
    rows: &Vec<NativeSocketRow>,
    read_in_attempt: usize,
    read_in_all: usize,
    limits: ObservationLimits,
) -> (r: Result<Vec<u32>, ObservationError>)
    ensures
        pass_admitted(rows@, read_in_attempt, read_in_all, limits, r),
{
    if rows.len() > limits.sockets {
        return Err(ObservationError::SocketObservationLimitExceeded);
    }
    if edges_exceed(rows, limits.owner_edges) {
        return Err(ObservationError::OwnerAttributionLimitExceeded);
    }
    let pids = candidate_pids(rows);
    assert(lists_pids(rows@, pids@));
    let count: usize = pids.len();
    let in_attempt = read_in_attempt.checked_add(count);
    let in_all = read_in_all.checked_add(count);
    let allowed: bool = count <= limits.candidate_pids && match in_attempt {
        Some(total) => total <= limits.identity_reads_per_attempt,
        None => false,
    } && match in_all {
        Some(total) => total <= limits.identity_reads_total,
        None => false,
    };
    if !allowed {
        return Err(ObservationError::ProcessIdentityLimitExceeded);
    }
    Ok(pids)
}

/// A pass in canonical form, with the reads of exactly the PIDs that it names.
pub open spec fn pass_collected(
    pass: NativeObservationPass,
    limits: ObservationLimits,
    r: CollectedPass,
) -> bool {
    &&& pass.rows.len() <= limits.sockets
    &&& owner_edges(pass.rows@) <= limits.owner_edges
    &&& canonical(pass.rows@, r.rows@)
    &&& r.rows.len() == pass.rows.len()
    &&& r.processes_by_pid.sorted()
    &&& lists_pids(
        pass.rows@,
        r.processes_by_pid.entries@.map_values(|entry: (u32, ProcessRead)| entry.0),
    )
    &&& r.global_owner_completeness == pass.global_owner_completeness
    &&& r.evidence_gaps == pass.evidence_gaps
    &&& r.omitted_evidence_gap_count == pass.omitted_evidence_gap_count
}

/// What a pass and the reads of its PIDs come to.
pub open spec fn pass_finished(
    pass: NativeObservationPass,
    pids: Seq<u32>,
    reads: Vec<(u32, ProcessRead)>,
    limits: ObservationLimits,
    r: Result<CollectedPass, ObservationError>,
) -> bool {
    match r {
        Ok(collected) => pass_collected(pass, limits, collected)
            && collected.processes_by_pid.entries == reads,
        Err(error) => error == ObservationError::NativeDataMalformed && reads@.map_values(
            |entry: (u32, ProcessRead)| entry.0,
        ) != pids,
    }
}

/// Put a pass together with the reads of its PIDs; reads of other PIDs, or in another
/// order, are malformed.
pub fn finish_pass(
    pass: NativeObservationPass,
    pids: &Vec<u32>,
    reads: Vec<(u32, ProcessRead)>,
    limits: ObservationLimits,
) -> (r: Result<CollectedPass, ObservationError>)
    requires
        lists_pids(pass.rows@, pids@),
        pass.rows.len() <= limits.sockets,
        owner_edges(pass.rows@) <= limits.owner_edges,
    ensures
        pass_finished(pass, pids@, reads, limits, r),
{
    let ghost listed = reads@.map_values(|entry: (u32, ProcessRead)| entry.0);
    let table = match ProcessReadTable::from_expected(pids.as_slice(), reads) {
        Ok(table) => table,
        Err(error) => {
            proof {
                if listed == pids@ {
                    assert forall|i: int| 0 <= i < reads.len() implies (#[trigger] reads@[i]).0
                        == pids@[i] by {
                        assert(listed[i] == reads@[i].0);
                    }
                }
            }
            return Err(error);
        },
    };
    proof {
        assert(listed =~= pids@);
        assert forall|i: int, j: int|
            #![trigger table.entries@[i], table.entries@[j]]
            0 <= i < j < table.entries.len() implies table.entries@[i].0 < table.entries@[j].0 by {
            assert(pids@[i] < pids@[j]);
        }
    }
    let rows = canonical_rows(&pass.rows);
    Ok(
        CollectedPass {
            rows,
            global_owner_completeness: pass.global_owner_completeness,
            evidence_gaps: pass.evidence_gaps,
            processes_by_pid: table,
            omitted_evidence_gap_count: pass.omitted_evidence_gap_count,
        },
    )
}

/// A pass that came from the host within the limits.
pub open spec fn well_collected(r: CollectedPass, limits: ObservationLimits) -> bool {
    &&& r.rows.len() <= limits.sockets
    &&& r.processes_by_pid.sorted()
    &&& exists|pass: NativeObservationPass| #[trigger] pass_collected(pass, limits, r)
}

/// How many processes were read: in the attempt under way, and in all.
#[derive(Debug, Clone, Copy, PartialEq, Eq, Structural)]
pub struct ReadCounts {
    pub in_attempt: usize,
    pub in_all: usize,
}

/// What followed the host's answer to one pass, from these calls on: a pass within the
/// limits has exactly its own PIDs read, once, and counted.
pub open spec fn pass_followed(
    calls: Seq<SourceCall>,
    answer: Result<NativeObservationPass, ObservationError>,
    profile: MetadataProfile,
    read: ReadCounts,
    limits: ObservationLimits,
    after: Seq<SourceCall>,
    read_after: ReadCounts,
    r: Result<CollectedPass, ObservationError>,
) -> bool {
    match answer {
        Err(error) => {
            &&& r == Err::<CollectedPass, ObservationError>(error)
            &&& after == calls
            &&& read_after == read
        },
        Ok(pass) => exists|admitted: Result<Vec<u32>, ObservationError>| #[trigger]
            pass_admitted(pass.rows@, read.in_attempt, read.in_all, limits, admitted)
                && match admitted {
                Err(error) => {
                    &&& r == Err::<CollectedPass, ObservationError>(error)
                    &&& after == calls
                    &&& read_after == read
                },
                Ok(pids) => {
                    &&& read_after.in_attempt == read.in_attempt + pids.len()
                    &&& read_after.in_all == read.in_all + pids.len()
                    &&& processes_followed(calls, pass, pids, profile, limits, after, r)
                },
            },
    }
}

/// The processes of an admitted pass were read.
pub open spec fn processes_followed(
    calls: Seq<SourceCall>,
    pass: NativeObservationPass,
    pids: Vec<u32>,
    profile: MetadataProfile,
    limits: ObservationLimits,
    after: Seq<SourceCall>,
    r: Result<CollectedPass, ObservationError>,
) -> bool {
    exists|answer: Result<Vec<(u32, ProcessRead)>, ObservationError>|
        after == #[trigger] calls.push(
            SourceCall::Reads {
                pids,
                profile,
                optional_bytes: limits.optional_metadata_bytes,
                answer,
            },
        ) && match answer {
            Err(error) => r == Err::<CollectedPass, ObservationError>(error),
            Ok(reads) => pass_finished(pass, pids@, reads, limits, r),
        }
}

/// One pass was made.
pub open spec fn pass_made(
    before: Seq<SourceCall>,
    profile: MetadataProfile,
    read: ReadCounts,
    limits: ObservationLimits,
    after: Seq<SourceCall>,
    read_after: ReadCounts,
    r: Result<CollectedPass, ObservationError>,
) -> bool {
    exists|answer: Result<NativeObservationPass, ObservationError>| #[trigger]
        pass_followed(
            before.push(SourceCall::NativePass { profile, answer }),
            answer,
            profile,
            read,
            limits,
            after,
            read_after,
            r,
        )
}

/// Collect one pass; counts the reads that it made.
fn collect_pass<S: ObservationSource>(
    source: &mut SourceRecord<S>,
    profile: MetadataProfile,
    read: &mut ReadCounts,
    limits: ObservationLimits,
) -> (r: Result<CollectedPass, ObservationError>)
    ensures
        pass_made(
            old(source).calls(),
            profile,
            *old(read),
            limits,
            final(source).calls(),
            *final(read),
            r,
        ),
        r is Ok ==> well_collected(r->Ok_0, limits),
        final(read).in_all <= limits.identity_reads_total || final(read).in_all == old(
            read,
        ).in_all,
        final(read).in_attempt <= limits.identity_reads_per_attempt || final(read).in_attempt
            == old(read).in_attempt,
{
    let ghost before = source.calls();
    let ghost counted = *read;
    let answer = source.collect_native_pass(profile);
    let ghost given = answer;
    let ghost calls = source.calls();
    assert(calls == before.push(SourceCall::NativePass { profile, answer: given }));
    let pass = match answer {
        Ok(pass) => pass,
        Err(error) => {
            assert(pass_followed(
                calls,
                given,
                profile,
                counted,
                limits,
                calls,
                counted,
                Err(error),
            ));
            return Err(error);
        },
    };
    let admission = admit_pass(&pass.rows, read.in_attempt, read.in_all, limits);
    let ghost admitted = admission;
    assert(pass_admitted(pass.rows@, counted.in_attempt, counted.in_all, limits, admitted));
    let pids = match admission {
        Ok(pids) => pids,
        Err(error) => {
            assert(pass_followed(
                calls,
                given,
                profile,
                counted,
                limits,
                calls,
                counted,
                Err(error),
            ));
            return Err(error);
        },
    };
    read.in_attempt = read.in_attempt + pids.len();
    read.in_all = read.in_all + pids.len();
    let answer = source.read_processes(&pids, profile, limits.optional_metadata_bytes);
    let ghost told = answer;
    assert(source.calls() == calls.push(
        SourceCall::Reads {
            pids,
            profile,
            optional_bytes: limits.optional_metadata_bytes,
            answer: told,
        },
    ));
    let ghost native = pass;
    let r = match answer {
        Ok(reads) => finish_pass(pass, &pids, reads, limits),
        Err(error) => Err(error),
    };
    assert(processes_followed(calls, native, pids, profile, limits, source.calls(), r));
    assert(pass_followed(calls, given, profile, counted, limits, source.calls(), *read, r));
    r
}

/// Two passes, when they were made, and what differs between them.
pub struct Attempt {
    pub started: SystemTime,
    pub completed: SystemTime,
    pub first: CollectedPass,
    pub second: CollectedPass,
    pub change: PassChange,
}

impl Attempt {
    pub open spec fn wf(self, limits: ObservationLimits) -> bool {
        &&& self.started.nanos <= self.completed.nanos
        &&& well_collected(self.first, limits)
        &&& well_collected(self.second, limits)
        &&& self.change == change_between(self.first, self.second)
    }
}

/// The last reading of an attempt's clock, and what the attempt then comes to.
pub open spec fn attempt_closed(
    calls: Seq<SourceCall>,
    started: SystemTime,
    first: CollectedPass,
    second: CollectedPass,
    after: Seq<SourceCall>,
    r: Result<Attempt, ObservationError>,
) -> bool {
    exists|answer: Result<SystemTime, ObservationError>|
        after == #[trigger] calls.push(SourceCall::WallClock(answer)) && match answer {
            Err(error) => r == Err::<Attempt, ObservationError>(error),
            Ok(completed) => r == if started.nanos <= completed.nanos {
                Ok::<Attempt, ObservationError>(
                    Attempt {
                        started,
                        completed,
                        first,
                        second,
                        change: change_between(first, second),
                    },
                )
            } else {
                Err(ObservationError::InvalidWallClockInterval)
            },
        }
}

/// The second pass of an attempt, with what was asked for, and the rest.
pub open spec fn attempt_continued(
    calls: Seq<SourceCall>,
    started: SystemTime,
    first: CollectedPass,
    profile: MetadataProfile,
    read: ReadCounts,
    limits: ObservationLimits,
    after: Seq<SourceCall>,
    read_in_all: usize,
    r: Result<Attempt, ObservationError>,
) -> bool {
    exists|
        made: Seq<SourceCall>,
        read_after: ReadCounts,
        second: Result<CollectedPass, ObservationError>,
    | #[trigger]
        pass_made(calls, profile, read, limits, made, read_after, second) && read_in_all
            == read_after.in_all && match second {
            Err(error) => r == Err::<Attempt, ObservationError>(error) && after == made,
            Ok(second) => attempt_closed(made, started, first, second, after, r),
        }
}

/// The first pass of an attempt, for identities alone, and the rest.
pub open spec fn attempt_opened(
    calls: Seq<SourceCall>,
    started: SystemTime,
    profile: MetadataProfile,
    read_before: usize,
    limits: ObservationLimits,
    after: Seq<SourceCall>,
    read_in_all: usize,
    r: Result<Attempt, ObservationError>,
) -> bool {
    exists|
        made: Seq<SourceCall>,
        read_after: ReadCounts,
        first: Result<CollectedPass, ObservationError>,
    | #[trigger]
        pass_made(
            calls,
            MetadataProfile::IdentityOnly,
            ReadCounts { in_attempt: 0, in_all: read_before },
            limits,
            made,
            read_after,
            first,
        ) && match first {
            Err(error) => {
                &&& r == Err::<Attempt, ObservationError>(error)
                &&& after == made
                &&& read_in_all == read_after.in_all
            },
            Ok(first) => attempt_continued(
                made,
                started,
                first,
                profile,
                read_after,
                limits,
                after,
                read_in_all,
                r,
            ),
        }
}

/// An attempt was made: a clock reading, a pass for identities alone, a pass with what
/// was asked for, and a clock reading. The first that fails ends it.
pub open spec fn attempt_made(
    before: Seq<SourceCall>,
    profile: MetadataProfile,
    read_before: usize,
    limits: ObservationLimits,
    after: Seq<SourceCall>,
    read_in_all: usize,
    r: Result<Attempt, ObservationError>,
) -> bool {
    exists|answer: Result<SystemTime, ObservationError>| #[trigger]
        attempt_timed(
            before.push(SourceCall::WallClock(answer)),
            answer,
            profile,
            read_before,
            limits,
            after,
            read_in_all,
            r,
        )
}

/// What followed the first reading of an attempt's clock.
pub open spec fn attempt_timed(
    calls: Seq<SourceCall>,
    answer: Result<SystemTime, ObservationError>,
    profile: MetadataProfile,
    read_before: usize,
    limits: ObservationLimits,
    after: Seq<SourceCall>,
    read_in_all: usize,
    r: Result<Attempt, ObservationError>,
) -> bool {
    match answer {
        Err(error) => {
            &&& r == Err::<Attempt, ObservationError>(error)
            &&& after == calls
            &&& read_in_all == read_before
        },
        Ok(started) => attempt_opened(
            calls,
            started,
            profile,
            read_before,
            limits,
            after,
            read_in_all,
            r,
        ),
    }
}

/// Make two passes: the first for identities alone, the second with what was asked for.
fn collect_attempt<S: ObservationSource>(
    source: &mut SourceRecord<S>,
    profile: MetadataProfile,
    read_in_all: &mut usize,
    limits: ObservationLimits,
) -> (r: Result<Attempt, ObservationError>)
    ensures
        attempt_made(
            old(source).calls(),
            profile,
            *old(read_in_all),
            limits,
            final(source).calls(),
            *final(read_in_all),
            r,
        ),
        r is Ok ==> r->Ok_0.wf(limits),
        *final(read_in_all) <= limits.identity_reads_total || *final(read_in_all) == *old(
            read_in_all,
        ),
{
    let ghost before = source.calls();
    let ghost read_before = *read_in_all;
    let answer = source.wall_clock();
    let ghost given = answer;
    let ghost timed = source.calls();
    assert(timed == before.push(SourceCall::WallClock(given)));
    let started = match answer {
        Ok(time) => time,
        Err(error) => {
            assert(attempt_timed(
                timed,
                given,
                profile,
                read_before,
                limits,
                timed,
                read_before,
                Err(error),
            ));
            return Err(error);
        },
    };
    let mut read = ReadCounts { in_attempt: 0, in_all: *read_in_all };
    let first_pass = collect_pass(source, MetadataProfile::IdentityOnly, &mut read, limits);
    *read_in_all = read.in_all;
    let ghost opened = source.calls();
    let ghost first_read = read;
    let ghost first_result = first_pass;
    assert(pass_made(
        timed,
        MetadataProfile::IdentityOnly,
        ReadCounts { in_attempt: 0, in_all: read_before },
        limits,
        opened,
        first_read,
        first_result,
    ));
    let first = match first_pass {
        Ok(pass) => pass,
        Err(error) => {
            assert(attempt_opened(
                timed,
                started,
                profile,
                read_before,
                limits,
                opened,
                first_read.in_all,
                Err(error),
            ));
            assert(attempt_timed(
                timed,
                given,
                profile,
                read_before,
                limits,
                opened,
                first_read.in_all,
                Err(error),
            ));
            return Err(error);
        },
    };
    let second_pass = collect_pass(source, profile, &mut read, limits);
    *read_in_all = read.in_all;
    let ghost continued = source.calls();
    let ghost second_result = second_pass;
    assert(pass_made(opened, profile, first_read, limits, continued, read, second_result));
    let second = match second_pass {
        Ok(pass) => pass,
        Err(error) => {
            assert(attempt_continued(
                opened,
                started,
                first,
                profile,
                first_read,
                limits,
                continued,
                read.in_all,
                Err(error),
            ));
            assert(attempt_opened(
                timed,
                started,
                profile,
                read_before,
                limits,
                continued,
                read.in_all,
                Err(error),
            ));
            assert(attempt_timed(
                timed,
                given,
                profile,
                read_before,
                limits,
                continued,
                read.in_all,
                Err(error),
            ));
            return Err(error);
        },
    };
    let answer = source.wall_clock();
    let ghost closing = answer;
    assert(source.calls() == continued.push(SourceCall::WallClock(closing)));
    let ghost (a, b) = (first, second);
    let r = match answer {
        Ok(completed) => match validate_wall_clock_interval(started, completed) {
            Ok(()) => {
                let change = compare_passes(&first, &second);
                Ok(Attempt { started, completed, first, second, change })
            },
            Err(error) => Err(error),
        },
        Err(error) => Err(error),
    };
    assert(attempt_closed(continued, started, a, b, source.calls(), r));
    assert(attempt_continued(
        opened,
        started,
        a,
        profile,
        first_read,
        limits,
        source.calls(),
        *read_in_all,
        r,
    ));
    assert(attempt_opened(
        timed,
        started,
        profile,
        read_before,
        limits,
        source.calls(),
        *read_in_all,
        r,
    ));
    assert(attempt_timed(
        timed,
        given,
        profile,
        read_before,
        limits,
        source.calls(),
        *read_in_all,
        r,
    ));
    r
}

/// What an attempt that is taken comes to.
pub open spec fn attempt_taken(
    scope: ObservationScope,
    attempt: Attempt,
    limits: ObservationLimits,
    r: Result<NetworkSnapshot, ObservationError>,
) -> bool {
    &&& attempt_settled(attempt.first, attempt.second, limits, r)
    &&& r is Ok ==> r->Ok_0.scope == scope && r->Ok_0.capture_started_at == attempt.started
        && r->Ok_0.capture_completed_at == attempt.completed
}

/// What followed the first attempt: one whose passes agree is taken, another is followed
/// by a second and last one, which is taken as it is.
pub open spec fn observation_followed(
    calls: Seq<SourceCall>,
    first: Result<Attempt, ObservationError>,
    read_in_all: usize,
    scope: ObservationScope,
    profile: MetadataProfile,
    limits: ObservationLimits,
    after: Seq<SourceCall>,
    r: Result<NetworkSnapshot, ObservationError>,
) -> bool {
    match first {
        Err(error) => r == Err::<NetworkSnapshot, ObservationError>(error) && after == calls,
        Ok(first) => if first.change.raced() {
            exists|read_after: usize, second: Result<Attempt, ObservationError>| #[trigger]
                attempt_made(calls, profile, read_in_all, limits, after, read_after, second)
                    && match second {
                    Err(error) => r == Err::<NetworkSnapshot, ObservationError>(error),
                    Ok(second) => attempt_taken(scope, second, limits, r),
                }
        } else {
            after == calls && attempt_taken(scope, first, limits, r)
        },
    }
}

/// The host was observed: at most two attempts were made of it, whose reads are counted
/// together.
pub open spec fn observation_made(
    before: Seq<SourceCall>,
    scope: ObservationScope,
    profile: MetadataProfile,
    limits: ObservationLimits,
    after: Seq<SourceCall>,
    r: Result<NetworkSnapshot, ObservationError>,
) -> bool {
    exists|made: Seq<SourceCall>, read_in_all: usize, first: Result<Attempt, ObservationError>|
        #[trigger]
        attempt_made(before, profile, 0, limits, made, read_in_all, first)
            && observation_followed(
            made,
            first,
            read_in_all,
            scope,
            profile,
            limits,
            after,
            r,
        )
}

/// Observe the host. Passes that do not agree are tried once more; the second try is taken
/// as it is, marked as raced where its passes did not agree either.
pub fn collect_consistent_with_limits<S: ObservationSource>(
    source: &mut SourceRecord<S>,
    scope: ObservationScope,
    profile: MetadataProfile,
    limits: ObservationLimits,
) -> (r: Result<NetworkSnapshot, ObservationError>)
    ensures
        observation_made(
            old(source).calls(),
            scope,
            profile,
            limits,
            final(source).calls(),
            r,
        ),
        r is Ok ==> {
            let s = r->Ok_0;
            &&& s.capture_started_at.nanos <= s.capture_completed_at.nanos
            &&& s.sockets.len() <= limits.sockets
            &&& s.evidence_gaps.len() <= limits.evidence_gaps
        },
{
    let ghost before = source.calls();
    let mut read_in_all: usize = 0;
    let first = collect_attempt(source, profile, &mut read_in_all, limits);
    let ghost first_result = first;
    let ghost first_read = read_in_all;
    let ghost made = source.calls();
    assert(attempt_made(before, profile, 0, limits, made, first_read, first_result));
    let attempt = match first {
        Ok(attempt) => attempt,
        Err(error) => {
            assert(observation_followed(
                made,
                first_result,
                first_read,
                scope,
                profile,
                limits,
                made,
                Err(error),
            ));
            return Err(error);
        },
    };
    let attempt = if attempt.change.socket_set || attempt.change.ownership {
        let second = collect_attempt(source, profile, &mut read_in_all, limits);
        let ghost second_result = second;
        assert(attempt_made(
            made,
            profile,
            first_read,
            limits,
            source.calls(),
            read_in_all,
            second_result,
        ));
        match second {
            Ok(attempt) => attempt,
            Err(error) => {
                assert(observation_followed(
                    made,
                    first_result,
                    first_read,
                    scope,
                    profile,
                    limits,
                    source.calls(),
                    Err(error),
                ));
                return Err(error);
            },
        }
    } else {
        attempt
    };
    assert(attempt.wf(limits));
    let ghost taken = attempt;
    let r = settle_attempt(
        scope,
        attempt.started,
        attempt.completed,
        &attempt.first,
        attempt.second,
        attempt.change,
        limits,
    );
    assert(attempt_taken(scope, taken, limits, r));
    assert(observation_followed(
        made,
        first_result,
        first_read,
        scope,
        profile,
        limits,
        source.calls(),
        r,
    ));
    r
}

} // verus!
