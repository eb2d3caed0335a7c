//! Kill targets: who is meant, what must be confirmed, and whether a target still
//! is the one that was confirmed.

use vstd::prelude::*;
use vstd::string::*;
use crate::address::IpAddr;
use crate::model::{
    endpoint_text, human_endpoint_text, Ipv6Scope, PermissionStatus, Platform, Protocol,
};
use crate::observation::ProcessStartMarker;
use crate::ports::{is_system_process, system_process, PortEntry, ProcessContext};
use crate::text::{
    decimal, decimal_text, opt_str, opt_text, push_char, sanitize, sanitized, str_eq,
};

verus! {

/// The longest answer to a confirmation, in bytes.
pub const CONFIRMATION_INPUT_MAX_BYTES: usize = 256;

/// Facts about this program's own process.
#[derive(Debug, Clone, Copy, PartialEq, Eq, Structural)]
pub struct HostFacts {
    pub own_pid: u32,
    pub user_id: u32,
}

/// How a process is ended.
#[derive(Debug, Clone, Copy, PartialEq, Eq, Structural)]
pub enum KillMode {
    Terminate,
    Force,
}

impl KillMode {
    pub open spec fn of_force(force: bool) -> KillMode {
        if force {
            KillMode::Force
        } else {
            KillMode::Terminate
        }
    }

    pub fn from_force(force: bool) -> (r: KillMode)
        ensures
            r == Self::of_force(force),
    {
        if force {
            KillMode::Force
        } else {
            KillMode::Terminate
        }
    }
}

/// What must be typed before a process is ended.
#[derive(Debug, Clone, Copy, PartialEq, Eq, Structural)]
pub enum ConfirmationRequirement {
    Yes,
    ForceWord,
    ProtectedProcess,
}

/// Why a PID is never signalled.
#[derive(Debug, Clone, Copy, PartialEq, Eq, Structural)]
pub enum UnsafePidReason {
    Zero,
    One,
    CurrentProcess,
}

impl UnsafePidReason {
    pub open spec fn text(self) -> Seq<char> {
        match self {
            UnsafePidReason::Zero => "PID 0 addresses a whole process group"@,
            UnsafePidReason::One => "PID 1 is the init process"@,
            UnsafePidReason::CurrentProcess => "the PID is this program itself"@,
        }
    }

    pub fn message(self) -> (r: &'static str)
        ensures
            r@ == self.text(),
    {
        match self {
            UnsafePidReason::Zero => "PID 0 addresses a whole process group",
            UnsafePidReason::One => "PID 1 is the init process",
            UnsafePidReason::CurrentProcess => "the PID is this program itself",
        }
    }
}

/// PIDs that are never signalled: none, init and this program.
pub open spec fn unsafe_reason(pid: u32, host: HostFacts) -> Option<UnsafePidReason> {
    if pid == 0 {
        Some(UnsafePidReason::Zero)
    } else if pid == 1 {
        Some(UnsafePidReason::One)
    } else if pid == host.own_pid {
        Some(UnsafePidReason::CurrentProcess)
    } else {
        None
    }
}

pub fn unsafe_pid_reason(pid: u32, host: HostFacts) -> (r: Option<UnsafePidReason>)
    ensures
        r == unsafe_reason(pid, host),
{
    if pid == 0 {
        Some(UnsafePidReason::Zero)
    } else if pid == 1 {
        Some(UnsafePidReason::One)
    } else if pid == host.own_pid {
        Some(UnsafePidReason::CurrentProcess)
    } else {
        None
    }
}

/// How an attempt to end one process ended.
#[derive(Debug, PartialEq, Eq)]
pub enum TerminationOutcome {
    Success,
    PermissionDenied,
    OwnershipUnavailable,
    AlreadyExited,
    TargetChanged,
    Cancelled,
    ProtectedProcess,
    UnsafePid(UnsafePidReason),
    UnknownFailure(String),
    /// A stopped process could not be resumed after the outcome `prior`.
    ThawFailed { pid: u32, prior: Box<TerminationOutcome> },
}

/// One endpoint that a target holds.
#[derive(Debug, Clone, Copy, PartialEq, Eq, Structural)]
pub struct KillTargetPort {
    pub protocol: Protocol,
    pub local_addr: IpAddr,
    pub local_port: u16,
    pub ipv6_scope: Option<Ipv6Scope>,
}

impl KillTargetPort {
    pub open spec fn of(row: PortEntry) -> KillTargetPort {
        KillTargetPort {
            protocol: row.protocol,
            local_addr: row.local_addr,
            local_port: row.local_port,
            ipv6_scope: row.ipv6_scope,
        }
    }

    pub fn from_row(row: &PortEntry) -> (r: KillTargetPort)
        ensures
            r == Self::of(*row),
    {
        KillTargetPort {
            protocol: row.protocol,
            local_addr: row.local_addr,
            local_port: row.local_port,
            ipv6_scope: row.ipv6_scope,
        }
    }
}

/// A process to be ended, with what is known about it.
#[derive(Debug, PartialEq, Eq)]
pub struct KillTarget {
    pub pid: u32,
    pub process_name: Option<String>,
    pub platform: Platform,
    pub permission: PermissionStatus,
    pub protected: bool,
    pub system_process: bool,
    pub ports: Vec<KillTargetPort>,
    pub owner_uid: Option<u32>,
    pub process_start_time_marker: Option<ProcessStartMarker>,
    pub child_count: usize,
    pub children_truncated: bool,
}

/// The first name among rows.
pub open spec fn first_name(rows: Seq<&PortEntry>) -> Option<Seq<char>>
    decreases rows.len(),
{
    if rows.len() == 0 {
        None
    } else {
        match first_name(rows.drop_last()) {
            Some(name) => Some(name),
            None => opt_text(rows.last().process_name),
        }
    }
}

/// The first start marker that rows give for a PID.
pub open spec fn first_marker(rows: Seq<&PortEntry>, pid: u32) -> Option<ProcessStartMarker>
    decreases rows.len(),
{
    if rows.len() == 0 {
        None
    } else {
        match first_marker(rows.drop_last(), pid) {
            Some(marker) => Some(marker),
            None => match rows.last().process_identity {
                Some(identity) => if identity.pid == pid {
                    Some(identity.start_marker)
                } else {
                    None
                },
                None => None,
            },
        }
    }
}

/// Whether a row's process belongs to the system.
pub open spec fn system_row(row: PortEntry) -> bool {
    system_process(row.platform, opt_text(row.process_name), opt_text(row.parent_process_name))
}

impl KillTarget {
    /// The target is what rows and a context say of a PID. The start marker is that of
    /// the rows: what was seen when the port was seen. Every warning sign of any row
    /// counts.
    pub open spec fn tells(
        self,
        pid: u32,
        rows: Seq<&PortEntry>,
        context: Option<&ProcessContext>,
    ) -> bool {
        &&& self.pid == pid
        &&& opt_text(self.process_name) == first_name(rows)
        &&& self.platform == rows[0].platform
        &&& self.permission == (if exists|i: int|
            0 <= i < rows.len() && (#[trigger] rows[i]).permission == PermissionStatus::Partial {
            PermissionStatus::Partial
        } else {
            PermissionStatus::Full
        })
        &&& self.protected == (exists|i: int| 0 <= i < rows.len() && (#[trigger] rows[i]).protected)
        &&& self.system_process == (exists|i: int|
            0 <= i < rows.len() && system_row(*#[trigger] rows[i]))
        &&& self.ports@ == rows.map_values(|row: &PortEntry| KillTargetPort::of(*row))
        &&& self.process_start_time_marker == first_marker(rows, pid)
        &&& match context {
            Some(context) => {
                &&& self.owner_uid == context.owner_uid
                &&& self.child_count == context.children.children.len()
                &&& self.children_truncated == context.children.truncated
            },
            None => self.owner_uid is None && self.child_count == 0 && !self.children_truncated,
        }
    }

    /// Gather what rows and a context say of a PID.
    pub fn from_entries(
        pid: u32,
        rows: &Vec<&PortEntry>,
        context: Option<&ProcessContext>,
    ) -> (r: KillTarget)
        requires
            rows.len() > 0,
        ensures
            r.tells(pid, rows@, context),
    {
        let mut process_name: Option<String> = None;
        let mut permission = PermissionStatus::Full;
        let mut protected: bool = false;
        let mut system: bool = false;
        let mut ports: Vec<KillTargetPort> = Vec::new();
        let mut marker: Option<ProcessStartMarker> = None;
        let mut i: usize = 0;
        assert(rows@.take(0) =~= Seq::empty());
        while i < rows.len()
            invariant
                i <= rows.len(),
                opt_text(process_name) == first_name(rows@.take(i as int)),
                permission == (if exists|j: int|
                    0 <= j < i && (#[trigger] rows@[j]).permission == PermissionStatus::Partial {
                    PermissionStatus::Partial
                } else {
                    PermissionStatus::Full
                }),
                protected == (exists|j: int| 0 <= j < i && (#[trigger] rows@[j]).protected),
                system == (exists|j: int| 0 <= j < i && system_row(*#[trigger] rows@[j])),
                ports@ == rows@.take(i as int).map_values(
                    |row: &PortEntry| KillTargetPort::of(*row),
                ),
                marker == first_marker(rows@.take(i as int), pid),
            decreases rows.len() - i,
        {
            let row = rows[i];
            let ghost part = rows@.take(i + 1);
            assert(part.drop_last() =~= rows@.take(i as int));
            assert(part.last() == rows@[i as int]);
            if process_name.is_none() {
                process_name = match &row.process_name {
                    Some(name) => Some(name.clone()),
                    None => None,
                };
            }
            if row.permission == PermissionStatus::Partial {
                permission = PermissionStatus::Partial;
            }
            if row.protected {
                protected = true;
            }
            if is_system_process(
                row.platform,
                opt_str(&row.process_name),
                opt_str(&row.parent_process_name),
            ) {
                system = true;
            }
            ports.push(KillTargetPort::from_row(row));
            assert(ports@ =~= part.map_values(|row: &PortEntry| KillTargetPort::of(*row)));
            if marker.is_none() {
                if let Some(identity) = row.process_identity {
                    if identity.pid == pid {
                        marker = Some(identity.start_marker);
                    }
                }
            }
            i = i + 1;
        }
        assert(rows@.take(rows@.len() as int) =~= rows@);
        let (owner_uid, child_count, children_truncated): (Option<u32>, usize, bool) =
            match context {
            Some(context) => (
                context.owner_uid,
                context.children.children.len(),
                context.children.truncated,
            ),
            None => (None, 0, false),
        };
        KillTarget {
            pid,
            process_name,
            platform: rows[0].platform,
            permission,
            protected,
            system_process: system,
            ports,
            owner_uid,
            process_start_time_marker: marker,
            child_count,
            children_truncated,
        }
    }
}

/// A blank that may stand around an answer.
pub open spec fn is_blank(ch: char) -> bool {
    ch == ' ' || ch == '\t' || ch == '\r' || ch == '\n'
}

fn blank(ch: char) -> (r: bool)
    ensures
        r == is_blank(ch),
{
    ch == ' ' || ch == '\t' || ch == '\r' || ch == '\n'
}

/// A text without the blanks at its end.
pub open spec fn right_trimmed(text: Seq<char>) -> Seq<char>
    decreases text.len(),
{
    if text.len() > 0 && is_blank(text.last()) {
        right_trimmed(text.drop_last())
    } else {
        text
    }
}

/// A text without the blanks around it.
pub open spec fn trimmed(text: Seq<char>) -> Seq<char>
    decreases text.len(),
{
    if text.len() > 0 && is_blank(text[0]) {
        trimmed(text.drop_first())
    } else {
        right_trimmed(text)
    }
}

/// An answer without the blanks around it.
pub fn trim_answer(input: &str) -> (r: String)
    ensures
        r@ == trimmed(input@),
{
    let chars = crate::text::chars_of(input);
    let mut start: usize = 0;
    assert(chars@.skip(0) =~= chars@);
    while start < chars.len() && blank(chars[start])
        invariant
            start <= chars.len(),
            trimmed(input@) == trimmed(chars@.skip(start as int)),
        decreases chars.len() - start,
    {
        assert(chars@.skip(start as int).drop_first() =~= chars@.skip(start + 1));
        start = start + 1;
    }
    let ghost rest = chars@.skip(start as int);
    let mut end: usize = chars.len();
    assert(chars@.subrange(start as int, end as int) =~= rest);
    while end > start && blank(chars[end - 1])
        invariant
            start <= end <= chars.len(),
            right_trimmed(rest) == right_trimmed(chars@.subrange(start as int, end as int)),
        decreases end - start,
    {
        assert(chars@.subrange(start as int, end as int).drop_last() =~= chars@.subrange(
            start as int,
            end - 1,
        ));
        end = end - 1;
    }
    let mut out = String::new();
    let mut i: usize = start;
    assert(out@ =~= chars@.subrange(start as int, start as int));
    while i < end
        invariant
            start <= i <= end <= chars.len(),
            out@ == chars@.subrange(start as int, i as int),
        decreases end - i,
    {
        push_char(&mut out, chars[i]);
        i = i + 1;
        assert(out@ =~= chars@.subrange(start as int, i as int));
    }
    out
}

/// The typed word, blanks aside.
pub fn word_confirmation_matches(input: &str, word: &str) -> (r: bool)
    ensures
        r == (trimmed(input@) == word@),
{
    str_eq(trim_answer(input).as_str(), word)
}

/// An answer that confirms a requirement for a target.
pub open spec fn confirms(
    input: Seq<char>,
    target: KillTarget,
    requirement: ConfirmationRequirement,
) -> bool {
    let answer = trimmed(input);
    match requirement {
        ConfirmationRequirement::Yes => answer == "y"@ || answer == "Y"@,
        ConfirmationRequirement::ForceWord => answer == "force"@,
        ConfirmationRequirement::ProtectedProcess => answer == decimal(target.pid as nat)
            || opt_text(target.process_name) == Some(answer),
    }
}

pub fn confirmation_input_matches(
    input: &str,
    target: &KillTarget,
    requirement: ConfirmationRequirement,
) -> (r: bool)
    ensures
        r == confirms(input@, *target, requirement),
{
    let answer = trim_answer(input);
    match requirement {
        ConfirmationRequirement::Yes => str_eq(answer.as_str(), "y") || str_eq(
            answer.as_str(),
            "Y",
        ),
        ConfirmationRequirement::ForceWord => str_eq(answer.as_str(), "force"),
        ConfirmationRequirement::ProtectedProcess => {
            let by_pid = str_eq(answer.as_str(), decimal_text(target.pid as u128).as_str());
            let by_name: bool = match &target.process_name {
                Some(name) => str_eq(answer.as_str(), name.as_str()),
                None => false,
            };
            by_pid || by_name
        },
    }
}

/// What must be confirmed. `--yes` never stands for the confirmation of a protected
/// process, nor for the word that a forced kill is configured to ask for.
pub open spec fn requirement_of(
    protected: bool,
    mode: KillMode,
    yes: bool,
    confirm_force_kill: bool,
) -> Result<Option<ConfirmationRequirement>, TerminationOutcome> {
    if protected {
        if yes {
            Err(TerminationOutcome::ProtectedProcess)
        } else {
            Ok(Some(ConfirmationRequirement::ProtectedProcess))
        }
    } else if mode == KillMode::Force && confirm_force_kill {
        Ok(Some(ConfirmationRequirement::ForceWord))
    } else if yes {
        Ok(None)
    } else {
        Ok(Some(ConfirmationRequirement::Yes))
    }
}

pub fn confirmation_requirement(
    protected: bool,
    mode: KillMode,
    yes: bool,
    confirm_force_kill: bool,
) -> (r: Result<Option<ConfirmationRequirement>, TerminationOutcome>)
    ensures
        r == requirement_of(protected, mode, yes, confirm_force_kill),
{
    if protected {
        if yes {
            Err(TerminationOutcome::ProtectedProcess)
        } else {
            Ok(Some(ConfirmationRequirement::ProtectedProcess))
        }
    } else if mode == KillMode::Force && confirm_force_kill {
        Ok(Some(ConfirmationRequirement::ForceWord))
    } else if yes {
        Ok(None)
    } else {
        Ok(Some(ConfirmationRequirement::Yes))
    }
}

/// A protected process is never ended without its own confirmation, whatever else is
/// asked for.
pub proof fn law_protected_process_is_always_confirmed(
    mode: KillMode,
    yes: bool,
    confirm_force_kill: bool,
)
    ensures
        requirement_of(true, mode, yes, confirm_force_kill) != Ok::<
            Option<ConfirmationRequirement>,
            TerminationOutcome,
        >(None),
        requirement_of(true, mode, yes, confirm_force_kill) is Ok ==> requirement_of(
            true,
            mode,
            yes,
            confirm_force_kill,
        )->Ok_0 == Some(ConfirmationRequirement::ProtectedProcess),
{
}

pub fn kill_target_has_port(ports: &Vec<KillTargetPort>, port: KillTargetPort) -> (r: bool)
    ensures
        r == ports@.contains(port),
{
    let mut i: usize = 0;
    while i < ports.len()
        invariant
            i <= ports.len(),
            forall|j: int| 0 <= j < i ==> ports@[j] != port,
        decreases ports.len() - i,
    {
        if ports[i] == port {
            assert(ports@[i as int] == port);
            return true;
        }
        i = i + 1;
    }
    false
}

/// A confirmed port is visible, but its owner no longer is.
pub open spec fn owner_hidden(ports: Seq<KillTargetPort>, rows: Seq<PortEntry>) -> bool {
    exists|i: int|
        0 <= i < rows.len() && (#[trigger] rows[i]).pid is None && ports.contains(
            KillTargetPort::of(rows[i]),
        )
}

pub fn confirmed_port_owner_unavailable(confirmed: &KillTarget, rows: &Vec<PortEntry>) -> (r: bool)
    ensures
        r == owner_hidden(confirmed.ports@, rows@),
{
    let mut i: usize = 0;
    while i < rows.len()
        invariant
            i <= rows.len(),
            forall|j: int|
                0 <= j < i ==> !((#[trigger] rows@[j]).pid is None && confirmed.ports@.contains(
                    KillTargetPort::of(rows@[j]),
                )),
        decreases rows.len() - i,
    {
        if rows[i].pid.is_none() && kill_target_has_port(
            &confirmed.ports,
            KillTargetPort::from_row(&rows[i]),
        ) {
            return true;
        }
        i = i + 1;
    }
    false
}

/// The fresh target is the confirmed one: same PID and start, the confirmed name where
/// there was one, and every confirmed port still held.
pub open spec fn still_matches(confirmed: KillTarget, fresh: KillTarget) -> bool {
    &&& confirmed.pid == fresh.pid
    &&& confirmed.process_start_time_marker == fresh.process_start_time_marker
    &&& confirmed.process_name is Some ==> opt_text(fresh.process_name) == opt_text(
        confirmed.process_name,
    )
    &&& forall|i: int|
        0 <= i < confirmed.ports.len() ==> fresh.ports@.contains(#[trigger] confirmed.ports@[i])
}

pub fn target_still_matches_confirmation(confirmed: &KillTarget, fresh: &KillTarget) -> (r: bool)
    ensures
        r == still_matches(*confirmed, *fresh),
{
    if confirmed.pid != fresh.pid {
        return false;
    }
    if confirmed.process_start_time_marker != fresh.process_start_time_marker {
        return false;
    }
    let same_name: bool = match &confirmed.process_name {
        Some(expected) => match &fresh.process_name {
            Some(name) => str_eq(name.as_str(), expected.as_str()),
            None => false,
        },
        None => true,
    };
    if !same_name {
        return false;
    }
    let mut i: usize = 0;
    while i < confirmed.ports.len()
        invariant
            i <= confirmed.ports.len(),
            forall|j: int|
                0 <= j < i ==> fresh.ports@.contains(#[trigger] confirmed.ports@[j]),
        decreases confirmed.ports.len() - i,
    {
        if !kill_target_has_port(&fresh.ports, confirmed.ports[i]) {
            assert(!fresh.ports@.contains(confirmed.ports@[i as int]));
            return false;
        }
        i = i + 1;
    }
    true
}

/// The evidence that a signal to one process rests on: it is the confirmed PID, and
/// its name and start are known.
pub open spec fn delivery_evidence(confirmed: KillTarget, fresh: KillTarget) -> bool {
    &&& confirmed.pid == fresh.pid
    &&& fresh.process_name is Some
    &&& fresh.process_start_time_marker is Some
}

/// What is missing of a fresh target that a signal must not be sent to.
pub open spec fn evidence_gap(confirmed: KillTarget, fresh: KillTarget) -> Seq<char> {
    if confirmed.pid != fresh.pid {
        "the confirmed port now belongs to another process"@
    } else if fresh.process_name is None {
        "the process name could not be read again"@
    } else {
        "the process start time could not be read again"@
    }
}

/// The outcome that tells what is missing.
pub open spec fn tells_gap(
    outcome: TerminationOutcome,
    confirmed: KillTarget,
    fresh: KillTarget,
) -> bool {
    outcome matches TerminationOutcome::UnknownFailure(text) && text@ == evidence_gap(
        confirmed,
        fresh,
    )
}

/// Let a fresh target through to a signal, or tell what is missing.
pub fn validate_single_delivery_evidence(confirmed: &KillTarget, fresh: &KillTarget) -> (r: Result<
    (),
    TerminationOutcome,
>)
    ensures
        r is Ok <==> delivery_evidence(*confirmed, *fresh),
        r is Err ==> tells_gap(r->Err_0, *confirmed, *fresh),
{
    if confirmed.pid != fresh.pid {
        return Err(
            TerminationOutcome::UnknownFailure(
                "the confirmed port now belongs to another process".to_owned(),
            ),
        );
    }
    if fresh.process_name.is_none() {
        return Err(
            TerminationOutcome::UnknownFailure(
                "the process name could not be read again".to_owned(),
            ),
        );
    }
    if fresh.process_start_time_marker.is_none() {
        return Err(
            TerminationOutcome::UnknownFailure(
                "the process start time could not be read again".to_owned(),
            ),
        );
    }
    Ok(())
}

/// The rows of a PID, in order.
pub open spec fn rows_of_pid<'a>(rows: Seq<PortEntry>, pid: u32) -> Seq<&'a PortEntry>
    decreases rows.len(),
{
    if rows.len() == 0 {
        Seq::empty()
    } else {
        let head = rows_of_pid(rows.drop_last(), pid);
        if rows.last().pid == Some(pid) {
            head.push(&rows.last())
        } else {
            head
        }
    }
}

pub fn entries_of_pid<'a>(rows: &'a Vec<PortEntry>, pid: u32) -> (r: Vec<&'a PortEntry>)
    ensures
        r@ == rows_of_pid(rows@, pid),
{
    let mut found: Vec<&'a PortEntry> = Vec::new();
    let mut i: usize = 0;
    assert(rows@.take(0) =~= Seq::empty());
    while i < rows.len()
        invariant
            i <= rows.len(),
            found@ == rows_of_pid(rows@.take(i as int), pid),
        decreases rows.len() - i,
    {
        assert(rows@.take(i + 1).drop_last() =~= rows@.take(i as int));
        assert(rows@.take(i + 1).last() == rows@[i as int]);
        let owned: bool = match rows[i].pid {
            Some(owner) => owner == pid,
            None => false,
        };
        if owned {
            found.push(&rows[i]);
        }
        i = i + 1;
    }
    assert(rows@.take(rows@.len() as int) =~= rows@);
    found
}

/// What fresh rows and a fresh context say about a confirmed target: a hidden owner,
/// a changed target and new protection refuse it, in this order.
pub open spec fn revalidates(
    confirmed: KillTarget,
    rows: Seq<PortEntry>,
    context: Option<&ProcessContext>,
    r: Result<KillTarget, TerminationOutcome>,
) -> bool {
    let own = rows_of_pid(rows, confirmed.pid);
    if owner_hidden(confirmed.ports@, rows) {
        r == Err::<KillTarget, TerminationOutcome>(TerminationOutcome::OwnershipUnavailable)
    } else if own.len() == 0 {
        r == Err::<KillTarget, TerminationOutcome>(TerminationOutcome::TargetChanged)
    } else {
        exists|fresh: KillTarget|
            #[trigger] fresh.tells(confirmed.pid, own, context) && accepts(confirmed, fresh, r)
    }
}

/// What becomes of a fresh target that was read in full.
pub open spec fn accepts(
    confirmed: KillTarget,
    fresh: KillTarget,
    r: Result<KillTarget, TerminationOutcome>,
) -> bool {
    if !still_matches(confirmed, fresh) {
        r == Err::<KillTarget, TerminationOutcome>(TerminationOutcome::TargetChanged)
    } else if fresh.protected && !confirmed.protected {
        r == Err::<KillTarget, TerminationOutcome>(TerminationOutcome::ProtectedProcess)
    } else {
        r == Ok::<KillTarget, TerminationOutcome>(fresh)
    }
}

pub fn accept_fresh_target(confirmed: &KillTarget, fresh: KillTarget) -> (r: Result<
    KillTarget,
    TerminationOutcome,
>)
    ensures
        accepts(*confirmed, fresh, r),
{
    if !target_still_matches_confirmation(confirmed, &fresh) {
        return Err(TerminationOutcome::TargetChanged);
    }
    if fresh.protected && !confirmed.protected {
        return Err(TerminationOutcome::ProtectedProcess);
    }
    Ok(fresh)
}

pub fn revalidate_confirmed_target(
    confirmed: &KillTarget,
    rows: &Vec<PortEntry>,
    context: Option<&ProcessContext>,
) -> (r: Result<KillTarget, TerminationOutcome>)
    ensures
        revalidates(*confirmed, rows@, context, r),
{
    if confirmed_port_owner_unavailable(confirmed, rows) {
        return Err(TerminationOutcome::OwnershipUnavailable);
    }
    let own = entries_of_pid(rows, confirmed.pid);
    if own.len() == 0 {
        return Err(TerminationOutcome::TargetChanged);
    }
    let fresh = KillTarget::from_entries(confirmed.pid, &own, context);
    let ghost seen = fresh;
    let r = accept_fresh_target(confirmed, fresh);
    assert(seen.tells(confirmed.pid, own@, context));
    r
}

/// A target that passes is the confirmed process, and is protected only where that was
/// confirmed.
pub proof fn law_revalidated_target_is_the_confirmed_one(
    confirmed: KillTarget,
    rows: Seq<PortEntry>,
    context: Option<&ProcessContext>,
    fresh: KillTarget,
)
    requires
        revalidates(confirmed, rows, context, Ok(fresh)),
    ensures
        still_matches(confirmed, fresh),
        fresh.protected ==> confirmed.protected,
        !owner_hidden(confirmed.ports@, rows),
{
}

/// The name of a target, or a stand-in.
pub open spec fn name_text(target: KillTarget) -> Seq<char> {
    match target.process_name {
        Some(name) => name@,
        None => "<unknown>"@,
    }
}

/// The endpoints of a target, with commas between them.
pub open spec fn joined_ports(ports: Seq<KillTargetPort>) -> Seq<char>
    decreases ports.len(),
{
    if ports.len() == 0 {
        Seq::empty()
    } else {
        let port = ports.last();
        (if ports.len() == 1 {
            Seq::empty()
        } else {
            joined_ports(ports.drop_last()) + ", "@
        }) + port.protocol.label_text() + " "@ + endpoint_text(
            port.local_addr,
            port.local_port,
            port.ipv6_scope,
        )
    }
}

/// Something about a target that its user should know.
#[derive(Debug, Clone, Copy, PartialEq, Eq, Structural)]
pub enum KillWarning {
    PartialMetadata,
    SystemProcess,
    OtherOwner { owner_uid: u32, user_id: u32 },
    HasChildren { count: usize, truncated: bool },
}

impl KillTarget {
    pub fn process_name_or_unknown(&self) -> (r: &str)
        ensures
            r@ == name_text(*self),
    {
        match &self.process_name {
            Some(name) => name.as_str(),
            None => "<unknown>",
        }
    }

    /// The endpoints that the target holds; a dash where there is none.
    pub fn ports_text(&self) -> (r: String)
        ensures
            r@ == (if self.ports.len() == 0 {
                "-"@
            } else {
                joined_ports(self.ports@)
            }),
    {
        if self.ports.len() == 0 {
            return "-".to_owned();
        }
        let mut text = String::new();
        let mut i: usize = 0;
        assert(self.ports@.take(0) =~= Seq::empty());
        while i < self.ports.len()
            invariant
                i <= self.ports.len(),
                text@ == joined_ports(self.ports@.take(i as int)),
            decreases self.ports.len() - i,
        {
            let ghost part = self.ports@.take(i + 1);
            assert(part.drop_last() =~= self.ports@.take(i as int));
            assert(part.last() == self.ports@[i as int]);
            let port = self.ports[i];
            if i > 0 {
                text.append(", ");
            }
            text.append(port.protocol.label());
            text.append(" ");
            text.append(
                human_endpoint_text(port.local_addr, port.local_port, port.ipv6_scope).as_str(),
            );
            assert(text@ =~= joined_ports(part));
            i = i + 1;
        }
        assert(self.ports@.take(self.ports@.len() as int) =~= self.ports@);
        text
    }

    /// The warnings about a target, in the order they are shown.
    pub open spec fn warned(self, host: HostFacts) -> Seq<KillWarning> {
        (if self.permission == PermissionStatus::Partial {
            seq![KillWarning::PartialMetadata]
        } else {
            Seq::empty()
        }) + (if self.system_process {
            seq![KillWarning::SystemProcess]
        } else {
            Seq::empty()
        }) + (if self.owner_uid is Some && self.owner_uid->0 != host.user_id {
            seq![
                KillWarning::OtherOwner { owner_uid: self.owner_uid->0, user_id: host.user_id },
            ]
        } else {
            Seq::empty()
        }) + (if self.child_count > 0 {
            seq![
                KillWarning::HasChildren {
                    count: self.child_count,
                    truncated: self.children_truncated,
                },
            ]
        } else {
            Seq::empty()
        })
    }

    pub fn warnings(&self, host: HostFacts) -> (r: Vec<KillWarning>)
        ensures
            r@ == self.warned(host),
    {
        let mut warnings: Vec<KillWarning> = Vec::new();
        if self.permission == PermissionStatus::Partial {
            warnings.push(KillWarning::PartialMetadata);
        }
        if self.system_process {
            warnings.push(KillWarning::SystemProcess);
        }
        if let Some(owner_uid) = self.owner_uid {
            if owner_uid != host.user_id {
                warnings.push(KillWarning::OtherOwner { owner_uid, user_id: host.user_id });
            }
        }
        if self.child_count > 0 {
            warnings.push(
                KillWarning::HasChildren {
                    count: self.child_count,
                    truncated: self.children_truncated,
                },
            );
        }
        assert(warnings@ =~= self.warned(host));
        warnings
    }

    pub fn duplicate(&self) -> (r: KillTarget)
        ensures
            same_target(r, *self),
    {
        let mut ports: Vec<KillTargetPort> = Vec::new();
        let mut i: usize = 0;
        while i < self.ports.len()
            invariant
                i <= self.ports.len(),
                ports@ == self.ports@.take(i as int),
            decreases self.ports.len() - i,
        {
            ports.push(self.ports[i]);
            i = i + 1;
            assert(ports@ =~= self.ports@.take(i as int));
        }
        assert(self.ports@.take(self.ports@.len() as int) =~= self.ports@);
        KillTarget {
            pid: self.pid,
            process_name: match &self.process_name {
                Some(name) => Some(name.clone()),
                None => None,
            },
            platform: self.platform,
            permission: self.permission,
            protected: self.protected,
            system_process: self.system_process,
            ports,
            owner_uid: self.owner_uid,
            process_start_time_marker: self.process_start_time_marker,
            child_count: self.child_count,
            children_truncated: self.children_truncated,
        }
    }
}

/// Two targets say the same.
pub open spec fn same_target(a: KillTarget, b: KillTarget) -> bool {
    &&& a.pid == b.pid
    &&& opt_text(a.process_name) == opt_text(b.process_name)
    &&& a.platform == b.platform
    &&& a.permission == b.permission
    &&& a.protected == b.protected
    &&& a.system_process == b.system_process
    &&& a.ports@ == b.ports@
    &&& a.owner_uid == b.owner_uid
    &&& a.process_start_time_marker == b.process_start_time_marker
    &&& a.child_count == b.child_count
    &&& a.children_truncated == b.children_truncated
}

impl KillMode {
    pub open spec fn delivery_text(self, platform: Platform) -> Seq<char> {
        match (platform, self) {
            (Platform::Windows, _) => "TerminateProcess"@,
            (_, KillMode::Terminate) => "SIGTERM"@,
            (_, KillMode::Force) => "SIGKILL"@,
        }
    }

    /// What is delivered to a process.
    pub fn delivery_label(self, platform: Platform) -> (r: &'static str)
        ensures
            r@ == self.delivery_text(platform),
    {
        match platform {
            Platform::Windows => "TerminateProcess",
            _ => match self {
                KillMode::Terminate => "SIGTERM",
                KillMode::Force => "SIGKILL",
            },
        }
    }

    pub open spec fn action_text(self) -> Seq<char> {
        match self {
            KillMode::Terminate => "Terminate"@,
            KillMode::Force => "Force kill"@,
        }
    }

    pub fn action_label(self) -> (r: &'static str)
        ensures
            r@ == self.action_text(),
    {
        match self {
            KillMode::Terminate => "Terminate",
            KillMode::Force => "Force kill",
        }
    }
}

/// How a target is named to people.
pub open spec fn identity_text(target: KillTarget) -> Seq<char> {
    "PID "@ + decimal(target.pid as nat) + " ("@ + sanitized(name_text(target)) + ")"@
}

/// The sentence about an outcome.
pub open spec fn outcome_text(
    outcome: TerminationOutcome,
    target: KillTarget,
    mode: KillMode,
) -> Seq<char> {
    let identity = identity_text(target);
    match outcome {
        TerminationOutcome::Success => "sent "@ + mode.delivery_text(target.platform) + " to "@
            + identity,
        TerminationOutcome::PermissionDenied => "permission denied for "@ + identity,
        TerminationOutcome::OwnershipUnavailable => identity
            + ": the owner of a confirmed port can no longer be read"@,
        TerminationOutcome::AlreadyExited => identity + " already exited"@,
        TerminationOutcome::TargetChanged => identity + " no longer owns the confirmed ports"@,
        TerminationOutcome::Cancelled => "kill cancelled"@,
        TerminationOutcome::ProtectedProcess => identity + " is protected"@,
        TerminationOutcome::UnsafePid(reason) => "unsafe PID blocked: "@ + reason.text(),
        TerminationOutcome::UnknownFailure(error) => "terminating "@ + identity + " failed: "@
            + sanitized(error@),
        TerminationOutcome::ThawFailed { pid, .. } => "resuming PID "@ + decimal(pid as nat)
            + " failed"@,
    }
}

impl KillTarget {
    /// How the target is named to people.
    pub fn identity(&self) -> (r: String)
        ensures
            r@ == identity_text(*self),
    {
        let mut text = "PID ".to_owned();
        text.append(decimal_text(self.pid as u128).as_str());
        text.append(" (");
        text.append(sanitize(self.process_name_or_unknown()).as_str());
        text.append(")");
        text
    }
}

impl TerminationOutcome {
    /// The sentence about an outcome.
    pub fn status_description(&self, target: &KillTarget, mode: KillMode) -> (r: String)
        ensures
            r@ == outcome_text(*self, *target, mode),
    {
        let identity = target.identity();
        match self {
            TerminationOutcome::Success => {
                let mut text = "sent ".to_owned();
                text.append(mode.delivery_label(target.platform));
                text.append(" to ");
                text.append(identity.as_str());
                text
            },
            TerminationOutcome::PermissionDenied => "permission denied for ".to_owned().concat(
                identity.as_str(),
            ),
            TerminationOutcome::OwnershipUnavailable => identity.concat(
                ": the owner of a confirmed port can no longer be read",
            ),
            TerminationOutcome::AlreadyExited => identity.concat(" already exited"),
            TerminationOutcome::TargetChanged => identity.concat(
                " no longer owns the confirmed ports",
            ),
            TerminationOutcome::Cancelled => "kill cancelled".to_owned(),
            TerminationOutcome::ProtectedProcess => identity.concat(" is protected"),
            TerminationOutcome::UnsafePid(reason) => "unsafe PID blocked: ".to_owned().concat(
                reason.message(),
            ),
            TerminationOutcome::UnknownFailure(error) => {
                let mut text = "terminating ".to_owned();
                text.append(identity.as_str());
                text.append(" failed: ");
                text.append(sanitize(error.as_str()).as_str());
                text
            },
            TerminationOutcome::ThawFailed { pid, .. } => {
                let mut text = "resuming PID ".to_owned();
                text.append(decimal_text(*pid as u128).as_str());
                text.append(" failed");
                text
            },
        }
    }
}

/// The status line about an outcome, safe for one terminal line.
pub fn termination_status_line(
    target: &KillTarget,
    mode: KillMode,
    outcome: &TerminationOutcome,
) -> (r: String)
    ensures
        r@ == sanitized(outcome_text(*outcome, *target, mode)),
{
    sanitize(outcome.status_description(target, mode).as_str())
}

} // verus!
