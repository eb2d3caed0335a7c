//! Pure filtering of watch events, in three-valued logic: what the evidence does
//! not settle stays unknown.

use vstd::prelude::*;
use vstd::string::*;
use vstd::utf8::{decode_utf8, valid_utf8};
use crate::address::{ip_address_text, ip_text, normalize_ip_address, normalized_ip, IpAddr};
use crate::config::{resolved_label, Config};
use crate::evidence::{EndpointIdentity, EvidenceImpact, OwnerCompleteness};
use crate::model::{
    bind_scope_of, endpoint_text, human_endpoint_text, socket_state_name, socket_state_text,
    BindScope, Ipv6Scope, SocketState,
};
use crate::observation::{
    owner_pid_of, scope_platform, MetadataCompleteness, NetworkSnapshot, OwnerObservation,
    ProcessIdentity, ProcessObservation, SocketObservation,
};
use crate::protection::{is_protected_process, opt_bytes, protected_process};
use crate::query::{AddressFamily, FilterTerm, StateFilter};
use crate::text::{
    contains_text, decimal, decimal_text, lowercase, opt_str, opt_str_text, opt_text, push_char,
    str_contains, str_eq, text_from_utf8, to_lowercase,
};
use crate::watch_event::{EventKind, WatchEvent};
use crate::watch_options::WatchOptions;

verus! {

/// What the filter said of an event that is written out.
#[derive(Debug, Clone, Copy, PartialEq, Eq, Structural)]
pub enum FilterResult {
    NotApplied,
    Matched,
    Indeterminate,
}

impl FilterResult {
    pub open spec fn name_text(self) -> Seq<char> {
        match self {
            FilterResult::NotApplied => "not_applied"@,
            FilterResult::Matched => "matched"@,
            FilterResult::Indeterminate => "indeterminate"@,
        }
    }

    pub fn name(self) -> (r: &'static str)
        ensures
            r@ == self.name_text(),
    {
        match self {
            FilterResult::NotApplied => "not_applied",
            FilterResult::Matched => "matched",
            FilterResult::Indeterminate => "indeterminate",
        }
    }
}

/// Three-valued truth.
#[derive(Debug, Clone, Copy, PartialEq, Eq, Structural)]
pub enum Truth {
    False,
    Unknown,
    True,
}

/// Which PID the terms of a filter demand of one owner.
#[derive(Debug, Clone, Copy, PartialEq, Eq, Structural)]
pub enum OwnerPidConstraint {
    Any,
    Exact(u32),
    Impossible,
}

/// Process facts in lower case, for searching.
#[derive(Debug)]
pub struct NormalizedProcessMetadata {
    pub name: Option<String>,
    pub executable_path: Option<String>,
    pub parent_process_name: Option<String>,
}

/// The lower-case form of an optional text.
pub open spec fn lowered(text: Option<Seq<char>>) -> Option<Seq<char>> {
    match text {
        Some(text) => Some(lowercase(text)),
        None => None,
    }
}

/// A path as text, where its bytes are UTF-8.
pub open spec fn path_text(path: Option<Seq<u8>>) -> Option<Seq<char>> {
    match path {
        Some(bytes) => if valid_utf8(bytes) {
            Some(decode_utf8(bytes))
        } else {
            None
        },
        None => None,
    }
}

impl NormalizedProcessMetadata {
    /// These are the lower-case facts of `process`.
    pub open spec fn normalizes(self, process: ProcessObservation) -> bool {
        &&& opt_text(self.name) == lowered(opt_text(process.name))
        &&& opt_text(self.executable_path) == lowered(
            path_text(opt_bytes(process.executable_path)),
        )
        &&& opt_text(self.parent_process_name) == lowered(opt_text(process.parent_process_name))
    }
}

fn lower_option(text: &Option<String>) -> (r: Option<String>)
    ensures
        opt_text(r) == lowered(opt_text(*text)),
{
    match text {
        Some(text) => Some(to_lowercase(text.as_str())),
        None => None,
    }
}

fn normalize_process(process: &ProcessObservation) -> (r: NormalizedProcessMetadata)
    ensures
        r.normalizes(*process),
{
    let path: Option<String> = match &process.executable_path {
        Some(bytes) => {
            let copy: Vec<u8> = bytes.clone();
            assert(copy@ =~= bytes@);
            match text_from_utf8(copy) {
                Ok(text) => Some(text),
                Err(_) => None,
            }
        },
        None => None,
    };
    NormalizedProcessMetadata {
        name: lower_option(&process.name),
        executable_path: lower_option(&path),
        parent_process_name: lower_option(&process.parent_process_name),
    }
}

/// One remembered process.
#[derive(Debug)]
pub struct CachedProcess {
    pub identity: ProcessIdentity,
    pub metadata: NormalizedProcessMetadata,
}

/// Lower-case process facts of one snapshot, remembered once they were needed.
#[derive(Debug)]
pub struct FilterCache {
    pub processes: Vec<CachedProcess>,
}

impl FilterCache {
    /// Everything remembered is what `snapshot` says.
    pub open spec fn reflects(self, snapshot: NetworkSnapshot) -> bool {
        forall|i: int|
            0 <= i < self.processes.len() ==> {
                let entry = #[trigger] self.processes@[i];
                snapshot.processes.row(entry.identity) is Some && entry.metadata.normalizes(
                    snapshot.processes.row(entry.identity)->0,
                )
            }
    }

    pub fn empty() -> (r: FilterCache)
        ensures
            r.processes@.len() == 0,
            forall|snapshot: NetworkSnapshot| r.reflects(snapshot),
    {
        FilterCache { processes: Vec::new() }
    }

    /// The facts of an identity, remembered from now on; `None` where the snapshot
    /// has no such process.
    pub fn metadata<'a>(
        &'a mut self,
        snapshot: &'a NetworkSnapshot,
        identity: ProcessIdentity,
    ) -> (r: Option<(&'a NormalizedProcessMetadata, &'a ProcessObservation)>)
        requires
            old(self).reflects(*snapshot),
        ensures
            final(self).reflects(*snapshot),
            r is Some <==> snapshot.processes.row(identity) is Some,
            r matches Some((normalized, process)) ==> snapshot.processes.row(identity) == Some(
                *process,
            ) && normalized.normalizes(*process),
    {
        let process = match snapshot.processes.get(identity) {
            Some(process) => process,
            None => return None,
        };
        let mut i: usize = 0;
        while i < self.processes.len()
            invariant
                i <= self.processes.len(),
                self.reflects(*snapshot),
                snapshot.processes.row(identity) == Some(*process),
                forall|j: int| 0 <= j < i ==> (#[trigger] self.processes@[j]).identity != identity,
            ensures
                i <= self.processes.len(),
                i < self.processes.len() ==> self.processes@[i as int].identity == identity,
            decreases self.processes.len() - i,
        {
            if self.processes[i].identity == identity {
                break;
            }
            i = i + 1;
        }
        if i == self.processes.len() {
            let metadata = normalize_process(process);
            self.processes.push(CachedProcess { identity, metadata });
        }
        assert(self.reflects(*snapshot));
        assert(self.processes@[i as int].identity == identity);
        Some((&self.processes[i].metadata, process))
    }
}

/// A plain truth value.
pub open spec fn truth_of(value: bool) -> Truth {
    if value {
        Truth::True
    } else {
        Truth::False
    }
}

pub fn truth(value: bool) -> (r: Truth)
    ensures
        r == truth_of(value),
{
    if value {
        Truth::True
    } else {
        Truth::False
    }
}

pub fn lowered_contains(value: &str, lowered_needle: &str) -> (r: bool)
    ensures
        r == contains_text(lowercase(value@), lowered_needle@),
{
    str_contains(to_lowercase(value).as_str(), lowered_needle)
}

/// An optional text is there and holds the needle.
pub open spec fn some_contains(text: Option<Seq<char>>, needle: Seq<char>) -> bool {
    text is Some && contains_text(text->0, needle)
}

fn option_contains(text: &Option<String>, needle: &str) -> (r: bool)
    ensures
        r == some_contains(opt_text(*text), needle@),
{
    match text {
        Some(text) => str_contains(text.as_str(), needle),
        None => false,
    }
}

/// Where an address can be reached from.
pub fn bind_scope(address: IpAddr) -> (r: BindScope)
    ensures
        r == bind_scope_of(address),
{
    if address.is_unspecified() {
        BindScope::Public
    } else if address.is_loopback() {
        BindScope::Loopback
    } else {
        BindScope::Local
    }
}

/// The filter value that names a state.
pub open spec fn state_filter_of(state: SocketState) -> StateFilter {
    match state {
        SocketState::Listen => StateFilter::Listen,
        SocketState::Bound => StateFilter::Bound,
        SocketState::Closed => StateFilter::Closed,
        SocketState::SynSent => StateFilter::SynSent,
        SocketState::SynReceived => StateFilter::SynReceived,
        SocketState::Established => StateFilter::Established,
        SocketState::FinWait1 => StateFilter::FinWait1,
        SocketState::FinWait2 => StateFilter::FinWait2,
        SocketState::CloseWait => StateFilter::CloseWait,
        SocketState::Closing => StateFilter::Closing,
        SocketState::LastAck => StateFilter::LastAck,
        SocketState::TimeWait => StateFilter::TimeWait,
        SocketState::DeleteTcb => StateFilter::DeleteTcb,
        SocketState::NewSynReceived => StateFilter::NewSynReceived,
        SocketState::Unknown(_) => StateFilter::Unknown,
    }
}

pub fn state_matches(state: SocketState, filter: StateFilter) -> (r: bool)
    ensures
        r == (state_filter_of(state) == filter),
{
    match (state, filter) {
        (SocketState::Listen, StateFilter::Listen) => true,
        (SocketState::Bound, StateFilter::Bound) => true,
        (SocketState::Closed, StateFilter::Closed) => true,
        (SocketState::SynSent, StateFilter::SynSent) => true,
        (SocketState::SynReceived, StateFilter::SynReceived) => true,
        (SocketState::Established, StateFilter::Established) => true,
        (SocketState::FinWait1, StateFilter::FinWait1) => true,
        (SocketState::FinWait2, StateFilter::FinWait2) => true,
        (SocketState::CloseWait, StateFilter::CloseWait) => true,
        (SocketState::Closing, StateFilter::Closing) => true,
        (SocketState::LastAck, StateFilter::LastAck) => true,
        (SocketState::TimeWait, StateFilter::TimeWait) => true,
        (SocketState::DeleteTcb, StateFilter::DeleteTcb) => true,
        (SocketState::NewSynReceived, StateFilter::NewSynReceived) => true,
        (SocketState::Unknown(_), StateFilter::Unknown) => true,
        _ => false,
    }
}

/// A term that the endpoint alone decides.
pub open spec fn endpoint_term(term: FilterTerm) -> bool {
    match term {
        FilterTerm::Port(_) => true,
        FilterTerm::Protocol(_) => true,
        FilterTerm::Scope(_) => true,
        FilterTerm::Label(_) => true,
        FilterTerm::Address(_) => true,
        FilterTerm::ScopeId(_) => true,
        FilterTerm::Family(_) => true,
        FilterTerm::State(_) => true,
        FilterTerm::Pid(_) => false,
        FilterTerm::Parent(_) => false,
        FilterTerm::Protected(_) => false,
        FilterTerm::Plain(_) => false,
    }
}

pub fn owner_independent(term: &FilterTerm) -> (r: bool)
    ensures
        r == endpoint_term(*term),
{
    match term {
        FilterTerm::Port(_) => true,
        FilterTerm::Protocol(_) => true,
        FilterTerm::Scope(_) => true,
        FilterTerm::Label(_) => true,
        FilterTerm::Address(_) => true,
        FilterTerm::ScopeId(_) => true,
        FilterTerm::Family(_) => true,
        FilterTerm::State(_) => true,
        _ => false,
    }
}

/// The PID demanded of one owner by the PID terms: none, one, or several that no
/// owner can meet.
pub open spec fn pid_constraint(terms: Seq<FilterTerm>) -> OwnerPidConstraint {
    if exists|i: int, j: int|
        0 <= i < terms.len() && 0 <= j < terms.len() && (#[trigger] terms[i] matches FilterTerm::Pid(
            a,
        ) && #[trigger] terms[j] matches FilterTerm::Pid(b) && a != b) {
        OwnerPidConstraint::Impossible
    } else if exists|i: int| 0 <= i < terms.len() && (#[trigger] terms[i]) is Pid {
        let i = choose|i: int| 0 <= i < terms.len() && (#[trigger] terms[i]) is Pid;
        OwnerPidConstraint::Exact(terms[i]->Pid_0)
    } else {
        OwnerPidConstraint::Any
    }
}

pub fn owner_pid_constraint(terms: &[FilterTerm]) -> (r: OwnerPidConstraint)
    ensures
        r == pid_constraint(terms@),
{
    let mut required: Option<u32> = None;
    let ghost mut at: int = 0;
    let mut i: usize = 0;
    while i < terms.len()
        invariant
            i <= terms.len(),
            required is None ==> forall|j: int| 0 <= j < i ==> !((#[trigger] terms@[j]) is Pid),
            required matches Some(pid) ==> 0 <= at < i && terms@[at] == FilterTerm::Pid(pid)
                && forall|j: int|
                0 <= j < i && (#[trigger] terms@[j]) is Pid ==> terms@[j]->Pid_0 == pid,
        decreases terms.len() - i,
    {
        if let FilterTerm::Pid(pid) = &terms[i] {
            match required {
                Some(earlier) => {
                    if earlier != *pid {
                        assert(terms@[at] is Pid && terms@[i as int] is Pid);
                        return OwnerPidConstraint::Impossible;
                    }
                },
                None => {
                    proof {
                        at = i as int;
                    }
                },
            }
            required = Some(*pid);
        }
        i = i + 1;
    }
    match required {
        Some(pid) => {
            assert(terms@[at] is Pid);
            OwnerPidConstraint::Exact(pid)
        },
        None => OwnerPidConstraint::Any,
    }
}

/// Whether an ownership gap without an endpoint may hide the demanded owner.
pub open spec fn gap_relevant(gap_pid: Option<u32>, constraint: OwnerPidConstraint) -> bool {
    match constraint {
        OwnerPidConstraint::Impossible => false,
        OwnerPidConstraint::Any => true,
        OwnerPidConstraint::Exact(required) => gap_pid is None || gap_pid == Some(required),
    }
}

pub fn endpointless_ownership_gap_is_relevant(
    gap_pid: Option<u32>,
    constraint: OwnerPidConstraint,
) -> (r: bool)
    ensures
        r == gap_relevant(gap_pid, constraint),
{
    match (gap_pid, constraint) {
        (_, OwnerPidConstraint::Impossible) => false,
        (None, _) => true,
        (Some(_), OwnerPidConstraint::Any) => true,
        (Some(gap_pid), OwnerPidConstraint::Exact(required)) => gap_pid == required,
    }
}

/// What a missing owner says about a demand: nothing owns a completely scanned
/// socket, else it is open.
pub open spec fn unowned(completeness: OwnerCompleteness) -> Truth {
    if completeness.complete() {
        Truth::False
    } else {
        Truth::Unknown
    }
}

pub open spec fn pid_truth(
    owner: Option<OwnerObservation>,
    pid: u32,
    completeness: OwnerCompleteness,
) -> Truth {
    match owner {
        Some(owner) => truth_of(owner_pid_of(owner) == pid),
        None => unowned(completeness),
    }
}

pub fn owner_pid_truth(
    owner: Option<OwnerObservation>,
    pid: u32,
    completeness: OwnerCompleteness,
) -> (r: Truth)
    ensures
        r == pid_truth(owner, pid, completeness),
{
    match owner {
        Some(OwnerObservation::Verified(identity)) => truth(identity.pid == pid),
        Some(OwnerObservation::UnverifiedPid { pid: owner_pid, .. }) => truth(owner_pid == pid),
        None => if completeness.is_complete() {
            Truth::False
        } else {
            Truth::Unknown
        },
    }
}

/// The PID of an owner, verified or not.
pub fn owner_pid(owner: OwnerObservation) -> (r: u32)
    ensures
        r == owner_pid_of(owner),
{
    match owner {
        OwnerObservation::Verified(identity) => identity.pid,
        OwnerObservation::UnverifiedPid { pid, .. } => pid,
    }
}

/// The process that a verified owner is.
pub open spec fn owner_process(snapshot: NetworkSnapshot, owner: OwnerObservation) -> Option<
    ProcessObservation,
> {
    match owner {
        OwnerObservation::Verified(identity) => snapshot.processes.row(identity),
        OwnerObservation::UnverifiedPid { .. } => None,
    }
}

/// Whether an owner is protected, where that can be told: a match proves
/// protection, but without a readable name a missing match proves nothing.
pub open spec fn known_protection(
    snapshot: NetworkSnapshot,
    owner: OwnerObservation,
    names: Seq<String>,
) -> Option<bool> {
    match owner_process(snapshot, owner) {
        Some(process) => {
            let protected = protected_process(
                scope_platform(snapshot.scope.kind),
                opt_text(process.name),
                opt_bytes(process.executable_path),
                names,
            );
            if protected || process.name is Some {
                Some(protected)
            } else {
                None
            }
        },
        None => None,
    }
}

pub fn owner_protection(
    snapshot: &NetworkSnapshot,
    owner: OwnerObservation,
    config: &Config,
) -> (r: Option<bool>)
    ensures
        r == known_protection(*snapshot, owner, config.protected_processes@),
{
    let identity = match owner {
        OwnerObservation::Verified(identity) => identity,
        OwnerObservation::UnverifiedPid { .. } => return None,
    };
    let process = match snapshot.processes.get(identity) {
        Some(process) => process,
        None => return None,
    };
    let protected: bool = is_protected_process(
        snapshot.platform(),
        opt_str(&process.name),
        &process.executable_path,
        config.protected_processes.as_slice(),
    );
    if protected || process.name.is_some() {
        Some(protected)
    } else {
        None
    }
}

pub open spec fn protection_term(
    snapshot: NetworkSnapshot,
    owner: Option<OwnerObservation>,
    expected: bool,
    names: Seq<String>,
    completeness: OwnerCompleteness,
) -> Truth {
    match owner {
        None => if completeness.complete() {
            truth_of(!expected)
        } else {
            Truth::Unknown
        },
        Some(owner) => match known_protection(snapshot, owner, names) {
            Some(protected) => truth_of(protected == expected),
            None => Truth::Unknown,
        },
    }
}

pub fn protection_truth(
    snapshot: &NetworkSnapshot,
    owner: Option<OwnerObservation>,
    expected: bool,
    config: &Config,
    owner_completeness: OwnerCompleteness,
) -> (r: Truth)
    ensures
        r == protection_term(
            *snapshot,
            owner,
            expected,
            config.protected_processes@,
            owner_completeness,
        ),
{
    match owner {
        None => if owner_completeness.is_complete() {
            truth(!expected)
        } else {
            Truth::Unknown
        },
        Some(owner) => match owner_protection(snapshot, owner, config) {
            Some(protected) => truth(protected == expected),
            None => Truth::Unknown,
        },
    }
}

/// How a plain needle reads the protection word of an owner. The whole words
/// mean exactly themselves; "unprotected" holds "protected" only as letters.
pub open spec fn protection_word(protected: bool, needle: Seq<char>) -> Truth {
    if needle == "protected"@ {
        truth_of(protected)
    } else if needle == "unprotected"@ {
        truth_of(!protected)
    } else {
        truth_of(
            contains_text(
                if protected {
                    "protected"@
                } else {
                    "unprotected"@
                },
                needle,
            ),
        )
    }
}

pub open spec fn protection_plain(
    snapshot: NetworkSnapshot,
    owner: Option<OwnerObservation>,
    needle: Seq<char>,
    names: Seq<String>,
) -> Truth {
    match owner {
        None => Truth::Unknown,
        Some(owner) => match known_protection(snapshot, owner, names) {
            Some(protected) => protection_word(protected, needle),
            None => Truth::Unknown,
        },
    }
}

pub fn protection_plain_truth(
    snapshot: &NetworkSnapshot,
    owner: Option<OwnerObservation>,
    needle: &str,
    config: &Config,
) -> (r: Truth)
    ensures
        r == protection_plain(*snapshot, owner, needle@, config.protected_processes@),
{
    let owner = match owner {
        Some(owner) => owner,
        None => return Truth::Unknown,
    };
    let protected: bool = match owner_protection(snapshot, owner, config) {
        Some(protected) => protected,
        None => return Truth::Unknown,
    };
    if str_eq(needle, "protected") {
        truth(protected)
    } else if str_eq(needle, "unprotected") {
        truth(!protected)
    } else if protected {
        truth(str_contains("protected", needle))
    } else {
        truth(str_contains("unprotected", needle))
    }
}

/// What a predicate on a process says of an owner: unread fields leave a miss
/// open.
pub open spec fn predicate_truth(process: ProcessObservation, holds: bool) -> Truth {
    if holds {
        Truth::True
    } else if process.metadata_completeness == MetadataCompleteness::Partial {
        Truth::Unknown
    } else {
        Truth::False
    }
}

/// What the metadata of an owner says about a predicate that `holds` evaluates.
pub open spec fn metadata_term(
    snapshot: NetworkSnapshot,
    owner: Option<OwnerObservation>,
    holds: spec_fn(ProcessObservation) -> bool,
    completeness: OwnerCompleteness,
) -> Truth {
    match owner {
        None => unowned(completeness),
        Some(owner) => match owner_process(snapshot, owner) {
            Some(process) => predicate_truth(process, holds(process)),
            None => Truth::Unknown,
        },
    }
}

/// Apply a predicate to the metadata of an owner. The predicate is asked once,
/// about the process and its lower-case facts, where the owner is a process of
/// the snapshot.
pub fn metadata_truth<P: FnOnce(&ProcessObservation, &NormalizedProcessMetadata) -> bool>(
    snapshot: &NetworkSnapshot,
    owner: Option<OwnerObservation>,
    cache: &mut FilterCache,
    predicate: P,
    owner_completeness: OwnerCompleteness,
) -> (r: Truth)
    requires
        old(cache).reflects(*snapshot),
        forall|process: &ProcessObservation, normalized: &NormalizedProcessMetadata|
            normalized.normalizes(*process) ==> call_requires(predicate, (process, normalized)),
    ensures
        final(cache).reflects(*snapshot),
        owner is None ==> r == unowned(owner_completeness),
        owner is Some && owner_process(*snapshot, owner->0) is None ==> r == Truth::Unknown,
        owner is Some && owner_process(*snapshot, owner->0) is Some ==> exists|
            process: &ProcessObservation,
            normalized: &NormalizedProcessMetadata,
            holds: bool,
        |
            *process == owner_process(*snapshot, owner->0)->0 && normalized.normalizes(*process)
                && #[trigger] call_ensures(predicate, (process, normalized), holds) && r
                == predicate_truth(*process, holds),
{
    let owner = match owner {
        Some(owner) => owner,
        None => {
            return if owner_completeness.is_complete() {
                Truth::False
            } else {
                Truth::Unknown
            };
        },
    };
    let identity = match owner {
        OwnerObservation::Verified(identity) => identity,
        OwnerObservation::UnverifiedPid { .. } => return Truth::Unknown,
    };
    match cache.metadata(snapshot, identity) {
        None => Truth::Unknown,
        Some((normalized, process)) => {
            let holds: bool = predicate(process, normalized);
            if holds {
                Truth::True
            } else if process.metadata_completeness == MetadataCompleteness::Partial {
                Truth::Unknown
            } else {
                Truth::False
            }
        },
    }
}

/// The decimal text of an optional PID holds the needle.
pub open spec fn pid_contains(pid: Option<u32>, needle: Seq<char>) -> bool {
    pid is Some && contains_text(decimal(pid->0 as nat), needle)
}

fn option_pid_contains(pid: Option<u32>, needle: &str) -> (r: bool)
    ensures
        r == pid_contains(pid, needle@),
{
    match pid {
        Some(pid) => str_contains(decimal_text(pid as u128).as_str(), needle),
        None => false,
    }
}

/// The PID of an optional owner.
pub open spec fn opt_owner_pid(owner: Option<OwnerObservation>) -> Option<u32> {
    match owner {
        Some(owner) => Some(owner_pid_of(owner)),
        None => None,
    }
}

/// A parent term matches by the parent's PID or lower-case name.
pub open spec fn parent_holds(process: ProcessObservation, needle: Seq<char>) -> bool {
    pid_contains(process.parent_pid, needle) || some_contains(
        lowered(opt_text(process.parent_process_name)),
        needle,
    )
}

/// A plain needle occurs in a fact of the owner process.
pub open spec fn process_holds(
    owner: Option<OwnerObservation>,
    process: ProcessObservation,
    needle: Seq<char>,
) -> bool {
    ||| pid_contains(opt_owner_pid(owner), needle)
    ||| some_contains(lowered(opt_text(process.name)), needle)
    ||| some_contains(lowered(path_text(opt_bytes(process.executable_path))), needle)
    ||| pid_contains(process.parent_pid, needle)
    ||| some_contains(lowered(opt_text(process.parent_process_name)), needle)
}

pub fn process_plain_match(
    owner: Option<OwnerObservation>,
    metadata: &ProcessObservation,
    normalized: &NormalizedProcessMetadata,
    needle: &str,
) -> (r: bool)
    requires
        normalized.normalizes(*metadata),
    ensures
        r == process_holds(owner, *metadata, needle@),
{
    let pid: Option<u32> = match owner {
        Some(owner) => Some(owner_pid(owner)),
        None => None,
    };
    option_pid_contains(pid, needle) || option_contains(&normalized.name, needle)
        || option_contains(&normalized.executable_path, needle) || option_pid_contains(
        metadata.parent_pid,
        needle,
    ) || option_contains(&normalized.parent_process_name, needle)
}

/// A plain needle occurs in a fact of the endpoint: port, address, endpoint text
/// in any of its forms, protocol, state, reach, or label.
pub open spec fn endpoint_holds(
    socket: SocketObservation,
    label: Option<Seq<char>>,
    needle: Seq<char>,
) -> bool {
    let endpoint = socket.local_endpoint;
    let address = ip_text(endpoint.address);
    let port = decimal(endpoint.port as nat);
    ||| contains_text(port, needle)
    ||| contains_text(lowercase(address), needle)
    ||| contains_text(lowercase(address + seq![':'] + port), needle)
    ||| contains_text(lowercase(seq!['['] + address + seq![']', ':'] + port), needle)
    ||| contains_text(
        lowercase(endpoint_text(endpoint.address, endpoint.port, endpoint.ipv6_scope)),
        needle,
    )
    ||| contains_text(endpoint.protocol.lower_label_text(), needle)
    ||| contains_text(socket_state_text(socket.state), needle)
    ||| contains_text(bind_scope_of(endpoint.address).label_text(), needle)
    ||| some_contains(lowered(label), needle)
}

pub fn common_plain_match(socket: &SocketObservation, label: Option<&str>, needle: &str) -> (r: bool)
    ensures
        r == endpoint_holds(*socket, opt_str_text(label), needle@),
{
    let endpoint = socket.local_endpoint;
    let address = ip_address_text(endpoint.address);
    let port = decimal_text(endpoint.port as u128);
    let mut plain = address.clone();
    push_char(&mut plain, ':');
    plain.append(port.as_str());
    let mut bracketed = String::new();
    push_char(&mut bracketed, '[');
    bracketed.append(address.as_str());
    push_char(&mut bracketed, ']');
    push_char(&mut bracketed, ':');
    bracketed.append(port.as_str());
    assert(plain@ =~= ip_text(endpoint.address) + seq![':'] + decimal(endpoint.port as nat));
    assert(bracketed@ =~= seq!['['] + ip_text(endpoint.address) + seq![']', ':'] + decimal(
        endpoint.port as nat,
    ));
    let human = human_endpoint_text(endpoint.address, endpoint.port, endpoint.ipv6_scope);
    let in_label: bool = match label {
        Some(label) => lowered_contains(label, needle),
        None => false,
    };
    str_contains(port.as_str(), needle) || lowered_contains(address.as_str(), needle)
        || lowered_contains(plain.as_str(), needle) || lowered_contains(bracketed.as_str(), needle)
        || lowered_contains(human.as_str(), needle) || str_contains(
        endpoint.protocol.lower_label(),
        needle,
    ) || str_contains(socket_state_name(socket.state), needle) || str_contains(
        bind_scope(endpoint.address).label(),
        needle,
    ) || in_label
}

/// What one term says of a socket and one owner, or of no owner. `common` is
/// whether a plain term already matched the endpoint.
pub open spec fn term_truth(
    snapshot: NetworkSnapshot,
    socket: SocketObservation,
    owner: Option<OwnerObservation>,
    label: Option<Seq<char>>,
    term: FilterTerm,
    common: bool,
    names: Seq<String>,
) -> Truth {
    let endpoint = socket.local_endpoint;
    let completeness = socket.owner_completeness;
    match term {
        FilterTerm::Port(port) => truth_of(endpoint.port == port),
        FilterTerm::Protocol(protocol) => truth_of(endpoint.protocol == protocol),
        FilterTerm::Scope(scope) => truth_of(bind_scope_of(endpoint.address) == scope),
        FilterTerm::Label(needle) => truth_of(some_contains(lowered(label), needle@)),
        FilterTerm::Address(address) => truth_of(normalized_ip(endpoint.address) == address),
        FilterTerm::ScopeId(id) => truth_of(
            endpoint.ipv6_scope == Some(Ipv6Scope::InterfaceIndex(id)),
        ),
        FilterTerm::Family(AddressFamily::Ipv4) => truth_of(
            normalized_ip(endpoint.address).is_v4(),
        ),
        FilterTerm::Family(AddressFamily::Ipv6) => truth_of(
            !normalized_ip(endpoint.address).is_v4(),
        ),
        FilterTerm::State(state) => truth_of(state_filter_of(socket.state) == state),
        FilterTerm::Pid(pid) => pid_truth(owner, pid, completeness),
        FilterTerm::Parent(needle) => metadata_term(
            snapshot,
            owner,
            |process: ProcessObservation| parent_holds(process, needle@),
            completeness,
        ),
        FilterTerm::Protected(expected) => protection_term(
            snapshot,
            owner,
            expected,
            names,
            completeness,
        ),
        FilterTerm::Plain(needle) => if common || pid_contains(opt_owner_pid(owner), needle@) {
            Truth::True
        } else {
            let metadata = metadata_term(
                snapshot,
                owner,
                |process: ProcessObservation| process_holds(owner, process, needle@),
                completeness,
            );
            let protection = protection_plain(snapshot, owner, needle@, names);
            if protection == Truth::True {
                Truth::True
            } else if protection == Truth::Unknown && metadata == Truth::False {
                Truth::Unknown
            } else {
                metadata
            }
        },
    }
}

pub fn evaluate_term(
    snapshot: &NetworkSnapshot,
    socket: &SocketObservation,
    owner: Option<OwnerObservation>,
    label: Option<&str>,
    term: &FilterTerm,
    common_plain_match: bool,
    config: &Config,
    cache: &mut FilterCache,
) -> (r: Truth)
    requires
        old(cache).reflects(*snapshot),
    ensures
        final(cache).reflects(*snapshot),
        r == term_truth(
            *snapshot,
            *socket,
            owner,
            opt_str_text(label),
            *term,
            common_plain_match,
            config.protected_processes@,
        ),
{
    let endpoint = socket.local_endpoint;
    match term {
        FilterTerm::Port(port) => truth(endpoint.port == *port),
        FilterTerm::Protocol(protocol) => truth(endpoint.protocol == *protocol),
        FilterTerm::Scope(scope) => truth(bind_scope(endpoint.address) == *scope),
        FilterTerm::Label(needle) => match label {
            Some(label) => truth(lowered_contains(label, needle.as_str())),
            None => Truth::False,
        },
        FilterTerm::Address(address) => truth(normalize_ip_address(endpoint.address) == *address),
        FilterTerm::ScopeId(id) => match endpoint.ipv6_scope {
            Some(Ipv6Scope::InterfaceIndex(index)) => truth(index == *id),
            _ => Truth::False,
        },
        FilterTerm::Family(AddressFamily::Ipv4) => truth(
            normalize_ip_address(endpoint.address).is_ipv4(),
        ),
        FilterTerm::Family(AddressFamily::Ipv6) => truth(
            !normalize_ip_address(endpoint.address).is_ipv4(),
        ),
        FilterTerm::State(state) => truth(state_matches(socket.state, *state)),
        FilterTerm::Pid(pid) => owner_pid_truth(owner, *pid, socket.owner_completeness),
        FilterTerm::Parent(needle) => {
            let needle: &str = needle.as_str();
            let predicate = |
                process: &ProcessObservation,
                normalized: &NormalizedProcessMetadata,
            | -> (holds: bool)
                requires
                    normalized.normalizes(*process),
                ensures
                    holds == parent_holds(*process, needle@),
                {
                    option_pid_contains(process.parent_pid, needle) || option_contains(
                        &normalized.parent_process_name,
                        needle,
                    )
                };
            metadata_truth(snapshot, owner, cache, predicate, socket.owner_completeness)
        },
        FilterTerm::Protected(expected) => protection_truth(
            snapshot,
            owner,
            *expected,
            config,
            socket.owner_completeness,
        ),
        FilterTerm::Plain(needle) => {
            let needle: &str = needle.as_str();
            let owner_pid_matches: bool = match owner {
                Some(owner) => str_contains(
                    decimal_text(owner_pid(owner) as u128).as_str(),
                    needle,
                ),
                None => false,
            };
            if common_plain_match || owner_pid_matches {
                return Truth::True;
            }
            let predicate = |
                process: &ProcessObservation,
                normalized: &NormalizedProcessMetadata,
            | -> (holds: bool)
                requires
                    normalized.normalizes(*process),
                ensures
                    holds == process_holds(owner, *process, needle@),
                { process_plain_match(owner, process, normalized, needle) };
            let metadata = metadata_truth(
                snapshot,
                owner,
                cache,
                predicate,
                socket.owner_completeness,
            );
            match protection_plain_truth(snapshot, owner, needle, config) {
                Truth::True => Truth::True,
                Truth::Unknown => if metadata == Truth::False {
                    Truth::Unknown
                } else {
                    metadata
                },
                Truth::False => metadata,
            }
        },
    }
}

/// What term `i` says of one owner.
pub open spec fn term_truth_at(
    snapshot: NetworkSnapshot,
    socket: SocketObservation,
    owner: Option<OwnerObservation>,
    label: Option<Seq<char>>,
    terms: Seq<FilterTerm>,
    commons: Seq<bool>,
    names: Seq<String>,
    i: int,
) -> Truth {
    term_truth(snapshot, socket, owner, label, terms[i], commons[i], names)
}

/// What the owner terms together say of one owner: false as soon as one is
/// false, else unknown as soon as one is unknown.
pub open spec fn owner_terms_truth(
    snapshot: NetworkSnapshot,
    socket: SocketObservation,
    owner: Option<OwnerObservation>,
    label: Option<Seq<char>>,
    terms: Seq<FilterTerm>,
    commons: Seq<bool>,
    names: Seq<String>,
) -> Truth {
    if exists|i: int|
        0 <= i < terms.len() && !endpoint_term(terms[i]) && #[trigger] term_truth_at(
            snapshot,
            socket,
            owner,
            label,
            terms,
            commons,
            names,
            i,
        ) == Truth::False {
        Truth::False
    } else if exists|i: int|
        0 <= i < terms.len() && !endpoint_term(terms[i]) && #[trigger] term_truth_at(
            snapshot,
            socket,
            owner,
            label,
            terms,
            commons,
            names,
            i,
        ) == Truth::Unknown {
        Truth::Unknown
    } else {
        Truth::True
    }
}

pub fn evaluate_terms_for_owner(
    snapshot: &NetworkSnapshot,
    socket: &SocketObservation,
    owner: Option<OwnerObservation>,
    label: Option<&str>,
    terms: &[FilterTerm],
    common_plain_matches: &[bool],
    config: &Config,
    cache: &mut FilterCache,
) -> (r: Truth)
    requires
        old(cache).reflects(*snapshot),
        common_plain_matches@.len() == terms@.len(),
    ensures
        final(cache).reflects(*snapshot),
        r == owner_terms_truth(
            *snapshot,
            *socket,
            owner,
            opt_str_text(label),
            terms@,
            common_plain_matches@,
            config.protected_processes@,
        ),
{
    let ghost truth_at = |i: int|
        term_truth_at(
            *snapshot,
            *socket,
            owner,
            opt_str_text(label),
            terms@,
            common_plain_matches@,
            config.protected_processes@,
            i,
        );
    let mut unknown: bool = false;
    let ghost mut unknown_at: int = 0;
    let mut i: usize = 0;
    while i < terms.len()
        invariant
            i <= terms.len(),
            common_plain_matches@.len() == terms@.len(),
            cache.reflects(*snapshot),
            truth_at == (|i: int|
                term_truth_at(
                    *snapshot,
                    *socket,
                    owner,
                    opt_str_text(label),
                    terms@,
                    common_plain_matches@,
                    config.protected_processes@,
                    i,
                )),
            forall|j: int|
                0 <= j < i && !endpoint_term(terms@[j]) ==> #[trigger] truth_at(j) != Truth::False,
            unknown ==> 0 <= unknown_at < i && !endpoint_term(terms@[unknown_at]) && truth_at(
                unknown_at,
            ) == Truth::Unknown,
            !unknown ==> forall|j: int|
                0 <= j < i && !endpoint_term(terms@[j]) ==> #[trigger] truth_at(j) == Truth::True,
        decreases terms.len() - i,
    {
        if !owner_independent(&terms[i]) {
            let value = evaluate_term(
                snapshot,
                socket,
                owner,
                label,
                &terms[i],
                common_plain_matches[i],
                config,
                cache,
            );
            assert(value == truth_at(i as int));
            match value {
                Truth::False => {
                    return Truth::False;
                },
                Truth::Unknown => {
                    unknown = true;
                    proof {
                        unknown_at = i as int;
                    }
                },
                Truth::True => {},
            }
        }
        i = i + 1;
    }
    assert forall|j: int| 0 <= j < terms@.len() && !endpoint_term(terms@[j]) implies #[trigger]
        term_truth_at(
        *snapshot,
        *socket,
        owner,
        opt_str_text(label),
        terms@,
        common_plain_matches@,
        config.protected_processes@,
        j,
    ) != Truth::False by {
        assert(truth_at(j) != Truth::False);
    }
    if unknown {
        assert(truth_at(unknown_at) == Truth::Unknown);
        Truth::Unknown
    } else {
        assert forall|j: int| 0 <= j < terms@.len() && !endpoint_term(terms@[j]) implies #[trigger]
            term_truth_at(
            *snapshot,
            *socket,
            owner,
            opt_str_text(label),
            terms@,
            common_plain_matches@,
            config.protected_processes@,
            j,
        ) == Truth::True by {
            assert(truth_at(j) == Truth::True);
        }
        Truth::True
    }
}

/// A plain term already matches the endpoint.
pub open spec fn common_match(
    socket: SocketObservation,
    label: Option<Seq<char>>,
    term: FilterTerm,
) -> bool {
    term matches FilterTerm::Plain(needle) && endpoint_holds(socket, label, needle@)
}

/// For each term, whether it already matches the endpoint.
pub open spec fn common_matches(
    socket: SocketObservation,
    label: Option<Seq<char>>,
    terms: Seq<FilterTerm>,
) -> Seq<bool> {
    Seq::new(terms.len(), |i: int| common_match(socket, label, terms[i]))
}

/// Some endpoint term is definitely false.
pub open spec fn endpoint_refutes(
    snapshot: NetworkSnapshot,
    socket: SocketObservation,
    label: Option<Seq<char>>,
    terms: Seq<FilterTerm>,
    names: Seq<String>,
) -> bool {
    exists|i: int|
        0 <= i < terms.len() && endpoint_term(#[trigger] terms[i]) && term_truth(
            snapshot,
            socket,
            None,
            label,
            terms[i],
            false,
            names,
        ) == Truth::False
}

/// Some term asks about the owner.
pub open spec fn asks_owner(terms: Seq<FilterTerm>) -> bool {
    exists|i: int| 0 <= i < terms.len() && !endpoint_term(#[trigger] terms[i])
}

/// A gap about ownership that names no endpoint, or one that was not kept, may
/// hide the owner that the terms ask for.
pub open spec fn hidden_owner_possible(snapshot: NetworkSnapshot, terms: Seq<FilterTerm>) -> bool {
    let constraint = pid_constraint(terms);
    asks_owner(terms) && ({
        ||| exists|i: int|
            0 <= i < snapshot.evidence_gaps.len() && ({
                let gap = #[trigger] snapshot.evidence_gaps@[i];
                gap.impact == EvidenceImpact::Ownership && gap.endpoint is None && gap_relevant(
                    gap.pid,
                    constraint,
                )
            })
        ||| snapshot.omitted_evidence_gap_count != 0 && !snapshot.owner_completeness.complete()
            && gap_relevant(None, constraint)
    })
}

/// What one owner of the socket says of all owner terms.
pub open spec fn owner_truth(
    snapshot: NetworkSnapshot,
    socket: SocketObservation,
    label: Option<Seq<char>>,
    terms: Seq<FilterTerm>,
    names: Seq<String>,
    owner: Option<OwnerObservation>,
) -> Truth {
    owner_terms_truth(
        snapshot,
        socket,
        owner,
        label,
        terms,
        common_matches(socket, label, terms),
        names,
    )
}

/// What the filter says of one side of an event. A false endpoint term refutes
/// it whatever is known of owners; else one owner has to meet all owner terms;
/// where none does, any open evidence about owners leaves the answer open.
pub open spec fn side_truth(
    snapshot: NetworkSnapshot,
    socket: SocketObservation,
    terms: Seq<FilterTerm>,
    label: Option<Seq<char>>,
    names: Seq<String>,
) -> Truth {
    if terms.len() == 0 {
        Truth::True
    } else if endpoint_refutes(snapshot, socket, label, terms, names) {
        Truth::False
    } else if socket.owners.len() == 0 {
        let result = owner_truth(snapshot, socket, label, terms, names, None);
        if result == Truth::False && hidden_owner_possible(snapshot, terms) {
            Truth::Unknown
        } else {
            result
        }
    } else if exists|i: int|
        0 <= i < socket.owners.len() && owner_truth(
            snapshot,
            socket,
            label,
            terms,
            names,
            Some(#[trigger] socket.owners@[i]),
        ) == Truth::True {
        Truth::True
    } else if (exists|i: int|
        0 <= i < socket.owners.len() && owner_truth(
            snapshot,
            socket,
            label,
            terms,
            names,
            Some(#[trigger] socket.owners@[i]),
        ) == Truth::Unknown) || !socket.owner_completeness.complete() || hidden_owner_possible(
        snapshot,
        terms,
    ) {
        Truth::Unknown
    } else {
        Truth::False
    }
}

fn endpoint_term_refuted(
    snapshot: &NetworkSnapshot,
    socket: &SocketObservation,
    label: Option<&str>,
    terms: &[FilterTerm],
    config: &Config,
    cache: &mut FilterCache,
) -> (r: bool)
    requires
        old(cache).reflects(*snapshot),
    ensures
        final(cache).reflects(*snapshot),
        r == endpoint_refutes(
            *snapshot,
            *socket,
            opt_str_text(label),
            terms@,
            config.protected_processes@,
        ),
{
    let mut i: usize = 0;
    while i < terms.len()
        invariant
            i <= terms.len(),
            cache.reflects(*snapshot),
            forall|j: int|
                0 <= j < i && endpoint_term(#[trigger] terms@[j]) ==> term_truth(
                    *snapshot,
                    *socket,
                    None,
                    opt_str_text(label),
                    terms@[j],
                    false,
                    config.protected_processes@,
                ) != Truth::False,
        decreases terms.len() - i,
    {
        if owner_independent(&terms[i]) {
            let value = evaluate_term(snapshot, socket, None, label, &terms[i], false, config, cache);
            if value == Truth::False {
                assert(endpoint_term(terms@[i as int]));
                return true;
            }
        }
        i = i + 1;
    }
    false
}

fn plain_matches(socket: &SocketObservation, label: Option<&str>, terms: &[FilterTerm]) -> (r: Vec<
    bool,
>)
    ensures
        r@ == common_matches(*socket, opt_str_text(label), terms@),
{
    let mut out: Vec<bool> = Vec::new();
    let mut i: usize = 0;
    while i < terms.len()
        invariant
            i <= terms.len(),
            out.len() == i,
            forall|j: int|
                0 <= j < i ==> #[trigger] out@[j] == common_match(
                    *socket,
                    opt_str_text(label),
                    terms@[j],
                ),
        decreases terms.len() - i,
    {
        let matched: bool = match &terms[i] {
            FilterTerm::Plain(needle) => common_plain_match(socket, label, needle.as_str()),
            _ => false,
        };
        out.push(matched);
        i = i + 1;
    }
    assert(out@ =~= common_matches(*socket, opt_str_text(label), terms@));
    out
}

fn owner_may_be_hidden(snapshot: &NetworkSnapshot, terms: &[FilterTerm]) -> (r: bool)
    ensures
        r == hidden_owner_possible(*snapshot, terms@),
{
    let mut present: bool = false;
    let mut i: usize = 0;
    while i < terms.len()
        invariant
            i <= terms.len(),
            present == exists|j: int| 0 <= j < i && !endpoint_term(#[trigger] terms@[j]),
        decreases terms.len() - i,
    {
        if !owner_independent(&terms[i]) {
            assert(!endpoint_term(terms@[i as int]));
            present = true;
        }
        i = i + 1;
    }
    if !present {
        return false;
    }
    let constraint = owner_pid_constraint(terms);
    let mut g: usize = 0;
    while g < snapshot.evidence_gaps.len()
        invariant
            g <= snapshot.evidence_gaps.len(),
            asks_owner(terms@),
            constraint == pid_constraint(terms@),
            forall|j: int|
                0 <= j < g ==> !({
                    let gap = #[trigger] snapshot.evidence_gaps@[j];
                    gap.impact == EvidenceImpact::Ownership && gap.endpoint is None && gap_relevant(
                        gap.pid,
                        constraint,
                    )
                }),
        decreases snapshot.evidence_gaps.len() - g,
    {
        let gap = &snapshot.evidence_gaps[g];
        if gap.impact == EvidenceImpact::Ownership && gap.endpoint.is_none()
            && endpointless_ownership_gap_is_relevant(gap.pid, constraint) {
            assert(snapshot.evidence_gaps@[g as int] == *gap);
            return true;
        }
        g = g + 1;
    }
    snapshot.omitted_evidence_gap_count != 0 && !snapshot.owner_completeness.is_complete()
        && endpointless_ownership_gap_is_relevant(None, constraint)
}

/// Evaluate a filter on one side of an event.
pub fn evaluate_side(
    snapshot: &NetworkSnapshot,
    socket: &SocketObservation,
    options: &WatchOptions,
    config: &Config,
    cache: &mut FilterCache,
) -> (r: Truth)
    requires
        old(cache).reflects(*snapshot),
    ensures
        final(cache).reflects(*snapshot),
        r == side_truth(
            *snapshot,
            *socket,
            options.terms@,
            resolved_label(config.labels.labels@, socket.local_endpoint),
            config.protected_processes@,
        ),
{
    if options.terms.len() == 0 {
        return Truth::True;
    }
    let terms = options.terms.as_slice();
    let label = config.labels.resolve(socket.local_endpoint);
    if endpoint_term_refuted(snapshot, socket, label, terms, config, cache) {
        return Truth::False;
    }
    let common = plain_matches(socket, label, terms);
    let hidden: bool = owner_may_be_hidden(snapshot, terms);
    if socket.owners.len() == 0 {
        let result = evaluate_terms_for_owner(
            snapshot,
            socket,
            None,
            label,
            terms,
            common.as_slice(),
            config,
            cache,
        );
        return if result == Truth::False && hidden {
            Truth::Unknown
        } else {
            result
        };
    }
    let ghost truth_of_owner = |owner: OwnerObservation|
        owner_truth(
            *snapshot,
            *socket,
            opt_str_text(label),
            terms@,
            config.protected_processes@,
            Some(owner),
        );
    let mut unknown: bool = false;
    let mut i: usize = 0;
    while i < socket.owners.len()
        invariant
            i <= socket.owners.len(),
            cache.reflects(*snapshot),
            common@ == common_matches(*socket, opt_str_text(label), terms@),
            truth_of_owner == (|owner: OwnerObservation|
                owner_truth(
                    *snapshot,
                    *socket,
                    opt_str_text(label),
                    terms@,
                    config.protected_processes@,
                    Some(owner),
                )),
            terms@ == options.terms@,
            terms@.len() > 0,
            opt_str_text(label) == resolved_label(config.labels.labels@, socket.local_endpoint),
            !endpoint_refutes(
                *snapshot,
                *socket,
                opt_str_text(label),
                terms@,
                config.protected_processes@,
            ),
            forall|j: int|
                0 <= j < i ==> truth_of_owner(#[trigger] socket.owners@[j]) != Truth::True,
            unknown == exists|j: int|
                0 <= j < i && truth_of_owner(#[trigger] socket.owners@[j]) == Truth::Unknown,
        decreases socket.owners.len() - i,
    {
        let owner = socket.owners[i];
        let value = evaluate_terms_for_owner(
            snapshot,
            socket,
            Some(owner),
            label,
            terms,
            common.as_slice(),
            config,
            cache,
        );
        assert(value == truth_of_owner(socket.owners@[i as int]));
        match value {
            Truth::True => {
                return Truth::True;
            },
            Truth::Unknown => {
                unknown = true;
            },
            Truth::False => {},
        }
        i = i + 1;
    }
    assert forall|j: int| 0 <= j < socket.owners.len() implies owner_truth(
        *snapshot,
        *socket,
        opt_str_text(label),
        terms@,
        config.protected_processes@,
        Some(#[trigger] socket.owners@[j]),
    ) != Truth::True by {
        assert(truth_of_owner(socket.owners@[j]) != Truth::True);
    }
    assert(unknown == exists|j: int|
        0 <= j < socket.owners.len() && owner_truth(
            *snapshot,
            *socket,
            opt_str_text(label),
            terms@,
            config.protected_processes@,
            Some(#[trigger] socket.owners@[j]),
        ) == Truth::Unknown) by {
        if unknown {
            let j = choose|j: int|
                0 <= j < i && truth_of_owner(#[trigger] socket.owners@[j]) == Truth::Unknown;
            assert(owner_truth(
                *snapshot,
                *socket,
                opt_str_text(label),
                terms@,
                config.protected_processes@,
                Some(socket.owners@[j]),
            ) == Truth::Unknown);
        } else {
            assert forall|j: int| 0 <= j < socket.owners.len() implies owner_truth(
                *snapshot,
                *socket,
                opt_str_text(label),
                terms@,
                config.protected_processes@,
                Some(#[trigger] socket.owners@[j]),
            ) != Truth::Unknown by {
                assert(truth_of_owner(socket.owners@[j]) != Truth::Unknown);
            }
        }
    }
    if unknown || !socket.owner_completeness.is_complete() || hidden {
        Truth::Unknown
    } else {
        Truth::False
    }
}

/// An endpoint is among those that the selectors of a run choose.
pub open spec fn selected(endpoint: EndpointIdentity, options: WatchOptions) -> bool {
    &&& options.protocols.selects(endpoint.protocol)
    &&& options.address is Some ==> normalized_ip(endpoint.address) == options.address->0
    &&& options.port is Some ==> endpoint.port == options.port->0
    &&& options.scope_id is Some ==> endpoint.ipv6_scope == Some(
        Ipv6Scope::InterfaceIndex(options.scope_id->0),
    )
}

pub fn selectors_match(endpoint: EndpointIdentity, options: &WatchOptions) -> (r: bool)
    ensures
        r == selected(endpoint, *options),
{
    if !options.protocols.includes(endpoint.protocol) {
        return false;
    }
    if let Some(address) = options.address {
        if normalize_ip_address(endpoint.address) != address {
            return false;
        }
    }
    if let Some(port) = options.port {
        if endpoint.port != port {
            return false;
        }
    }
    if let Some(id) = options.scope_id {
        match endpoint.ipv6_scope {
            Some(Ipv6Scope::InterfaceIndex(index)) => {
                if index != id {
                    return false;
                }
            },
            _ => return false,
        }
    }
    true
}

/// What a filter says of the previous side of an event.
pub open spec fn previous_truth(event: WatchEvent, options: WatchOptions, config: Config) -> Truth {
    let socket = *event.previous_socket->0;
    side_truth(
        *event.previous_snapshot->0,
        socket,
        options.terms@,
        resolved_label(config.labels.labels@, socket.local_endpoint),
        config.protected_processes@,
    )
}

/// What a filter says of the current side of an event.
pub open spec fn current_truth(event: WatchEvent, options: WatchOptions, config: Config) -> Truth {
    let socket = *event.current_socket->0;
    side_truth(
        *event.current_snapshot->0,
        socket,
        options.terms@,
        resolved_label(config.labels.labels@, socket.local_endpoint),
        config.protected_processes@,
    )
}

/// Either of two sides matches.
pub open spec fn either(a: Truth, b: Truth) -> Truth {
    if a == Truth::True || b == Truth::True {
        Truth::True
    } else if a == Truth::False && b == Truth::False {
        Truth::False
    } else {
        Truth::Unknown
    }
}

/// What a filter says of an event: baseline and bind by the current side,
/// release by the previous side, replacement by either.
pub open spec fn event_truth(event: WatchEvent, options: WatchOptions, config: Config) -> Truth {
    match event.kind {
        EventKind::Baseline | EventKind::Bind => current_truth(event, options, config),
        EventKind::Release => previous_truth(event, options, config),
        EventKind::Replacement => either(
            previous_truth(event, options, config),
            current_truth(event, options, config),
        ),
    }
}

/// Whether an event is written out, and how it is marked.
#[verifier::opaque]
pub open spec fn event_result(event: WatchEvent, options: WatchOptions, config: Config) -> Option<
    FilterResult,
> {
    if !selected(event.socket().local_endpoint, options) {
        None
    } else if !options.filter_active {
        Some(FilterResult::NotApplied)
    } else {
        match event_truth(event, options, config) {
            Truth::False => None,
            Truth::True => Some(FilterResult::Matched),
            Truth::Unknown => Some(FilterResult::Indeterminate),
        }
    }
}

/// A cache of the snapshot on one side, where the event has that side.
pub open spec fn cache_fits(cache: FilterCache, snapshot: Option<&NetworkSnapshot>) -> bool {
    snapshot is Some ==> cache.reflects(*snapshot->0)
}

/// Decide whether an event is written out, and how it is marked. The caches only
/// save work: the result does not depend on what they hold.
pub fn evaluate_event(
    event: WatchEvent<'_>,
    options: &WatchOptions,
    config: &Config,
    previous_cache: &mut FilterCache,
    current_cache: &mut FilterCache,
) -> (r: Option<FilterResult>)
    requires
        event.wf(),
        cache_fits(*old(previous_cache), event.previous_snapshot),
        cache_fits(*old(current_cache), event.current_snapshot),
    ensures
        cache_fits(*final(previous_cache), event.previous_snapshot),
        cache_fits(*final(current_cache), event.current_snapshot),
        event.previous_snapshot is None ==> *final(previous_cache) == *old(previous_cache),
        event.current_snapshot is None ==> *final(current_cache) == *old(current_cache),
        r == event_result(event, *options, *config),
{
    reveal(event_result);
    if !selectors_match(event.endpoint(), options) {
        return None;
    }
    if !options.filter_active {
        return Some(FilterResult::NotApplied);
    }
    let result = match event.kind {
        EventKind::Baseline | EventKind::Bind => evaluate_side(
            event.current_snapshot.unwrap(),
            event.current_socket.unwrap(),
            options,
            config,
            current_cache,
        ),
        EventKind::Release => evaluate_side(
            event.previous_snapshot.unwrap(),
            event.previous_socket.unwrap(),
            options,
            config,
            previous_cache,
        ),
        EventKind::Replacement => {
            let previous = evaluate_side(
                event.previous_snapshot.unwrap(),
                event.previous_socket.unwrap(),
                options,
                config,
                previous_cache,
            );
            let current = evaluate_side(
                event.current_snapshot.unwrap(),
                event.current_socket.unwrap(),
                options,
                config,
                current_cache,
            );
            match (previous, current) {
                (Truth::True, _) => Truth::True,
                (_, Truth::True) => Truth::True,
                (Truth::False, Truth::False) => Truth::False,
                _ => Truth::Unknown,
            }
        },
    };
    match result {
        Truth::False => None,
        Truth::True => Some(FilterResult::Matched),
        Truth::Unknown => Some(FilterResult::Indeterminate),
    }
}

/// A definitely false endpoint term suppresses a side, whatever evidence about
/// owners is missing.
pub proof fn law_false_endpoint_term_suppresses(
    snapshot: NetworkSnapshot,
    socket: SocketObservation,
    terms: Seq<FilterTerm>,
    label: Option<Seq<char>>,
    names: Seq<String>,
    i: int,
)
    requires
        0 <= i < terms.len(),
        endpoint_term(terms[i]),
        term_truth(snapshot, socket, None, label, terms[i], false, names) == Truth::False,
    ensures
        side_truth(snapshot, socket, terms, label, names) == Truth::False,
{
    assert(endpoint_refutes(snapshot, socket, label, terms, names));
}

/// Missing evidence about owners does not weaken a filter on endpoints alone: it
/// is decided, and it holds unless an endpoint term is false.
pub proof fn law_endpoint_filters_are_decided(
    snapshot: NetworkSnapshot,
    socket: SocketObservation,
    terms: Seq<FilterTerm>,
    label: Option<Seq<char>>,
    names: Seq<String>,
)
    requires
        !asks_owner(terms),
    ensures
        side_truth(snapshot, socket, terms, label, names) == truth_of(
            !endpoint_refutes(snapshot, socket, label, terms, names),
        ),
{
    assert forall|owner: Option<OwnerObservation>| #[trigger]
        owner_truth(snapshot, socket, label, terms, names, owner) == Truth::True by {
        assert forall|i: int| 0 <= i < terms.len() implies endpoint_term(terms[i]) by {}
    }
    if terms.len() > 0 && !endpoint_refutes(snapshot, socket, label, terms, names)
        && socket.owners.len() > 0 {
        assert(owner_truth(snapshot, socket, label, terms, names, Some(socket.owners@[0]))
            == Truth::True);
    }
}

/// Owner terms are met by one owner: a match on a socket with owners names an
/// owner of which no owner term is false or unknown.
pub proof fn law_owner_terms_are_met_by_one_owner(
    snapshot: NetworkSnapshot,
    socket: SocketObservation,
    terms: Seq<FilterTerm>,
    label: Option<Seq<char>>,
    names: Seq<String>,
)
    requires
        terms.len() > 0,
        socket.owners.len() > 0,
        side_truth(snapshot, socket, terms, label, names) == Truth::True,
    ensures
        exists|o: int|
            0 <= o < socket.owners.len() && forall|i: int|
                0 <= i < terms.len() && !endpoint_term(terms[i]) ==> #[trigger] term_truth(
                    snapshot,
                    socket,
                    Some(#[trigger] socket.owners@[o]),
                    label,
                    terms[i],
                    common_match(socket, label, terms[i]),
                    names,
                ) == Truth::True,
{
    let o = choose|o: int|
        0 <= o < socket.owners.len() && owner_truth(
            snapshot,
            socket,
            label,
            terms,
            names,
            Some(#[trigger] socket.owners@[o]),
        ) == Truth::True;
    let owner = Some(socket.owners@[o]);
    let commons = common_matches(socket, label, terms);
    assert forall|i: int| 0 <= i < terms.len() && !endpoint_term(terms[i]) implies #[trigger]
        term_truth(
        snapshot,
        socket,
        owner,
        label,
        terms[i],
        common_match(socket, label, terms[i]),
        names,
    ) == Truth::True by {
        assert(term_truth_at(snapshot, socket, owner, label, terms, commons, names, i)
            == term_truth(
            snapshot,
            socket,
            owner,
            label,
            terms[i],
            common_match(socket, label, terms[i]),
            names,
        ));
    }
}

/// With an incomplete owner scan, or a gap that may hide the demanded owner, a
/// socket is never refuted by its owner terms.
pub proof fn law_open_ownership_is_never_refuted(
    snapshot: NetworkSnapshot,
    socket: SocketObservation,
    terms: Seq<FilterTerm>,
    label: Option<Seq<char>>,
    names: Seq<String>,
)
    requires
        !endpoint_refutes(snapshot, socket, label, terms, names),
        !socket.owner_completeness.complete() || hidden_owner_possible(snapshot, terms),
    ensures
        side_truth(snapshot, socket, terms, label, names) != Truth::False,
{
}

} // verus!
