//! Evidence about what an observation could not see.

use vstd::prelude::*;
use crate::address::{normalized_ip, normalize_ip_address, IpAddr};
use crate::model::{EndpointIdentityError, Ipv6Scope, Protocol};

verus! {

/// The most distinct reasons that a partial owner set may carry.
pub const OWNER_COMPLETENESS_REASONS_MAX: usize = 8;

/// The identity of a local endpoint, with a canonical address.
#[derive(Debug, Clone, Copy, PartialEq, Eq, Hash, Structural)]
pub struct EndpointIdentity {
    pub protocol: Protocol,
    pub address: IpAddr,
    pub port: u16,
    pub ipv6_scope: Option<Ipv6Scope>,
}

impl EndpointIdentity {
    /// What forming an endpoint yields: mapped addresses become IPv4, and an IPv4
    /// endpoint has no interface.
    pub open spec fn formed(
        protocol: Protocol,
        address: IpAddr,
        port: u32,
        ipv6_scope: Option<Ipv6Scope>,
    ) -> Result<EndpointIdentity, EndpointIdentityError> {
        let canonical = normalized_ip(address);
        if !(1 <= port <= u16::MAX) {
            Err(EndpointIdentityError::InvalidPort)
        } else if canonical.is_v4() && ipv6_scope matches Some(Ipv6Scope::InterfaceIndex(_)) {
            Err(EndpointIdentityError::Ipv4WithScope)
        } else {
            Ok(
                EndpointIdentity {
                    protocol,
                    address: canonical,
                    port: port as u16,
                    ipv6_scope: if canonical.is_v4() {
                        None
                    } else {
                        ipv6_scope
                    },
                },
            )
        }
    }

    pub fn new(
        protocol: Protocol,
        address: IpAddr,
        port: u32,
        ipv6_scope: Option<Ipv6Scope>,
    ) -> (r: Result<EndpointIdentity, EndpointIdentityError>)
        ensures
            r == Self::formed(protocol, address, port, ipv6_scope),
    {
        if port < 1 || port > u16::MAX as u32 {
            return Err(EndpointIdentityError::InvalidPort);
        }
        let address = normalize_ip_address(address);
        if address.is_ipv4() {
            if let Some(Ipv6Scope::InterfaceIndex(_)) = ipv6_scope {
                return Err(EndpointIdentityError::Ipv4WithScope);
            }
            Ok(EndpointIdentity { protocol, address, port: port as u16, ipv6_scope: None })
        } else {
            Ok(EndpointIdentity { protocol, address, port: port as u16, ipv6_scope })
        }
    }
}

/// Which part of an observation a gap weakens.
#[derive(Debug, Clone, Copy, PartialEq, Eq, PartialOrd, Ord, Structural)]
pub enum EvidenceImpact {
    SocketSet,
    Ownership,
    Metadata,
}

impl EvidenceImpact {
    pub open spec fn name_text(self) -> Seq<char> {
        match self {
            EvidenceImpact::SocketSet => "socket_set"@,
            EvidenceImpact::Ownership => "ownership"@,
            EvidenceImpact::Metadata => "metadata"@,
        }
    }

    pub fn name(self) -> (r: &'static str)
        ensures
            r@ == self.name_text(),
    {
        match self {
            EvidenceImpact::SocketSet => "socket_set",
            EvidenceImpact::Ownership => "ownership",
            EvidenceImpact::Metadata => "metadata",
        }
    }

    pub open spec fn order(self) -> nat {
        match self {
            EvidenceImpact::SocketSet => 0,
            EvidenceImpact::Ownership => 1,
            EvidenceImpact::Metadata => 2,
        }
    }

    pub fn rank(self) -> (r: u64)
        ensures
            r == self.order(),
    {
        match self {
            EvidenceImpact::SocketSet => 0,
            EvidenceImpact::Ownership => 1,
            EvidenceImpact::Metadata => 2,
        }
    }
}

/// Why evidence is missing. The variants are declared in the order of their
/// public names.
#[derive(Debug, Clone, Copy, PartialEq, Eq, PartialOrd, Ord, Structural)]
pub enum EvidenceGapCode {
    NativeFieldUnavailable,
    NoncriticalEvidenceTruncated,
    ObservationRaced,
    OwnerAttributionIncomplete,
    OwnerDisappeared,
    OwnerPermissionDenied,
    ProcessIdentityUnavailable,
    ProcessMetadataUnavailable,
    ScopeExcluded,
}

impl EvidenceGapCode {
    pub open spec fn name_text(self) -> Seq<char> {
        match self {
            EvidenceGapCode::NativeFieldUnavailable => "native_field_unavailable"@,
            EvidenceGapCode::NoncriticalEvidenceTruncated => "noncritical_evidence_truncated"@,
            EvidenceGapCode::ObservationRaced => "observation_raced"@,
            EvidenceGapCode::OwnerAttributionIncomplete => "owner_attribution_incomplete"@,
            EvidenceGapCode::OwnerDisappeared => "owner_disappeared"@,
            EvidenceGapCode::OwnerPermissionDenied => "owner_permission_denied"@,
            EvidenceGapCode::ProcessIdentityUnavailable => "process_identity_unavailable"@,
            EvidenceGapCode::ProcessMetadataUnavailable => "process_metadata_unavailable"@,
            EvidenceGapCode::ScopeExcluded => "scope_excluded"@,
        }
    }

    pub fn name(self) -> (r: &'static str)
        ensures
            r@ == self.name_text(),
    {
        match self {
            EvidenceGapCode::NativeFieldUnavailable => "native_field_unavailable",
            EvidenceGapCode::NoncriticalEvidenceTruncated => "noncritical_evidence_truncated",
            EvidenceGapCode::ObservationRaced => "observation_raced",
            EvidenceGapCode::OwnerAttributionIncomplete => "owner_attribution_incomplete",
            EvidenceGapCode::OwnerDisappeared => "owner_disappeared",
            EvidenceGapCode::OwnerPermissionDenied => "owner_permission_denied",
            EvidenceGapCode::ProcessIdentityUnavailable => "process_identity_unavailable",
            EvidenceGapCode::ProcessMetadataUnavailable => "process_metadata_unavailable",
            EvidenceGapCode::ScopeExcluded => "scope_excluded",
        }
    }

    /// The position of the code among the public names.
    pub open spec fn order(self) -> nat {
        match self {
            EvidenceGapCode::NativeFieldUnavailable => 0,
            EvidenceGapCode::NoncriticalEvidenceTruncated => 1,
            EvidenceGapCode::ObservationRaced => 2,
            EvidenceGapCode::OwnerAttributionIncomplete => 3,
            EvidenceGapCode::OwnerDisappeared => 4,
            EvidenceGapCode::OwnerPermissionDenied => 5,
            EvidenceGapCode::ProcessIdentityUnavailable => 6,
            EvidenceGapCode::ProcessMetadataUnavailable => 7,
            EvidenceGapCode::ScopeExcluded => 8,
        }
    }

    pub fn rank(self) -> (r: u64)
        ensures
            r == self.order(),
            r < 9,
    {
        match self {
            EvidenceGapCode::NativeFieldUnavailable => 0,
            EvidenceGapCode::NoncriticalEvidenceTruncated => 1,
            EvidenceGapCode::ObservationRaced => 2,
            EvidenceGapCode::OwnerAttributionIncomplete => 3,
            EvidenceGapCode::OwnerDisappeared => 4,
            EvidenceGapCode::OwnerPermissionDenied => 5,
            EvidenceGapCode::ProcessIdentityUnavailable => 6,
            EvidenceGapCode::ProcessMetadataUnavailable => 7,
            EvidenceGapCode::ScopeExcluded => 8,
        }
    }
}

/// A set of gap codes, one flag per code.
#[derive(Debug, Clone, Copy, PartialEq, Eq, Structural)]
pub struct OwnerReasons {
    pub native_field_unavailable: bool,
    pub noncritical_evidence_truncated: bool,
    pub observation_raced: bool,
    pub owner_attribution_incomplete: bool,
    pub owner_disappeared: bool,
    pub owner_permission_denied: bool,
    pub process_identity_unavailable: bool,
    pub process_metadata_unavailable: bool,
    pub scope_excluded: bool,
}

/// One for a set flag, zero for a clear one.
pub open spec fn flag(b: bool) -> nat {
    if b {
        1
    } else {
        0
    }
}

fn flag_count(b: bool) -> (r: usize)
    ensures
        r == flag(b),
        r <= 1,
{
    if b {
        1
    } else {
        0
    }
}

impl OwnerReasons {
    /// Whether the set holds `code`.
    pub open spec fn has(self, code: EvidenceGapCode) -> bool {
        match code {
            EvidenceGapCode::NativeFieldUnavailable => self.native_field_unavailable,
            EvidenceGapCode::NoncriticalEvidenceTruncated => self.noncritical_evidence_truncated,
            EvidenceGapCode::ObservationRaced => self.observation_raced,
            EvidenceGapCode::OwnerAttributionIncomplete => self.owner_attribution_incomplete,
            EvidenceGapCode::OwnerDisappeared => self.owner_disappeared,
            EvidenceGapCode::OwnerPermissionDenied => self.owner_permission_denied,
            EvidenceGapCode::ProcessIdentityUnavailable => self.process_identity_unavailable,
            EvidenceGapCode::ProcessMetadataUnavailable => self.process_metadata_unavailable,
            EvidenceGapCode::ScopeExcluded => self.scope_excluded,
        }
    }

    /// The set of exactly the codes that `f` accepts.
    pub open spec fn of(f: spec_fn(EvidenceGapCode) -> bool) -> OwnerReasons {
        OwnerReasons {
            native_field_unavailable: f(EvidenceGapCode::NativeFieldUnavailable),
            noncritical_evidence_truncated: f(EvidenceGapCode::NoncriticalEvidenceTruncated),
            observation_raced: f(EvidenceGapCode::ObservationRaced),
            owner_attribution_incomplete: f(EvidenceGapCode::OwnerAttributionIncomplete),
            owner_disappeared: f(EvidenceGapCode::OwnerDisappeared),
            owner_permission_denied: f(EvidenceGapCode::OwnerPermissionDenied),
            process_identity_unavailable: f(EvidenceGapCode::ProcessIdentityUnavailable),
            process_metadata_unavailable: f(EvidenceGapCode::ProcessMetadataUnavailable),
            scope_excluded: f(EvidenceGapCode::ScopeExcluded),
        }
    }

    /// How many codes the set holds.
    pub open spec fn count(self) -> nat {
        flag(self.native_field_unavailable) + flag(self.noncritical_evidence_truncated) + flag(
            self.observation_raced,
        ) + flag(self.owner_attribution_incomplete) + flag(self.owner_disappeared) + flag(
            self.owner_permission_denied,
        ) + flag(self.process_identity_unavailable) + flag(self.process_metadata_unavailable)
            + flag(self.scope_excluded)
    }

    pub fn len(self) -> (r: usize)
        ensures
            r == self.count(),
    {
        let a: usize = flag_count(self.native_field_unavailable);
        let b: usize = flag_count(self.noncritical_evidence_truncated);
        let c: usize = flag_count(self.observation_raced);
        let d: usize = flag_count(self.owner_attribution_incomplete);
        let e: usize = flag_count(self.owner_disappeared);
        let f: usize = flag_count(self.owner_permission_denied);
        let g: usize = flag_count(self.process_identity_unavailable);
        let h: usize = flag_count(self.process_metadata_unavailable);
        let i: usize = flag_count(self.scope_excluded);
        a + b + c + d + e + f + g + h + i
    }

    pub fn empty() -> (r: OwnerReasons)
        ensures
            r.count() == 0,
            forall|code: EvidenceGapCode| !r.has(code),
    {
        OwnerReasons {
            native_field_unavailable: false,
            noncritical_evidence_truncated: false,
            observation_raced: false,
            owner_attribution_incomplete: false,
            owner_disappeared: false,
            owner_permission_denied: false,
            process_identity_unavailable: false,
            process_metadata_unavailable: false,
            scope_excluded: false,
        }
    }

    pub fn contains(self, code: EvidenceGapCode) -> (r: bool)
        ensures
            r == self.has(code),
    {
        match code {
            EvidenceGapCode::NativeFieldUnavailable => self.native_field_unavailable,
            EvidenceGapCode::NoncriticalEvidenceTruncated => self.noncritical_evidence_truncated,
            EvidenceGapCode::ObservationRaced => self.observation_raced,
            EvidenceGapCode::OwnerAttributionIncomplete => self.owner_attribution_incomplete,
            EvidenceGapCode::OwnerDisappeared => self.owner_disappeared,
            EvidenceGapCode::OwnerPermissionDenied => self.owner_permission_denied,
            EvidenceGapCode::ProcessIdentityUnavailable => self.process_identity_unavailable,
            EvidenceGapCode::ProcessMetadataUnavailable => self.process_metadata_unavailable,
            EvidenceGapCode::ScopeExcluded => self.scope_excluded,
        }
    }

    /// The set with `code` added.
    pub open spec fn inserted(self, code: EvidenceGapCode) -> OwnerReasons {
        OwnerReasons::of(|c: EvidenceGapCode| self.has(c) || c == code)
    }

    pub fn with(self, code: EvidenceGapCode) -> (r: OwnerReasons)
        ensures
            r == self.inserted(code),
            forall|c: EvidenceGapCode| #[trigger] r.has(c) == (self.has(c) || c == code),
    {
        let mut out = self;
        match code {
            EvidenceGapCode::NativeFieldUnavailable => {
                out.native_field_unavailable = true;
            },
            EvidenceGapCode::NoncriticalEvidenceTruncated => {
                out.noncritical_evidence_truncated = true;
            },
            EvidenceGapCode::ObservationRaced => {
                out.observation_raced = true;
            },
            EvidenceGapCode::OwnerAttributionIncomplete => {
                out.owner_attribution_incomplete = true;
            },
            EvidenceGapCode::OwnerDisappeared => {
                out.owner_disappeared = true;
            },
            EvidenceGapCode::OwnerPermissionDenied => {
                out.owner_permission_denied = true;
            },
            EvidenceGapCode::ProcessIdentityUnavailable => {
                out.process_identity_unavailable = true;
            },
            EvidenceGapCode::ProcessMetadataUnavailable => {
                out.process_metadata_unavailable = true;
            },
            EvidenceGapCode::ScopeExcluded => {
                out.scope_excluded = true;
            },
        }
        out
    }

    /// The union of two sets.
    pub open spec fn joined(self, other: OwnerReasons) -> OwnerReasons {
        OwnerReasons::of(|c: EvidenceGapCode| self.has(c) || other.has(c))
    }

    pub fn union(self, other: OwnerReasons) -> (r: OwnerReasons)
        ensures
            r == self.joined(other),
            forall|c: EvidenceGapCode| #[trigger] r.has(c) == (self.has(c) || other.has(c)),
    {
        OwnerReasons {
            native_field_unavailable: self.native_field_unavailable
                || other.native_field_unavailable,
            noncritical_evidence_truncated: self.noncritical_evidence_truncated
                || other.noncritical_evidence_truncated,
            observation_raced: self.observation_raced || other.observation_raced,
            owner_attribution_incomplete: self.owner_attribution_incomplete
                || other.owner_attribution_incomplete,
            owner_disappeared: self.owner_disappeared || other.owner_disappeared,
            owner_permission_denied: self.owner_permission_denied || other.owner_permission_denied,
            process_identity_unavailable: self.process_identity_unavailable
                || other.process_identity_unavailable,
            process_metadata_unavailable: self.process_metadata_unavailable
                || other.process_metadata_unavailable,
            scope_excluded: self.scope_excluded || other.scope_excluded,
        }
    }
}

/// Too many distinct reasons for one owner set.
#[derive(Debug, Clone, Copy, PartialEq, Eq, Structural)]
pub struct OwnerReasonLimitExceeded;

/// Whether the owners of a socket, or of all sockets, are known to be all of
/// them.
#[derive(Debug, Clone, Copy, PartialEq, Eq, Structural)]
pub enum OwnerCompleteness {
    Complete,
    Partial { reasons: OwnerReasons },
    Raced,
}

/// The set of the codes in a sequence.
pub open spec fn reasons_of(codes: Seq<EvidenceGapCode>) -> OwnerReasons {
    OwnerReasons::of(|c: EvidenceGapCode| codes.contains(c))
}

impl OwnerCompleteness {
    pub open spec fn complete(self) -> bool {
        self is Complete
    }

    pub fn is_complete(self) -> (r: bool)
        ensures
            r == self.complete(),
    {
        match self {
            OwnerCompleteness::Complete => true,
            _ => false,
        }
    }

    /// A set of reasons as a completeness: none is complete, more than the limit
    /// is refused.
    pub open spec fn from_set(reasons: OwnerReasons) -> Option<OwnerCompleteness> {
        if reasons.count() == 0 {
            Some(OwnerCompleteness::Complete)
        } else if reasons.count() <= OWNER_COMPLETENESS_REASONS_MAX {
            Some(OwnerCompleteness::Partial { reasons })
        } else {
            None
        }
    }

    pub fn from_reasons(reasons: OwnerReasons) -> (r: Result<
        OwnerCompleteness,
        OwnerReasonLimitExceeded,
    >)
        ensures
            match Self::from_set(reasons) {
                Some(completeness) => r == Ok::<OwnerCompleteness, OwnerReasonLimitExceeded>(
                    completeness,
                ),
                None => r is Err,
            },
    {
        let count: usize = reasons.len();
        if count == 0 {
            Ok(OwnerCompleteness::Complete)
        } else if count <= OWNER_COMPLETENESS_REASONS_MAX {
            Ok(OwnerCompleteness::Partial { reasons })
        } else {
            Err(OwnerReasonLimitExceeded)
        }
    }

    /// The completeness for a list of reasons; repeated reasons count once.
    pub fn partial(codes: &[EvidenceGapCode]) -> (r: Result<
        OwnerCompleteness,
        OwnerReasonLimitExceeded,
    >)
        ensures
            match Self::from_set(reasons_of(codes@)) {
                Some(completeness) => r == Ok::<OwnerCompleteness, OwnerReasonLimitExceeded>(
                    completeness,
                ),
                None => r is Err,
            },
    {
        let mut reasons = OwnerReasons::empty();
        let mut i: usize = 0;
        while i < codes.len()
            invariant
                i <= codes.len(),
                forall|c: EvidenceGapCode| #[trigger]
                    reasons.has(c) == codes@.take(i as int).contains(c),
            decreases codes.len() - i,
        {
            let code = codes[i];
            let ghost before = reasons;
            reasons = reasons.with(code);
            proof {
                let head = codes@.take(i as int);
                let next = codes@.take(i + 1);
                assert(next =~= head.push(code));
                assert forall|c: EvidenceGapCode| #[trigger] reasons.has(c) == next.contains(c) by {
                    assert(before.has(c) == head.contains(c));
                    if head.contains(c) {
                        let k = choose|k: int| 0 <= k < head.len() && head[k] == c;
                        assert(next[k] == c);
                    }
                    if next.contains(c) {
                        let k = choose|k: int| 0 <= k < next.len() && next[k] == c;
                        if k < head.len() {
                            assert(head[k] == c);
                        }
                    }
                    assert(next[head.len() as int] == code);
                }
            }
            i = i + 1;
        }
        proof {
            assert(codes@.take(codes@.len() as int) =~= codes@);
            assert(reasons.has(EvidenceGapCode::NativeFieldUnavailable) == codes@.contains(
                EvidenceGapCode::NativeFieldUnavailable,
            ));
            assert(reasons.has(EvidenceGapCode::NoncriticalEvidenceTruncated) == codes@.contains(
                EvidenceGapCode::NoncriticalEvidenceTruncated,
            ));
            assert(reasons.has(EvidenceGapCode::ObservationRaced) == codes@.contains(
                EvidenceGapCode::ObservationRaced,
            ));
            assert(reasons.has(EvidenceGapCode::OwnerAttributionIncomplete) == codes@.contains(
                EvidenceGapCode::OwnerAttributionIncomplete,
            ));
            assert(reasons.has(EvidenceGapCode::OwnerDisappeared) == codes@.contains(
                EvidenceGapCode::OwnerDisappeared,
            ));
            assert(reasons.has(EvidenceGapCode::OwnerPermissionDenied) == codes@.contains(
                EvidenceGapCode::OwnerPermissionDenied,
            ));
            assert(reasons.has(EvidenceGapCode::ProcessIdentityUnavailable) == codes@.contains(
                EvidenceGapCode::ProcessIdentityUnavailable,
            ));
            assert(reasons.has(EvidenceGapCode::ProcessMetadataUnavailable) == codes@.contains(
                EvidenceGapCode::ProcessMetadataUnavailable,
            ));
            assert(reasons.has(EvidenceGapCode::ScopeExcluded) == codes@.contains(
                EvidenceGapCode::ScopeExcluded,
            ));
            assert(reasons == reasons_of(codes@));
        }
        OwnerCompleteness::from_reasons(reasons)
    }
}

/// The codes in their public order.
pub open spec fn all_codes() -> Seq<EvidenceGapCode> {
    seq![
        EvidenceGapCode::NativeFieldUnavailable,
        EvidenceGapCode::NoncriticalEvidenceTruncated,
        EvidenceGapCode::ObservationRaced,
        EvidenceGapCode::OwnerAttributionIncomplete,
        EvidenceGapCode::OwnerDisappeared,
        EvidenceGapCode::OwnerPermissionDenied,
        EvidenceGapCode::ProcessIdentityUnavailable,
        EvidenceGapCode::ProcessMetadataUnavailable,
        EvidenceGapCode::ScopeExcluded,
    ]
}

/// The codes of a set in their public order.
pub open spec fn ordered_codes(reasons: OwnerReasons) -> Seq<EvidenceGapCode> {
    all_codes().filter(|c: EvidenceGapCode| reasons.has(c))
}

/// The codes of a set, ordered by public name.
pub fn owner_reason_codes(reasons: OwnerReasons) -> (r: Vec<EvidenceGapCode>)
    ensures
        r@ == ordered_codes(reasons),
{
    let all: Vec<EvidenceGapCode> = vec![
        EvidenceGapCode::NativeFieldUnavailable,
        EvidenceGapCode::NoncriticalEvidenceTruncated,
        EvidenceGapCode::ObservationRaced,
        EvidenceGapCode::OwnerAttributionIncomplete,
        EvidenceGapCode::OwnerDisappeared,
        EvidenceGapCode::OwnerPermissionDenied,
        EvidenceGapCode::ProcessIdentityUnavailable,
        EvidenceGapCode::ProcessMetadataUnavailable,
        EvidenceGapCode::ScopeExcluded,
    ];
    assert(all@ =~= all_codes());
    let mut out: Vec<EvidenceGapCode> = Vec::new();
    let ghost held = |c: EvidenceGapCode| reasons.has(c);
    let mut i: usize = 0;
    proof {
        reveal(Seq::filter);
        assert(all@.take(0) =~= Seq::empty());
    }
    while i < all.len()
        invariant
            i <= all.len(),
            held == (|c: EvidenceGapCode| reasons.has(c)),
            out@ == all@.take(i as int).filter(held),
        decreases all.len() - i,
    {
        let code = all[i];
        if reasons.contains(code) {
            out.push(code);
        }
        proof {
            reveal(Seq::filter);
            assert(all@.take(i + 1).drop_last() =~= all@.take(i as int));
            assert(all@.take(i + 1).last() == code);
        }
        i = i + 1;
    }
    proof {
        assert(all@.take(all@.len() as int) =~= all_codes());
    }
    out
}

/// The public names of a set of reasons, in order.
pub fn owner_reason_names(reasons: OwnerReasons) -> (r: Vec<&'static str>)
    ensures
        r.len() == ordered_codes(reasons).len(),
        forall|i: int|
            0 <= i < r.len() ==> (#[trigger] r@[i])@ == ordered_codes(reasons)[i].name_text(),
{
    let codes = owner_reason_codes(reasons);
    let mut out: Vec<&'static str> = Vec::new();
    let mut i: usize = 0;
    while i < codes.len()
        invariant
            i <= codes.len(),
            codes@ == ordered_codes(reasons),
            out.len() == i,
            forall|j: int| 0 <= j < i ==> (#[trigger] out@[j])@ == codes@[j].name_text(),
        decreases codes.len() - i,
    {
        out.push(codes[i].name());
        i = i + 1;
    }
    out
}

} // verus!
