//! What each term of a filter selects, told by the socket and its owners.

use vstd::prelude::*;
use vstd::string::*;
use crate::address::{normalized_ip, IpAddr};
use crate::config::{resolved_label, Config, EndpointLabel};
use crate::evidence::{EndpointIdentity, EvidenceImpact};
use crate::model::{BindScope, Ipv6Scope, Protocol};
use crate::observation::{
    owner_pid_of, MetadataCompleteness, NetworkSnapshot, OwnerObservation, ProcessObservation,
    SocketObservation,
};
use crate::query::{AddressFamily, FilterTerm, StateFilter};
use crate::text::{contains_text, decimal, lowercase, opt_text};
use crate::watch_event::{EventKind, WatchEvent};
use crate::watch_filter::{
    asks_owner, common_match, common_matches, endpoint_refutes, endpoint_term, event_result,
    hidden_owner_possible, owner_truth, owner_process, parent_holds, pid_constraint, process_holds,
    protection_word, selected, side_truth, term_truth, term_truth_at, FilterResult,
    OwnerPidConstraint, Truth,
};
use crate::watch_options::WatchOptions;

verus! {

/// The text holds the needle as it is, somewhere.
pub open spec fn occurs(needle: Seq<char>, text: Seq<char>) -> bool {
    exists|i: int|
        0 <= i <= text.len() - needle.len() && #[trigger] text.subrange(i, i + needle.len())
            == needle
}

proof fn lemma_single_endpoint_term(
    snapshot: NetworkSnapshot,
    socket: SocketObservation,
    term: FilterTerm,
    label: Option<Seq<char>>,
    names: Seq<String>,
)
    requires
        endpoint_term(term),
    ensures
        side_truth(snapshot, socket, seq![term], label, names) == if term_truth(
            snapshot,
            socket,
            None,
            label,
            term,
            false,
            names,
        ) == Truth::False {
            Truth::False
        } else {
            Truth::True
        },
{
    let terms = seq![term];
    assert(terms[0] == term);
    assert(!asks_owner(terms));
    crate::watch_filter::law_endpoint_filters_are_decided(snapshot, socket, terms, label, names);
    if endpoint_refutes(snapshot, socket, label, terms, names) {
        let i = choose|i: int|
            0 <= i < terms.len() && endpoint_term(#[trigger] terms[i]) && term_truth(
                snapshot,
                socket,
                None,
                label,
                terms[i],
                false,
                names,
            ) == Truth::False;
        assert(terms[i] == term);
    }
}

/// A filter of one term about the endpoint is true exactly of the sockets with that property
/// and false of all others: its port, its protocol, its interface.
pub proof fn law_port_protocol_and_interface_terms(
    snapshot: NetworkSnapshot,
    socket: SocketObservation,
    port: u16,
    protocol: Protocol,
    interface: u32,
    label: Option<Seq<char>>,
    names: Seq<String>,
)
    ensures
        side_truth(snapshot, socket, seq![FilterTerm::Port(port)], label, names) == if port
            == socket.local_endpoint.port {
            Truth::True
        } else {
            Truth::False
        },
        side_truth(snapshot, socket, seq![FilterTerm::Protocol(protocol)], label, names)
            == if protocol == socket.local_endpoint.protocol {
            Truth::True
        } else {
            Truth::False
        },
        side_truth(snapshot, socket, seq![FilterTerm::ScopeId(interface)], label, names)
            == if socket.local_endpoint.ipv6_scope == Some(Ipv6Scope::InterfaceIndex(interface)) {
            Truth::True
        } else {
            Truth::False
        },
{
    lemma_single_endpoint_term(snapshot, socket, FilterTerm::Port(port), label, names);
    lemma_single_endpoint_term(snapshot, socket, FilterTerm::Protocol(protocol), label, names);
    lemma_single_endpoint_term(snapshot, socket, FilterTerm::ScopeId(interface), label, names);
}

/// A term about the reach of a socket: public is bound on all addresses, loopback is
/// 127.0.0.0/8 or ::1, and local is everything else.
pub proof fn law_reach_terms(
    snapshot: NetworkSnapshot,
    socket: SocketObservation,
    scope: BindScope,
    label: Option<Seq<char>>,
    names: Seq<String>,
)
    ensures
        ({
            let address = socket.local_endpoint.address;
            let everywhere = address == IpAddr::V4(0) || address == IpAddr::V6(0);
            let here = address == IpAddr::V6(1) || (address is V4 && 0x7f00_0000
                <= address->V4_0 <= 0x7fff_ffff);
            let truth = side_truth(snapshot, socket, seq![FilterTerm::Scope(scope)], label, names);
            &&& truth == Truth::True || truth == Truth::False
            &&& scope == BindScope::Public ==> (truth == Truth::True <==> everywhere)
            &&& scope == BindScope::Loopback ==> (truth == Truth::True <==> here)
            &&& scope == BindScope::Local ==> (truth == Truth::True <==> !everywhere && !here)
        }),
{
    lemma_single_endpoint_term(snapshot, socket, FilterTerm::Scope(scope), label, names);
}

/// A term about the address and one about its family: an IPv4 address in IPv6 form counts as
/// that IPv4 address, and any other address as itself.
pub proof fn law_address_and_family_terms(
    snapshot: NetworkSnapshot,
    socket: SocketObservation,
    address: IpAddr,
    label: Option<Seq<char>>,
    names: Seq<String>,
)
    ensures
        ({
            let bound = socket.local_endpoint.address;
            let mapped = bound is V6 && 0xffff_0000_0000 <= bound->V6_0 < 0x1_0000_0000_0000;
            let by_address = side_truth(
                snapshot,
                socket,
                seq![FilterTerm::Address(address)],
                label,
                names,
            );
            let by_v4 = side_truth(
                snapshot,
                socket,
                seq![FilterTerm::Family(AddressFamily::Ipv4)],
                label,
                names,
            );
            let by_v6 = side_truth(
                snapshot,
                socket,
                seq![FilterTerm::Family(AddressFamily::Ipv6)],
                label,
                names,
            );
            &&& by_address == Truth::True || by_address == Truth::False
            &&& !mapped ==> (by_address == Truth::True <==> address == bound)
            &&& mapped ==> (by_address == Truth::True <==> address == IpAddr::V4(
                (bound->V6_0 - 0xffff_0000_0000) as u32,
            ))
            &&& by_v4 == Truth::True <==> bound is V4 || mapped
            &&& by_v6 == Truth::True <==> bound is V6 && !mapped
            &&& by_v4 == Truth::False <==> by_v6 == Truth::True
            &&& by_v4 == Truth::True <==> by_v6 == Truth::False
        }),
{
    lemma_single_endpoint_term(snapshot, socket, FilterTerm::Address(address), label, names);
    lemma_single_endpoint_term(
        snapshot,
        socket,
        FilterTerm::Family(AddressFamily::Ipv4),
        label,
        names,
    );
    lemma_single_endpoint_term(
        snapshot,
        socket,
        FilterTerm::Family(AddressFamily::Ipv6),
        label,
        names,
    );
}

/// A term about the state selects the sockets in that state: each state but the unknown ones
/// has a term of its own, under its own name, and all unknown ones share theirs.
pub proof fn law_state_terms(
    snapshot: NetworkSnapshot,
    socket: SocketObservation,
    state: StateFilter,
    label: Option<Seq<char>>,
    names: Seq<String>,
)
    ensures
        ({
            let truth = side_truth(snapshot, socket, seq![FilterTerm::State(state)], label, names);
            &&& truth == Truth::True || truth == Truth::False
            &&& truth == Truth::True ==> match state {
                StateFilter::Listen => socket.state is Listen,
                StateFilter::Bound => socket.state is Bound,
                StateFilter::Closed => socket.state is Closed,
                StateFilter::SynSent => socket.state is SynSent,
                StateFilter::SynReceived => socket.state is SynReceived,
                StateFilter::Established => socket.state is Established,
                StateFilter::FinWait1 => socket.state is FinWait1,
                StateFilter::FinWait2 => socket.state is FinWait2,
                StateFilter::CloseWait => socket.state is CloseWait,
                StateFilter::Closing => socket.state is Closing,
                StateFilter::LastAck => socket.state is LastAck,
                StateFilter::TimeWait => socket.state is TimeWait,
                StateFilter::DeleteTcb => socket.state is DeleteTcb,
                StateFilter::NewSynReceived => socket.state is NewSynReceived,
                StateFilter::Unknown => socket.state is Unknown,
            }
        }),
        exists|own: StateFilter| #[trigger]
            side_truth(snapshot, socket, seq![FilterTerm::State(own)], label, names)
                == Truth::True,
{
    lemma_single_endpoint_term(snapshot, socket, FilterTerm::State(state), label, names);
    let own = crate::watch_filter::state_filter_of(socket.state);
    lemma_single_endpoint_term(snapshot, socket, FilterTerm::State(own), label, names);
    assert(side_truth(snapshot, socket, seq![FilterTerm::State(own)], label, names)
        == Truth::True);
}

/// A term about the label is met where there is a label that holds the needle in lower case.
pub proof fn law_label_terms(
    snapshot: NetworkSnapshot,
    socket: SocketObservation,
    needle: String,
    label: Option<Seq<char>>,
    names: Seq<String>,
)
    ensures
        side_truth(snapshot, socket, seq![FilterTerm::Label(needle)], label, names) == if label
            is Some && occurs(needle@, lowercase(label->0)) {
            Truth::True
        } else {
            Truth::False
        },
{
    lemma_single_endpoint_term(snapshot, socket, FilterTerm::Label(needle), label, names);
    if label is Some {
        assert(occurs(needle@, lowercase(label->0)) == contains_text(
            lowercase(label->0),
            needle@,
        ));
    }
}

/// One more endpoint term that is met changes nothing, and one that is not leaves nothing.
pub proof fn law_all_terms_have_to_hold(
    snapshot: NetworkSnapshot,
    socket: SocketObservation,
    terms: Seq<FilterTerm>,
    term: FilterTerm,
    label: Option<Seq<char>>,
    names: Seq<String>,
)
    requires
        endpoint_term(term),
        !asks_owner(terms),
    ensures
        side_truth(snapshot, socket, terms.push(term), label, names) == if side_truth(
            snapshot,
            socket,
            terms,
            label,
            names,
        ) == Truth::True && side_truth(snapshot, socket, seq![term], label, names)
            == Truth::True {
            Truth::True
        } else {
            Truth::False
        },
{
    let all = terms.push(term);
    assert forall|i: int| 0 <= i < all.len() implies endpoint_term(#[trigger] all[i]) by {
        if i < terms.len() {
            assert(endpoint_term(terms[i]));
        }
    }
    crate::watch_filter::law_endpoint_filters_are_decided(snapshot, socket, all, label, names);
    crate::watch_filter::law_endpoint_filters_are_decided(snapshot, socket, terms, label, names);
    lemma_single_endpoint_term(snapshot, socket, term, label, names);
    if endpoint_refutes(snapshot, socket, label, terms, names) {
        let i = choose|i: int|
            0 <= i < terms.len() && endpoint_term(#[trigger] terms[i]) && term_truth(
                snapshot,
                socket,
                None,
                label,
                terms[i],
                false,
                names,
            ) == Truth::False;
        assert(all[i] == terms[i]);
    }
    if endpoint_refutes(snapshot, socket, label, all, names) {
        let i = choose|i: int|
            0 <= i < all.len() && endpoint_term(#[trigger] all[i]) && term_truth(
                snapshot,
                socket,
                None,
                label,
                all[i],
                false,
                names,
            ) == Truth::False;
        if i < terms.len() {
            assert(terms[i] == all[i]);
        }
    }
    assert(all[terms.len() as int] == term);
}

/// Which terms are about the endpoint alone.
pub proof fn law_endpoint_terms(term: FilterTerm)
    ensures
        !endpoint_term(term) <==> term is Pid || term is Parent || term is Protected || term
            is Plain,
{
}

proof fn lemma_single_owner_term(
    snapshot: NetworkSnapshot,
    socket: SocketObservation,
    term: FilterTerm,
    label: Option<Seq<char>>,
    names: Seq<String>,
    owner: Option<OwnerObservation>,
)
    requires
        !endpoint_term(term),
    ensures
        owner_truth(snapshot, socket, label, seq![term], names, owner) == term_truth(
            snapshot,
            socket,
            owner,
            label,
            term,
            common_match(socket, label, term),
            names,
        ),
        !endpoint_refutes(snapshot, socket, label, seq![term], names),
{
    let terms = seq![term];
    let commons = common_matches(socket, label, terms);
    assert(terms[0] == term);
    assert(commons[0] == common_match(socket, label, term));
    assert(term_truth_at(snapshot, socket, owner, label, terms, commons, names, 0) == term_truth(
        snapshot,
        socket,
        owner,
        label,
        term,
        common_match(socket, label, term),
        names,
    ));
    assert(terms.len() == 1);
}

/// A filter of one PID is true of a socket that this PID owns, whatever else is known.
pub proof fn law_pid_term_is_met_by_its_owner(
    snapshot: NetworkSnapshot,
    socket: SocketObservation,
    pid: u32,
    label: Option<Seq<char>>,
    names: Seq<String>,
    o: int,
)
    requires
        0 <= o < socket.owners.len(),
        match socket.owners@[o] {
            OwnerObservation::Verified(identity) => identity.pid == pid,
            OwnerObservation::UnverifiedPid { pid: other, .. } => other == pid,
        },
    ensures
        side_truth(snapshot, socket, seq![FilterTerm::Pid(pid)], label, names) == Truth::True,
{
    let term = FilterTerm::Pid(pid);
    lemma_single_owner_term(snapshot, socket, term, label, names, Some(socket.owners@[o]));
    assert(owner_truth(snapshot, socket, label, seq![term], names, Some(socket.owners@[o]))
        == Truth::True);
}

/// A filter of one PID is false of a socket whose owners are all known and all others,
/// unless a gap may hide the owner; where owners are missing it stays open.
pub proof fn law_pid_term_without_its_owner(
    snapshot: NetworkSnapshot,
    socket: SocketObservation,
    pid: u32,
    label: Option<Seq<char>>,
    names: Seq<String>,
)
    requires
        forall|o: int|
            0 <= o < socket.owners.len() ==> owner_pid_of(#[trigger] socket.owners@[o]) != pid,
    ensures
        ({
            let term = seq![FilterTerm::Pid(pid)];
            let truth = side_truth(snapshot, socket, term, label, names);
            truth == if socket.owner_completeness.complete() && !hidden_owner_possible(
                snapshot,
                term,
            ) {
                Truth::False
            } else {
                Truth::Unknown
            }
        }),
{
    let term = FilterTerm::Pid(pid);
    let terms = seq![term];
    lemma_single_owner_term(snapshot, socket, term, label, names, None);
    assert forall|o: int| 0 <= o < socket.owners.len() implies owner_truth(
        snapshot,
        socket,
        label,
        terms,
        names,
        Some(#[trigger] socket.owners@[o]),
    ) == Truth::False by {
        lemma_single_owner_term(snapshot, socket, term, label, names, Some(socket.owners@[o]));
    }
}

/// The PID of an owner is the one it was seen with.
pub proof fn law_owner_pids(owner: OwnerObservation)
    ensures
        owner matches OwnerObservation::Verified(identity) ==> owner_pid_of(owner) == identity.pid,
        owner is UnverifiedPid ==> owner_pid_of(owner) == owner->UnverifiedPid_pid,
{
}

/// A gap may hide the owner that a filter of one PID asks for where it is a gap of ownership
/// that names no endpoint and either no PID or this one.
pub proof fn law_gaps_that_may_hide_an_owner(
    snapshot: NetworkSnapshot,
    pid: u32,
    i: int,
)
    requires
        0 <= i < snapshot.evidence_gaps.len(),
        snapshot.evidence_gaps@[i].impact == EvidenceImpact::Ownership,
        snapshot.evidence_gaps@[i].endpoint is None,
    ensures
        snapshot.evidence_gaps@[i].pid is None || snapshot.evidence_gaps@[i].pid == Some(pid)
            ==> hidden_owner_possible(snapshot, seq![FilterTerm::Pid(pid)]),
        hidden_owner_possible(snapshot, seq![FilterTerm::Protected(true)]),
{
    let terms = seq![FilterTerm::Pid(pid)];
    let other = seq![FilterTerm::Protected(true)];
    assert(!endpoint_term(terms[0]));
    assert(!endpoint_term(other[0]));
    assert(terms[0] is Pid);
    lemma_constraint_of_one_pid(pid);
    assert(pid_constraint(other) == OwnerPidConstraint::Any);
    assert(snapshot.evidence_gaps@[i] == snapshot.evidence_gaps@[i]);
}

proof fn lemma_constraint_of_one_pid(pid: u32)
    ensures
        pid_constraint(seq![FilterTerm::Pid(pid)]) == OwnerPidConstraint::Exact(pid),
{
    let terms = seq![FilterTerm::Pid(pid)];
    assert(terms[0] is Pid);
    assert(terms.len() == 1);
}

/// Two different PIDs cannot both be those of one owner.
pub proof fn law_two_pids_are_impossible(terms: Seq<FilterTerm>, i: int, j: int)
    requires
        0 <= i < terms.len() && 0 <= j < terms.len(),
        terms[i] is Pid && terms[j] is Pid,
    ensures
        terms[i]->Pid_0 != terms[j]->Pid_0 ==> pid_constraint(terms)
            == OwnerPidConstraint::Impossible,
        pid_constraint(terms) == OwnerPidConstraint::Exact(terms[i]->Pid_0) || pid_constraint(terms)
            == OwnerPidConstraint::Impossible,
{
    assert(terms[i] is Pid && terms[j] is Pid);
}

/// A term about protection is decided by the owner's name and the list of names; an owner
/// whose name cannot be read leaves it open, unless it is found protected otherwise.
pub proof fn law_protection_terms(
    snapshot: NetworkSnapshot,
    socket: SocketObservation,
    expected: bool,
    label: Option<Seq<char>>,
    names: Seq<String>,
    owner: OwnerObservation,
)
    ensures
        ({
            let truth = term_truth(
                snapshot,
                socket,
                Some(owner),
                label,
                FilterTerm::Protected(expected),
                false,
                names,
            );
            &&& owner_process(snapshot, owner) is None ==> truth == Truth::Unknown
            &&& owner_process(snapshot, owner) matches Some(process) ==> {
                let protected = crate::protection::protected_process(
                    crate::observation::scope_platform(snapshot.scope.kind),
                    opt_text(process.name),
                    crate::protection::opt_bytes(process.executable_path),
                    names,
                );
                &&& protected ==> truth == (if expected {
                    Truth::True
                } else {
                    Truth::False
                })
                &&& !protected && process.name is Some ==> truth == (if expected {
                    Truth::False
                } else {
                    Truth::True
                })
                &&& !protected && process.name is None ==> truth == Truth::Unknown
            }
        }),
        term_truth(snapshot, socket, None, label, FilterTerm::Protected(expected), false, names)
            == if !socket.owner_completeness.complete() {
            Truth::Unknown
        } else if expected {
            Truth::False
        } else {
            Truth::True
        },
{
}

/// A term about the parent is met by a part of the parent's PID or of its name in lower
/// case; a miss is certain only where all facts about the process were read.
pub proof fn law_parent_terms(
    snapshot: NetworkSnapshot,
    socket: SocketObservation,
    needle: String,
    label: Option<Seq<char>>,
    names: Seq<String>,
    owner: OwnerObservation,
    process: ProcessObservation,
)
    requires
        owner_process(snapshot, owner) == Some(process),
    ensures
        ({
            let truth = term_truth(
                snapshot,
                socket,
                Some(owner),
                label,
                FilterTerm::Parent(needle),
                false,
                names,
            );
            let found = (process.parent_pid is Some && occurs(
                needle@,
                decimal(process.parent_pid->0 as nat),
            )) || (process.parent_process_name is Some && occurs(
                needle@,
                lowercase(process.parent_process_name->0@),
            ));
            truth == if found {
                Truth::True
            } else if process.metadata_completeness == MetadataCompleteness::Partial {
                Truth::Unknown
            } else {
                Truth::False
            }
        }),
{
    assert(parent_holds(process, needle@) == ((process.parent_pid is Some && occurs(
        needle@,
        decimal(process.parent_pid->0 as nat),
    )) || (process.parent_process_name is Some && occurs(
        needle@,
        lowercase(process.parent_process_name->0@),
    )))) by {
        if process.parent_pid is Some {
            assert(occurs(needle@, decimal(process.parent_pid->0 as nat)) == contains_text(
                decimal(process.parent_pid->0 as nat),
                needle@,
            ));
        }
        if process.parent_process_name is Some {
            assert(occurs(needle@, lowercase(process.parent_process_name->0@)) == contains_text(
                lowercase(process.parent_process_name->0@),
                needle@,
            ));
        }
    }
}

/// An owner is a process of the snapshot exactly where its identity was verified and is
/// listed.
pub proof fn law_only_verified_owners_are_looked_up(
    snapshot: NetworkSnapshot,
    owner: OwnerObservation,
)
    ensures
        owner is UnverifiedPid ==> owner_process(snapshot, owner) is None,
        owner matches OwnerObservation::Verified(identity) ==> owner_process(snapshot, owner)
            == snapshot.processes.row(identity),
{
}

/// A plain term is met by a part of the port, of the address, of the protocol, of the state,
/// of the reach or of the label; or of the owner's PID, name, path or parent.
pub proof fn law_plain_terms(
    snapshot: NetworkSnapshot,
    socket: SocketObservation,
    needle: String,
    label: Option<Seq<char>>,
    names: Seq<String>,
    owner: OwnerObservation,
)
    ensures
        ({
            let truth = term_truth(
                snapshot,
                socket,
                Some(owner),
                label,
                FilterTerm::Plain(needle),
                common_match(socket, label, FilterTerm::Plain(needle)),
                names,
            );
            let endpoint = socket.local_endpoint;
            &&& occurs(needle@, decimal(endpoint.port as nat)) ==> truth == Truth::True
            &&& occurs(needle@, lowercase(crate::address::ip_text(endpoint.address))) ==> truth
                == Truth::True
            &&& occurs(needle@, endpoint.protocol.lower_label_text()) ==> truth == Truth::True
            &&& occurs(needle@, crate::model::socket_state_text(socket.state)) ==> truth
                == Truth::True
            &&& label is Some && occurs(needle@, lowercase(label->0)) ==> truth == Truth::True
            &&& occurs(needle@, decimal(owner_pid_of(owner) as nat)) ==> truth == Truth::True
            &&& owner_process(snapshot, owner) matches Some(process) ==> process.name is Some
                && occurs(needle@, lowercase(process.name->0@)) ==> truth == Truth::True
            &&& owner_process(snapshot, owner) is None ==> truth != Truth::False
        }),
{
    let endpoint = socket.local_endpoint;
    assert(occurs(needle@, decimal(endpoint.port as nat)) == contains_text(
        decimal(endpoint.port as nat),
        needle@,
    ));
    let address = lowercase(crate::address::ip_text(endpoint.address));
    assert(occurs(needle@, address) == contains_text(address, needle@));
    let protocol = endpoint.protocol.lower_label_text();
    assert(occurs(needle@, protocol) == contains_text(protocol, needle@));
    let state = crate::model::socket_state_text(socket.state);
    assert(occurs(needle@, state) == contains_text(state, needle@));
    if label is Some {
        assert(occurs(needle@, lowercase(label->0)) == contains_text(
            lowercase(label->0),
            needle@,
        ));
    }
    let pid = decimal(owner_pid_of(owner) as nat);
    assert(occurs(needle@, pid) == contains_text(pid, needle@));
    if owner_process(snapshot, owner) is Some {
        let process = owner_process(snapshot, owner)->0;
        if process.name is Some {
            let name = lowercase(process.name->0@);
            assert(occurs(needle@, name) == contains_text(name, needle@));
            if contains_text(name, needle@) {
                assert(process_holds(Some(owner), process, needle@));
            }
        }
    }
}

/// The word for protection reads as it stands: `protected` finds the protected and
/// `unprotected` the others.
pub proof fn law_protection_words(protected: bool)
    ensures
        protection_word(protected, "protected"@) == if protected {
            Truth::True
        } else {
            Truth::False
        },
        protection_word(protected, "unprotected"@) == if protected {
            Truth::False
        } else {
            Truth::True
        },
{
    reveal_strlit("protected");
    reveal_strlit("unprotected");
    assert("protected"@.len() != "unprotected"@.len());
}

/// The selectors of a run leave out every endpoint that differs in one of them, and no
/// other.
pub proof fn law_selectors_choose_endpoints(endpoint: EndpointIdentity, options: WatchOptions)
    ensures
        selected(endpoint, options) <==> {
            &&& endpoint.protocol == Protocol::Tcp ==> options.protocols
                != crate::watch_options::ProtocolSelection::Udp
            &&& endpoint.protocol == Protocol::Udp ==> options.protocols
                != crate::watch_options::ProtocolSelection::Tcp
            &&& options.port is None || options.port == Some(endpoint.port)
            &&& options.scope_id is None || endpoint.ipv6_scope == Some(
                Ipv6Scope::InterfaceIndex(options.scope_id->0),
            )
            &&& options.address is None || (match endpoint.address {
                IpAddr::V4(bits) => options.address == Some(IpAddr::V4(bits)),
                IpAddr::V6(bits) => if 0xffff_0000_0000 <= bits < 0x1_0000_0000_0000 {
                    options.address == Some(IpAddr::V4((bits - 0xffff_0000_0000) as u32))
                } else {
                    options.address == Some(IpAddr::V6(bits))
                },
            })
        },
{
}

/// An event is left out where its endpoint is not selected, or where the filter is false of
/// the side it is about. It is written as it is without a filter, as a match where the filter
/// is true of that side, and as open where that is open. A replacement matches by either of
/// its sides and is left out by both.
pub proof fn law_written_events(event: WatchEvent, options: WatchOptions, config: Config)
    requires
        event.wf(),
    ensures
        ({
            let names = config.protected_processes@;
            let labels = config.labels.labels@;
            let r = event_result(event, options, config);
            let previous = side_truth(
                *event.previous_snapshot->0,
                *event.previous_socket->0,
                options.terms@,
                resolved_label(labels, event.previous_socket->0.local_endpoint),
                names,
            );
            let current = side_truth(
                *event.current_snapshot->0,
                *event.current_socket->0,
                options.terms@,
                resolved_label(labels, event.current_socket->0.local_endpoint),
                names,
            );
            let chosen = selected(event.socket().local_endpoint, options);
            let told = |t: Truth| match t {
                Truth::True => Some(FilterResult::Matched),
                Truth::Unknown => Some(FilterResult::Indeterminate),
                Truth::False => None,
            };
            &&& !chosen ==> r is None
            &&& chosen && !options.filter_active ==> r == Some(FilterResult::NotApplied)
            &&& options.filter_active ==> r != Some(FilterResult::NotApplied)
            &&& chosen && options.filter_active && (event.kind == EventKind::Bind || event.kind
                == EventKind::Baseline) ==> r == told(current)
            &&& chosen && options.filter_active && event.kind == EventKind::Release ==> r == told(
                previous,
            )
            &&& chosen && options.filter_active && event.kind == EventKind::Replacement ==> {
                &&& r == Some(FilterResult::Matched) <==> previous == Truth::True || current
                    == Truth::True
                &&& r is None <==> previous == Truth::False && current == Truth::False
            }
        }),
{
    reveal(event_result);
}

/// A filter without terms is true of everything.
pub proof fn law_no_terms_no_filter(
    snapshot: NetworkSnapshot,
    socket: SocketObservation,
    label: Option<Seq<char>>,
    names: Seq<String>,
)
    ensures
        side_truth(snapshot, socket, Seq::empty(), label, names) == Truth::True,
{
}

/// A label names the endpoints with its protocol, address and port; one for an interface
/// wins over one for all of them, and the first of its kind wins.
pub proof fn law_labels_name_endpoints(
    labels: Seq<EndpointLabel>,
    label: EndpointLabel,
    endpoint: EndpointIdentity,
)
    ensures
        label.names(endpoint, true) || label.names(endpoint, false) ==> label.protocol
            == endpoint.protocol && label.port == endpoint.port && normalized_ip(label.address)
            == normalized_ip(endpoint.address),
        label.names(endpoint, true) ==> label.scope_id is Some && endpoint.ipv6_scope == Some(
            Ipv6Scope::InterfaceIndex(label.scope_id->0),
        ),
        label.names(endpoint, false) ==> label.scope_id is None,
        label.names(endpoint, true) ==> resolved_label(seq![label] + labels, endpoint) == Some(
            label.label@,
        ),
        !label.names(endpoint, true) && !label.names(endpoint, false) ==> resolved_label(
            seq![label] + labels,
            endpoint,
        ) == resolved_label(labels, endpoint),
        resolved_label(Seq::empty(), endpoint) is None,
        label.names(endpoint, false) && crate::config::first_label(labels, endpoint, true) is None
            ==> resolved_label(seq![label] + labels, endpoint) == Some(label.label@),
{
    assert((seq![label] + labels).drop_first() =~= labels);
    assert((seq![label] + labels)[0] == label);
}

/// A label for an endpoint on all interfaces names it whatever its interface.
pub proof fn law_label_fits_its_endpoint(label: EndpointLabel, endpoint: EndpointIdentity)
    requires
        label.protocol == endpoint.protocol,
        label.port == endpoint.port,
        label.address == endpoint.address,
    ensures
        label.scope_id is None ==> label.names(endpoint, false),
        label.scope_id is Some && endpoint.ipv6_scope == Some(
            Ipv6Scope::InterfaceIndex(label.scope_id->0),
        ) ==> label.names(endpoint, true),
{
}

/// A displayed label is the label, or its first thirty-one characters and an ellipsis.
pub proof fn law_displayed_labels_are_short(label: Seq<char>)
    ensures
        crate::config::displayed_label(label).len() <= 32,
        label.len() <= 32 ==> crate::config::displayed_label(label) == label,
        label.len() > 32 ==> crate::config::displayed_label(label).len() == 32
            && crate::config::displayed_label(label).last() == '\u{2026}'
            && crate::config::displayed_label(label).take(31) == label.take(31),
{
    if label.len() > 32 {
        assert(crate::config::displayed_label(label).take(31) =~= label.take(31));
    }
}

/// What the filter said of an event is told under three different names.
pub proof fn law_filter_results_are_told_apart(a: FilterResult, b: FilterResult)
    requires
        a != b,
    ensures
        a.name_text() != b.name_text(),
        FilterResult::Matched.name_text() == "matched"@,
        FilterResult::Indeterminate.name_text() == "indeterminate"@,
        FilterResult::NotApplied.name_text() == "not_applied"@,
{
    reveal_strlit("not_applied");
    reveal_strlit("matched");
    reveal_strlit("indeterminate");
    assert("not_applied"@.len() == 11 && "matched"@.len() == 7 && "indeterminate"@.len() == 13);
}

} // verus!
