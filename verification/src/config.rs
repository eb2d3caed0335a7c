//! User policy: protected processes, confirmation rules and endpoint labels.

use vstd::prelude::*;
use vstd::string::*;
use crate::address::{normalize_ip_address, normalized_ip, IpAddr};
use crate::evidence::EndpointIdentity;
use crate::model::{Ipv6Scope, Protocol};
use crate::text::{opt_str_text, push_char};

verus! {

/// The widest label shown in a line of output, in characters.
pub const LABEL_DISPLAY_MAX_CHARS: usize = 32;

/// A user's name for an endpoint. Without a scope it names the endpoint on every
/// interface.
#[derive(Debug, PartialEq, Eq)]
pub struct EndpointLabel {
    pub protocol: Protocol,
    pub address: IpAddr,
    pub port: u16,
    pub scope_id: Option<u32>,
    pub label: String,
}

impl EndpointLabel {
    /// The label names this endpoint, by its interface or on every interface.
    pub open spec fn names(self, endpoint: EndpointIdentity, scoped: bool) -> bool {
        &&& self.protocol == endpoint.protocol
        &&& normalized_ip(self.address) == normalized_ip(endpoint.address)
        &&& self.port == endpoint.port
        &&& if scoped {
            self.scope_id is Some && endpoint.ipv6_scope == Some(
                Ipv6Scope::InterfaceIndex(self.scope_id->0),
            )
        } else {
            self.scope_id is None
        }
    }

    fn names_endpoint(&self, endpoint: EndpointIdentity, scoped: bool) -> (r: bool)
        ensures
            r == self.names(endpoint, scoped),
    {
        let scope_matches: bool = match self.scope_id {
            Some(id) => scoped && match endpoint.ipv6_scope {
                Some(Ipv6Scope::InterfaceIndex(index)) => index == id,
                _ => false,
            },
            None => !scoped,
        };
        self.protocol == endpoint.protocol && normalize_ip_address(self.address)
            == normalize_ip_address(endpoint.address) && self.port == endpoint.port && scope_matches
    }
}

/// The first label that names an endpoint in the given way.
pub open spec fn first_label(
    labels: Seq<EndpointLabel>,
    endpoint: EndpointIdentity,
    scoped: bool,
) -> Option<Seq<char>>
    decreases labels.len(),
{
    if labels.len() == 0 {
        None
    } else if labels[0].names(endpoint, scoped) {
        Some(labels[0].label@)
    } else {
        first_label(labels.drop_first(), endpoint, scoped)
    }
}

/// The label of an endpoint: one for its interface wins over one for every
/// interface.
pub open spec fn resolved_label(labels: Seq<EndpointLabel>, endpoint: EndpointIdentity) -> Option<
    Seq<char>,
> {
    match first_label(labels, endpoint, true) {
        Some(label) => Some(label),
        None => first_label(labels, endpoint, false),
    }
}

/// The user's labels.
#[derive(Debug, PartialEq, Eq)]
pub struct LabelRegistry {
    pub labels: Vec<EndpointLabel>,
}

impl LabelRegistry {
    pub fn empty() -> (r: LabelRegistry)
        ensures
            r.labels@.len() == 0,
    {
        LabelRegistry { labels: Vec::new() }
    }

    fn find(&self, endpoint: EndpointIdentity, scoped: bool) -> (r: Option<&str>)
        ensures
            opt_str_text(r) == first_label(self.labels@, endpoint, scoped),
    {
        let mut i: usize = 0;
        assert(self.labels@.skip(0) =~= self.labels@);
        while i < self.labels.len()
            invariant
                i <= self.labels.len(),
                first_label(self.labels@, endpoint, scoped) == first_label(
                    self.labels@.skip(i as int),
                    endpoint,
                    scoped,
                ),
            decreases self.labels.len() - i,
        {
            if self.labels[i].names_endpoint(endpoint, scoped) {
                return Some(self.labels[i].label.as_str());
            }
            assert(self.labels@.skip(i as int).drop_first() =~= self.labels@.skip(i + 1));
            i = i + 1;
        }
        None
    }

    pub fn resolve(&self, endpoint: EndpointIdentity) -> (r: Option<&str>)
        ensures
            opt_str_text(r) == resolved_label(self.labels@, endpoint),
    {
        match self.find(endpoint, true) {
            Some(label) => Some(label),
            None => self.find(endpoint, false),
        }
    }
}

/// A label cut to the display width, with an ellipsis where it was cut.
pub open spec fn displayed_label(label: Seq<char>) -> Seq<char> {
    if label.len() <= LABEL_DISPLAY_MAX_CHARS {
        label
    } else {
        label.take(LABEL_DISPLAY_MAX_CHARS - 1).push('\u{2026}')
    }
}

pub fn label_display_text(label: &str) -> (r: String)
    ensures
        r@ == displayed_label(label@),
{
    if label.unicode_len() <= LABEL_DISPLAY_MAX_CHARS {
        label.to_owned()
    } else {
        let mut text = label.substring_char(0, LABEL_DISPLAY_MAX_CHARS - 1).to_owned();
        push_char(&mut text, '\u{2026}');
        assert(text@ =~= displayed_label(label@));
        text
    }
}

/// How the table is ordered.
#[derive(Debug, Clone, Copy, PartialEq, Eq, Structural)]
pub enum SortMode {
    Port,
    Pid,
    Protocol,
    Process,
}

impl SortMode {
    pub open spec fn following(self) -> SortMode {
        match self {
            SortMode::Port => SortMode::Pid,
            SortMode::Pid => SortMode::Protocol,
            SortMode::Protocol => SortMode::Process,
            SortMode::Process => SortMode::Port,
        }
    }

    /// The next order in the cycle.
    pub fn next(self) -> (r: SortMode)
        ensures
            r == self.following(),
    {
        match self {
            SortMode::Port => SortMode::Pid,
            SortMode::Pid => SortMode::Protocol,
            SortMode::Protocol => SortMode::Process,
            SortMode::Process => SortMode::Port,
        }
    }
}

/// The policy that every command works under.
#[derive(Debug, PartialEq, Eq)]
pub struct Config {
    pub default_sort: SortMode,
    pub hide_system_processes: bool,
    pub confirm_force_kill: bool,
    pub docker_enrichment: bool,
    pub protected_processes: Vec<String>,
    pub labels: LabelRegistry,
}

impl Default for Config {
    /// The policy without a configuration: forced kills are confirmed by their word, and
    /// a database server is protected by its name.
    fn default() -> (r: Config)
        ensures
            r.default_sort == SortMode::Port,
            !r.hide_system_processes,
            r.confirm_force_kill,
            r.docker_enrichment,
            r.protected_processes@.len() == 1,
            r.protected_processes@[0]@ == "postgres"@,
            r.labels.labels@.len() == 0,
    {
        Config {
            default_sort: SortMode::Port,
            hide_system_processes: false,
            confirm_force_kill: true,
            docker_enrichment: true,
            protected_processes: vec!["postgres".to_owned()],
            labels: LabelRegistry::empty(),
        }
    }
}

} // verus!
