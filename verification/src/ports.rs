//! Rows of the port table, and what is read about a row's process on demand.

use vstd::prelude::*;
use vstd::string::*;
use crate::address::IpAddr;
use crate::model::{Ipv6Scope, PermissionStatus, Platform, Protocol, SocketState};
use crate::observation::{ProcessIdentity, ProcessStartMarker};
use crate::protection::{is_protected_process, protected_process};
use crate::text::{opt_str, opt_text, str_eq};

verus! {

/// One row of the port table: a socket and one of its owners.
#[derive(Debug, Clone, PartialEq, Eq)]
pub struct PortEntry {
    pub protocol: Protocol,
    pub local_addr: IpAddr,
    pub local_port: u16,
    pub state: SocketState,
    pub pid: Option<u32>,
    pub process_name: Option<String>,
    pub executable_path: Option<Vec<u8>>,
    pub command_line: Option<String>,
    pub parent_pid: Option<u32>,
    pub parent_process_name: Option<String>,
    pub protected: bool,
    pub platform: Platform,
    pub permission: PermissionStatus,
    pub process_identity: Option<ProcessIdentity>,
    pub ipv6_scope: Option<Ipv6Scope>,
}

/// Whether a row's process is protected, by its mark or by the list.
pub open spec fn marked(row: PortEntry, names: Seq<String>) -> bool {
    row.protected || protected_process(
        row.platform,
        opt_text(row.process_name),
        crate::protection::opt_bytes(row.executable_path),
        names,
    )
}

/// Rows with the protected ones marked.
pub open spec fn marked_rows(rows: Seq<PortEntry>, names: Seq<String>) -> Seq<PortEntry> {
    rows.map_values(|row: PortEntry| PortEntry { protected: marked(row, names), ..row })
}

/// Mark the rows of protected processes. A mark is never taken away.
pub fn mark_protected(rows: &mut Vec<PortEntry>, names: &[String])
    ensures
        final(rows)@ == marked_rows(old(rows)@, names@),
{
    let mut i: usize = 0;
    while i < rows.len()
        invariant
            i <= rows.len(),
            rows.len() == old(rows).len(),
            forall|j: int|
                0 <= j < i ==> #[trigger] rows@[j] == (PortEntry {
                    protected: marked(old(rows)@[j], names@),
                    ..old(rows)@[j]
                }),
            forall|j: int| i <= j < rows.len() ==> #[trigger] rows@[j] == old(rows)@[j],
        decreases rows.len() - i,
    {
        let protected = rows[i].protected || is_protected_process(
            rows[i].platform,
            opt_str(&rows[i].process_name),
            &rows[i].executable_path,
            names,
        );
        let row = &mut rows[i];
        row.protected = protected;
        i = i + 1;
    }
    assert(rows@ =~= marked_rows(old(rows)@, names@));
}

/// A child of a process.
#[derive(Debug, Clone, PartialEq, Eq)]
pub struct ChildProcess {
    pub pid: u32,
    pub name: Option<String>,
}

/// The children of a process, as far as they were read.
#[derive(Debug, Clone, PartialEq, Eq)]
pub struct ChildProcessSnapshot {
    pub children: Vec<ChildProcess>,
    pub truncated: bool,
}

impl ChildProcessSnapshot {
    pub fn empty() -> (r: ChildProcessSnapshot)
        ensures
            r.children@.len() == 0,
            !r.truncated,
    {
        ChildProcessSnapshot { children: Vec::new(), truncated: false }
    }
}

/// A container's published port.
#[derive(Debug, Clone, PartialEq, Eq)]
pub struct DockerContainerPort {
    pub id: String,
    pub name: String,
    pub compose_project: Option<String>,
    pub compose_service: Option<String>,
    pub host_port: u16,
    pub container_port: u16,
    pub protocol: Protocol,
}

/// The containers that publish a port, as far as they were listed.
#[derive(Debug, Clone, PartialEq, Eq)]
pub struct DockerPortContext {
    pub containers: Vec<DockerContainerPort>,
    pub truncated: bool,
}

impl DockerPortContext {
    /// The container, where it is known to be the only one.
    pub fn single_container(&self) -> (r: Option<&DockerContainerPort>)
        ensures
            r is Some <==> self.containers.len() == 1 && !self.truncated,
            r is Some ==> *r->0 == self.containers@[0],
    {
        if self.containers.len() == 1 && !self.truncated {
            Some(&self.containers[0])
        } else {
            None
        }
    }
}

/// What is read about a row's process on demand.
#[derive(Debug, Clone, PartialEq, Eq)]
pub struct ProcessContext {
    pub owner_uid: Option<u32>,
    pub process_start_time_marker: Option<ProcessStartMarker>,
    pub children: ChildProcessSnapshot,
    pub docker: Option<DockerPortContext>,
}

impl ProcessContext {
    /// Nothing is known.
    pub fn empty() -> (r: ProcessContext)
        ensures
            r.owner_uid is None,
            r.process_start_time_marker is None,
            r.children.children@.len() == 0,
            !r.children.truncated,
            r.docker is None,
    {
        ProcessContext {
            owner_uid: None,
            process_start_time_marker: None,
            children: ChildProcessSnapshot::empty(),
            docker: None,
        }
    }
}

/// Read the context of a selected row: that of its process where the PID is known,
/// and the containers behind its port where that is wanted.
pub fn collect_selected_process_context_with<C, E>(
    row: &PortEntry,
    docker_enrichment: bool,
    collect_context: C,
    enrich: E,
) -> (r: ProcessContext) where
    C: FnOnce(u32) -> ProcessContext,
    E: FnOnce(&PortEntry) -> Option<DockerPortContext>,

    requires
        row.pid is Some ==> call_requires(collect_context, (row.pid->0,)),
        docker_enrichment ==> call_requires(enrich, (row,)),
    ensures
        docker_enrichment ==> call_ensures(enrich, (row,), r.docker),
        !docker_enrichment ==> r.docker is None,
        match row.pid {
            Some(pid) => exists|context: ProcessContext|
                #[trigger] call_ensures(collect_context, (pid,), context) && r == (ProcessContext {
                    docker: r.docker,
                    ..context
                }),
            None => {
                &&& r.owner_uid is None
                &&& r.process_start_time_marker is None
                &&& r.children.children@.len() == 0
                &&& !r.children.truncated
            },
        },
{
    let context = match row.pid {
        Some(pid) => collect_context(pid),
        None => ProcessContext::empty(),
    };
    let docker = if docker_enrichment {
        enrich(row)
    } else {
        None
    };
    ProcessContext {
        owner_uid: context.owner_uid,
        process_start_time_marker: context.process_start_time_marker,
        children: context.children,
        docker,
    }
}

/// The name of a service manager on a platform.
pub open spec fn service_manager(platform: Platform, name: Seq<char>) -> bool {
    match platform {
        Platform::Linux => name == "systemd"@ || name == "init"@ || name == "kthreadd"@,
        Platform::Macos => name == "launchd"@ || name == "kernel_task"@,
        Platform::Windows => name == "services.exe"@ || name == "wininit.exe"@ || name
            == "lsass.exe"@ || name == "System"@,
    }
}

fn is_service_manager(platform: Platform, name: &str) -> (r: bool)
    ensures
        r == service_manager(platform, name@),
{
    match platform {
        Platform::Linux => str_eq(name, "systemd") || str_eq(name, "init") || str_eq(
            name,
            "kthreadd",
        ),
        Platform::Macos => str_eq(name, "launchd") || str_eq(name, "kernel_task"),
        Platform::Windows => str_eq(name, "services.exe") || str_eq(name, "wininit.exe")
            || str_eq(name, "lsass.exe") || str_eq(name, "System"),
    }
}

/// A process belongs to the system where it is a service manager or, on Windows, a
/// child of one.
pub open spec fn system_process(
    platform: Platform,
    name: Option<Seq<char>>,
    parent_name: Option<Seq<char>>,
) -> bool {
    (name is Some && service_manager(platform, name->0)) || (platform == Platform::Windows
        && parent_name is Some && parent_name->0 == "services.exe"@)
}

pub fn is_system_process(
    platform: Platform,
    name: Option<&str>,
    parent_name: Option<&str>,
) -> (r: bool)
    ensures
        r == system_process(
            platform,
            crate::text::opt_str_text(name),
            crate::text::opt_str_text(parent_name),
        ),
{
    let manager: bool = match name {
        Some(name) => is_service_manager(platform, name),
        None => false,
    };
    let child: bool = match parent_name {
        Some(parent) => platform == Platform::Windows && str_eq(parent, "services.exe"),
        None => false,
    };
    manager || child
}

} // verus!
