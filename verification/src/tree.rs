//! Process trees and groups: which processes a scoped kill would reach.

use vstd::prelude::*;
use vstd::string::*;
use crate::model::Platform;
use crate::observation::ProcessStartMarker;
use crate::ports::{is_system_process, system_process};
use crate::process::{unsafe_pid_reason, unsafe_reason, HostFacts, KillMode, UnsafePidReason};
use crate::protection::{is_protected_process_name, protected_name};
use crate::text::{decimal, decimal_text, opt_str, opt_text};

verus! {

/// The most processes that a tree kill may reach.
pub const MAX_TREE_PROCESSES: usize = 256;

/// The most processes that a group kill may reach.
pub const MAX_GROUP_PROCESSES: usize = 512;

/// The most processes of a table that are looked through.
pub const TREE_SNAPSHOT_MAX: usize = 65_536;

/// The largest group for which `--yes` may stand for the typed word.
pub const GROUP_YES_SKIP_MAX_PROCESSES: usize = 4;

/// One process of the process table.
#[derive(Debug, Clone, PartialEq, Eq)]
pub struct TreeProcessInfo {
    pub pid: u32,
    pub parent_pid: Option<u32>,
    pub unverified_parent_pid: Option<u32>,
    pub parent_process_name: Option<String>,
    pub process_name: Option<String>,
    pub start_time_marker: Option<ProcessStartMarker>,
    pub owner_uid: Option<u32>,
    pub process_group: Option<u32>,
}

/// One process that a scoped kill would reach.
#[derive(Debug, PartialEq, Eq)]
pub struct TreeNode {
    pub pid: u32,
    pub depth: usize,
    pub process_name: Option<String>,
    pub protected: bool,
    pub system_process: bool,
    pub owner_uid: Option<u32>,
    /// Its name and its start are known.
    pub complete: bool,
}

impl TreeNode {
    /// The node is this process of the table.
    pub open spec fn describes(
        self,
        info: TreeProcessInfo,
        depth: nat,
        names: Seq<String>,
        platform: Platform,
    ) -> bool {
        &&& self.pid == info.pid
        &&& self.depth == depth
        &&& opt_text(self.process_name) == opt_text(info.process_name)
        &&& self.protected == (info.process_name is Some && protected_name(
            platform,
            info.process_name->0@,
            names,
        ))
        &&& self.system_process == system_process(
            platform,
            opt_text(info.process_name),
            opt_text(info.parent_process_name),
        )
        &&& self.owner_uid == info.owner_uid
        &&& self.complete == (info.process_name is Some && info.start_time_marker is Some)
    }

    fn from_info(
        info: &TreeProcessInfo,
        depth: usize,
        names: &[String],
        platform: Platform,
    ) -> (r: TreeNode)
        ensures
            r.describes(*info, depth as nat, names@, platform),
    {
        TreeNode {
            pid: info.pid,
            depth,
            process_name: match &info.process_name {
                Some(name) => Some(name.clone()),
                None => None,
            },
            protected: match &info.process_name {
                Some(name) => is_protected_process_name(platform, name.as_str(), names),
                None => false,
            },
            system_process: is_system_process(
                platform,
                opt_str(&info.process_name),
                opt_str(&info.parent_process_name),
            ),
            owner_uid: info.owner_uid,
            complete: info.process_name.is_some() && info.start_time_marker.is_some(),
        }
    }

    /// Something about the node asks for a second look.
    pub open spec fn warned(self, host: HostFacts) -> bool {
        self.system_process || !self.complete || (self.owner_uid is Some && self.owner_uid->0
            != host.user_id)
    }
}

/// The processes that a scoped kill would reach, the confirmed root first. `limit` is
/// set where there are more than that many.
#[derive(Debug, PartialEq, Eq)]
pub struct ProcessTreeTarget {
    pub nodes: Vec<TreeNode>,
    pub truncated_at: Option<usize>,
}

/// Some node has a warning.
pub open spec fn nodes_warned(nodes: Seq<TreeNode>, host: HostFacts) -> bool {
    exists|i: int| 0 <= i < nodes.len() && (#[trigger] nodes[i]).warned(host)
}

impl ProcessTreeTarget {
    pub fn len(&self) -> (r: usize)
        ensures
            r == self.nodes.len(),
    {
        self.nodes.len()
    }

    /// The confirmed root.
    pub fn root(&self) -> (r: Option<&TreeNode>)
        ensures
            r is Some <==> self.nodes.len() > 0,
            r is Some ==> *r->0 == self.nodes@[0],
    {
        if self.nodes.len() > 0 {
            Some(&self.nodes[0])
        } else {
            None
        }
    }

    /// The root was found protected.
    pub open spec fn root_protected(self) -> bool {
        self.nodes.len() > 0 && self.nodes@[0].protected
    }

    pub fn has_warnings(&self, host: HostFacts) -> (r: bool)
        ensures
            r == nodes_warned(self.nodes@, host),
    {
        let mut i: usize = 0;
        while i < self.nodes.len()
            invariant
                i <= self.nodes.len(),
                forall|j: int| 0 <= j < i ==> !(#[trigger] self.nodes@[j]).warned(host),
            decreases self.nodes.len() - i,
        {
            let node = &self.nodes[i];
            let foreign: bool = match node.owner_uid {
                Some(uid) => uid != host.user_id,
                None => false,
            };
            if node.system_process || !node.complete || foreign {
                assert(self.nodes@[i as int].warned(host));
                return true;
            }
            i = i + 1;
        }
        false
    }

    pub fn has_system_process(&self) -> (r: bool)
        ensures
            r == (exists|i: int|
                0 <= i < self.nodes.len() && (#[trigger] self.nodes@[i]).system_process),
    {
        let mut i: usize = 0;
        while i < self.nodes.len()
            invariant
                i <= self.nodes.len(),
                forall|j: int| 0 <= j < i ==> !(#[trigger] self.nodes@[j]).system_process,
            decreases self.nodes.len() - i,
        {
            if self.nodes[i].system_process {
                return true;
            }
            i = i + 1;
        }
        false
    }
}

/// Why a tree cannot be planned.
#[derive(Debug, Clone, Copy, PartialEq, Eq, Structural)]
pub enum TreePlanError {
    RootMissing,
    SnapshotLimitExceeded { limit: usize },
}

/// Why a group cannot be planned.
#[derive(Debug, Clone, Copy, PartialEq, Eq, Structural)]
pub enum GroupPlanError {
    RootMissing,
    GroupUnavailable,
}

/// Whether a PID is in the table.
pub open spec fn has_pid(snapshot: Seq<TreeProcessInfo>, pid: u32) -> bool {
    exists|i: int| 0 <= i < snapshot.len() && (#[trigger] snapshot[i]).pid == pid
}

/// The first process of the table with a PID.
pub open spec fn first_with_pid(snapshot: Seq<TreeProcessInfo>, pid: u32, at: int) -> bool {
    &&& 0 <= at < snapshot.len()
    &&& snapshot[at].pid == pid
    &&& forall|i: int| 0 <= i < at ==> (#[trigger] snapshot[i]).pid != pid
}

/// Find a PID in the table.
pub fn find_pid(snapshot: &Vec<TreeProcessInfo>, pid: u32) -> (r: Option<usize>)
    ensures
        match r {
            Some(at) => first_with_pid(snapshot@, pid, at as int),
            None => !has_pid(snapshot@, pid),
        },
{
    let mut i: usize = 0;
    while i < snapshot.len()
        invariant
            i <= snapshot.len(),
            forall|j: int| 0 <= j < i ==> (#[trigger] snapshot@[j]).pid != pid,
        decreases snapshot.len() - i,
    {
        if snapshot[i].pid == pid {
            return Some(i);
        }
        i = i + 1;
    }
    None
}

/// A PID is among the nodes.
pub open spec fn holds_pid(nodes: Seq<TreeNode>, pid: u32) -> bool {
    exists|i: int| 0 <= i < nodes.len() && (#[trigger] nodes[i]).pid == pid
}

fn nodes_hold_pid(nodes: &Vec<TreeNode>, pid: u32) -> (r: bool)
    ensures
        r == holds_pid(nodes@, pid),
{
    let mut i: usize = 0;
    while i < nodes.len()
        invariant
            i <= nodes.len(),
            forall|j: int| 0 <= j < i ==> (#[trigger] nodes@[j]).pid != pid,
        decreases nodes.len() - i,
    {
        if nodes[i].pid == pid {
            return true;
        }
        i = i + 1;
    }
    false
}

/// A node was reached: it is a process of the table whose parent is an earlier node,
/// one level up.
pub open spec fn reached(
    nodes: Seq<TreeNode>,
    k: int,
    snapshot: Seq<TreeProcessInfo>,
    names: Seq<String>,
    platform: Platform,
) -> bool {
    exists|j: int, p: int|
        #![trigger snapshot[j], nodes[p]]
        0 <= j < snapshot.len() && 0 <= p < k && snapshot[j].parent_pid == Some(nodes[p].pid)
            && nodes[k].describes(snapshot[j], (nodes[p].depth + 1) as nat, names, platform)
}

/// Every child of the first `parents` nodes is a node.
pub open spec fn children_held(
    nodes: Seq<TreeNode>,
    parents: int,
    snapshot: Seq<TreeProcessInfo>,
) -> bool {
    forall|j: int, p: int|
        #![trigger snapshot[j], nodes[p]]
        0 <= j < snapshot.len() && 0 <= p < parents && snapshot[j].parent_pid == Some(nodes[p].pid)
            ==> holds_pid(nodes, snapshot[j].pid)
}

/// The tree below a root: the root, then level after level every process whose parent
/// is in the tree, each once. Where there are more than the limit, only the first.
pub open spec fn is_tree(
    target: ProcessTreeTarget,
    root_pid: u32,
    snapshot: Seq<TreeProcessInfo>,
    names: Seq<String>,
    platform: Platform,
    limit: usize,
) -> bool {
    let nodes = target.nodes@;
    &&& nodes.len() >= 1
    &&& exists|at: int|
        #[trigger] first_with_pid(snapshot, root_pid, at) && nodes[0].describes(
            snapshot[at],
            0,
            names,
            platform,
        )
    &&& forall|k: int|
        1 <= k < nodes.len() ==> #[trigger] reached(nodes, k, snapshot, names, platform)
    &&& pids_distinct(nodes)
    &&& levels_ascend(nodes)
    &&& nodes.len() <= limit
    &&& match target.truncated_at {
        Some(at) => at == limit && nodes.len() == limit,
        None => children_held(nodes, nodes.len() as int, snapshot),
    }
}

pub open spec fn pids_distinct(nodes: Seq<TreeNode>) -> bool {
    forall|a: int, b: int|
        #![trigger nodes[a], nodes[b]]
        0 <= a < b < nodes.len() ==> nodes[a].pid != nodes[b].pid
}

pub open spec fn levels_ascend(nodes: Seq<TreeNode>) -> bool {
    forall|a: int, b: int|
        #![trigger nodes[a], nodes[b]]
        0 <= a < b < nodes.len() ==> nodes[a].depth <= nodes[b].depth
}

/// The plan of a tree: a table too large to look through and a missing root have none.
pub open spec fn tree_planned(
    root_pid: u32,
    snapshot: Seq<TreeProcessInfo>,
    names: Seq<String>,
    platform: Platform,
    limit: usize,
    r: Result<ProcessTreeTarget, TreePlanError>,
) -> bool {
    if snapshot.len() > TREE_SNAPSHOT_MAX {
        r == Err::<ProcessTreeTarget, TreePlanError>(
            TreePlanError::SnapshotLimitExceeded { limit: TREE_SNAPSHOT_MAX },
        )
    } else if !has_pid(snapshot, root_pid) {
        r == Err::<ProcessTreeTarget, TreePlanError>(TreePlanError::RootMissing)
    } else {
        r is Ok && is_tree(r->Ok_0, root_pid, snapshot, names, platform, limit)
    }
}

/// Plan the tree below a root.
pub fn plan_process_tree(
    root_pid: u32,
    snapshot: &Vec<TreeProcessInfo>,
    protected_names: &[String],
    platform: Platform,
    limit: usize,
) -> (r: Result<ProcessTreeTarget, TreePlanError>)
    requires
        limit > 0,
    ensures
        tree_planned(root_pid, snapshot@, protected_names@, platform, limit, r),
{
    if snapshot.len() > TREE_SNAPSHOT_MAX {
        return Err(TreePlanError::SnapshotLimitExceeded { limit: TREE_SNAPSHOT_MAX });
    }
    let at: usize = match find_pid(snapshot, root_pid) {
        Some(at) => at,
        None => {
            return Err(TreePlanError::RootMissing);
        },
    };
    let mut nodes: Vec<TreeNode> = Vec::new();
    let root = TreeNode::from_info(&snapshot[at], 0, protected_names, platform);
    let ghost first = root;
    nodes.push(root);
    let mut parent: usize = 0;
    while parent < nodes.len()
        invariant
            snapshot.len() <= TREE_SNAPSHOT_MAX,
            limit > 0,
            first_with_pid(snapshot@, root_pid, at as int),
            first.describes(snapshot@[at as int], 0, protected_names@, platform),
            parent <= nodes.len(),
            1 <= nodes.len() <= limit,
            nodes@[0] == first,
            forall|k: int|
                1 <= k < nodes.len() ==> #[trigger] reached(
                    nodes@,
                    k,
                    snapshot@,
                    protected_names@,
                    platform,
                ),
            pids_distinct(nodes@),
            levels_ascend(nodes@),
            forall|k: int| 0 <= k < nodes.len() ==> (#[trigger] nodes@[k]).depth <= k,
            parent < nodes.len() ==> forall|k: int|
                0 <= k < nodes.len() ==> (#[trigger] nodes@[k]).depth <= nodes@[parent as int].depth
                    + 1,
            children_held(nodes@, parent as int, snapshot@),
        decreases limit - parent,
    {
        let parent_pid: u32 = nodes[parent].pid;
        let depth: usize = nodes[parent].depth + 1;
        let mut j: usize = 0;
        while j < snapshot.len()
            invariant
                snapshot.len() <= TREE_SNAPSHOT_MAX,
                limit > 0,
                first_with_pid(snapshot@, root_pid, at as int),
                first.describes(snapshot@[at as int], 0, protected_names@, platform),
                j <= snapshot.len(),
                parent < nodes.len(),
                1 <= nodes.len() <= limit,
                nodes@[0] == first,
                nodes@[parent as int].pid == parent_pid,
                nodes@[parent as int].depth + 1 == depth,
                forall|k: int|
                    1 <= k < nodes.len() ==> #[trigger] reached(
                        nodes@,
                        k,
                        snapshot@,
                        protected_names@,
                        platform,
                    ),
                pids_distinct(nodes@),
                levels_ascend(nodes@),
                forall|k: int| 0 <= k < nodes.len() ==> (#[trigger] nodes@[k]).depth <= k,
                forall|k: int| 0 <= k < nodes.len() ==> (#[trigger] nodes@[k]).depth <= depth,
                children_held(nodes@, parent as int, snapshot@),
                forall|i: int|
                    0 <= i < j && (#[trigger] snapshot@[i]).parent_pid == Some(parent_pid)
                        ==> holds_pid(nodes@, snapshot@[i].pid),
            decreases snapshot.len() - j,
        {
            let child: bool = match snapshot[j].parent_pid {
                Some(pid) => pid == parent_pid,
                None => false,
            };
            if child && !nodes_hold_pid(&nodes, snapshot[j].pid) {
                if nodes.len() >= limit {
                    return Ok(ProcessTreeTarget { nodes, truncated_at: Some(limit) });
                }
                let node = TreeNode::from_info(&snapshot[j], depth, protected_names, platform);
                let ghost before = nodes@;
                nodes.push(node);
                proof {
                    lemma_push_keeps(before, node, snapshot@, protected_names@, platform);
                    assert(nodes@[parent as int] == before[parent as int]);
                    let last = before.len() as int;
                    assert(snapshot@[j as int].parent_pid == Some(nodes@[parent as int].pid));
                    assert(reached(nodes@, last, snapshot@, protected_names@, platform));
                    assert forall|i: int|
                        0 <= i < j + 1 && (#[trigger] snapshot@[i]).parent_pid == Some(
                            parent_pid,
                        ) implies holds_pid(nodes@, snapshot@[i].pid) by {
                        if i < j {
                            lemma_holds_after_push(before, node, snapshot@[i].pid);
                        } else {
                            assert(nodes@[last].pid == snapshot@[i].pid);
                        }
                    }
                    assert forall|i: int, p: int|
                        #![trigger snapshot@[i], nodes@[p]]
                        0 <= i < snapshot.len() && 0 <= p < parent && snapshot@[i].parent_pid
                            == Some(nodes@[p].pid) implies holds_pid(
                        nodes@,
                        snapshot@[i].pid,
                    ) by {
                        assert(nodes@[p] == before[p]);
                        lemma_holds_after_push(before, node, snapshot@[i].pid);
                    }
                }
            }
            j = j + 1;
        }
        proof {
            assert forall|i: int, p: int|
                #![trigger snapshot@[i], nodes@[p]]
                0 <= i < snapshot.len() && 0 <= p < parent + 1 && snapshot@[i].parent_pid == Some(
                    nodes@[p].pid,
                ) implies holds_pid(nodes@, snapshot@[i].pid) by {
                if p == parent {
                    assert(snapshot@[i].parent_pid == Some(parent_pid));
                }
            }
        }
        parent = parent + 1;
    }
    Ok(ProcessTreeTarget { nodes, truncated_at: None })
}

proof fn lemma_holds_after_push(nodes: Seq<TreeNode>, node: TreeNode, pid: u32)
    requires
        holds_pid(nodes, pid),
    ensures
        holds_pid(nodes.push(node), pid),
{
    let i = choose|i: int| 0 <= i < nodes.len() && (#[trigger] nodes[i]).pid == pid;
    assert(nodes.push(node)[i].pid == pid);
}

proof fn lemma_push_keeps(
    nodes: Seq<TreeNode>,
    node: TreeNode,
    snapshot: Seq<TreeProcessInfo>,
    names: Seq<String>,
    platform: Platform,
)
    requires
        forall|k: int|
            1 <= k < nodes.len() ==> #[trigger] reached(nodes, k, snapshot, names, platform),
    ensures
        forall|k: int|
            1 <= k < nodes.len() ==> #[trigger] reached(
                nodes.push(node),
                k,
                snapshot,
                names,
                platform,
            ),
{
    let longer = nodes.push(node);
    assert forall|k: int| 1 <= k < nodes.len() implies #[trigger] reached(
        longer,
        k,
        snapshot,
        names,
        platform,
    ) by {
        assert(reached(nodes, k, snapshot, names, platform));
        let (j, p) = choose|j: int, p: int|
            #![trigger snapshot[j], nodes[p]]
            0 <= j < snapshot.len() && 0 <= p < k && snapshot[j].parent_pid == Some(nodes[p].pid)
                && nodes[k].describes(snapshot[j], (nodes[p].depth + 1) as nat, names, platform);
        assert(longer[p] == nodes[p] && longer[k] == nodes[k]);
        assert(snapshot[j].parent_pid == Some(longer[p].pid));
    }
}

/// The members of a process group.
#[derive(Debug, PartialEq, Eq)]
pub struct ProcessGroupTarget {
    pub pgid: u32,
    pub members: ProcessTreeTarget,
}

impl ProcessGroupTarget {
    pub fn pgid(&self) -> (r: u32)
        ensures
            r == self.pgid,
    {
        self.pgid
    }

    pub fn members(&self) -> (r: &ProcessTreeTarget)
        ensures
            *r == self.members,
    {
        &self.members
    }
}

/// A node joined: it is another process of the table in the root's group.
pub open spec fn joined(
    nodes: Seq<TreeNode>,
    k: int,
    pgid: u32,
    snapshot: Seq<TreeProcessInfo>,
    names: Seq<String>,
    platform: Platform,
) -> bool {
    exists|j: int|
        0 <= j < snapshot.len() && (#[trigger] snapshot[j]).process_group == Some(pgid)
            && nodes[k].describes(snapshot[j], 1, names, platform)
}

/// Every process of the group among the first `count` of the table is a node.
pub open spec fn members_held(
    nodes: Seq<TreeNode>,
    pgid: u32,
    snapshot: Seq<TreeProcessInfo>,
    count: int,
) -> bool {
    forall|j: int|
        0 <= j < count && (#[trigger] snapshot[j]).process_group == Some(pgid) ==> holds_pid(
            nodes,
            snapshot[j].pid,
        )
}

/// The group of a root: the root first, then every other process of its group in the
/// order of the table, each once. Where there are more than the limit, only the first.
pub open spec fn is_group(
    target: ProcessGroupTarget,
    root_pid: u32,
    snapshot: Seq<TreeProcessInfo>,
    names: Seq<String>,
    platform: Platform,
    limit: usize,
) -> bool {
    let nodes = target.members.nodes@;
    &&& nodes.len() >= 1
    &&& exists|at: int|
        #[trigger] first_with_pid(snapshot, root_pid, at) && nodes[0].describes(
            snapshot[at],
            0,
            names,
            platform,
        ) && snapshot[at].process_group == Some(target.pgid)
    &&& forall|k: int|
        1 <= k < nodes.len() ==> #[trigger] joined(
            nodes,
            k,
            target.pgid,
            snapshot,
            names,
            platform,
        )
    &&& pids_distinct(nodes)
    &&& nodes.len() <= limit
    &&& match target.members.truncated_at {
        Some(at) => at == limit && nodes.len() == limit,
        None => members_held(nodes, target.pgid, snapshot, snapshot.len() as int),
    }
}

/// The root's group, where the root is in the table and in a group.
pub open spec fn root_group(snapshot: Seq<TreeProcessInfo>, root_pid: u32) -> Option<u32> {
    let at = choose|at: int| first_with_pid(snapshot, root_pid, at);
    snapshot[at].process_group
}

/// The plan of a group: a missing root and a root without a group have none.
pub open spec fn group_planned(
    root_pid: u32,
    snapshot: Seq<TreeProcessInfo>,
    names: Seq<String>,
    platform: Platform,
    limit: usize,
    r: Result<ProcessGroupTarget, GroupPlanError>,
) -> bool {
    if !has_pid(snapshot, root_pid) {
        r == Err::<ProcessGroupTarget, GroupPlanError>(GroupPlanError::RootMissing)
    } else if root_group(snapshot, root_pid) is None {
        r == Err::<ProcessGroupTarget, GroupPlanError>(GroupPlanError::GroupUnavailable)
    } else {
        r is Ok && Some(r->Ok_0.pgid) == root_group(snapshot, root_pid) && is_group(
            r->Ok_0,
            root_pid,
            snapshot,
            names,
            platform,
            limit,
        )
    }
}

/// Plan the group of a root.
pub fn plan_process_group(
    root_pid: u32,
    snapshot: &Vec<TreeProcessInfo>,
    protected_names: &[String],
    platform: Platform,
    limit: usize,
) -> (r: Result<ProcessGroupTarget, GroupPlanError>)
    requires
        limit > 0,
    ensures
        group_planned(root_pid, snapshot@, protected_names@, platform, limit, r),
{
    let at: usize = match find_pid(snapshot, root_pid) {
        Some(at) => at,
        None => {
            return Err(GroupPlanError::RootMissing);
        },
    };
    proof {
        let chosen = choose|i: int| first_with_pid(snapshot@, root_pid, i);
        assert(first_with_pid(snapshot@, root_pid, chosen));
        if chosen < at {
            assert(snapshot@[chosen].pid != root_pid);
        } else if at < chosen {
            assert(snapshot@[at as int].pid != root_pid);
        }
        assert(chosen == at);
    }
    let pgid: u32 = match snapshot[at].process_group {
        Some(pgid) => pgid,
        None => {
            return Err(GroupPlanError::GroupUnavailable);
        },
    };
    let mut nodes: Vec<TreeNode> = Vec::new();
    let root = TreeNode::from_info(&snapshot[at], 0, protected_names, platform);
    let ghost first = root;
    nodes.push(root);
    let mut j: usize = 0;
    while j < snapshot.len()
        invariant
            limit > 0,
            first_with_pid(snapshot@, root_pid, at as int),
            root_group(snapshot@, root_pid) == Some(pgid),
            has_pid(snapshot@, root_pid),
            snapshot@[at as int].process_group == Some(pgid),
            first.describes(snapshot@[at as int], 0, protected_names@, platform),
            j <= snapshot.len(),
            1 <= nodes.len() <= limit,
            nodes@[0] == first,
            forall|k: int|
                1 <= k < nodes.len() ==> #[trigger] joined(
                    nodes@,
                    k,
                    pgid,
                    snapshot@,
                    protected_names@,
                    platform,
                ),
            pids_distinct(nodes@),
            members_held(nodes@, pgid, snapshot@, j as int),
        decreases snapshot.len() - j,
    {
        let member: bool = match snapshot[j].process_group {
            Some(group) => group == pgid,
            None => false,
        };
        if member && !nodes_hold_pid(&nodes, snapshot[j].pid) {
            if nodes.len() >= limit {
                return Ok(
                    ProcessGroupTarget {
                        pgid,
                        members: ProcessTreeTarget { nodes, truncated_at: Some(limit) },
                    },
                );
            }
            let node = TreeNode::from_info(&snapshot[j], 1, protected_names, platform);
            let ghost before = nodes@;
            nodes.push(node);
            proof {
                let last = before.len() as int;
                assert(joined(nodes@, last, pgid, snapshot@, protected_names@, platform)) by {
                    assert(snapshot@[j as int].process_group == Some(pgid));
                }
                assert forall|k: int| 1 <= k < nodes.len() implies #[trigger] joined(
                    nodes@,
                    k,
                    pgid,
                    snapshot@,
                    protected_names@,
                    platform,
                ) by {
                    if k < last {
                        assert(joined(before, k, pgid, snapshot@, protected_names@, platform));
                        let i = choose|i: int|
                            0 <= i < snapshot.len() && (#[trigger] snapshot@[i]).process_group
                                == Some(pgid) && before[k].describes(
                                snapshot@[i],
                                1,
                                protected_names@,
                                platform,
                            );
                        assert(snapshot@[i].process_group == Some(pgid));
                        assert(nodes@[k] == before[k]);
                    }
                }
                assert forall|i: int|
                    0 <= i < j + 1 && (#[trigger] snapshot@[i]).process_group == Some(
                        pgid,
                    ) implies holds_pid(nodes@, snapshot@[i].pid) by {
                    if i < j {
                        lemma_holds_after_push(before, node, snapshot@[i].pid);
                    } else {
                        assert(nodes@[last].pid == snapshot@[i].pid);
                    }
                }
            }
        }
        j = j + 1;
    }
    Ok(ProcessGroupTarget { pgid, members: ProcessTreeTarget { nodes, truncated_at: None } })
}

/// How a scoped kill ended.
#[derive(Debug, PartialEq, Eq)]
pub enum TreeKillOutcome {
    Completed { signalled: usize },
    Truncated { limit: usize },
    UnsafePid { pid: u32, reason: UnsafePidReason },
    ProtectedDescendant { pid: u32, name: Option<String> },
    ProtectedRoot { pid: u32, name: Option<String> },
    OwnershipUnavailable { pid: u32 },
    RootAlreadyExited,
    TargetChanged { pid: u32 },
    PermissionDenied { pid: u32 },
    PartialMetadata { pid: u32 },
    FreshConfirmationRequired,
    SnapshotFailed(String),
    /// Stopped processes could not be resumed after the outcome `cause`.
    ThawFailed { pids: Vec<u32>, cause: Box<TreeKillOutcome> },
}

/// The first node that is never signalled.
pub open spec fn unsafe_node(nodes: Seq<TreeNode>, host: HostFacts, at: int) -> bool {
    &&& 0 <= at < nodes.len()
    &&& unsafe_reason(nodes[at].pid, host) is Some
    &&& forall|i: int| 0 <= i < at ==> unsafe_reason((#[trigger] nodes[i]).pid, host) is None
}

/// The first protected node below the root.
pub open spec fn protected_node(nodes: Seq<TreeNode>, at: int) -> bool {
    &&& 1 <= at < nodes.len()
    &&& nodes[at].protected
    &&& forall|i: int| 1 <= i < at ==> !(#[trigger] nodes[i]).protected
}

pub open spec fn has_unsafe(nodes: Seq<TreeNode>, host: HostFacts) -> bool {
    exists|i: int| 0 <= i < nodes.len() && unsafe_reason((#[trigger] nodes[i]).pid, host) is Some
}

pub open spec fn has_protected_descendant(nodes: Seq<TreeNode>) -> bool {
    exists|i: int| 1 <= i < nodes.len() && (#[trigger] nodes[i]).protected
}

/// A set of processes that may be signalled as far as its members go: it is whole, has
/// no PID that is never signalled, and nothing protected below the root.
pub open spec fn preflight_clear(target: ProcessTreeTarget, host: HostFacts) -> bool {
    &&& target.truncated_at is None
    &&& !has_unsafe(target.nodes@, host)
    &&& !has_protected_descendant(target.nodes@)
}

/// Why a set of processes is refused: it is cut off, else the first PID that is never
/// signalled, else the first protected process below the root.
pub open spec fn preflight_refused(
    target: ProcessTreeTarget,
    host: HostFacts,
    outcome: TreeKillOutcome,
) -> bool {
    if target.truncated_at is Some {
        outcome == (TreeKillOutcome::Truncated { limit: target.truncated_at->0 })
    } else if has_unsafe(target.nodes@, host) {
        exists|at: int| #[trigger]
            unsafe_node(target.nodes@, host, at) && outcome == (TreeKillOutcome::UnsafePid {
                pid: target.nodes@[at].pid,
                reason: unsafe_reason(target.nodes@[at].pid, host)->0,
            })
    } else {
        exists|at: int| #[trigger]
            protected_node(target.nodes@, at) && (outcome
                matches TreeKillOutcome::ProtectedDescendant { pid, name } && pid
                == target.nodes@[at].pid && opt_text(name) == opt_text(
                target.nodes@[at].process_name,
            ))
    }
}

/// Refuse a set of processes that must not be signalled.
pub fn preflight_outcome(target: &ProcessTreeTarget, host: HostFacts) -> (r: Result<
    (),
    TreeKillOutcome,
>)
    ensures
        r is Ok <==> preflight_clear(*target, host),
        r is Err ==> preflight_refused(*target, host, r->Err_0),
{
    if let Some(limit) = target.truncated_at {
        return Err(TreeKillOutcome::Truncated { limit });
    }
    let mut i: usize = 0;
    while i < target.nodes.len()
        invariant
            i <= target.nodes.len(),
            target.truncated_at is None,
            forall|j: int|
                0 <= j < i ==> unsafe_reason((#[trigger] target.nodes@[j]).pid, host) is None,
        decreases target.nodes.len() - i,
    {
        if let Some(reason) = unsafe_pid_reason(target.nodes[i].pid, host) {
            assert(unsafe_node(target.nodes@, host, i as int));
            return Err(TreeKillOutcome::UnsafePid { pid: target.nodes[i].pid, reason });
        }
        i = i + 1;
    }
    let mut i: usize = 1;
    while i < target.nodes.len()
        invariant
            1 <= i,
            i <= target.nodes.len() || i == 1,
            target.truncated_at is None,
            !has_unsafe(target.nodes@, host),
            forall|j: int| 1 <= j < i ==> j < target.nodes.len() ==> !(
            #[trigger] target.nodes@[j]).protected,
        decreases target.nodes.len() - i,
    {
        if target.nodes[i].protected {
            assert(protected_node(target.nodes@, i as int));
            return Err(
                TreeKillOutcome::ProtectedDescendant {
                    pid: target.nodes[i].pid,
                    name: match &target.nodes[i].process_name {
                        Some(name) => Some(name.clone()),
                        None => None,
                    },
                },
            );
        }
        i = i + 1;
    }
    Ok(())
}

/// The outcome names a protected root.
pub open spec fn names_root(node: TreeNode, outcome: TreeKillOutcome) -> bool {
    outcome matches TreeKillOutcome::ProtectedRoot { pid, name } && pid == node.pid && opt_text(
        name,
    ) == opt_text(node.process_name)
}

/// Refuse a root that was found protected but not confirmed as protected.
pub fn root_protection_outcome(target: &ProcessTreeTarget, confirmed: bool) -> (r: Result<
    (),
    TreeKillOutcome,
>)
    ensures
        r is Ok <==> confirmed || !target.root_protected(),
        r is Err ==> names_root(target.nodes@[0], r->Err_0),
{
    if !confirmed && target.nodes.len() > 0 && target.nodes[0].protected {
        return Err(
            TreeKillOutcome::ProtectedRoot {
                pid: target.nodes[0].pid,
                name: match &target.nodes[0].process_name {
                    Some(name) => Some(name.clone()),
                    None => None,
                },
            },
        );
    }
    Ok(())
}

/// The outcome of a failed plan.
pub open spec fn plan_refused(error: TreePlanError, outcome: TreeKillOutcome) -> bool {
    match error {
        TreePlanError::RootMissing => outcome == TreeKillOutcome::RootAlreadyExited,
        TreePlanError::SnapshotLimitExceeded { limit } => outcome
            matches TreeKillOutcome::SnapshotFailed(text) && text@
            == "process snapshot exceeds the bounded "@ + decimal(limit as nat) + "-PID index"@,
    }
}

/// What a failed plan means for a kill.
pub fn plan_error_outcome(error: TreePlanError) -> (r: TreeKillOutcome)
    ensures
        plan_refused(error, r),
{
    match error {
        TreePlanError::RootMissing => TreeKillOutcome::RootAlreadyExited,
        TreePlanError::SnapshotLimitExceeded { limit } => {
            let mut text = "process snapshot exceeds the bounded ".to_owned();
            text.append(decimal_text(limit as u128).as_str());
            text.append("-PID index");
            TreeKillOutcome::SnapshotFailed(text)
        },
    }
}

/// What the user did to authorize a scoped kill.
#[derive(Debug, Clone, Copy, PartialEq, Eq, Structural)]
pub enum ScopeAuthorization {
    SkippedAllClear,
    TypedWordConfirmed,
    ProtectedRootAndWordConfirmed,
}

impl ScopeAuthorization {
    pub open spec fn skipped(self) -> bool {
        self == ScopeAuthorization::SkippedAllClear
    }

    pub fn prompt_skipped(self) -> (r: bool)
        ensures
            r == self.skipped(),
    {
        self == ScopeAuthorization::SkippedAllClear
    }

    pub open spec fn root_confirmed(self) -> bool {
        self == ScopeAuthorization::ProtectedRootAndWordConfirmed
    }

    pub fn protected_root_confirmed(self) -> (r: bool)
        ensures
            r == self.root_confirmed(),
    {
        self == ScopeAuthorization::ProtectedRootAndWordConfirmed
    }
}

pub open spec fn tree_word(mode: KillMode) -> Seq<char> {
    match mode {
        KillMode::Terminate => "tree"@,
        KillMode::Force => "force"@,
    }
}

/// The word that confirms a tree kill.
pub fn tree_scope_word(mode: KillMode) -> (r: &'static str)
    ensures
        r@ == tree_word(mode),
{
    match mode {
        KillMode::Terminate => "tree",
        KillMode::Force => "force",
    }
}

pub open spec fn group_word(mode: KillMode) -> Seq<char> {
    match mode {
        KillMode::Terminate => "group"@,
        KillMode::Force => "force"@,
    }
}

/// The word that confirms a group kill.
pub fn group_scope_word(mode: KillMode) -> (r: &'static str)
    ensures
        r@ == group_word(mode),
{
    match mode {
        KillMode::Terminate => "group",
        KillMode::Force => "force",
    }
}

} // verus!
