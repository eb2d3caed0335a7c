//! What is shown before a kill is confirmed: the target, its scope, the equivalent
//! command and every warning.

use vstd::prelude::*;
use vstd::string::*;
use crate::model::Platform;
use crate::process::{
    identity_text, joined_ports, HostFacts, KillMode, KillTarget, KillWarning,
};
use crate::sink::{line_texts, said, write_lines, Sink};
use crate::text::{decimal, decimal_text, opt_text, sanitize, sanitized};
use crate::tree::{ProcessGroupTarget, ProcessTreeTarget, TreeNode};

verus! {

/// What a warning is about.
#[derive(Debug, Clone, Copy, PartialEq, Eq, Structural)]
pub enum WarningScope {
    Process,
    Tree,
    Group,
}

impl WarningScope {
    pub open spec fn subject_text(self) -> Seq<char> {
        match self {
            WarningScope::Process => "the process"@,
            WarningScope::Tree => "the tree root"@,
            WarningScope::Group => "the group target"@,
        }
    }

    fn subject(self) -> (r: &'static str)
        ensures
            r@ == self.subject_text(),
    {
        match self {
            WarningScope::Process => "the process",
            WarningScope::Tree => "the tree root",
            WarningScope::Group => "the group target",
        }
    }
}

/// The sentence of a warning.
pub open spec fn warning_text(warning: KillWarning, scope: WarningScope) -> Seq<char> {
    match warning {
        KillWarning::PartialMetadata => "some facts about "@ + scope.subject_text()
            + " could not be read"@,
        KillWarning::SystemProcess => scope.subject_text() + " looks like a system service"@,
        KillWarning::OtherOwner { owner_uid, user_id } => scope.subject_text()
            + " is owned by uid "@ + decimal(owner_uid as nat) + ", current effective uid is "@
            + decimal(user_id as nat),
        KillWarning::HasChildren { count, truncated } => scope.subject_text() + " has "@ + (
        if truncated {
            "at least "@
        } else {
            Seq::empty()
        }) + decimal(count as nat) + " child process(es)"@,
    }
}

pub fn warning_message(warning: KillWarning, scope: WarningScope) -> (r: String)
    ensures
        r@ == warning_text(warning, scope),
{
    match warning {
        KillWarning::PartialMetadata => "some facts about ".to_owned().concat(
            scope.subject(),
        ).concat(" could not be read"),
        KillWarning::SystemProcess => scope.subject().to_owned().concat(
            " looks like a system service",
        ),
        KillWarning::OtherOwner { owner_uid, user_id } => {
            let mut text = scope.subject().to_owned();
            text.append(" is owned by uid ");
            text.append(decimal_text(owner_uid as u128).as_str());
            text.append(", current effective uid is ");
            text.append(decimal_text(user_id as u128).as_str());
            text
        },
        KillWarning::HasChildren { count, truncated } => {
            let mut text = scope.subject().to_owned();
            text.append(" has ");
            if truncated {
                text.append("at least ");
            }
            text.append(decimal_text(count as u128).as_str());
            text.append(" child process(es)");
            assert(text@ =~= warning_text(warning, scope));
            text
        },
    }
}

/// The command line that ends a process the way a kill of this mode does.
pub open spec fn kill_command_text(platform: Platform, pid: u32, mode: KillMode) -> Seq<char> {
    match platform {
        Platform::Windows => "taskkill /PID "@ + decimal(pid as nat) + match mode {
            KillMode::Terminate => Seq::empty(),
            KillMode::Force => " /F"@,
        },
        _ => (match mode {
            KillMode::Terminate => "kill -TERM "@,
            KillMode::Force => "kill -KILL "@,
        }) + decimal(pid as nat),
    }
}

pub fn render_kill_command(platform: Platform, pid: u32, mode: KillMode) -> (r: String)
    ensures
        r@ == kill_command_text(platform, pid, mode),
{
    match platform {
        Platform::Windows => {
            let mut text = "taskkill /PID ".to_owned();
            text.append(decimal_text(pid as u128).as_str());
            match mode {
                KillMode::Terminate => {},
                KillMode::Force => {
                    text.append(" /F");
                },
            }
            assert(text@ =~= kill_command_text(platform, pid, mode));
            text
        },
        _ => {
            let start: &str = match mode {
                KillMode::Terminate => "kill -TERM ",
                KillMode::Force => "kill -KILL ",
            };
            let mut text = start.to_owned();
            text.append(decimal_text(pid as u128).as_str());
            text
        },
    }
}

/// The warning about the mode itself: a forced end cannot be handled by the process.
pub open spec fn force_warning_text(mode: KillMode, platform: Platform) -> Option<Seq<char>> {
    match mode {
        KillMode::Terminate => None,
        KillMode::Force => Some(
            mode.delivery_text(platform) + " cannot be handled; unsaved work may be lost."@,
        ),
    }
}

pub fn force_warning(mode: KillMode, platform: Platform) -> (r: Option<String>)
    ensures
        opt_text(r) == force_warning_text(mode, platform),
{
    match mode {
        KillMode::Terminate => None,
        KillMode::Force => Some(
            mode.delivery_label(platform).to_owned().concat(
                " cannot be handled; unsaved work may be lost.",
            ),
        ),
    }
}

/// The lines about warnings on a target, in their order.
pub open spec fn warning_lines(warnings: Seq<KillWarning>, scope: WarningScope) -> Seq<Seq<char>> {
    warnings.map_values(
        |warning: KillWarning| "Warning: "@ + sanitized(warning_text(warning, scope)) + "."@,
    )
}

fn push_warnings(lines: &mut Vec<String>, warnings: &Vec<KillWarning>, scope: WarningScope)
    ensures
        line_texts(final(lines)@) == line_texts(old(lines)@) + warning_lines(warnings@, scope),
{
    let ghost before = line_texts(lines@);
    let ghost all = warning_lines(warnings@, scope);
    let mut i: usize = 0;
    assert(before + all.take(0) =~= before);
    while i < warnings.len()
        invariant
            i <= warnings.len(),
            all == warning_lines(warnings@, scope),
            line_texts(lines@) == before + all.take(i as int),
        decreases warnings.len() - i,
    {
        let ghost earlier = lines@;
        let line = "Warning: ".to_owned().concat(
            sanitize(warning_message(warnings[i], scope).as_str()).as_str(),
        ).concat(".");
        assert(line@ =~= all[i as int]);
        lines.push(line);
        assert(line_texts(lines@) =~= line_texts(earlier).push(line@));
        assert(before + all.take(i + 1) =~= (before + all.take(i as int)).push(line@));
        i = i + 1;
    }
    assert(all.take(all.len() as int) =~= all);
}

fn push_text(lines: &mut Vec<String>, line: String)
    ensures
        line_texts(final(lines)@) == line_texts(old(lines)@) + seq![line@],
{
    let ghost earlier = lines@;
    lines.push(line);
    assert(line_texts(lines@) =~= line_texts(earlier) + seq![line@]);
}

/// Add the warning about the mode, if it has one.
fn push_force_warning(lines: &mut Vec<String>, mode: KillMode, platform: Platform)
    ensures
        line_texts(final(lines)@) == line_texts(old(lines)@) + force_lines(mode, platform),
{
    if let Some(warning) = force_warning(mode, platform) {
        push_text(
            lines,
            "Warning: ".to_owned().concat(sanitize(warning.as_str()).as_str()),
        );
    } else {
        assert(line_texts(lines@) + force_lines(mode, platform) =~= line_texts(lines@));
    }
}

/// The line about the mode itself, if there is one.
pub open spec fn force_lines(mode: KillMode, platform: Platform) -> Seq<Seq<char>> {
    match force_warning_text(mode, platform) {
        Some(text) => seq!["Warning: "@ + sanitized(text)],
        None => Seq::empty(),
    }
}

/// The line about the ports of a target.
pub open spec fn ports_line(target: KillTarget) -> Seq<char> {
    "Ports: "@ + sanitized(
        if target.ports.len() == 0 {
            "-"@
        } else {
            joined_ports(target.ports@)
        },
    )
}

fn ports_line_of(target: &KillTarget) -> (r: String)
    ensures
        r@ == ports_line(*target),
{
    "Ports: ".to_owned().concat(sanitize(target.ports_text().as_str()).as_str())
}

/// What is shown of a single target.
pub open spec fn kill_banner_lines(target: KillTarget, mode: KillMode, host: HostFacts) -> Seq<
    Seq<char>,
> {
    seq![
        mode.action_text() + " "@ + identity_text(target),
        "Scope: process"@,
        ports_line(target),
        "Command: "@ + sanitized(kill_command_text(target.platform, target.pid, mode)),
    ] + force_lines(mode, target.platform) + warning_lines(
        target.warned(host),
        WarningScope::Process,
    )
}

/// Show a target before it is confirmed: who it is, its ports, the equivalent command
/// and every warning. The warnings are shown whether or not anything is asked.
pub fn print_kill_banner<D: Sink>(
    diagnostics: &mut D,
    target: &KillTarget,
    mode: KillMode,
    host: HostFacts,
)
    ensures
        said(*old(diagnostics), *final(diagnostics), kill_banner_lines(*target, mode, host)),
{
    let mut lines: Vec<String> = Vec::new();
    assert(line_texts(lines@) =~= Seq::empty());
    push_text(
        &mut lines,
        mode.action_label().to_owned().concat(" ").concat(target.identity().as_str()),
    );
    push_text(&mut lines, "Scope: process".to_owned());
    push_text(&mut lines, ports_line_of(target));
    push_text(
        &mut lines,
        "Command: ".to_owned().concat(
            sanitize(render_kill_command(target.platform, target.pid, mode).as_str()).as_str(),
        ),
    );
    push_force_warning(&mut lines, mode, target.platform);
    push_warnings(&mut lines, &target.warnings(host), WarningScope::Process);
    assert(line_texts(lines@) =~= kill_banner_lines(*target, mode, host));
    write_lines(diagnostics, &lines);
}

/// The longest preview of a tree that is shown.
pub const TREE_PREVIEW_MAX: usize = 12;

/// How many processes belong to another user, counted up to a position.
pub open spec fn foreign_count(nodes: Seq<TreeNode>, host: HostFacts) -> nat
    decreases nodes.len(),
{
    if nodes.len() == 0 {
        0
    } else {
        foreign_count(nodes.drop_last(), host) + if is_foreign(nodes.last(), host) {
            1nat
        } else {
            0
        }
    }
}

/// A process of another user.
pub open spec fn is_foreign(node: TreeNode, host: HostFacts) -> bool {
    node.owner_uid is Some && node.owner_uid->0 != host.user_id
}

/// The first process of another user.
pub open spec fn first_foreign(nodes: Seq<TreeNode>, host: HostFacts) -> Option<TreeNode>
    decreases nodes.len(),
{
    if nodes.len() == 0 {
        None
    } else {
        match first_foreign(nodes.drop_last(), host) {
            Some(node) => Some(node),
            None => if is_foreign(nodes.last(), host) {
                Some(nodes.last())
            } else {
                None
            },
        }
    }
}

/// The sentence about processes of other users in a scope; Windows has no such
/// owners.
pub open spec fn owner_warning_text(
    nodes: Seq<TreeNode>,
    noun: Seq<char>,
    platform: Platform,
    host: HostFacts,
) -> Option<Seq<char>> {
    match first_foreign(nodes, host) {
        Some(node) => if platform == Platform::Windows {
            None
        } else {
            Some(
                noun + " includes "@ + decimal(foreign_count(nodes, host))
                    + " process(es) owned by another uid; first is PID "@ + decimal(
                    node.pid as nat,
                ) + " owned by uid "@ + decimal(node.owner_uid->0 as nat)
                    + ", current effective uid is "@ + decimal(host.user_id as nat),
            )
        },
        None => None,
    }
}

pub fn scoped_owner_warning(
    preview: &ProcessTreeTarget,
    scope_noun: &str,
    platform: Platform,
    host: HostFacts,
) -> (r: Option<String>)
    ensures
        opt_text(r) == owner_warning_text(preview.nodes@, scope_noun@, platform, host),
{
    let mut count: usize = 0;
    let mut first: Option<(u32, u32)> = None;
    let mut i: usize = 0;
    assert(preview.nodes@.take(0) =~= Seq::empty());
    while i < preview.nodes.len()
        invariant
            i <= preview.nodes.len(),
            count <= i,
            count == foreign_count(preview.nodes@.take(i as int), host),
            match first_foreign(preview.nodes@.take(i as int), host) {
                Some(node) => first == Some((node.pid, node.owner_uid->0)),
                None => first is None,
            },
        decreases preview.nodes.len() - i,
    {
        let ghost part = preview.nodes@.take(i + 1);
        assert(part.drop_last() =~= preview.nodes@.take(i as int));
        assert(part.last() == preview.nodes@[i as int]);
        let node = &preview.nodes[i];
        if let Some(owner_uid) = node.owner_uid {
            if owner_uid != host.user_id {
                count = count + 1;
                if first.is_none() {
                    first = Some((node.pid, owner_uid));
                }
            }
        }
        i = i + 1;
    }
    assert(preview.nodes@.take(preview.nodes@.len() as int) =~= preview.nodes@);
    if platform == Platform::Windows {
        return None;
    }
    let (pid, owner_uid): (u32, u32) = match first {
        Some(found) => found,
        None => {
            return None;
        },
    };
    let mut text = scope_noun.to_owned();
    text.append(" includes ");
    text.append(decimal_text(count as u128).as_str());
    text.append(" process(es) owned by another uid; first is PID ");
    text.append(decimal_text(pid as u128).as_str());
    text.append(" owned by uid ");
    text.append(decimal_text(owner_uid as u128).as_str());
    text.append(", current effective uid is ");
    text.append(decimal_text(host.user_id as u128).as_str());
    Some(text)
}

/// The name of a process in a preview.
pub open spec fn node_name(node: TreeNode) -> Seq<char> {
    match node.process_name {
        Some(name) => name@,
        None => "<unknown>"@,
    }
}

/// The line of a process in a tree, indented by how far it is from the root.
pub open spec fn tree_node_line(node: TreeNode) -> Seq<char> {
    Seq::new((2 * (node.depth + 1)) as nat, |i: int| ' ') + "PID "@ + decimal(node.pid as nat)
        + " ("@ + sanitized(node_name(node)) + ")"@
}

/// The line of a process in a group; the confirmed target is marked.
pub open spec fn group_node_line(node: TreeNode) -> Seq<char> {
    "  PID "@ + decimal(node.pid as nat) + " ("@ + sanitized(node_name(node)) + ")"@ + (
    if node.depth == 0 {
        " [confirmed target]"@
    } else {
        Seq::empty()
    })
}

fn node_label<'a>(node: &'a TreeNode) -> (r: &'a str)
    ensures
        r@ == node_name(*node),
{
    match &node.process_name {
        Some(name) => name.as_str(),
        None => "<unknown>",
    }
}

fn tree_line(node: &TreeNode) -> (r: String)
    ensures
        r@ == tree_node_line(*node),
{
    let mut line = "  ".to_owned();
    proof {
        reveal_strlit("  ");
    }
    let mut level: usize = 0;
    assert(line@ =~= Seq::new(2, |i: int| ' '));
    while level < node.depth
        invariant
            level <= node.depth,
            "  "@.len() == 2,
            "  "@[0] == ' ',
            "  "@[1] == ' ',
            line@ == Seq::new((2 * (level + 1)) as nat, |i: int| ' '),
        decreases node.depth - level,
    {
        line.append("  ");
        assert(line@ =~= Seq::new((2 * (level + 2)) as nat, |i: int| ' '));
        level = level + 1;
    }
    line.append("PID ");
    line.append(decimal_text(node.pid as u128).as_str());
    line.append(" (");
    line.append(sanitize(node_label(node)).as_str());
    line.append(")");
    line
}

fn group_line(node: &TreeNode) -> (r: String)
    ensures
        r@ == group_node_line(*node),
{
    let mut line = "  PID ".to_owned();
    line.append(decimal_text(node.pid as u128).as_str());
    line.append(" (");
    line.append(sanitize(node_label(node)).as_str());
    line.append(")");
    if node.depth == 0 {
        line.append(" [confirmed target]");
    }
    assert(line@ =~= group_node_line(*node));
    line
}

/// The command that kills a scope from its root.
pub open spec fn scope_command_text(pid: u32, flag: Seq<char>, mode: KillMode) -> Seq<char> {
    "kick kill --pid "@ + decimal(pid as nat) + flag + match mode {
        KillMode::Terminate => Seq::empty(),
        KillMode::Force => " --force"@,
    }
}

fn scope_command_line(pid: u32, flag: &str, mode: KillMode) -> (r: String)
    ensures
        r@ == "Command: "@ + sanitized(scope_command_text(pid, flag@, mode)),
{
    let mut command = "kick kill --pid ".to_owned();
    command.append(decimal_text(pid as u128).as_str());
    command.append(flag);
    match mode {
        KillMode::Terminate => {},
        KillMode::Force => {
            command.append(" --force");
        },
    }
    assert(command@ =~= scope_command_text(pid, flag@, mode));
    "Command: ".to_owned().concat(sanitize(command.as_str()).as_str())
}

/// Some process of a scope is a system process.
pub open spec fn has_system_node(nodes: Seq<TreeNode>) -> bool {
    exists|i: int| 0 <= i < nodes.len() && (#[trigger] nodes[i]).system_process
}

/// The lines about the processes of a scope as a whole: system processes, then
/// processes of other users.
pub open spec fn member_warning_lines(
    nodes: Seq<TreeNode>,
    noun: Seq<char>,
    platform: Platform,
    host: HostFacts,
) -> Seq<Seq<char>> {
    (if has_system_node(nodes) {
        seq![
            "Warning: "@ + noun
                + " includes system/service processes; verify this is safe to terminate."@,
        ]
    } else {
        Seq::empty()
    }) + match owner_warning_text(nodes, noun, platform, host) {
        Some(text) => seq!["Warning: "@ + text + "."@],
        None => Seq::empty(),
    }
}

fn push_member_warnings(
    lines: &mut Vec<String>,
    members: &ProcessTreeTarget,
    noun: &str,
    platform: Platform,
    host: HostFacts,
)
    ensures
        line_texts(final(lines)@) == line_texts(old(lines)@) + member_warning_lines(
            members.nodes@,
            noun@,
            platform,
            host,
        ),
{
    let ghost before = line_texts(lines@);
    if members.has_system_process() {
        push_text(
            lines,
            "Warning: ".to_owned().concat(noun).concat(
                " includes system/service processes; verify this is safe to terminate.",
            ),
        );
    }
    if let Some(warning) = scoped_owner_warning(members, noun, platform, host) {
        push_text(lines, "Warning: ".to_owned().concat(warning.as_str()).concat("."));
    }
    assert(line_texts(lines@) =~= before + member_warning_lines(
        members.nodes@,
        noun@,
        platform,
        host,
    ));
}

/// The lines of the first processes of a tree, and how many more there are.
pub open spec fn tree_preview_lines(nodes: Seq<TreeNode>) -> Seq<Seq<char>> {
    if nodes.len() > TREE_PREVIEW_MAX {
        nodes.take(TREE_PREVIEW_MAX as int).map_values(|node: TreeNode| tree_node_line(node)).push(
            "  ... and "@ + decimal((nodes.len() - TREE_PREVIEW_MAX) as nat) + " more"@,
        )
    } else {
        nodes.map_values(|node: TreeNode| tree_node_line(node))
    }
}

fn push_tree_preview(lines: &mut Vec<String>, members: &ProcessTreeTarget)
    ensures
        line_texts(final(lines)@) == line_texts(old(lines)@) + tree_preview_lines(members.nodes@),
{
    let ghost before = line_texts(lines@);
    let ghost all = members.nodes@.map_values(|node: TreeNode| tree_node_line(node));
    let shown: usize = if members.nodes.len() > TREE_PREVIEW_MAX {
        TREE_PREVIEW_MAX
    } else {
        members.nodes.len()
    };
    let mut i: usize = 0;
    assert(before + all.take(0) =~= before);
    while i < shown
        invariant
            i <= shown <= members.nodes.len(),
            all == members.nodes@.map_values(|node: TreeNode| tree_node_line(node)),
            line_texts(lines@) == before + all.take(i as int),
        decreases shown - i,
    {
        let line = tree_line(&members.nodes[i]);
        assert(before + all.take(i + 1) =~= before + all.take(i as int) + seq![line@]);
        push_text(lines, line);
        i = i + 1;
    }
    if members.nodes.len() > TREE_PREVIEW_MAX {
        let mut line = "  ... and ".to_owned();
        line.append(decimal_text((members.nodes.len() - TREE_PREVIEW_MAX) as u128).as_str());
        line.append(" more");
        push_text(lines, line);
    }
    assert(line_texts(lines@) =~= before + tree_preview_lines(members.nodes@));
}

/// The lines that only a tree on Windows has.
pub open spec fn windows_tree_lines(platform: Platform) -> Seq<Seq<char>> {
    if platform == Platform::Windows {
        seq![
            "Warning: Windows tree kill uses Job Object containment and hard termination; close apps normally first when possible."@,
            "Warning: Windows may also terminate newly spawned job-contained children that were not visible in this preview."@,
        ]
    } else {
        Seq::empty()
    }
}

/// What is shown of a process tree.
pub open spec fn tree_banner_lines(
    root: KillTarget,
    nodes: Seq<TreeNode>,
    mode: KillMode,
    host: HostFacts,
) -> Seq<Seq<char>> {
    seq![
        mode.action_text() + " process tree from "@ + identity_text(root),
        "Scope: tree ("@ + decimal(nodes.len()) + " processes)"@,
        ports_line(root),
        "Command: "@ + sanitized(scope_command_text(root.pid, " --tree"@, mode)),
    ] + tree_preview_lines(nodes) + force_lines(mode, root.platform) + windows_tree_lines(
        root.platform,
    ) + member_warning_lines(nodes, "tree"@, root.platform, host) + warning_lines(
        root.warned(host),
        WarningScope::Tree,
    )
}

/// Show a process tree before it is confirmed.
pub fn print_tree_kill_banner<D: Sink>(
    diagnostics: &mut D,
    root: &KillTarget,
    preview: &ProcessTreeTarget,
    mode: KillMode,
    host: HostFacts,
)
    ensures
        said(
            *old(diagnostics),
            *final(diagnostics),
            tree_banner_lines(*root, preview.nodes@, mode, host),
        ),
{
    let mut lines: Vec<String> = Vec::new();
    assert(line_texts(lines@) =~= Seq::empty());
    push_text(
        &mut lines,
        mode.action_label().to_owned().concat(" process tree from ").concat(
            root.identity().as_str(),
        ),
    );
    push_text(
        &mut lines,
        "Scope: tree (".to_owned().concat(decimal_text(preview.len() as u128).as_str()).concat(
            " processes)",
        ),
    );
    push_text(&mut lines, ports_line_of(root));
    push_text(&mut lines, scope_command_line(root.pid, " --tree", mode));
    push_tree_preview(&mut lines, preview);
    push_force_warning(&mut lines, mode, root.platform);
    if root.platform == Platform::Windows {
        push_text(
            &mut lines,
            "Warning: Windows tree kill uses Job Object containment and hard termination; close apps normally first when possible.".to_owned(),
        );
        push_text(
            &mut lines,
            "Warning: Windows may also terminate newly spawned job-contained children that were not visible in this preview.".to_owned(),
        );
    }
    push_member_warnings(&mut lines, preview, "tree", root.platform, host);
    push_warnings(&mut lines, &root.warnings(host), WarningScope::Tree);
    assert(line_texts(lines@) =~= tree_banner_lines(*root, preview.nodes@, mode, host));
    write_lines(diagnostics, &lines);
}

/// What is shown of a process group: every member of it.
pub open spec fn group_banner_lines(
    root: KillTarget,
    pgid: u32,
    nodes: Seq<TreeNode>,
    mode: KillMode,
    host: HostFacts,
) -> Seq<Seq<char>> {
    seq![
        mode.action_text() + " process group "@ + decimal(pgid as nat) + " of "@ + identity_text(
            root,
        ),
        "Scope: group "@ + decimal(pgid as nat) + " ("@ + decimal(nodes.len()) + " processes)"@,
        ports_line(root),
        "Command: "@ + sanitized(scope_command_text(root.pid, " --group"@, mode)),
    ] + nodes.map_values(|node: TreeNode| group_node_line(node)) + force_lines(mode, root.platform)
        + member_warning_lines(nodes, "group"@, root.platform, host) + seq![
        "Warning: a process group can include unrelated processes started from the same shell; review every member above."@,
    ] + warning_lines(root.warned(host), WarningScope::Group)
}

fn push_group_members(lines: &mut Vec<String>, members: &ProcessTreeTarget)
    ensures
        line_texts(final(lines)@) == line_texts(old(lines)@) + members.nodes@.map_values(
            |node: TreeNode| group_node_line(node),
        ),
{
    let ghost before = line_texts(lines@);
    let ghost all = members.nodes@.map_values(|node: TreeNode| group_node_line(node));
    let mut i: usize = 0;
    assert(before + all.take(0) =~= before);
    while i < members.nodes.len()
        invariant
            i <= members.nodes.len(),
            all == members.nodes@.map_values(|node: TreeNode| group_node_line(node)),
            line_texts(lines@) == before + all.take(i as int),
        decreases members.nodes.len() - i,
    {
        let line = group_line(&members.nodes[i]);
        assert(before + all.take(i + 1) =~= before + all.take(i as int) + seq![line@]);
        push_text(lines, line);
        i = i + 1;
    }
    assert(all.take(all.len() as int) =~= all);
}

/// Show a process group before it is confirmed. Every member is shown: a group can hold
/// unrelated commands from the same shell.
pub fn print_group_kill_banner<D: Sink>(
    diagnostics: &mut D,
    root: &KillTarget,
    group: &ProcessGroupTarget,
    mode: KillMode,
    host: HostFacts,
)
    ensures
        said(
            *old(diagnostics),
            *final(diagnostics),
            group_banner_lines(*root, group.pgid, group.members.nodes@, mode, host),
        ),
{
    let members = group.members();
    let pgid = decimal_text(group.pgid() as u128);
    let mut lines: Vec<String> = Vec::new();
    assert(line_texts(lines@) =~= Seq::empty());
    push_text(
        &mut lines,
        mode.action_label().to_owned().concat(" process group ").concat(pgid.as_str()).concat(
            " of ",
        ).concat(root.identity().as_str()),
    );
    push_text(
        &mut lines,
        "Scope: group ".to_owned().concat(pgid.as_str()).concat(" (").concat(
            decimal_text(members.len() as u128).as_str(),
        ).concat(" processes)"),
    );
    push_text(&mut lines, ports_line_of(root));
    push_text(&mut lines, scope_command_line(root.pid, " --group", mode));
    push_group_members(&mut lines, members);
    push_force_warning(&mut lines, mode, root.platform);
    push_member_warnings(&mut lines, members, "group", root.platform, host);
    push_text(
        &mut lines,
        "Warning: a process group can include unrelated processes started from the same shell; review every member above.".to_owned(),
    );
    push_warnings(&mut lines, &root.warnings(host), WarningScope::Group);
    assert(line_texts(lines@) =~= group_banner_lines(
        *root,
        group.pgid,
        group.members.nodes@,
        mode,
        host,
    ));
    write_lines(diagnostics, &lines);
}

} // verus!
