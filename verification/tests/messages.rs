use kickoutchi::address::IpAddr;
use kickoutchi::answer::{ByteCursor, Input};
use kickoutchi::banner::{
    print_group_kill_banner, print_kill_banner, print_tree_kill_banner, render_kill_command,
};
use kickoutchi::collector::CollectorError;
use kickoutchi::config::Config;
use kickoutchi::exit::ExitReason;
use kickoutchi::kill::{print_target_error, run_kill_with, KillArgs, KillTargetError};
use kickoutchi::model::{PermissionStatus, Platform, Protocol, SocketState};
use kickoutchi::observation::{ProcessIdentity, ProcessStartMarker};
use kickoutchi::operations::{
    Asks, Prepares, ReadsContext, ReadsPorts, Recorded, Signals, WatchesPorts,
};
use kickoutchi::ports::{PortEntry, ProcessContext};
use kickoutchi::process::{
    ConfirmationRequirement, HostFacts, KillMode, KillTarget, KillTargetPort, TerminationOutcome,
};
use kickoutchi::prompts::{
    prompt_confirmation, prompt_group_confirmation, prompt_tree_confirmation,
};
use kickoutchi::scoped::{scoped_preflight_refusal, TreeConfirmation};
use kickoutchi::sink::{IoError, IoErrorKind, Output, Writer};
use kickoutchi::time::Duration;
use kickoutchi::tree::{
    plan_process_group, plan_process_tree, ProcessGroupTarget, ProcessTreeTarget, TreeProcessInfo,
};

const HOST: HostFacts = HostFacts { own_pid: 4_242, user_id: 1_000 };

#[derive(Default)]
struct Memory {
    bytes: Vec<u8>,
    unflushable: bool,
}

impl Writer for Memory {
    fn write_all(&mut self, bytes: &[u8]) -> Result<(), IoError> {
        self.bytes.extend_from_slice(bytes);
        Ok(())
    }

    fn flush(&mut self) -> Result<(), IoError> {
        if self.unflushable {
            Err(IoError::new(IoErrorKind::Other, "stderr is gone"))
        } else {
            Ok(())
        }
    }
}

fn memory() -> Output<Memory> {
    Output::new(Memory::default())
}

fn text_of(output: Output<Memory>) -> String {
    String::from_utf8(output.writer.bytes).unwrap()
}

fn typed(text: &str) -> Input<ByteCursor> {
    Input::new(ByteCursor::new(text.as_bytes().to_vec()))
}

fn target(pid: u32, name: &str) -> KillTarget {
    KillTarget {
        pid,
        process_name: Some(name.to_owned()),
        platform: Platform::Linux,
        permission: PermissionStatus::Full,
        protected: false,
        system_process: false,
        ports: vec![KillTargetPort {
            protocol: Protocol::Tcp,
            local_addr: IpAddr::v4_localhost(),
            local_port: 3_000,
            ipv6_scope: None,
        }],
        owner_uid: Some(1_000),
        process_start_time_marker: ProcessStartMarker::linux(55).ok(),
        child_count: 0,
        children_truncated: false,
    }
}

fn info(pid: u32, parent_pid: Option<u32>, name: &str) -> TreeProcessInfo {
    TreeProcessInfo {
        pid,
        parent_pid,
        unverified_parent_pid: None,
        parent_process_name: None,
        process_name: Some(name.to_owned()),
        start_time_marker: ProcessStartMarker::linux(55).ok(),
        owner_uid: Some(1_000),
        process_group: Some(900),
    }
}

fn tree_of(infos: &Vec<TreeProcessInfo>) -> ProcessTreeTarget {
    plan_process_tree(infos[0].pid, infos, &[], Platform::Linux, 128).unwrap()
}

fn group_of(infos: &Vec<TreeProcessInfo>) -> ProcessGroupTarget {
    plan_process_group(infos[0].pid, infos, &[], Platform::Linux, 128).unwrap()
}

#[test]
fn kill_banner_names_target_ports_command_and_warnings() {
    let mut shown = target(18_422, "node");
    shown.child_count = 2;
    let mut output = memory();
    print_kill_banner(&mut output, &shown, KillMode::Force, HOST);
    assert_eq!(
        text_of(output),
        "Force kill PID 18422 (node)\n\
         Scope: process\n\
         Ports: TCP 127.0.0.1:3000\n\
         Command: kill -KILL 18422\n\
         Warning: SIGKILL cannot be handled; unsaved work may be lost.\n\
         Warning: the process has 2 child process(es).\n"
    );
}

#[test]
fn kill_banner_of_an_ordinary_kill_has_no_warning() {
    let mut output = memory();
    print_kill_banner(&mut output, &target(18_422, "node"), KillMode::Terminate, HOST);
    assert_eq!(
        text_of(output),
        "Terminate PID 18422 (node)\n\
         Scope: process\n\
         Ports: TCP 127.0.0.1:3000\n\
         Command: kill -TERM 18422\n"
    );
}

#[test]
fn windows_kill_command_is_taskkill() {
    assert_eq!(render_kill_command(Platform::Windows, 7, KillMode::Terminate), "taskkill /PID 7");
    assert_eq!(render_kill_command(Platform::Windows, 7, KillMode::Force), "taskkill /PID 7 /F");
}

#[test]
fn tree_banner_indents_children_and_repeats_the_command() {
    let infos = vec![
        info(10, Some(1), "shell"),
        info(11, Some(10), "server"),
        info(12, Some(11), "worker"),
    ];
    let mut root = target(10, "shell");
    root.ports = Vec::new();
    let mut output = memory();
    print_tree_kill_banner(&mut output, &root, &tree_of(&infos), KillMode::Terminate, HOST);
    assert_eq!(
        text_of(output),
        "Terminate process tree from PID 10 (shell)\n\
         Scope: tree (3 processes)\n\
         Ports: -\n\
         Command: kick kill --pid 10 --tree\n\
         \x20 PID 10 (shell)\n\
         \x20   PID 11 (server)\n\
         \x20     PID 12 (worker)\n"
    );
}

#[test]
fn tree_banner_shows_the_first_processes_and_counts_the_rest() {
    let mut infos = vec![info(10, Some(1), "shell")];
    for pid in 11..25 {
        infos.push(info(pid, Some(10), "child"));
    }
    let mut output = memory();
    print_tree_kill_banner(
        &mut output,
        &target(10, "shell"),
        &tree_of(&infos),
        KillMode::Force,
        HOST,
    );
    let text = text_of(output);
    assert!(text.contains("Scope: tree (15 processes)\n"));
    assert!(text.contains("Command: kick kill --pid 10 --tree --force\n"));
    assert_eq!(text.matches("    PID ").count(), 11);
    assert!(text.contains("\n  ... and 3 more\n"));
}

#[test]
fn tree_banner_on_windows_warns_of_hard_termination() {
    let infos = vec![info(10, Some(1), "shell")];
    let mut root = target(10, "shell");
    root.platform = Platform::Windows;
    let mut output = memory();
    print_tree_kill_banner(&mut output, &root, &tree_of(&infos), KillMode::Terminate, HOST);
    let text = text_of(output);
    assert!(text.contains(
        "Warning: Windows tree kill uses Job Object containment and hard termination; close apps normally first when possible.\n"
    ));
    assert!(text.contains(
        "Warning: Windows may also terminate newly spawned job-contained children that were not visible in this preview.\n"
    ));
}

#[test]
fn group_banner_shows_every_member_and_marks_the_target() {
    let mut other = info(11, Some(1), "editor");
    other.owner_uid = Some(7);
    let infos = vec![info(10, Some(1), "server"), other];
    let mut output = memory();
    print_group_kill_banner(
        &mut output,
        &target(10, "server"),
        &group_of(&infos),
        KillMode::Terminate,
        HOST,
    );
    assert_eq!(
        text_of(output),
        "Terminate process group 900 of PID 10 (server)\n\
         Scope: group 900 (2 processes)\n\
         Ports: TCP 127.0.0.1:3000\n\
         Command: kick kill --pid 10 --group\n\
         \x20 PID 10 (server) [confirmed target]\n\
         \x20 PID 11 (editor)\n\
         Warning: group includes 1 process(es) owned by another uid; first is PID 11 owned by uid 7, current effective uid is 1000.\n\
         Warning: a process group can include unrelated processes started from the same shell; review every member above.\n"
    );
}

#[test]
fn single_prompts_ask_and_judge_the_answer() {
    let shown = target(18_422, "node");
    let mut output = memory();
    let mut input = typed("y\nrest");
    let answer = prompt_confirmation(
        &mut output,
        &mut input,
        &shown,
        KillMode::Terminate,
        ConfirmationRequirement::Yes,
    );
    assert_eq!(answer, Ok(true));
    assert_eq!(text_of(output), "Type y to confirm, or press Enter to cancel: ");
    assert_eq!(input.source.position, 2);

    let mut output = memory();
    let answer = prompt_confirmation(
        &mut output,
        &mut typed("yes\n"),
        &shown,
        KillMode::Force,
        ConfirmationRequirement::ForceWord,
    );
    assert_eq!(answer, Ok(false));
    assert_eq!(text_of(output), "Type force to confirm SIGKILL: ");

    let mut output = memory();
    let answer = prompt_confirmation(
        &mut output,
        &mut typed("18422\n"),
        &shown,
        KillMode::Terminate,
        ConfirmationRequirement::ProtectedProcess,
    );
    assert_eq!(answer, Ok(true));
    assert_eq!(
        text_of(output),
        "Protected process: type PID 18422 or process name node to confirm: "
    );
}

#[test]
fn scope_prompts_count_the_processes() {
    let infos = vec![info(10, Some(1), "server"), info(11, Some(10), "worker")];
    let root = target(10, "server");
    let mut output = memory();
    let answer = prompt_tree_confirmation(
        &mut output,
        &mut typed("tree\n"),
        &root,
        &tree_of(&infos),
        TreeConfirmation::TypedWord("tree"),
    );
    assert_eq!(answer, Ok(true));
    assert_eq!(
        text_of(output),
        "Type tree to terminate all 2 processes, or press Enter to cancel: "
    );

    let mut output = memory();
    let answer = prompt_group_confirmation(
        &mut output,
        &mut typed("\n"),
        &root,
        &group_of(&infos).members,
        TreeConfirmation::TypedWord("group"),
    );
    assert_eq!(answer, Ok(false));
    assert_eq!(
        text_of(output),
        "Type group to terminate all 2 processes in the group, or press Enter to cancel: "
    );

    let mut output = memory();
    let answer = prompt_tree_confirmation(
        &mut output,
        &mut typed("server\n"),
        &root,
        &tree_of(&infos),
        TreeConfirmation::ProtectedRoot,
    );
    assert_eq!(answer, Ok(true));
    assert_eq!(
        text_of(output),
        "Protected root: type PID 10 or process name server to confirm: "
    );
}

#[test]
fn a_question_that_cannot_be_shown_reads_nothing() {
    let mut output = Output::new(Memory { bytes: Vec::new(), unflushable: true });
    let mut input = typed("y\n");
    let answer = prompt_confirmation(
        &mut output,
        &mut input,
        &target(18_422, "node"),
        KillMode::Terminate,
        ConfirmationRequirement::Yes,
    );
    assert_eq!(answer, Err(IoError::new(IoErrorKind::Other, "stderr is gone")));
    assert_eq!(input.source.position, 0);
}

#[test]
fn ambiguous_port_names_its_candidates() {
    let mut output = memory();
    let reason = print_target_error(
        &mut output,
        &KillTargetError::AmbiguousPort {
            port: 3_000,
            candidates: vec!["PID 1 (a)".to_owned(), "PID 2 (b)".to_owned()],
        },
    );
    assert_eq!(reason, ExitReason::Failure);
    assert_eq!(
        text_of(output),
        "error: port 3000 is owned by multiple PIDs; refusing to guess. Use --pid with one of:\n  PID 1 (a)\n  PID 2 (b)\n"
    );
}

#[test]
fn preflight_refusals_name_the_scope() {
    let infos = vec![info(10, Some(1), "server"), info(4_242, Some(10), "self")];
    let mut output = memory();
    let refused = scoped_preflight_refusal(&tree_of(&infos), "tree", HOST, &mut output);
    assert_eq!(refused, Some(ExitReason::Failure));
    assert_eq!(
        text_of(output),
        "error: process tree contains unsafe PID 4242; refusing tree kill\n"
    );

    let infos = vec![info(10, Some(1), "server"), info(11, Some(10), "postgres")];
    let names = vec!["postgres".to_owned()];
    let guarded = plan_process_tree(10, &infos, &names, Platform::Linux, 128).unwrap();
    let mut output = memory();
    let refused = scoped_preflight_refusal(&guarded, "group", HOST, &mut output);
    assert_eq!(refused, Some(ExitReason::ProtectedNeedsConfirmation));
    assert_eq!(
        text_of(output),
        "error: process group contains protected process PID 11 (postgres); refusing group kill\n"
    );

    let cut = plan_process_tree(10, &infos, &names, Platform::Linux, 1).unwrap();
    let mut output = memory();
    let refused = scoped_preflight_refusal(&cut, "tree", HOST, &mut output);
    assert_eq!(refused, Some(ExitReason::Failure));
    assert_eq!(
        text_of(output),
        "error: process tree exceeds the 1 process cap; refusing to kill a partial tree\n"
    );

    let mut output = memory();
    let clear = vec![info(10, Some(1), "server")];
    assert_eq!(scoped_preflight_refusal(&tree_of(&clear), "tree", HOST, &mut output), None);
    assert_eq!(text_of(output), "");
}

fn row() -> PortEntry {
    PortEntry {
        protocol: Protocol::Tcp,
        local_addr: IpAddr::v4_localhost(),
        local_port: 3_000,
        state: SocketState::Listen,
        pid: Some(18_422),
        process_name: Some("node".to_owned()),
        executable_path: None,
        command_line: None,
        parent_pid: None,
        parent_process_name: None,
        protected: false,
        platform: Platform::Linux,
        permission: PermissionStatus::Full,
        process_identity: Some(ProcessIdentity {
            pid: 18_422,
            start_marker: ProcessStartMarker::linux(55).unwrap(),
        }),
        ipv6_scope: None,
    }
}

/// The surroundings of a kill, one closure for each thing it may ask of them.
struct KillTools<C, P, V, Q, R, T, S> {
    context: C,
    kill_ports: P,
    visibility_ports: V,
    prompt: Q,
    prepare: R,
    terminate: T,
    sleep: S,
}

impl<C: FnMut(u32) -> ProcessContext, P, V, Q, R, T, S> ReadsContext
    for KillTools<C, P, V, Q, R, T, S>
{
    fn context(&mut self, pid: u32) -> ProcessContext {
        (self.context)(pid)
    }
}

impl<C, P, V, Q, R, T, S> ReadsPorts for KillTools<C, P, V, Q, R, T, S>
where
    P: FnMut() -> Result<Vec<PortEntry>, CollectorError>,
{
    fn kill_ports(&mut self) -> Result<Vec<PortEntry>, CollectorError> {
        (self.kill_ports)()
    }
}

impl<C, P, V, Q, R, T, S> WatchesPorts for KillTools<C, P, V, Q, R, T, S>
where
    V: FnMut() -> Result<Vec<PortEntry>, CollectorError>,
    S: FnMut(Duration),
{
    fn visibility_ports(&mut self) -> Result<Vec<PortEntry>, CollectorError> {
        (self.visibility_ports)()
    }

    fn sleep(&mut self, span: Duration) {
        (self.sleep)(span)
    }
}

impl<C, P, V, Q, R, T, S> Asks for KillTools<C, P, V, Q, R, T, S>
where
    Q: FnMut(&KillTarget, KillMode, ConfirmationRequirement) -> Result<bool, IoError>,
{
    fn prompt(
        &mut self,
        target: &KillTarget,
        mode: KillMode,
        requirement: ConfirmationRequirement,
    ) -> Result<bool, IoError> {
        (self.prompt)(target, mode, requirement)
    }
}

impl<H, C, P, V, Q, R, T, S> Prepares<H> for KillTools<C, P, V, Q, R, T, S>
where
    R: FnMut(u32) -> Result<H, TerminationOutcome>,
{
    fn prepare(&mut self, pid: u32) -> Result<H, TerminationOutcome> {
        (self.prepare)(pid)
    }
}

impl<H, C, P, V, Q, R, T, S> Signals<H> for KillTools<C, P, V, Q, R, T, S>
where
    T: FnMut(&H, &KillTarget, &Vec<String>, KillMode) -> TerminationOutcome,
{
    fn terminate(
        &mut self,
        handle: &H,
        target: &KillTarget,
        protected: &Vec<String>,
        mode: KillMode,
    ) -> TerminationOutcome {
        (self.terminate)(handle, target, protected, mode)
    }
}

fn known(_pid: u32) -> ProcessContext {
    let mut context = ProcessContext::empty();
    context.process_start_time_marker = ProcessStartMarker::linux(55).ok();
    context.owner_uid = Some(1_000);
    context
}

#[test]
fn a_kill_tells_banner_outcome_and_ports_in_order() {
    let args =
        KillArgs { pid: None, port: Some(3_000), force: false, yes: true, tree: false, group: false };
    let mut tools = Recorded::new(KillTools {
        context: known,
        kill_ports: || Ok::<Vec<PortEntry>, CollectorError>(vec![row()]),
        visibility_ports: || Ok::<Vec<PortEntry>, CollectorError>(Vec::new()),
        prompt: |_: &KillTarget, _: KillMode, _: ConfirmationRequirement| Ok::<bool, IoError>(true),
        prepare: Ok::<u32, TerminationOutcome>,
        terminate: |_: &u32, _: &KillTarget, _: &Vec<String>, _: KillMode| {
            TerminationOutcome::Success
        },
        sleep: |_: Duration| {},
    });
    let mut output = memory();
    let reason =
        run_kill_with(&args, &Config::default(), &vec![row()], HOST, &mut tools, &mut output);
    assert_eq!(reason, ExitReason::Success);
    assert_eq!(
        text_of(output),
        "Terminate PID 18422 (node)\n\
         Scope: process\n\
         Ports: TCP 127.0.0.1:3000\n\
         Command: kill -TERM 18422\n\
         sent SIGTERM to PID 18422 (node)\n\
         confirmed target ports are no longer visible\n"
    );
}

#[test]
fn a_port_that_became_ambiguous_names_its_candidates_before_the_outcome() {
    let args =
        KillArgs { pid: None, port: Some(3_000), force: false, yes: true, tree: false, group: false };
    let second = || {
        let mut second = row();
        second.pid = Some(29_999);
        second.process_name = Some("other".to_owned());
        second
    };
    let mut tools = Recorded::new(KillTools {
        context: known,
        kill_ports: || Ok::<Vec<PortEntry>, CollectorError>(vec![row(), second()]),
        visibility_ports: || Ok::<Vec<PortEntry>, CollectorError>(Vec::new()),
        prompt: |_: &KillTarget, _: KillMode, _: ConfirmationRequirement| Ok::<bool, IoError>(true),
        prepare: Ok::<u32, TerminationOutcome>,
        terminate: |_: &u32, _: &KillTarget, _: &Vec<String>, _: KillMode| -> TerminationOutcome {
            panic!("an ambiguous port must not be signalled")
        },
        sleep: |_: Duration| {},
    });
    let mut output = memory();
    let reason =
        run_kill_with(&args, &Config::default(), &vec![row()], HOST, &mut tools, &mut output);
    let text = text_of(output);
    let lines: Vec<&str> = text.lines().skip(4).collect();
    assert_eq!(reason, ExitReason::NoMatch);
    assert_eq!(
        lines[0],
        "error: port 3000 became ambiguous before termination; refusing to guess. Use --pid with one of:"
    );
    assert_eq!(lines.len(), 4);
    assert!(lines[1].contains("18422"));
    assert!(lines[2].contains("29999"));
}
