//! The questions before a kill, and what answers them.

use vstd::prelude::*;
use vstd::string::*;
use vstd::utf8::encode_utf8;
use crate::answer::{line_answered, read_confirmation_line_from, ByteSource, Input};
use crate::process::{
    confirmation_input_matches, confirms, name_text, ConfirmationRequirement, KillMode, KillTarget,
    CONFIRMATION_INPUT_MAX_BYTES,
};
use crate::scoped::{tree_answer, tree_confirmation_matches, TreeConfirmation};
use crate::sink::{accepted_part, IoError, Sink};
use crate::text::{decimal, decimal_text, sanitize, sanitized};
use crate::tree::ProcessTreeTarget;

verus! {

/// A question was asked: it was shown, handed on once, and then one line was read. A
/// question that could not be handed on is an error, and nothing is read for it.
pub open spec fn asked_for<D: Sink, B>(
    before: D,
    after: D,
    unread: Input<B>,
    read: Input<B>,
    question: Seq<char>,
    r: Result<String, IoError>,
) -> bool {
    &&& accepted_part(before.written(), after.written(), encode_utf8(question))
    &&& before.refused().is_prefix_of(after.refused())
    &&& after.refused() == before.refused() ==> after.written() == before.written() + encode_utf8(
        question,
    )
    &&& before.failed() ==> after.failed()
    &&& after.flushed() == before.flushed().push(after.flushed().last())
    &&& match after.flushed().last() {
        Ok(()) => line_answered(unread, read, CONFIRMATION_INPUT_MAX_BYTES, r),
        Err(error) => r == Err::<String, IoError>(error) && read == unread,
    }
}

/// Show a question and read the line that answers it.
pub fn ask<D: Sink, B: ByteSource>(
    diagnostics: &mut D,
    input: &mut Input<B>,
    question: &str,
) -> (r: Result<String, IoError>)
    ensures
        asked_for(*old(diagnostics), *final(diagnostics), *old(input), *final(input), question@, r),
{
    let _ = diagnostics.write_all(question.as_bytes());
    match diagnostics.flush() {
        Ok(()) => {},
        Err(error) => {
            return Err(error);
        },
    }
    read_confirmation_line_from(input, CONFIRMATION_INPUT_MAX_BYTES)
}

/// The question about a single process.
pub open spec fn kill_question(
    target: KillTarget,
    mode: KillMode,
    requirement: ConfirmationRequirement,
) -> Seq<char> {
    match requirement {
        ConfirmationRequirement::Yes => "Type y to confirm, or press Enter to cancel: "@,
        ConfirmationRequirement::ForceWord => "Type force to confirm "@ + mode.delivery_text(
            target.platform,
        ) + ": "@,
        ConfirmationRequirement::ProtectedProcess => "Protected process: type PID "@ + decimal(
            target.pid as nat,
        ) + " or process name "@ + sanitized(name_text(target)) + " to confirm: "@,
    }
}

/// Ask for the confirmation of a single process.
pub fn prompt_confirmation<D: Sink, B: ByteSource>(
    diagnostics: &mut D,
    input: &mut Input<B>,
    target: &KillTarget,
    mode: KillMode,
    requirement: ConfirmationRequirement,
) -> (r: Result<bool, IoError>)
    ensures
        exists|answer: Result<String, IoError>|
            {
                &&& #[trigger] asked_for(
                    *old(diagnostics),
                    *final(diagnostics),
                    *old(input),
                    *final(input),
                    kill_question(*target, mode, requirement),
                    answer,
                )
                &&& r == match answer {
                    Ok(text) => Ok::<bool, IoError>(confirms(text@, *target, requirement)),
                    Err(error) => Err(error),
                }
            },
{
    let question: String = match requirement {
        ConfirmationRequirement::Yes => {
            "Type y to confirm, or press Enter to cancel: ".to_owned()
        },
        ConfirmationRequirement::ForceWord => "Type force to confirm ".to_owned().concat(
            mode.delivery_label(target.platform),
        ).concat(": "),
        ConfirmationRequirement::ProtectedProcess => {
            let mut text = "Protected process: type PID ".to_owned();
            text.append(decimal_text(target.pid as u128).as_str());
            text.append(" or process name ");
            text.append(sanitize(target.process_name_or_unknown()).as_str());
            text.append(" to confirm: ");
            text
        },
    };
    let answer = ask(diagnostics, input, question.as_str());
    let ghost said = answer;
    assert(asked_for(
        *old(diagnostics),
        *diagnostics,
        *old(input),
        *input,
        kill_question(*target, mode, requirement),
        said,
    ));
    match answer {
        Ok(text) => Ok(confirmation_input_matches(text.as_str(), target, requirement)),
        Err(error) => Err(error),
    }
}

/// The question about a scope of so many processes; `place` says where they are.
pub open spec fn scope_question(
    root: KillTarget,
    count: nat,
    place: Seq<char>,
    requirement: TreeConfirmation,
) -> Seq<char> {
    match requirement {
        TreeConfirmation::TypedWord(word) => "Type "@ + word@ + " to terminate all "@ + decimal(
            count,
        ) + " processes"@ + place + ", or press Enter to cancel: "@,
        TreeConfirmation::ProtectedRoot => "Protected root: type PID "@ + decimal(root.pid as nat)
            + " or process name "@ + sanitized(name_text(root)) + " to confirm: "@,
    }
}

/// A question about a scope was asked, and its answer judged.
pub open spec fn scope_prompted<D: Sink, B>(
    before: D,
    after: D,
    unread: Input<B>,
    read: Input<B>,
    root: KillTarget,
    count: nat,
    place: Seq<char>,
    requirement: TreeConfirmation,
    r: Result<bool, IoError>,
) -> bool {
    exists|answer: Result<String, IoError>|
        {
            &&& #[trigger] asked_for(
                before,
                after,
                unread,
                read,
                scope_question(root, count, place, requirement),
                answer,
            )
            &&& r == match answer {
                Ok(text) => Ok::<bool, IoError>(tree_answer(text@, root, requirement)),
                Err(error) => Err(error),
            }
        }
}

fn prompt_scope<D: Sink, B: ByteSource>(
    diagnostics: &mut D,
    input: &mut Input<B>,
    root: &KillTarget,
    count: usize,
    place: &str,
    requirement: TreeConfirmation,
) -> (r: Result<bool, IoError>)
    ensures
        scope_prompted(
            *old(diagnostics),
            *final(diagnostics),
            *old(input),
            *final(input),
            *root,
            count as nat,
            place@,
            requirement,
            r,
        ),
{
    let question: String = match requirement {
        TreeConfirmation::TypedWord(word) => {
            let mut text = "Type ".to_owned();
            text.append(word);
            text.append(" to terminate all ");
            text.append(decimal_text(count as u128).as_str());
            text.append(" processes");
            text.append(place);
            text.append(", or press Enter to cancel: ");
            text
        },
        TreeConfirmation::ProtectedRoot => {
            let mut text = "Protected root: type PID ".to_owned();
            text.append(decimal_text(root.pid as u128).as_str());
            text.append(" or process name ");
            text.append(sanitize(root.process_name_or_unknown()).as_str());
            text.append(" to confirm: ");
            text
        },
    };
    let answer = ask(diagnostics, input, question.as_str());
    let ghost said = answer;
    assert(asked_for(
        *old(diagnostics),
        *diagnostics,
        *old(input),
        *input,
        scope_question(*root, count as nat, place@, requirement),
        said,
    ));
    match answer {
        Ok(text) => Ok(tree_confirmation_matches(text.as_str(), root, requirement)),
        Err(error) => Err(error),
    }
}

/// Ask for the confirmation of a process tree.
pub fn prompt_tree_confirmation<D: Sink, B: ByteSource>(
    diagnostics: &mut D,
    input: &mut Input<B>,
    root: &KillTarget,
    preview: &ProcessTreeTarget,
    requirement: TreeConfirmation,
) -> (r: Result<bool, IoError>)
    ensures
        scope_prompted(
            *old(diagnostics),
            *final(diagnostics),
            *old(input),
            *final(input),
            *root,
            preview.nodes@.len(),
            Seq::empty(),
            requirement,
            r,
        ),
{
    proof {
        reveal_strlit("");
        assert(""@ =~= Seq::<char>::empty());
    }
    prompt_scope(diagnostics, input, root, preview.len(), "", requirement)
}

/// Ask for the confirmation of a process group.
pub fn prompt_group_confirmation<D: Sink, B: ByteSource>(
    diagnostics: &mut D,
    input: &mut Input<B>,
    root: &KillTarget,
    members: &ProcessTreeTarget,
    requirement: TreeConfirmation,
) -> (r: Result<bool, IoError>)
    ensures
        scope_prompted(
            *old(diagnostics),
            *final(diagnostics),
            *old(input),
            *final(input),
            *root,
            members.nodes@.len(),
            " in the group"@,
            requirement,
            r,
        ),
{
    prompt_scope(diagnostics, input, root, members.len(), " in the group", requirement)
}

} // verus!
