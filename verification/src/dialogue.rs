//! The dialogue state machine: a per-session conversation controller that
//! collects the inputs of one multi-step operation (create or overwrite a
//! pack, or delete a pack) and validates each input before advancing.
//!
//! A transition is the pure function [`step`]: from the session's current
//! state and one incoming input to the next state and one [`Effect`]. The
//! caller performs the effect (sends the prompt, looks up or deletes the
//! remote pack, runs the tiling pipeline) and, where the effect asks for
//! remote work whose outcome matters, feeds the outcome back in as the next
//! input. The machine itself never touches the outside world.

use vstd::prelude::*;
use vstd::string::StringExecFns;
use vstd::utf8::encode_utf8;

verus! {

/// A top-level command addressed to the bot itself.
#[derive(Clone, Debug, PartialEq, Eq)]
pub enum Command {
    Create,
    Delete,
    Cancel,
}

/// One incoming event for a session: a parsed command, a free-text message,
/// an attached image payload, an unusable message, or the reported outcome of
/// a previously requested pack deletion.
#[derive(Clone, Debug, PartialEq, Eq)]
pub enum Input {
    Command(Command),
    Text(String),
    Attachment,
    Unsupported,
    DeleteOutcome(bool),
}

/// The session's state: which input the conversation is waiting for, with
/// exactly the fields captured so far. `Idle` is the initial and terminal
/// state and holds nothing.
#[derive(Clone, Debug, PartialEq, Eq)]
pub enum State {
    Idle,
    AwaitingPackId,
    AwaitingMarker { pack_basename: String },
    AwaitingImage { pack_basename: String, marker: String },
    AwaitingDeleteTarget,
}

/// What the caller must do after a transition. Prompt-only effects carry no
/// data; the others name the remote work to perform and hand over the
/// captured fields it needs.
#[derive(Clone, Debug, PartialEq, Eq)]
pub enum Effect {
    /// Not this machine's business: hand the message to the outer dispatcher.
    Ignored,
    /// The ongoing operation (if any) was dropped; tell the user.
    Cancelled,
    /// Ask the user for the pack identifier.
    PromptPackId,
    /// The identifier was rejected; ask again.
    RetryPackId,
    /// Look up whether a pack with the derived full identifier already
    /// exists, warn the user if so (non-blocking), and ask for the marker.
    CheckPackThenPromptMarker { pack_basename: String },
    /// The marker was rejected; ask again.
    RetryMarker,
    /// Ask the user for the source picture.
    PromptImage,
    /// The message carried no attachment; ask for the picture again.
    RetryImage,
    /// Download and decode the attachment, tile it, reconcile against the
    /// remote pack for `pack_basename`, and issue the plan. Success and
    /// failure both end the operation: the session is already back in `Idle`.
    RunPipeline { pack_basename: String, marker: String },
    /// Ask the user which pack to delete.
    PromptDeleteTarget,
    /// Try to delete the named remote pack; feed the outcome back in as
    /// [`Input::DeleteOutcome`].
    RequestDelete { pack_name: String },
    /// The deletion went through; tell the user.
    ReportDeleted,
    /// The deletion failed; ask for the pack name again (or `cancel`).
    RetryDelete,
}

/// The canned user-facing message of each effect, as text: `None` only for
/// the effects that are not a message at all — the ones handed to the outer
/// dispatcher or answered through the pipeline's own reporting.
pub open spec fn spec_prompt(e: Effect) -> Option<Seq<char>> {
    match e {
        Effect::Ignored => None,
        Effect::RunPipeline { .. } => None,
        Effect::RequestDelete { .. } => None,
        Effect::Cancelled => Some("Cancelled whatever was going on."@),
        Effect::PromptPackId => Some(
            "Send me the identifier for your pack - something like \"my-cool-emojis\"."@,
        ),
        Effect::RetryPackId => Some("Not good. Maybe too long or too short? Try again."@),
        Effect::CheckPackThenPromptMarker { .. } => Some(
            "Send me the emoji you want to fill the pack with."@,
        ),
        Effect::RetryMarker => Some("Not good. Try again."@),
        Effect::PromptImage => Some(
            "Now send me the picture you want to slice. Attach it as a PNG file."@,
        ),
        Effect::RetryImage => Some("Attach the picture as a PNG file please."@),
        Effect::PromptDeleteTarget => Some(
            "Send me the identifier of the emoji-pack to nuke. Completions currently unavailable due to skill issues, sorry."@,
        ),
        Effect::ReportDeleted => Some("All good! The nuke has reached its destination."@),
        Effect::RetryDelete => Some("Hmm, couldn't find that emoji pack. Try again, or /cancel."@),
    }
}

impl Effect {
    /// The canned user-facing message for this effect: exactly
    /// [`spec_prompt`] of it.
    pub fn prompt(&self) -> (r: Option<&'static str>)
        ensures
            (r is Some) == (spec_prompt(*self) is Some),
            r matches Some(s) ==> spec_prompt(*self) == Some(s@),
            (r is Some) <==> !(self is Ignored || self is RunPipeline || self is RequestDelete),
    {
        match self {
            Effect::Ignored => None,
            Effect::RunPipeline { .. } => None,
            Effect::RequestDelete { .. } => None,
            Effect::Cancelled => Some("Cancelled whatever was going on."),
            Effect::PromptPackId => Some(
                "Send me the identifier for your pack - something like \"my-cool-emojis\".",
            ),
            Effect::RetryPackId => Some("Not good. Maybe too long or too short? Try again."),
            Effect::CheckPackThenPromptMarker { .. } => Some(
                "Send me the emoji you want to fill the pack with.",
            ),
            Effect::RetryMarker => Some("Not good. Try again."),
            Effect::PromptImage => Some(
                "Now send me the picture you want to slice. Attach it as a PNG file.",
            ),
            Effect::RetryImage => Some("Attach the picture as a PNG file please."),
            Effect::PromptDeleteTarget => Some(
                "Send me the identifier of the emoji-pack to nuke. Completions currently unavailable due to skill issues, sorry.",
            ),
            Effect::ReportDeleted => Some("All good! The nuke has reached its destination."),
            Effect::RetryDelete => Some(
                "Hmm, couldn't find that emoji pack. Try again, or /cancel.",
            ),
        }
    }
}

/// A printable ASCII byte: the character set a pack identifier is drawn from.
pub open spec fn printable_ascii(b: u8) -> bool {
    0x20 <= b <= 0x7e
}

/// A valid pack identifier: 6 to 24 bytes, all printable ASCII.
pub open spec fn spec_valid_pack_id(s: Seq<char>) -> bool {
    &&& 6 <= encode_utf8(s).len() <= 24
    &&& forall|i: int| 0 <= i < encode_utf8(s).len() ==> printable_ascii(#[trigger] encode_utf8(s)[i])
}

/// A valid marker: 1 to 4 bytes of UTF-8, enough for one emoji.
pub open spec fn spec_valid_marker(s: Seq<char>) -> bool {
    1 <= encode_utf8(s).len() <= 4
}

/// Checks a proposed pack identifier: within 6 to 24 bytes and printable
/// ASCII throughout.
pub fn valid_pack_id(s: &String) -> (b: bool)
    ensures
        b == spec_valid_pack_id(s@),
{
    let bytes = s.as_str().as_bytes();
    if bytes.len() < 6 || bytes.len() > 24 {
        return false;
    }
    for i in 0..bytes.len()
        invariant
            bytes@ == encode_utf8(s@),
            forall|j: int| 0 <= j < i ==> printable_ascii(#[trigger] bytes@[j]),
    {
        let b = bytes[i];
        if b < 0x20 || b > 0x7e {
            return false;
        }
    }
    true
}

/// Checks a proposed marker: 1 to 4 bytes of UTF-8.
pub fn valid_marker(s: &String) -> (b: bool)
    ensures
        b == spec_valid_marker(s@),
{
    let n = s.as_str().as_bytes().len();
    1 <= n && n <= 4
}

/// The transition relation of the machine, as a function: `step` returns
/// exactly this. Commands other than `cancel` are dispatched only from
/// `Idle`, as the surrounding command handler recognises them only there;
/// `cancel` is honoured in every state and always returns to `Idle`,
/// discarding every captured field. Invalid or unusable inputs self-loop
/// with a retry effect, so a session is never lost to a typo.
pub open spec fn spec_step(state: State, input: Input) -> (State, Effect) {
    match (state, input) {
        (st, Input::Command(Command::Cancel)) => (State::Idle, Effect::Cancelled),
        (State::Idle, Input::Command(Command::Create)) => (
            State::AwaitingPackId,
            Effect::PromptPackId,
        ),
        (State::Idle, Input::Command(Command::Delete)) => (
            State::AwaitingDeleteTarget,
            Effect::PromptDeleteTarget,
        ),
        (st, Input::Command(_)) => (st, Effect::Ignored),
        (State::AwaitingDeleteTarget, Input::DeleteOutcome(ok)) => {
            if ok {
                (State::Idle, Effect::ReportDeleted)
            } else {
                (State::AwaitingDeleteTarget, Effect::RetryDelete)
            }
        },
        (st, Input::DeleteOutcome(_)) => (st, Effect::Ignored),
        (State::Idle, _) => (State::Idle, Effect::Ignored),
        (State::AwaitingPackId, Input::Text(t)) => {
            if spec_valid_pack_id(t@) {
                (
                    State::AwaitingMarker { pack_basename: t },
                    Effect::CheckPackThenPromptMarker { pack_basename: t },
                )
            } else {
                (State::AwaitingPackId, Effect::RetryPackId)
            }
        },
        (State::AwaitingPackId, _) => (State::AwaitingPackId, Effect::RetryPackId),
        (State::AwaitingMarker { pack_basename }, Input::Text(t)) => {
            if spec_valid_marker(t@) {
                (State::AwaitingImage { pack_basename, marker: t }, Effect::PromptImage)
            } else {
                (State::AwaitingMarker { pack_basename }, Effect::RetryMarker)
            }
        },
        (State::AwaitingMarker { pack_basename }, _) => (
            State::AwaitingMarker { pack_basename },
            Effect::RetryMarker,
        ),
        (State::AwaitingImage { pack_basename, marker }, Input::Attachment) => (
            State::Idle,
            Effect::RunPipeline { pack_basename, marker },
        ),
        (State::AwaitingImage { pack_basename, marker }, _) => (
            State::AwaitingImage { pack_basename, marker },
            Effect::RetryImage,
        ),
        (State::AwaitingDeleteTarget, Input::Text(t)) => (
            State::AwaitingDeleteTarget,
            Effect::RequestDelete { pack_name: t },
        ),
        (State::AwaitingDeleteTarget, _) => (
            State::AwaitingDeleteTarget,
            Effect::RetryDelete,
        ),
    }
}

/// Advances one session by one input: returns the next state and the effect
/// the caller must perform. `cancel` resets any state to `Idle` and discards
/// every captured field, with no effect on any remote resource.
pub fn step(state: State, input: Input) -> (r: (State, Effect))
    ensures
        r == spec_step(state, input),
        input == Input::Command(Command::Cancel) ==> r.0 == State::Idle,
{
    match (state, input) {
        (_, Input::Command(Command::Cancel)) => (State::Idle, Effect::Cancelled),
        (State::Idle, Input::Command(Command::Create)) => (
            State::AwaitingPackId,
            Effect::PromptPackId,
        ),
        (State::Idle, Input::Command(Command::Delete)) => (
            State::AwaitingDeleteTarget,
            Effect::PromptDeleteTarget,
        ),
        (st, Input::Command(_)) => (st, Effect::Ignored),
        (State::AwaitingDeleteTarget, Input::DeleteOutcome(ok)) => {
            if ok {
                (State::Idle, Effect::ReportDeleted)
            } else {
                (State::AwaitingDeleteTarget, Effect::RetryDelete)
            }
        },
        (st, Input::DeleteOutcome(_)) => (st, Effect::Ignored),
        (State::Idle, _) => (State::Idle, Effect::Ignored),
        (State::AwaitingPackId, Input::Text(t)) => {
            if valid_pack_id(&t) {
                let basename_again = t.clone();
                (
                    State::AwaitingMarker { pack_basename: t },
                    Effect::CheckPackThenPromptMarker { pack_basename: basename_again },
                )
            } else {
                (State::AwaitingPackId, Effect::RetryPackId)
            }
        },
        (State::AwaitingPackId, _) => (State::AwaitingPackId, Effect::RetryPackId),
        (State::AwaitingMarker { pack_basename }, Input::Text(t)) => {
            if valid_marker(&t) {
                (State::AwaitingImage { pack_basename, marker: t }, Effect::PromptImage)
            } else {
                (State::AwaitingMarker { pack_basename }, Effect::RetryMarker)
            }
        },
        (State::AwaitingMarker { pack_basename }, _) => (
            State::AwaitingMarker { pack_basename },
            Effect::RetryMarker,
        ),
        (State::AwaitingImage { pack_basename, marker }, Input::Attachment) => (
            State::Idle,
            Effect::RunPipeline { pack_basename, marker },
        ),
        (State::AwaitingImage { pack_basename, marker }, _) => (
            State::AwaitingImage { pack_basename, marker },
            Effect::RetryImage,
        ),
        (State::AwaitingDeleteTarget, Input::Text(t)) => (
            State::AwaitingDeleteTarget,
            Effect::RequestDelete { pack_name: t },
        ),
        (State::AwaitingDeleteTarget, _) => (
            State::AwaitingDeleteTarget,
            Effect::RetryDelete,
        ),
    }
}

/// Cancelling discards every captured field, from any state: the session is
/// back in `Idle`, and a `create` issued right after starts from a fresh
/// `AwaitingPackId` carrying nothing, whatever had been collected before.
pub proof fn lemma_cancel_discards_everything(s: State)
    ensures
        spec_step(s, Input::Command(Command::Cancel)).0 == State::Idle,
        spec_step(
            spec_step(s, Input::Command(Command::Cancel)).0,
            Input::Command(Command::Create),
        ) == (State::AwaitingPackId, Effect::PromptPackId),
{
}

/// The full identifier of a pack: the user-chosen basename, the fixed
/// separator, then the bot's identity.
pub open spec fn spec_full_id(basename: Seq<char>, identity: Seq<char>) -> Seq<char> {
    basename + "_by_"@ + identity
}

/// Derives the full remote identifier of a pack from its basename and the
/// bot identity the process was configured with.
pub fn derive_full_id(basename: &String, identity: &String) -> (r: String)
    ensures
        r@ == spec_full_id(basename@, identity@),
{
    let mut out = basename.clone();
    out.append("_by_");
    out.append(identity.as_str());
    out
}

/// Resolves the bot identity from the optional configured value: the value
/// itself when present, or the fixed placeholder of the degraded mode.
pub fn resolve_bot_identity(configured: Option<String>) -> (r: String)
    ensures
        configured matches Some(id) ==> r == id,
        configured is None ==> r@ == "helloWorldBot"@,
{
    match configured {
        Some(id) => id,
        None => "helloWorldBot".to_owned(),
    }
}

} // verus!
