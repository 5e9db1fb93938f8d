use emojify_tg_sticker::bot_ext::announce;
use emojify_tg_sticker::bot_ext::ReplyLog;
use emojify_tg_sticker::dialogue::derive_full_id;
use emojify_tg_sticker::dialogue::resolve_bot_identity;
use emojify_tg_sticker::dialogue::step;
use emojify_tg_sticker::dialogue::valid_marker;
use emojify_tg_sticker::dialogue::valid_pack_id;
use emojify_tg_sticker::dialogue::Command;
use emojify_tg_sticker::dialogue::Effect;
use emojify_tg_sticker::dialogue::Input;
use emojify_tg_sticker::dialogue::State;

fn text(s: &str) -> Input {
    Input::Text(s.to_owned())
}

#[test]
fn create_command_asks_for_pack_id() {
    let (next, eff) = step(State::Idle, Input::Command(Command::Create));
    assert_eq!(next, State::AwaitingPackId);
    assert_eq!(eff, Effect::PromptPackId);
}

#[test]
fn short_pack_id_is_rejected_and_state_kept() {
    let (next, eff) = step(State::AwaitingPackId, text("abc"));
    assert_eq!(next, State::AwaitingPackId);
    assert_eq!(eff, Effect::RetryPackId);
}

#[test]
fn valid_pack_id_advances_to_marker() {
    let (next, eff) = step(State::AwaitingPackId, text("validname123"));
    assert_eq!(next, State::AwaitingMarker { pack_basename: "validname123".to_owned() });
    assert_eq!(
        eff,
        Effect::CheckPackThenPromptMarker { pack_basename: "validname123".to_owned() }
    );
}

#[test]
fn too_long_pack_id_is_rejected() {
    let (next, eff) = step(State::AwaitingPackId, text("abcdefghijklmnopqrstuvwxy"));
    assert_eq!(next, State::AwaitingPackId);
    assert_eq!(eff, Effect::RetryPackId);
}

#[test]
fn longest_allowed_pack_id_is_accepted() {
    let id = "abcdefghijklmnopqrstuvwx";
    assert_eq!(id.len(), 24);
    let (next, _) = step(State::AwaitingPackId, text(id));
    assert_eq!(next, State::AwaitingMarker { pack_basename: id.to_owned() });
}

#[test]
fn non_ascii_pack_id_is_rejected() {
    assert!(!valid_pack_id(&"пакет1".to_owned()));
    let (next, eff) = step(State::AwaitingPackId, text("пакет1"));
    assert_eq!(next, State::AwaitingPackId);
    assert_eq!(eff, Effect::RetryPackId);
}

#[test]
fn control_characters_in_pack_id_are_rejected() {
    assert!(!valid_pack_id(&"abc\u{1}def".to_owned()));
}

#[test]
fn pack_id_validation_bounds() {
    assert!(!valid_pack_id(&"abcde".to_owned()));
    assert!(valid_pack_id(&"abcdef".to_owned()));
    assert!(valid_pack_id(&"my-cool-emojis".to_owned()));
}

#[test]
fn marker_validation_bounds() {
    assert!(!valid_marker(&"".to_owned()));
    assert!(valid_marker(&"a".to_owned()));
    assert!(valid_marker(&"abcd".to_owned()));
    assert!(!valid_marker(&"abcde".to_owned()));
    // One emoji is four UTF-8 bytes.
    assert!(valid_marker(&"\u{1F600}".to_owned()));
}

#[test]
fn marker_advances_to_image() {
    let st = State::AwaitingMarker { pack_basename: "validname123".to_owned() };
    let (next, eff) = step(st, text("\u{1F600}"));
    assert_eq!(
        next,
        State::AwaitingImage {
            pack_basename: "validname123".to_owned(),
            marker: "\u{1F600}".to_owned()
        }
    );
    assert_eq!(eff, Effect::PromptImage);
}

#[test]
fn bad_marker_self_loops() {
    let st = State::AwaitingMarker { pack_basename: "validname123".to_owned() };
    let (next, eff) = step(st, text("way too long"));
    assert_eq!(next, State::AwaitingMarker { pack_basename: "validname123".to_owned() });
    assert_eq!(eff, Effect::RetryMarker);
}

#[test]
fn attachment_runs_pipeline_and_ends_in_idle() {
    let st = State::AwaitingImage {
        pack_basename: "validname123".to_owned(),
        marker: "x".to_owned(),
    };
    let (next, eff) = step(st, Input::Attachment);
    assert_eq!(next, State::Idle);
    assert_eq!(
        eff,
        Effect::RunPipeline { pack_basename: "validname123".to_owned(), marker: "x".to_owned() }
    );
}

#[test]
fn missing_attachment_self_loops() {
    let st = State::AwaitingImage {
        pack_basename: "validname123".to_owned(),
        marker: "x".to_owned(),
    };
    let (next, eff) = step(st, text("not a picture"));
    assert_eq!(
        next,
        State::AwaitingImage { pack_basename: "validname123".to_owned(), marker: "x".to_owned() }
    );
    assert_eq!(eff, Effect::RetryImage);
}

#[test]
fn delete_flow_requests_then_retries_then_succeeds() {
    let (st, eff) = step(State::Idle, Input::Command(Command::Delete));
    assert_eq!(st, State::AwaitingDeleteTarget);
    assert_eq!(eff, Effect::PromptDeleteTarget);

    let (st, eff) = step(st, text("some_pack_by_bot"));
    assert_eq!(st, State::AwaitingDeleteTarget);
    assert_eq!(eff, Effect::RequestDelete { pack_name: "some_pack_by_bot".to_owned() });

    let (st, eff) = step(st, Input::DeleteOutcome(false));
    assert_eq!(st, State::AwaitingDeleteTarget);
    assert_eq!(eff, Effect::RetryDelete);

    let (st, eff) = step(st, text("some_pack_by_bot"));
    assert_eq!(st, State::AwaitingDeleteTarget);
    let (st, eff2) = step(st, Input::DeleteOutcome(true));
    assert_eq!(st, State::Idle);
    assert_eq!(eff, Effect::RequestDelete { pack_name: "some_pack_by_bot".to_owned() });
    assert_eq!(eff2, Effect::ReportDeleted);
}

#[test]
fn cancel_resets_every_non_idle_state() {
    let states = vec![
        State::AwaitingPackId,
        State::AwaitingMarker { pack_basename: "validname123".to_owned() },
        State::AwaitingImage {
            pack_basename: "validname123".to_owned(),
            marker: "x".to_owned(),
        },
        State::AwaitingDeleteTarget,
    ];
    for st in states {
        let (next, eff) = step(st, Input::Command(Command::Cancel));
        assert_eq!(next, State::Idle);
        assert_eq!(eff, Effect::Cancelled);
        // Re-entering create finds a fresh session with nothing captured.
        let (again, eff2) = step(next, Input::Command(Command::Create));
        assert_eq!(again, State::AwaitingPackId);
        assert_eq!(eff2, Effect::PromptPackId);
    }
}

#[test]
fn cancel_in_idle_is_a_no_op() {
    let (next, eff) = step(State::Idle, Input::Command(Command::Cancel));
    assert_eq!(next, State::Idle);
    assert_eq!(eff, Effect::Cancelled);
}

#[test]
fn unrelated_input_in_idle_is_ignored() {
    let (next, eff) = step(State::Idle, text("hello"));
    assert_eq!(next, State::Idle);
    assert_eq!(eff, Effect::Ignored);

    let (next, eff) = step(State::Idle, Input::Unsupported);
    assert_eq!(next, State::Idle);
    assert_eq!(eff, Effect::Ignored);
}

#[test]
fn full_id_derivation() {
    let full = derive_full_id(&"my-cool-emojis".to_owned(), &"someBot".to_owned());
    assert_eq!(full, "my-cool-emojis_by_someBot");
}

#[test]
fn bot_identity_fallback() {
    assert_eq!(resolve_bot_identity(Some("realBot".to_owned())), "realBot");
    assert_eq!(resolve_bot_identity(None), "helloWorldBot");
}

#[test]
fn announce_logs_prompts_and_skips_work_effects() {
    let mut log = ReplyLog::new();
    assert!(announce(&mut log, &Effect::PromptPackId));
    assert!(announce(
        &mut log,
        &Effect::RunPipeline { pack_basename: "validname123".to_owned(), marker: "x".to_owned() }
    ));
    assert_eq!(log.messages.len(), 1);
    assert_eq!(
        log.messages[0],
        "Send me the identifier for your pack - something like \"my-cool-emojis\"."
    );
}

#[test]
fn prompt_texts_exist_exactly_for_message_effects() {
    assert!(Effect::Cancelled.prompt().is_some());
    assert!(Effect::ReportDeleted.prompt().is_some());
    assert!(Effect::RetryDelete.prompt().is_some());
    assert!(Effect::Ignored.prompt().is_none());
    assert!(
        Effect::RequestDelete { pack_name: "p".to_owned() }.prompt().is_none()
    );
}
