//! The outbound side of the conversation: the reply interface the core
//! speaks through, and the helper that sends an effect's canned prompt.

use vstd::prelude::*;
use vstd::string::StringExecFns;
use crate::dialogue::Effect;
use crate::dialogue::spec_prompt;

verus! {

/// What the core asks of the messaging transport: deliver a reply to the
/// user this session belongs to. `sent` abstracts the transport's outbox;
/// each delivery appends its text there, whether or not the transport
/// accepted it. The return value reports acceptance; the core never inspects
/// it further.
pub trait BotExt {
    /// The texts handed to the transport so far, oldest first.
    spec fn sent(&self) -> Seq<Seq<char>>;

    /// Sends plain text.
    fn reply_to(&mut self, contents: &str) -> (ok: bool)
        ensures
            final(self).sent() == old(self).sent().push(contents@),
    ;

    /// Sends MarkdownV2-formatted text.
    fn md_reply_to(&mut self, contents: &str) -> (ok: bool)
        ensures
            final(self).sent() == old(self).sent().push(contents@),
    ;
}

/// A reply sink that keeps every message in memory, newest last: the
/// in-process implementation of [`BotExt`] for runs without a transport.
pub struct ReplyLog {
    pub messages: Vec<String>,
}

impl ReplyLog {
    /// An empty log.
    pub fn new() -> (r: ReplyLog)
        ensures
            r.messages@.len() == 0,
            r.sent() == Seq::<Seq<char>>::empty(),
    {
        let log = ReplyLog { messages: Vec::new() };
        proof {
            assert(log.sent() =~= Seq::<Seq<char>>::empty());
        }
        log
    }
}

impl BotExt for ReplyLog {
    /// The views of the stored messages, in order.
    open spec fn sent(&self) -> Seq<Seq<char>> {
        self.messages@.map(|i: int, s: String| s@)
    }

    fn reply_to(&mut self, contents: &str) -> (ok: bool) {
        self.messages.push(contents.to_owned());
        proof {
            assert(self.sent() =~= old(self).sent().push(contents@));
        }
        true
    }

    fn md_reply_to(&mut self, contents: &str) -> (ok: bool) {
        self.messages.push(contents.to_owned());
        proof {
            assert(self.sent() =~= old(self).sent().push(contents@));
        }
        true
    }
}

/// Sends the canned message of the effect, if it has one, through the given
/// transport: an effect with a message hands exactly that text over, the
/// rest hand over nothing and succeed. Returns false only when the transport
/// refused the message.
pub fn announce<B: BotExt>(bot: &mut B, effect: &Effect) -> (ok: bool)
    ensures
        spec_prompt(*effect) matches Some(text) ==> final(bot).sent() == old(bot).sent().push(
            text,
        ),
        spec_prompt(*effect) is None ==> ok && final(bot).sent() == old(bot).sent(),
{
    match effect.prompt() {
        Some(message) => bot.reply_to(message),
        None => true,
    }
}

} // verus!
