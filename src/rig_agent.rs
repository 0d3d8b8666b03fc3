use vstd::prelude::*;
use vstd::string::StringExecFns;
use crate::chat_history::{
    ChatHistoryManager, ChatMessage, MessageView, Table, appended, history_of, log_view,
};
use crate::context::{build_prompt, prompt_of};

verus! {

/// Why a turn failed: the completion engine failed, with its message; nothing
/// was recorded.
#[derive(Debug)]
pub enum TurnError {
    Engine(String),
}

/// What a successful turn leaves to do: send `reply`, and write the user's
/// record after each of the two appends.
pub struct TurnRecords {
    pub reply: String,
    pub after_user: Vec<ChatMessage>,
    pub after_reply: Vec<ChatMessage>,
}

/// The user's message as recorded.
pub open spec fn user_message(content: Seq<char>, at: i64) -> MessageView {
    MessageView { role: "user"@, content, timestamp: at }
}

/// The engine's reply as recorded.
pub open spec fn assistant_message(reply: Seq<char>, at: i64) -> MessageView {
    MessageView { role: "assistant"@, content: reply, timestamp: at }
}

/// The table after a successful turn: the user's message, then the reply.
pub open spec fn after_turn(
    t: Table,
    user: Seq<char>,
    content: Seq<char>,
    reply: Seq<char>,
    user_at: i64,
    reply_at: i64,
) -> Table {
    appended(appended(t, user, user_message(content, user_at)), user, assistant_message(reply, reply_at))
}

/// Relies on chrono's `Utc::now` and `DateTime::timestamp`: the current time
/// in unix seconds. Nothing is promised of its value.
#[verifier::external_body]
fn now_unix() -> (r: i64) {
    chrono::Utc::now().timestamp()
}

/// Runs the turns of a conversation against the history store; the
/// completion engine itself is called by whoever drives the turn.
pub struct RigAgent {
    history_manager: ChatHistoryManager,
}

impl View for RigAgent {
    type V = Table;

    closed spec fn view(&self) -> Table {
        self.history_manager@
    }
}

impl RigAgent {
    pub closed spec fn wf(&self) -> bool {
        self.history_manager.wf()
    }

    pub fn new(history_manager: ChatHistoryManager) -> (r: RigAgent)
        requires
            history_manager.wf(),
        ensures
            r.wf(),
            r@ == history_manager@,
    {
        RigAgent { history_manager }
    }

    /// A copy of `user_id`'s log.
    pub fn get_history(&self, user_id: &str) -> (r: Vec<ChatMessage>)
        requires
            self.wf(),
        ensures
            log_view(r@) == history_of(self@, user_id@),
    {
        self.history_manager.get_history(user_id)
    }

    /// The prompt to send to the completion engine for `content` from
    /// `user_id`, with that user's whole conversation so far.
    pub fn prepare_prompt(&self, user_id: &str, content: &str) -> (r: String)
        requires
            self.wf(),
        ensures
            r@ == prompt_of(history_of(self@, user_id@), content@),
    {
        let history = self.history_manager.get_history(user_id);
        build_prompt(&history, content)
    }

    /// Finishes a turn with the engine's outcome `reply`. A failure is
    /// passed on and records nothing; a reply is recorded after the user's
    /// message, with the given times.
    pub fn record_turn(
        &mut self,
        user_id: &str,
        content: &str,
        reply: Result<String, String>,
        user_at: i64,
        reply_at: i64,
    ) -> (r: Result<TurnRecords, TurnError>)
        requires
            old(self).wf(),
        ensures
            final(self).wf(),
            match reply {
                Err(e) => r == Err::<TurnRecords, TurnError>(TurnError::Engine(e)) && final(self)@ == old(self)@,
                Ok(text) => match r {
                    Ok(c) => {
                        &&& c.reply@ == text@
                        &&& final(self)@ == after_turn(old(self)@, user_id@, content@, text@, user_at, reply_at)
                        &&& log_view(c.after_user@) == history_of(old(self)@, user_id@).push(
                            user_message(content@, user_at),
                        )
                        &&& log_view(c.after_reply@) == final(self)@[user_id@]
                    },
                    Err(_) => false,
                },
            },
    {
        match reply {
            Err(e) => Err(TurnError::Engine(e)),
            Ok(text) => {
                let question = ChatMessage::new(String::from_str("user"), String::from_str(content), user_at);
                let after_user = self.history_manager.add_message(user_id, question);
                let answer = ChatMessage::new(String::from_str("assistant"), text.clone(), reply_at);
                let after_reply = self.history_manager.add_message(user_id, answer);
                Ok(TurnRecords { reply: text, after_user, after_reply })
            },
        }
    }

    /// Finishes a turn as `record_turn` does, stamping each recorded message
    /// with the time at which it is appended.
    pub fn process_message(&mut self, user_id: &str, content: &str, reply: Result<String, String>) -> (r:
        Result<TurnRecords, TurnError>)
        requires
            old(self).wf(),
        ensures
            final(self).wf(),
            match reply {
                Err(e) => r == Err::<TurnRecords, TurnError>(TurnError::Engine(e)) && final(self)@ == old(self)@,
                Ok(text) => match r {
                    Ok(c) => c.reply@ == text@ && exists|user_at: i64, reply_at: i64|
                        final(self)@ == after_turn(old(self)@, user_id@, content@, text@, user_at, reply_at),
                    Err(_) => false,
                },
            },
    {
        let user_at = now_unix();
        let reply_at = now_unix();
        self.record_turn(user_id, content, reply, user_at, reply_at)
    }
}

} // verus!
