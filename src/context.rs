use vstd::prelude::*;
use vstd::string::StringExecFns;
use crate::chat_history::{ChatMessage, MessageView, log_view};

verus! {

/// One message as a line of the prompt: `role: content`.
pub open spec fn line_of(m: MessageView) -> Seq<char> {
    m.role + ": "@ + m.content
}

/// The lines of every message, joined by newlines.
pub open spec fn lines_of(h: Seq<MessageView>) -> Seq<char>
    decreases h.len(),
{
    if h.len() == 0 {
        Seq::empty()
    } else if h.len() == 1 {
        line_of(h[0])
    } else {
        lines_of(h.drop_last()) + "\n"@ + line_of(h.last())
    }
}

/// The prompt for `content` after the conversation `h`: the message alone
/// when there is no earlier conversation.
pub open spec fn prompt_of(h: Seq<MessageView>, content: Seq<char>) -> Seq<char> {
    if h.len() == 0 {
        content
    } else {
        "Previous conversation:\n"@ + lines_of(h) + "\n\nCurrent message: "@ + content
    }
}

/// The lines of `history`, joined by newlines.
pub fn format_history(history: &Vec<ChatMessage>) -> (r: String)
    ensures
        r@ == lines_of(log_view(history@)),
{
    let mut r = String::new();
    let n = history.len();
    for i in 0..n
        invariant
            n == history@.len(),
            r@ == lines_of(log_view(history@.take(i as int))),
    {
        let ghost before = log_view(history@.take(i as int));
        let ghost after = log_view(history@.take(i + 1));
        if i > 0 {
            r.append("\n");
        }
        r.append(history[i].role.as_str());
        r.append(": ");
        r.append(history[i].content.as_str());
        proof {
            assert(after.drop_last() =~= before);
            assert(after.last() == history@[i as int]@);
            if i == 0 {
                assert(before =~= Seq::<MessageView>::empty());
                assert(r@ =~= lines_of(after));
            } else {
                assert(r@ =~= lines_of(after));
            }
        }
    }
    assert(history@.take(n as int) =~= history@);
    r
}

/// The prompt for `content` given the earlier conversation `history`.
pub fn build_prompt(history: &Vec<ChatMessage>, content: &str) -> (r: String)
    ensures
        r@ == prompt_of(log_view(history@), content@),
{
    if history.len() == 0 {
        return String::from_str(content);
    }
    let context = format_history(history);
    let mut r = String::from_str("Previous conversation:\n");
    r.append(context.as_str());
    r.append("\n\nCurrent message: ");
    r.append(content);
    r
}

} // verus!
