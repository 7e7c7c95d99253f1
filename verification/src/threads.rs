//! The conversations of a channel page, in the order the page lists them.

use vstd::prelude::*;
use crate::keyed::KeyedStore;
use crate::model::{ChatMessage, Conversation};

verus! {

/// One conversation as the page lists it.
#[derive(Clone, Debug, PartialEq, Eq)]
pub struct Thread {
    pub id: String,
    pub messages: Vec<ChatMessage>,
    pub show_replies: bool,
}

/// Whether the replies of the conversation `id` are shown: they are where
/// the options say so, and hidden where they say nothing.
pub open spec fn replies_shown(options: Map<Seq<char>, bool>, id: Seq<char>) -> bool {
    options.contains_key(id) && options[id]
}

/// Looks up whether the replies of the conversation `id` are shown.
pub fn shows_replies(options: &KeyedStore<bool>, id: &str) -> (b: bool)
    requires
        options.wf(),
    ensures
        b == replies_shown(options@, id@),
{
    match options.get(id) {
        Some(choice) => *choice,
        None => false,
    }
}

/// The messages in the opposite order.
pub fn reversed(messages: &Vec<ChatMessage>) -> (r: Vec<ChatMessage>)
    ensures
        r@ == messages@.reverse(),
{
    let n = messages.len();
    let mut out: Vec<ChatMessage> = Vec::new();
    let mut i: usize = 0;
    while i < n
        invariant
            n == messages.len(),
            i <= n,
            out.len() == i,
            forall|k: int| 0 <= k < i ==> out[k] == messages[n - 1 - k],
        decreases n - i,
    {
        out.push(messages[n - 1 - i].copy());
        i += 1;
    }
    assert(out@ =~= messages@.reverse());
    out
}

/// Whether `thread` lists `conversation` under the reply options.
pub open spec fn thread_of(thread: Thread, conversation: Conversation, options: Map<Seq<char>, bool>)
    -> bool {
    &&& thread.id == conversation.id
    &&& thread.messages@ == conversation.messages@.reverse()
    &&& thread.show_replies == replies_shown(options, conversation.id@)
}

/// Lists the conversations of a page, last conversation first, each with its
/// messages in the opposite of their stored order. Without conversations the
/// list is empty.
pub fn page_threads(conversations: Option<&Vec<Conversation>>, options: &KeyedStore<bool>) -> (r:
    Vec<Thread>)
    requires
        options.wf(),
    ensures
        match conversations {
            Some(list) => {
                &&& r.len() == list.len()
                &&& forall|k: int|
                    0 <= k < r.len() ==> thread_of(
                        #[trigger] r[k],
                        list[list.len() - 1 - k],
                        options@,
                    )
            },
            None => r.len() == 0,
        },
{
    let mut out: Vec<Thread> = Vec::new();
    match conversations {
        Some(list) => {
            let n = list.len();
            let mut i: usize = 0;
            while i < n
                invariant
                    n == list.len(),
                    i <= n,
                    options.wf(),
                    out.len() == i,
                    forall|k: int|
                        0 <= k < i ==> thread_of(#[trigger] out[k], list[n - 1 - k], options@),
                decreases n - i,
            {
                let conversation = &list[n - 1 - i];
                let thread = Thread {
                    id: conversation.id.clone(),
                    messages: reversed(&conversation.messages),
                    show_replies: shows_replies(options, conversation.id.as_str()),
                };
                out.push(thread);
                i += 1;
            }
        },
        None => {},
    }
    out
}

} // verus!
