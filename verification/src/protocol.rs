//! The messages that the example tasks exchange, and what each side checks
//! of what it receives.

use vstd::prelude::*;

verus! {

/// A message of at most two message registers: its label, its length in
/// registers, and the registers themselves (unused ones are 0).
#[derive(PartialEq, Eq, Structural, Clone, Copy, Debug)]
pub struct Message {
    pub label: u64,
    pub length: usize,
    pub mr0: u64,
    pub mr1: u64,
}

/// The Microkit channel on which the client reaches the server.
pub const SERVER_CHANNEL: usize = 13;

/// The Microkit channel on which the server reaches the client.
pub const CLIENT_CHANNEL: usize = 37;

/// The word the client sends the server.
pub const CLIENT_REQUEST_WORD: u64 = 0xf00d;

/// The word the server answers with.
pub const SERVER_REPLY_WORD: u64 = 0xf33d;

/// The client's protected call: label 0, one register holding the request word.
pub open spec fn spec_client_request() -> Message {
    Message { label: 0, length: 1, mr0: CLIENT_REQUEST_WORD, mr1: 0 }
}

/// The server's answer: label 0, one register holding the reply word.
pub open spec fn spec_server_reply() -> Message {
    Message { label: 0, length: 1, mr0: SERVER_REPLY_WORD, mr1: 0 }
}

/// The server serves a call of exactly one register that holds the request word.
pub open spec fn server_accepts(request: Message) -> bool {
    request.length == 1 && request.mr0 == CLIENT_REQUEST_WORD
}

/// The client takes an answer of exactly one register that holds the reply word.
pub open spec fn client_accepts(reply: Message) -> bool {
    reply.length == 1 && reply.mr0 == SERVER_REPLY_WORD
}

/// The client's answer to a notification: when the server's channel is
/// among those that notified it, it makes its protected call to the server.
pub fn client_notified(notified_by_server: bool) -> (call: Option<Message>)
    ensures
        call == (if notified_by_server {
            Some(spec_client_request())
        } else {
            None
        }),
        call is Some <==> notified_by_server,
        call matches Some(m) ==> m == (Message { label: 0, length: 1, mr0: 0xf00d, mr1: 0 }),
{
    if notified_by_server {
        Some(Message { label: 0, length: 1, mr0: CLIENT_REQUEST_WORD, mr1: 0 })
    } else {
        None
    }
}

/// Whether the client takes the server's answer.
pub fn client_check_reply(reply: Message) -> (ok: bool)
    ensures
        ok == client_accepts(reply),
        ok <==> (reply.length == 1 && reply.mr0 == 0xf33d),
{
    reply.length == 1 && reply.mr0 == SERVER_REPLY_WORD
}

/// The server's answer to a protected call, or `None` for a call it
/// refuses.
pub fn server_protected(request: Message) -> (reply: Option<Message>)
    ensures
        reply == (if server_accepts(request) {
            Some(spec_server_reply())
        } else {
            None
        }),
        reply is Some <==> (request.length == 1 && request.mr0 == 0xf00d),
        reply matches Some(r) ==> r == (Message { label: 0, length: 1, mr0: 0xf33d, mr1: 0 }),
{
    if request.length == 1 && request.mr0 == CLIENT_REQUEST_WORD {
        Some(Message { label: 0, length: 1, mr0: SERVER_REPLY_WORD, mr1: 0 })
    } else {
        None
    }
}

/// A round trip succeeds: the server serves the client's call, and the
/// client takes the server's answer.
pub proof fn lemma_client_server_round_trip()
    ensures
        server_accepts(spec_client_request()),
        client_accepts(spec_server_reply()),
{
}

/// The message a secondary thread sends its primary: label 123, two
/// registers holding 456 and 789.
pub open spec fn spec_secondary_thread_message() -> Message {
    Message { label: 123, length: 2, mr0: 456, mr1: 789 }
}

/// The primary takes exactly the secondary's message.
pub open spec fn primary_accepts(msg: Message) -> bool {
    msg == spec_secondary_thread_message()
}

/// The message a secondary thread sends.
pub fn secondary_thread_message() -> (msg: Message)
    ensures
        msg == spec_secondary_thread_message(),
        msg == (Message { label: 123, length: 2, mr0: 456, mr1: 789 }),
{
    Message { label: 123, length: 2, mr0: 456, mr1: 789 }
}

/// Whether the primary thread takes a received message.
pub fn primary_check_message(msg: Message) -> (ok: bool)
    ensures
        ok == primary_accepts(msg),
        ok <==> (msg.label == 123 && msg.length == 2 && msg.mr0 == 456 && msg.mr1 == 789),
{
    msg.label == 123 && msg.length == 2 && msg.mr0 == 456 && msg.mr1 == 789
}

/// The primary thread takes what the secondary thread sends.
pub proof fn lemma_secondary_message_accepted()
    ensures
        primary_accepts(spec_secondary_thread_message()),
{
}

/// The word a child task sends its parent.
pub const CHILD_GREETING_WORD: u64 = 1337;

/// The child's message: label 0, one register holding the greeting word.
pub open spec fn spec_child_message() -> Message {
    Message { label: 0, length: 1, mr0: CHILD_GREETING_WORD, mr1: 0 }
}

/// The parent takes a message of one register holding the greeting word.
pub open spec fn parent_accepts(msg: Message) -> bool {
    msg.length == 1 && msg.mr0 == CHILD_GREETING_WORD
}

/// The message a child task sends.
pub fn child_message() -> (msg: Message)
    ensures
        msg == spec_child_message(),
        msg == (Message { label: 0, length: 1, mr0: 1337, mr1: 0 }),
{
    Message { label: 0, length: 1, mr0: CHILD_GREETING_WORD, mr1: 0 }
}

/// Whether the parent task takes a received message.
pub fn parent_check_message(msg: Message) -> (ok: bool)
    ensures
        ok == parent_accepts(msg),
        ok <==> (msg.length == 1 && msg.mr0 == 1337),
{
    msg.length == 1 && msg.mr0 == CHILD_GREETING_WORD
}

/// The parent takes what the child sends.
pub proof fn lemma_child_message_accepted()
    ensures
        parent_accepts(spec_child_message()),
{
}

/// What each side accepts, spelled out: the server a one-register call
/// holding 0xf00d, the client a one-register answer holding 0xf33d, the
/// primary thread exactly label 123 with registers 456 and 789, and the
/// parent a one-register message holding 1337. The messages sent are
/// exactly those.
pub proof fn lemma_accepted_messages(m: Message)
    ensures
        server_accepts(m) <==> (m.length == 1 && m.mr0 == 0xf00d),
        client_accepts(m) <==> (m.length == 1 && m.mr0 == 0xf33d),
        primary_accepts(m) <==> (m.label == 123 && m.length == 2 && m.mr0 == 456 && m.mr1
            == 789),
        parent_accepts(m) <==> (m.length == 1 && m.mr0 == 1337),
        spec_client_request() == (Message { label: 0, length: 1, mr0: 0xf00d, mr1: 0 }),
        spec_server_reply() == (Message { label: 0, length: 1, mr0: 0xf33d, mr1: 0 }),
        spec_secondary_thread_message() == (Message { label: 123, length: 2, mr0: 456, mr1: 789 }),
        spec_child_message() == (Message { label: 0, length: 1, mr0: 1337, mr1: 0 }),
{
}

/// The badge the root task mints on a notification capability.
pub const NOTIFICATION_BADGE: u64 = 0x1337;

} // verus!
