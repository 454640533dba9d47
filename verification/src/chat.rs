//! A conversation and its bounded history.

use crate::base::AuditMetadata;
use crate::text::push_text;
use vstd::prelude::*;
use vstd::utf8::encode_utf8;

verus! {

/// Who speaks.
#[derive(Debug, Clone, Copy, PartialEq, Eq, Structural)]
pub enum Role {
    User,
    Assistant,
    System,
}

impl Role {
    /// The speaker's name in a transcript.
    pub open spec fn label(&self) -> Seq<char> {
        match self {
            Role::User => "Usuário"@,
            Role::Assistant => "Assistente"@,
            Role::System => "Sistema"@,
        }
    }

    /// The speaker's name in a transcript.
    pub fn as_label(&self) -> (r: &'static str)
        ensures
            r@ == self.label(),
    {
        match self {
            Role::User => "Usuário",
            Role::Assistant => "Assistente",
            Role::System => "Sistema",
        }
    }
}

/// What is known about how a message came to be. The confidence is in
/// hundredths of a percent: 10000 is certainty.
#[derive(Debug, Clone)]
pub struct MessageMetadata {
    pub tokens_used: Option<usize>,
    pub model: Option<String>,
    pub confidence: Option<i32>,
    pub sources: Vec<String>,
}

/// One message of a conversation. The time is in milliseconds since the
/// Unix epoch.
#[derive(Debug, Clone)]
pub struct ChatMessage {
    pub role: Role,
    pub content: String,
    pub timestamp: i64,
    pub metadata: Option<MessageMetadata>,
}

/// What a conversation amounts to. Sums that leave the range of `usize`
/// stand at `usize::MAX`.
#[derive(Debug, Clone)]
pub struct ConversationStats {
    pub user_messages: usize,
    pub assistant_messages: usize,
    pub system_messages: usize,
    pub total_chars: usize,
    pub total_tokens: usize,
}

impl Default for ConversationStats {
    fn default() -> (r: ConversationStats)
        ensures
            r.user_messages == 0,
            r.assistant_messages == 0,
            r.system_messages == 0,
            r.total_chars == 0,
            r.total_tokens == 0,
    {
        ConversationStats {
            user_messages: 0,
            assistant_messages: 0,
            system_messages: 0,
            total_chars: 0,
            total_tokens: 0,
        }
    }
}

/// A conversation that keeps its latest messages, up to a limit.
pub struct ChatInterface {
    history: Vec<ChatMessage>,
    max_history: usize,
}

/// The last `n` elements of `s`, or all of `s` where it has fewer.
pub open spec fn last_n<T>(s: Seq<T>, n: nat) -> Seq<T> {
    if n >= s.len() {
        s
    } else {
        s.skip(s.len() - n)
    }
}

/// The number of messages by `role`.
pub open spec fn role_count(messages: Seq<ChatMessage>, role: Role) -> nat
    decreases messages.len(),
{
    if messages.len() == 0 {
        0
    } else if messages.last().role == role {
        role_count(messages.drop_last(), role) + 1
    } else {
        role_count(messages.drop_last(), role)
    }
}

/// The number of bytes that a text takes in UTF-8, as a `usize`.
pub open spec fn byte_len(text: Seq<char>) -> usize {
    encode_utf8(text).len() as usize
}

/// The number of bytes that the contents of the messages take in UTF-8.
pub open spec fn content_bytes(messages: Seq<ChatMessage>) -> nat
    decreases messages.len(),
{
    if messages.len() == 0 {
        0
    } else {
        content_bytes(messages.drop_last()) + (byte_len(messages.last().content@) as nat)
    }
}

/// The tokens that a message is known to have used.
pub open spec fn tokens_of(message: ChatMessage) -> nat {
    match message.metadata {
        Some(metadata) => match metadata.tokens_used {
            Some(n) => n as nat,
            None => 0,
        },
        None => 0,
    }
}

/// The tokens that the messages are known to have used.
pub open spec fn tokens_used(messages: Seq<ChatMessage>) -> nat
    decreases messages.len(),
{
    if messages.len() == 0 {
        0
    } else {
        tokens_used(messages.drop_last()) + tokens_of(messages.last())
    }
}

/// `n`, or `usize::MAX` where `n` is above it.
pub open spec fn capped(n: nat) -> usize {
    if n > usize::MAX {
        usize::MAX
    } else {
        n as usize
    }
}

/// The message with the given content that was made at `timestamp`.
pub open spec fn stamped(
    role: Role,
    content: String,
    timestamp: i64,
    metadata: Option<MessageMetadata>,
) -> ChatMessage {
    ChatMessage { role, content, timestamp, metadata }
}

/// One message as a transcript shows it.
pub open spec fn transcript_entry(message: ChatMessage) -> Seq<char> {
    message.role.label() + ": "@ + message.content@ + "\n\n"@
}

/// The first `upto` messages as a transcript shows them.
pub open spec fn transcript(messages: Seq<ChatMessage>, upto: int) -> Seq<char>
    decreases upto,
{
    if upto <= 0 {
        Seq::empty()
    } else {
        transcript(messages, upto - 1) + transcript_entry(messages[upto - 1])
    }
}

impl ChatInterface {
    /// The messages that are kept, oldest first.
    pub closed spec fn messages(&self) -> Seq<ChatMessage> {
        self.history@
    }

    /// The number of messages that are kept at most.
    pub closed spec fn limit(&self) -> usize {
        self.max_history
    }

    /// No more messages are kept than the limit allows.
    pub open spec fn wf(&self) -> bool {
        self.messages().len() <= self.limit()
    }

    /// An empty conversation that keeps up to 100 messages.
    pub fn new() -> (r: ChatInterface)
        ensures
            r.messages().len() == 0,
            r.limit() == 100,
            r.wf(),
    {
        ChatInterface { history: Vec::new(), max_history: 100 }
    }

    /// An empty conversation that keeps up to `max_history` messages.
    pub fn with_max_history(max_history: usize) -> (r: ChatInterface)
        ensures
            r.messages().len() == 0,
            r.limit() == max_history,
            r.wf(),
    {
        ChatInterface { history: Vec::new(), max_history }
    }

    /// Appends a message and lets go of the oldest ones beyond the
    /// limit.
    pub fn record(&mut self, message: ChatMessage)
        ensures
            final(self).limit() == old(self).limit(),
            final(self).messages() == last_n(
                old(self).messages().push(message),
                old(self).limit() as nat,
            ),
            final(self).wf(),
    {
        self.history.push(message);
        if self.history.len() > self.max_history {
            let excess = self.history.len() - self.max_history;
            let kept = self.history.split_off(excess);
            self.history = kept;
        }
        assert(self.history@ =~= last_n(old(self).history@.push(message), self.max_history as nat));
    }

    /// Appends a message that is stamped with this moment.
    pub fn add_message(&mut self, role: Role, content: String)
        ensures
            final(self).limit() == old(self).limit(),
            final(self).wf(),
            exists|timestamp: i64|
                final(self).messages() == last_n(
                    old(self).messages().push(
                        #[trigger] stamped(role, content, timestamp, None),
                    ),
                    old(self).limit() as nat,
                ),
    {
        self.add_message_with_metadata(role, content, None);
    }

    /// Appends a message that is stamped with this moment and carries
    /// what is known about how it came to be.
    pub fn add_message_with_metadata(
        &mut self,
        role: Role,
        content: String,
        metadata: Option<MessageMetadata>,
    )
        ensures
            final(self).limit() == old(self).limit(),
            final(self).wf(),
            exists|timestamp: i64|
                final(self).messages() == last_n(
                    old(self).messages().push(
                        #[trigger] stamped(role, content, timestamp, metadata),
                    ),
                    old(self).limit() as nat,
                ),
    {
        let timestamp = AuditMetadata::now().created_at;
        let message = ChatMessage { role, content, timestamp, metadata };
        assert(message == stamped(role, content, timestamp, metadata));
        self.record(message);
    }

    /// The latest `max_messages` messages, oldest first.
    pub fn get_context(&self, max_messages: usize) -> (r: Vec<&ChatMessage>)
        ensures
            r@.len() == last_n(self.messages(), max_messages as nat).len(),
            forall|i: int|
                0 <= i < r@.len() ==> *#[trigger] r@[i] == last_n(
                    self.messages(),
                    max_messages as nat,
                )[i],
    {
        let n = self.history.len();
        let start = if max_messages >= n {
            0
        } else {
            n - max_messages
        };
        let mut r: Vec<&ChatMessage> = Vec::new();
        let mut i: usize = start;
        while i < n
            invariant
                start <= i <= n == self.history.len(),
                r@.len() == i - start,
                forall|k: int| 0 <= k < r@.len() ==> *#[trigger] r@[k] == self.history@[start + k],
            decreases n - i,
        {
            r.push(&self.history[i]);
            i += 1;
        }
        r
    }

    /// All the messages that are kept, oldest first.
    pub fn get_history(&self) -> (r: &[ChatMessage])
        ensures
            r@ == self.messages(),
    {
        self.history.as_slice()
    }

    /// Forgets every message.
    pub fn clear_history(&mut self)
        ensures
            final(self).messages().len() == 0,
            final(self).limit() == old(self).limit(),
            final(self).wf(),
    {
        self.history.clear();
    }

    /// The number of messages that are kept.
    pub fn message_count(&self) -> (r: usize)
        ensures
            r == self.messages().len(),
    {
        self.history.len()
    }

    /// The latest messages as a transcript: speaker, colon, content and
    /// an empty line for each. With `None`, all messages.
    pub fn format_as_prompt(&self, max_messages: Option<usize>) -> (r: String)
        ensures
            r@ == (match max_messages {
                Some(max) => {
                    let shown = last_n(self.messages(), max as nat);
                    transcript(shown, shown.len() as int)
                },
                None => transcript(self.messages(), self.messages().len() as int),
            }),
    {
        let n = self.history.len();
        let start = match max_messages {
            Some(max) => if max >= n {
                0
            } else {
                n - max
            },
            None => 0,
        };
        let ghost shown = self.history@.skip(start as int);
        let mut prompt = String::new();
        let mut i: usize = start;
        while i < n
            invariant
                start <= i <= n == self.history.len(),
                shown == self.history@.skip(start as int),
                prompt@ == transcript(shown, i - start),
            decreases n - i,
        {
            let ghost before = prompt@;
            let message = &self.history[i];
            push_text(&mut prompt, message.role.as_label());
            push_text(&mut prompt, ": ");
            push_text(&mut prompt, message.content.as_str());
            push_text(&mut prompt, "\n\n");
            i += 1;
            assert(shown[i - start - 1] == self.history@[i - 1]);
            assert(prompt@ =~= before + transcript_entry(shown[i - start - 1]));
        }
        proof {
            if start == 0 {
                assert(shown =~= self.history@);
            }
        }
        prompt
    }

    /// What the conversation amounts to: the messages of each speaker,
    /// the bytes of all contents, the tokens that are known to have been
    /// used.
    pub fn get_stats(&self) -> (r: ConversationStats)
        ensures
            r.user_messages == role_count(self.messages(), Role::User),
            r.assistant_messages == role_count(self.messages(), Role::Assistant),
            r.system_messages == role_count(self.messages(), Role::System),
            r.total_chars == capped(content_bytes(self.messages())),
            r.total_tokens == capped(tokens_used(self.messages())),
    {
        let mut stats = ConversationStats::default();
        let n = self.history.len();
        let mut i: usize = 0;
        while i < n
            invariant
                i <= n == self.history.len(),
                stats.user_messages == role_count(self.history@.take(i as int), Role::User),
                stats.assistant_messages == role_count(
                    self.history@.take(i as int),
                    Role::Assistant,
                ),
                stats.system_messages == role_count(self.history@.take(i as int), Role::System),
                stats.user_messages <= i,
                stats.assistant_messages <= i,
                stats.system_messages <= i,
                stats.total_chars == capped(content_bytes(self.history@.take(i as int))),
                stats.total_tokens == capped(tokens_used(self.history@.take(i as int))),
            decreases n - i,
        {
            let message = &self.history[i];
            proof {
                assert(self.history@.take(i + 1).drop_last() =~= self.history@.take(i as int));
                assert(self.history@.take(i + 1).last() == *message);
            }
            match message.role {
                Role::User => {
                    stats.user_messages += 1;
                },
                Role::Assistant => {
                    stats.assistant_messages += 1;
                },
                Role::System => {
                    stats.system_messages += 1;
                },
            }
            stats.total_chars = stats.total_chars.saturating_add(message.content.as_str().len());
            match &message.metadata {
                Some(metadata) => {
                    match metadata.tokens_used {
                        Some(tokens) => {
                            stats.total_tokens = stats.total_tokens.saturating_add(tokens);
                        },
                        None => {},
                    }
                },
                None => {},
            }
            i += 1;
        }
        assert(self.history@.take(n as int) =~= self.history@);
        stats
    }
}

impl Default for ChatInterface {
    fn default() -> (r: ChatInterface)
        ensures
            r.messages().len() == 0,
            r.limit() == 100,
    {
        ChatInterface::new()
    }
}

} // verus!
