//! The assistant: a conversation, the documents that bear on each query,
//! and the prompt that is put to the model.

use crate::base::{AuditMetadata, Error};
use crate::chat::{
    byte_len, last_n, stamped, ChatInterface, ChatMessage, ConversationStats, MessageMetadata,
    Role,
};
use crate::embeddings::EmbeddingGenerator;
use crate::rag::{prompt_text, ranked, Document, DocumentSource, RagSystem};
use crate::text::{clone_strings, push_text};
use std::sync::Arc;
use vstd::prelude::*;

verus! {

/// How the assistant is set up. The temperature is in hundredths: 70
/// stands for 0.7.
#[derive(Debug, Clone)]
pub struct LlmConfig {
    pub model: String,
    pub api_url: Option<String>,
    pub api_key: Option<String>,
    pub temperature: u32,
    pub max_tokens: usize,
    pub use_rag: bool,
    pub rag_top_k: usize,
    pub max_history: usize,
    pub embedding_dim: usize,
}

impl Default for LlmConfig {
    fn default() -> (r: LlmConfig)
        ensures
            r.model@ == "local"@,
            r.api_url is None,
            r.api_key is None,
            r.temperature == 70,
            r.max_tokens == 2048,
            r.use_rag,
            r.rag_top_k == 5,
            r.max_history == 10,
            r.embedding_dim == 384,
    {
        LlmConfig {
            model: "local".to_owned(),
            api_url: None,
            api_key: None,
            temperature: 70,
            max_tokens: 2048,
            use_rag: true,
            rag_top_k: 5,
            max_history: 10,
            embedding_dim: 384,
        }
    }
}

/// What the assistant answers. The confidence is in hundredths of a
/// percent: 10000 is certainty.
#[derive(Debug, Clone)]
pub struct ChatResponse {
    pub response: String,
    pub sources: Vec<String>,
    pub confidence: i32,
    pub tokens_used: usize,
}

/// The assistant.
pub struct PersonalControllerLlm {
    config: LlmConfig,
    chat_interface: ChatInterface,
    rag_system: RagSystem,
    embedding_generator: Arc<EmbeddingGenerator>,
}

/// A text as `Debug` shows it: in double quotes, with escapes.
pub uninterp spec fn quoted(s: Seq<char>) -> Seq<char>;

/// `format!` with `{:?}` on a string slice: the text as `Debug` shows
/// it, a function of the text alone.
#[verifier::external_body]
fn debug_quoted(s: &str) -> (r: String)
    ensures
        r@ == quoted(s@),
{
    format!("{:?}", s)
}

/// The source of a document as `Debug` shows it: the kind of record,
/// then its key in brackets and quotes.
pub open spec fn source_text(source: DocumentSource) -> Seq<char> {
    match source {
        DocumentSource::FreightOrder(key) => "FreightOrder("@ + quoted(key@) + ")"@,
        DocumentSource::Company(key) => "Company("@ + quoted(key@) + ")"@,
        DocumentSource::Timesheet(key) => "Timesheet("@ + quoted(key@) + ")"@,
        DocumentSource::Route(key) => "Route("@ + quoted(key@) + ")"@,
        DocumentSource::Other(key) => "Other("@ + quoted(key@) + ")"@,
    }
}

/// The sources of the documents, in order.
pub open spec fn source_texts(docs: Seq<Document>) -> Seq<Seq<char>> {
    Seq::new(docs.len(), |i: int| source_text(docs[i].source))
}

/// What stands in for the model's answer.
pub open spec fn placeholder_response(model: Seq<char>) -> Seq<char> {
    "Esta é uma resposta gerada pela Personal-Controller-LLM. Em produção, aqui seria usada a inferência real do modelo "@
        + model + "."@
}

/// What the assistant is told before the conversation starts.
pub open spec fn system_message() -> Seq<char> {
    "Você é a Personal-Controller-LLM, uma IA especializada da Ávila Transportes. Responda sempre em português, de forma clara e objetiva."@
}

/// The documents that go with a query: the best of what the index
/// found, or none where retrieval is switched off.
pub open spec fn context_of(config: LlmConfig, matches: Seq<Document>) -> Seq<Document> {
    if config.use_rag {
        ranked(matches, config.rag_top_k as nat)
    } else {
        seq![]
    }
}

/// The prompt that is put to the model for a query and its documents;
/// without documents it is the prompt for the query alone.
pub open spec fn chat_prompt(query: Seq<char>, docs: Seq<Document>) -> Seq<char> {
    prompt_text(query, docs)
}

/// The tokens that a prompt and its answer are counted as: a quarter of
/// their bytes.
pub open spec fn token_estimate(prompt: Seq<char>, response: Seq<char>) -> usize {
    ((byte_len(prompt) + byte_len(response)) / 4) as usize
}

/// What a conversation holds after two messages went on record, one
/// after the other.
pub open spec fn recorded_twice(
    messages: Seq<ChatMessage>,
    first: ChatMessage,
    second: ChatMessage,
    limit: nat,
) -> Seq<ChatMessage> {
    last_n(last_n(messages.push(first), limit).push(second), limit)
}

/// `message` is the assistant's answer to a query as it goes on record:
/// the answer's text, with the tokens it is counted as, the model, the
/// confidence and the sources.
pub open spec fn is_answer(
    message: ChatMessage,
    config: LlmConfig,
    query: Seq<char>,
    matches: Seq<Document>,
) -> bool {
    let docs = context_of(config, matches);
    &&& message.role == Role::Assistant
    &&& message.content@ == placeholder_response(config.model@)
    &&& message.metadata matches Some(metadata)
    &&& metadata.tokens_used == Some(token_estimate(chat_prompt(query, docs), message.content@))
    &&& metadata.model matches Some(model)
    &&& model@ == config.model@
    &&& metadata.confidence == Some(8500i32)
    &&& metadata.sources.deep_view() == source_texts(docs)
}

/// The source of a document as `Debug` shows it.
pub fn describe_source(source: &DocumentSource) -> (r: String)
    ensures
        r@ == source_text(*source),
{
    let mut r = String::new();
    let key = match source {
        DocumentSource::FreightOrder(key) => {
            push_text(&mut r, "FreightOrder(");
            key
        },
        DocumentSource::Company(key) => {
            push_text(&mut r, "Company(");
            key
        },
        DocumentSource::Timesheet(key) => {
            push_text(&mut r, "Timesheet(");
            key
        },
        DocumentSource::Route(key) => {
            push_text(&mut r, "Route(");
            key
        },
        DocumentSource::Other(key) => {
            push_text(&mut r, "Other(");
            key
        },
    };
    let shown = debug_quoted(key.as_str());
    push_text(&mut r, shown.as_str());
    push_text(&mut r, ")");
    assert(r@ =~= source_text(*source));
    r
}

impl PersonalControllerLlm {
    /// How the assistant is set up.
    pub closed spec fn settings(&self) -> LlmConfig {
        self.config
    }

    /// The conversation so far.
    pub closed spec fn conversation(&self) -> ChatInterface {
        self.chat_interface
    }

    /// The generator that embeds texts for the assistant.
    pub closed spec fn generator(&self) -> EmbeddingGenerator {
        *self.embedding_generator
    }

    /// An assistant with an empty conversation that keeps ten messages.
    pub fn new(config: LlmConfig) -> (r: Result<PersonalControllerLlm, Error>)
        ensures
            r matches Ok(llm) && llm.settings() == config && llm.conversation().messages().len()
                == 0 && llm.conversation().limit() == 10 && llm.generator().size() == 384,
    {
        let generator = match EmbeddingGenerator::new() {
            Ok(g) => Arc::new(g),
            Err(e) => {
                return Err(e);
            },
        };
        let rag_system = RagSystem::with_embeddings(generator.clone());
        Ok(
            PersonalControllerLlm {
                config,
                chat_interface: ChatInterface::with_max_history(10),
                rag_system,
                embedding_generator: generator,
            },
        )
    }

    /// Opens the conversation with what the assistant is told about
    /// itself.
    pub fn initialize(&mut self) -> (r: Result<(), Error>)
        ensures
            r is Ok,
            final(self).settings() == old(self).settings(),
            final(self).generator() == old(self).generator(),
            final(self).conversation().limit() == old(self).conversation().limit(),
            exists|timestamp: i64, content: String|
                content@ == system_message() && final(self).conversation().messages() == last_n(
                    old(self).conversation().messages().push(
                        #[trigger] stamped(Role::System, content, timestamp, None),
                    ),
                    old(self).conversation().limit() as nat,
                ),
    {
        let content =
            "Você é a Personal-Controller-LLM, uma IA especializada da Ávila Transportes. Responda sempre em português, de forma clara e objetiva.".to_owned();
        self.chat_interface.add_message(Role::System, content);
        Ok(())
    }

    /// What stands in for the model's answer to a prompt.
    pub fn generate_response(&self, prompt: &str) -> (r: Result<String, Error>)
        ensures
            r matches Ok(text) && text@ == placeholder_response(self.settings().model@),
    {
        let mut r = String::new();
        push_text(
            &mut r,
            "Esta é uma resposta gerada pela Personal-Controller-LLM. Em produção, aqui seria usada a inferência real do modelo ",
        );
        push_text(&mut r, self.config.model.as_str());
        push_text(&mut r, ".");
        assert(r@ =~= placeholder_response(self.config.model@));
        Ok(r)
    }

    /// Answers a query. `matches` is what the index found for it; the
    /// best of them go into the prompt and are named as sources. Query
    /// and answer go on record.
    pub fn chat(&mut self, query: &str, matches: Vec<Document>) -> (r: Result<ChatResponse, Error>)
        ensures
            final(self).settings() == old(self).settings(),
            final(self).generator() == old(self).generator(),
            final(self).conversation().limit() == old(self).conversation().limit(),
            r matches Ok(answer) && ({
                let docs = context_of(old(self).settings(), matches@);
                &&& answer.response@ == placeholder_response(old(self).settings().model@)
                &&& answer.sources.deep_view() == source_texts(docs)
                &&& answer.confidence == 8500
                &&& answer.tokens_used == token_estimate(
                    chat_prompt(query@, docs),
                    answer.response@,
                )
            }),
            final(self).conversation().wf(),
            exists|asked: ChatMessage, answered: ChatMessage|
                {
                    &&& asked.role == Role::User
                    &&& asked.content@ == query@
                    &&& asked.metadata is None
                    &&& is_answer(answered, old(self).settings(), query@, matches@)
                    &&& final(self).conversation().messages() == #[trigger] recorded_twice(
                        old(self).conversation().messages(),
                        asked,
                        answered,
                        old(self).conversation().limit() as nat,
                    )
                },
    {
        let asked = ChatMessage {
            role: Role::User,
            content: query.to_owned(),
            timestamp: AuditMetadata::now().created_at,
            metadata: None,
        };
        let ghost asked_message = asked;
        self.chat_interface.record(asked);
        let documents = if self.config.use_rag {
            match self.rag_system.retrieve_context(matches, self.config.rag_top_k) {
                Ok(docs) => docs,
                Err(e) => {
                    return Err(e);
                },
            }
        } else {
            Vec::new()
        };
        assert(documents@ =~= context_of(self.config, matches@));
        let prompt = if documents.len() == 0 {
            assert(documents@ =~= Seq::<Document>::empty());
            self.rag_system.build_simple_prompt(query)
        } else {
            self.rag_system.build_prompt(query, &documents)
        };
        let response_text = match self.generate_response(prompt.as_str()) {
            Ok(text) => text,
            Err(e) => {
                return Err(e);
            },
        };
        let mut sources: Vec<String> = Vec::new();
        let mut i: usize = 0;
        while i < documents.len()
            invariant
                i <= documents.len(),
                sources.deep_view() == source_texts(documents@.take(i as int)),
            decreases documents.len() - i,
        {
            let ghost before = sources.deep_view();
            let shown = describe_source(&documents[i].source);
            sources.push(shown);
            i += 1;
            proof {
                let now = source_texts(documents@.take(i as int));
                assert(sources.deep_view() =~= before.push(shown@));
                assert(now.len() == i);
                assert forall|k: int| 0 <= k < i implies #[trigger] now[k] == before.push(
                    shown@,
                )[k] by {
                    assert(documents@.take(i as int)[k] == documents@[k]);
                    if k < i - 1 {
                        assert(documents@.take(i - 1)[k] == documents@[k]);
                        assert(before[k] == source_text(documents@.take(i - 1)[k].source));
                    }
                }
                assert(now =~= before.push(shown@));
            }
        }
        assert(documents@.take(documents.len() as int) =~= documents@);
        let total: u128 = prompt.as_str().len() as u128 + response_text.as_str().len() as u128;
        let tokens_used: usize = (total / 4) as usize;
        let metadata = MessageMetadata {
            tokens_used: Some(tokens_used),
            model: Some(self.config.model.clone()),
            confidence: Some(8500),
            sources: clone_strings(&sources),
        };
        let answered = ChatMessage {
            role: Role::Assistant,
            content: response_text.clone(),
            timestamp: AuditMetadata::now().created_at,
            metadata: Some(metadata),
        };
        let ghost answered_message = answered;
        self.chat_interface.record(answered);
        proof {
            assert(is_answer(answered_message, old(self).settings(), query@, matches@));
            assert(self.chat_interface.messages() == recorded_twice(
                old(self).conversation().messages(),
                asked_message,
                answered_message,
                old(self).conversation().limit() as nat,
            ));
        }
        Ok(ChatResponse { response: response_text, sources, confidence: 8500, tokens_used })
    }

    /// The messages of the conversation, oldest first.
    pub fn get_history(&self) -> (r: &[ChatMessage])
        ensures
            r@ == self.conversation().messages(),
    {
        self.chat_interface.get_history()
    }

    /// Forgets the conversation.
    pub fn clear_history(&mut self) -> (r: Result<(), Error>)
        ensures
            r is Ok,
            final(self).settings() == old(self).settings(),
            final(self).generator() == old(self).generator(),
            final(self).conversation().messages().len() == 0,
            final(self).conversation().limit() == old(self).conversation().limit(),
    {
        self.chat_interface.clear_history();
        Ok(())
    }

    /// What the conversation amounts to.
    pub fn get_stats(&self) -> (r: ConversationStats)
        ensures
            r.user_messages == crate::chat::role_count(
                self.conversation().messages(),
                Role::User,
            ),
            r.assistant_messages == crate::chat::role_count(
                self.conversation().messages(),
                Role::Assistant,
            ),
            r.system_messages == crate::chat::role_count(
                self.conversation().messages(),
                Role::System,
            ),
            r.total_chars == crate::chat::capped(
                crate::chat::content_bytes(self.conversation().messages()),
            ),
            r.total_tokens == crate::chat::capped(
                crate::chat::tokens_used(self.conversation().messages()),
            ),
    {
        self.chat_interface.get_stats()
    }

    /// The generator that embeds texts for the assistant.
    pub fn embedding_generator(&self) -> (r: &EmbeddingGenerator)
        ensures
            *r == self.generator(),
    {
        &self.embedding_generator
    }
}

} // verus!
