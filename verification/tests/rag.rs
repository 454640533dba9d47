use personal_controller::base::Embeddable;
use personal_controller::calendar::{Date, TimeOfDay};
use personal_controller::chat::{ChatInterface, ChatMessage, MessageMetadata, Role};
use personal_controller::company::{Company, CompanyType};
use personal_controller::embeddings::EmbeddingGenerator;
use personal_controller::freight::FreightOrder;
use personal_controller::llm::{describe_source, LlmConfig, PersonalControllerLlm};
use personal_controller::rag::{Document, DocumentSource, RagSystem};
use personal_controller::timesheet::Timesheet;
use std::collections::hash_map::DefaultHasher;
use std::hash::{Hash, Hasher};
use std::sync::Arc;

fn doc(id: &str, score: i32) -> Document {
    Document {
        id: id.to_string(),
        content: format!("content of {id}"),
        score,
        source: DocumentSource::Other(id.to_string()),
        metadata: None,
    }
}

fn ids(docs: &[Document]) -> Vec<&str> {
    docs.iter().map(|d| d.id.as_str()).collect()
}

#[test]
fn test_build_prompt() {
    let rag = RagSystem::new().unwrap();
    let prompt = rag.build_simple_prompt("What is the meaning of life?");
    assert!(prompt.contains("Personal-Controller-LLM"));
    assert!(prompt.contains("What is the meaning of life?"));
}

#[test]
fn test_chunk_text() {
    let rag = RagSystem::new().unwrap();
    let text = "one two three four five six seven eight nine ten";
    let chunks = rag.chunk_text(text, 3, 1);

    assert!(!chunks.is_empty());
    assert!(chunks[0].contains("one"));
}

#[test]
fn test_rag_creation() {
    let rag = RagSystem::new().unwrap();
    assert_eq!(rag.embedding_generator().dimension(), 384);
    let other = RagSystem::with_embeddings(Arc::new(
        EmbeddingGenerator::with_model("small".to_string(), 8).unwrap(),
    ));
    assert_eq!(other.embedding_generator().dimension(), 8);
}

#[test]
fn test_retrieve_context() {
    let rag = RagSystem::new().unwrap();
    let docs = rag.retrieve_context(Vec::new(), 5).unwrap();
    assert_eq!(docs.len(), 0);
}

#[test]
fn context_is_ranked_and_bounded() {
    let rag = RagSystem::new().unwrap();
    let found = vec![doc("a", 10), doc("b", 90), doc("c", 50), doc("d", 90), doc("e", -5)];
    assert_eq!(ids(&rag.retrieve_context(found.clone(), 3).unwrap()), vec!["b", "d", "c"]);
    assert_eq!(
        ids(&rag.retrieve_context(found.clone(), 10).unwrap()),
        vec!["b", "d", "c", "a", "e"]
    );
    assert_eq!(ids(&rag.retrieve_context(found.clone(), 1).unwrap()), vec!["b"]);
    assert!(rag.retrieve_context(found, 0).unwrap().is_empty());
    let ties = vec![doc("x", 1), doc("y", 1), doc("z", 1)];
    assert_eq!(ids(&rag.retrieve_context(ties, 2).unwrap()), vec!["x", "y"]);
}

#[test]
fn simple_prompt_is_exact() {
    let rag = RagSystem::new().unwrap();
    let expected = "Você é a Personal-Controller-LLM, uma IA especializada da Ávila Transportes.\n\n\
# Pergunta do Usuário\nQuantos fretes?\n\n\
# Instruções\n\
- Responda em português claro e objetivo\n\
- Use os documentos fornecidos como contexto\n\
- Se não tiver certeza, diga que não sabe\n\
- Cite as fontes quando relevante\n\n\
Resposta:";
    assert_eq!(rag.build_simple_prompt("Quantos fretes?"), expected);
    assert_eq!(rag.build_simple_prompt("Quantos fretes?"), rag.build_prompt("Quantos fretes?", &Vec::new()));
    assert_eq!(rag.build_simple_prompt(""), rag.build_prompt("", &Vec::new()));
}

#[test]
fn prompt_lists_documents_with_number_and_score() {
    let rag = RagSystem::new().unwrap();
    let docs = vec![doc("a", 8750), doc("b", 5), doc("c", -1234), doc("d", 10000)];
    let prompt = rag.build_prompt("Onde está o pedido?", &docs);
    let expected = "Você é a Personal-Controller-LLM, uma IA especializada da Ávila Transportes.\n\n\
# Contexto Relevante\n\n\
Documento 1 (relevância: 87.50%):\ncontent of a\n\n\
Documento 2 (relevância: 0.05%):\ncontent of b\n\n\
Documento 3 (relevância: -12.34%):\ncontent of c\n\n\
Documento 4 (relevância: 100.00%):\ncontent of d\n\n\
# Pergunta do Usuário\nOnde está o pedido?\n\n\
# Instruções\n\
- Responda em português claro e objetivo\n\
- Use os documentos fornecidos como contexto\n\
- Se não tiver certeza, diga que não sabe\n\
- Cite as fontes quando relevante\n\n\
Resposta:";
    assert_eq!(prompt, expected);
    let bare = rag.build_prompt("q", &Vec::new());
    assert!(!bare.contains("# Contexto Relevante"));
    assert!(bare.starts_with("Você é a Personal-Controller-LLM, uma IA"));
    assert!(bare.contains("# Pergunta do Usuário\nq\n\n# Instruções\n"));
    assert!(bare.ends_with("Resposta:"));
}

#[test]
fn scores_match_two_decimal_formatting() {
    let rag = RagSystem::new().unwrap();
    for score in [0, 1, 99, 100, 101, 8750, 9999, 10000, 123456] {
        let prompt = rag.build_prompt("q", &vec![doc("a", score)]);
        let shown = format!("(relevância: {:.2}%)", score as f64 / 100.0);
        assert!(prompt.contains(&shown), "{score}: {prompt}");
    }
}

#[test]
fn chunks_overlap_and_cover_the_text() {
    let rag = RagSystem::new().unwrap();
    let text = "one two three four five six seven eight nine ten";
    assert_eq!(
        rag.chunk_text(text, 3, 1),
        vec!["one two three", "three four five", "five six seven", "seven eight nine", "nine ten"]
    );
    assert_eq!(rag.chunk_text(text, 5, 0), vec!["one two three four five", "six seven eight nine ten"]);
    assert_eq!(rag.chunk_text(text, 10, 9), vec![text]);
    assert_eq!(rag.chunk_text(text, 100, 0), vec![text]);
    assert_eq!(rag.chunk_text("  a \n b\t", 1, 0), vec!["a", "b"]);
    assert_eq!(rag.chunk_text("a b c d", 3, 2), vec!["a b c", "b c d"]);
    assert!(rag.chunk_text("", 3, 1).is_empty());
    assert!(rag.chunk_text(" \n ", 3, 1).is_empty());
    assert_eq!(rag.chunk_text("a b", usize::MAX, 0), vec!["a b"]);
}

#[test]
fn test_deterministic_embedding() {
    let generator = EmbeddingGenerator::new().unwrap();
    let emb1 = generator.token_buckets("hello world");
    let emb2 = generator.token_buckets("hello world");

    // Should be exactly the same (deterministic)
    assert_eq!(emb1, emb2);
}

#[test]
fn words_fall_into_the_buckets_of_their_hashes() {
    let generator = EmbeddingGenerator::new().unwrap();
    assert_eq!(generator.dimension(), 384);
    let text = "Pedido de frete para São Paulo";
    let expected: Vec<usize> = text
        .split_whitespace()
        .map(|word| {
            let mut hasher = DefaultHasher::new();
            word.hash(&mut hasher);
            (hasher.finish() as usize) % 384
        })
        .collect();
    assert_eq!(generator.token_buckets(text), expected);
    assert_eq!(generator.bucket("frete"), expected[2]);
    assert!(generator.token_buckets("").is_empty());
    assert!(generator.token_buckets(" \t ").is_empty());
    let one = EmbeddingGenerator::with_model("m".to_string(), 1).unwrap();
    assert_eq!(one.token_buckets("a b c"), vec![0, 0, 0]);
    let small = EmbeddingGenerator::with_model("m".to_string(), 7).unwrap();
    assert!(small.token_buckets(text).iter().all(|&b| b < 7));
}

#[test]
fn preprocess_trims_and_lowers() {
    let generator = EmbeddingGenerator::new().unwrap();
    assert_eq!(generator.preprocess("  São PAULO \n"), "são paulo");
    assert_eq!(generator.preprocess(""), "");
}

#[test]
fn documents_of_records() {
    let date = Date::from_ymd_opt(2025, 4, 1).unwrap();
    let mut order = FreightOrder::new(
        "288415".into(),
        date,
        "Pagador".into(),
        "Remetente".into(),
        "Franca".into(),
        "Destino".into(),
        "Araras".into(),
    );
    order.valor_frete = "1234.56".into();
    order.notas_fiscais = vec!["1".into(), "2".into()];
    order.motorista_entrega = Some("Maria".into());
    let document = Document::from_freight_order(&order, 9000);
    assert_eq!(document.id, order.id);
    assert_eq!(document.score, 9000);
    assert_eq!(
        document.content,
        format!(
            "Ordem de Frete #{}\nNúmero: 288415\nRemetente: Remetente - Franca\nDestinatário: Destino - Araras\nValor do frete: R$ 1234.56\nStatus: Pending",
            order.id
        )
    );
    assert!(matches!(&document.source, DocumentSource::FreightOrder(n) if n == "288415"));
    let metadata = document.metadata.unwrap();
    assert_eq!(metadata.tags, vec!["freight", "order"]);
    assert_eq!(metadata.created_at, Some(order.metadata.created_at));
    assert_eq!(metadata.author, None);
    assert_eq!(
        order.to_embedding_text(),
        "Ordem 288415 de Franca para Araras pagador Pagador notas 1,2 valor 1234.56 motorista Maria"
    );
    assert_eq!(
        order.searchable_fields(),
        vec!["288415", "Pagador", "Remetente", "Franca", "Destino", "Araras", "1", "2", "Maria"]
    );

    let company =
        Company::new("ACME".into(), "Franca".into(), "SP".into(), CompanyType::Transportadora)
            .with_email("a@b.c".into());
    let document = Document::from_company(&company, 1);
    assert_eq!(
        document.content,
        "Empresa: ACME\nTipo: Transportadora\nCNPJ: N/A\nCidade: Franca - SP\nTelefone: N/A\nEmail: a@b.c"
    );
    assert!(matches!(&document.source, DocumentSource::Company(n) if n == "ACME"));
    assert_eq!(document.metadata.unwrap().tags, vec!["company", "transportadora"]);

    let sheet = Timesheet::new(
        "Ana".into(),
        "Jan".into(),
        Date::from_ymd_opt(2025, 1, 15).unwrap(),
        TimeOfDay::from_hms_opt(8, 0, 0).unwrap(),
        TimeOfDay::from_hms_opt(16, 30, 0).unwrap(),
    );
    let document = Document::from_timesheet(&sheet, 2);
    assert_eq!(
        document.content,
        "Registro de Ponto\nFuncionário: Ana\nData: 2025-01-15\nEntrada: 08:00:00\nSaída: 16:30:00\nHoras trabalhadas: 8.50"
    );
    assert!(matches!(&document.source, DocumentSource::Timesheet(k) if k == "Ana-2025-01-15"));
    assert_eq!(document.metadata.unwrap().tags, vec!["timesheet", "hours"]);
}

#[test]
fn hours_match_two_decimal_formatting() {
    let date = Date::from_ymd_opt(2025, 1, 15).unwrap();
    let midnight = TimeOfDay::from_hms_opt(0, 0, 0).unwrap();
    let mut sheet = Timesheet::new("Ana".into(), "Jan".into(), date, midnight, midnight);
    for minutes in (-1500..3000).chain([i32::MAX, i32::MIN + 1, i32::MIN]) {
        sheet.total_minutos = minutes;
        let content = Document::from_timesheet(&sheet, 0).content;
        let shown = format!("Horas trabalhadas: {:.2}", minutes as f64 / 60.0);
        assert!(content.ends_with(&shown), "{minutes}: {content}");
    }
}

#[test]
fn test_chat_interface() {
    let mut chat = ChatInterface::new();
    chat.add_message(Role::User, "Hello".to_string());
    chat.add_message(Role::Assistant, "Hi there!".to_string());

    assert_eq!(chat.message_count(), 2);
}

#[test]
fn test_chat_context() {
    let mut chat = ChatInterface::new();
    for i in 0..10 {
        chat.add_message(Role::User, format!("Message {}", i));
    }

    let context = chat.get_context(5);
    assert_eq!(context.len(), 5);
    assert!(context[0].content.contains("Message 5"));
}

#[test]
fn test_max_history() {
    let mut chat = ChatInterface::with_max_history(5);
    for i in 0..10 {
        chat.add_message(Role::User, format!("Message {}", i));
    }

    assert_eq!(chat.message_count(), 5);
    assert!(chat.get_history()[0].content.contains("Message 5"));
}

#[test]
fn chat_test_stats() {
    let mut chat = ChatInterface::new();
    chat.add_message(Role::User, "Hello".to_string());
    chat.add_message(Role::Assistant, "Hi".to_string());

    let stats = chat.get_stats();
    assert_eq!(stats.user_messages, 1);
    assert_eq!(stats.assistant_messages, 1);
    assert_eq!(stats.total_chars, 7); // "Hello" + "Hi"
}

#[test]
fn chat_history_and_transcript() {
    let mut chat = ChatInterface::with_max_history(3);
    chat.add_message(Role::System, "s".to_string());
    chat.add_message(Role::User, "olá".to_string());
    let metadata = MessageMetadata {
        tokens_used: Some(12),
        model: Some("local".into()),
        confidence: Some(8500),
        sources: vec![],
    };
    chat.add_message_with_metadata(Role::Assistant, "oi".to_string(), Some(metadata));
    assert_eq!(chat.format_as_prompt(None), "Sistema: s\n\nUsuário: olá\n\nAssistente: oi\n\n");
    assert_eq!(chat.format_as_prompt(Some(1)), "Assistente: oi\n\n");
    assert_eq!(chat.format_as_prompt(Some(0)), "");
    assert_eq!(chat.format_as_prompt(Some(9)), chat.format_as_prompt(None));
    let stats = chat.get_stats();
    assert_eq!((stats.user_messages, stats.assistant_messages, stats.system_messages), (1, 1, 1));
    assert_eq!(stats.total_chars, 1 + 4 + 2);
    assert_eq!(stats.total_tokens, 12);
    assert!(chat.get_context(0).is_empty());
    assert_eq!(chat.get_context(100).len(), 3);
    chat.record(ChatMessage {
        role: Role::User,
        content: "x".into(),
        timestamp: 1,
        metadata: Some(MessageMetadata {
            tokens_used: Some(usize::MAX),
            model: None,
            confidence: None,
            sources: vec![],
        }),
    });
    assert_eq!(chat.message_count(), 3);
    assert_eq!(chat.get_history()[0].content, "olá");
    assert_eq!(chat.get_stats().total_tokens, usize::MAX);
    chat.clear_history();
    assert_eq!(chat.message_count(), 0);
    let mut none = ChatInterface::with_max_history(0);
    none.add_message(Role::User, "gone".into());
    assert_eq!(none.message_count(), 0);
    assert_eq!(ChatInterface::default().message_count(), 0);
}

#[test]
fn test_llm_config_default() {
    let config = LlmConfig::default();

    assert_eq!(config.model, "local");
    assert_eq!(config.temperature as f32 / 100.0, 0.7);
    assert_eq!(config.max_tokens, 2048);
}

#[test]
fn test_llm_creation() {
    let config = LlmConfig::default();
    let llm = PersonalControllerLlm::new(config);
    assert!(llm.is_ok());
}

#[test]
fn test_llm_chat() {
    let config = LlmConfig::default();
    let mut llm = PersonalControllerLlm::new(config).unwrap();
    llm.initialize().unwrap();

    let response = llm.chat("Hello, how are you?", Vec::new()).unwrap();
    assert!(!response.response.is_empty());
    assert!(response.tokens_used > 0);
}

#[test]
fn test_conversation_history() {
    let config = LlmConfig::default();
    let mut llm = PersonalControllerLlm::new(config).unwrap();
    llm.initialize().unwrap();

    llm.chat("First message", Vec::new()).unwrap();
    llm.chat("Second message", Vec::new()).unwrap();

    let history = llm.get_history();
    assert!(history.len() >= 4); // System + 2 user + 2 assistant
}

#[test]
fn test_clear_history() {
    let config = LlmConfig::default();
    let mut llm = PersonalControllerLlm::new(config).unwrap();
    llm.initialize().unwrap();

    llm.chat("Test", Vec::new()).unwrap();
    llm.clear_history().unwrap();

    let history = llm.get_history();
    assert_eq!(history.len(), 0);
}

#[test]
fn chat_names_its_sources_and_counts_tokens() {
    let mut config = LlmConfig::default();
    config.rag_top_k = 2;
    let mut llm = PersonalControllerLlm::new(config).unwrap();
    llm.initialize().unwrap();
    assert_eq!(llm.get_history()[0].role, Role::System);
    let mut best = doc("b", 90);
    best.source = DocumentSource::FreightOrder("28\"84".to_string());
    let mut second = doc("c", 50);
    second.source = DocumentSource::Route("Norte".to_string());
    let answer = llm.chat("Onde?", vec![doc("a", 10), best.clone(), second.clone()]).unwrap();
    assert_eq!(
        answer.response,
        "Esta é uma resposta gerada pela Personal-Controller-LLM. Em produção, aqui seria usada a inferência real do modelo local."
    );
    assert_eq!(answer.sources, vec!["FreightOrder(\"28\\\"84\")", "Route(\"Norte\")"]);
    assert_eq!(answer.sources[0], format!("FreightOrder({:?})", "28\"84"));
    assert_eq!(answer.confidence, 8500);
    let rag = RagSystem::new().unwrap();
    let prompt = rag.build_prompt("Onde?", &vec![best, second]);
    assert_eq!(answer.tokens_used, (prompt.len() + answer.response.len()) / 4);
    let history = llm.get_history();
    assert_eq!(history.len(), 3);
    assert_eq!((history[1].role, history[1].content.as_str()), (Role::User, "Onde?"));
    assert_eq!(history[2].role, Role::Assistant);
    let metadata = history[2].metadata.clone().unwrap();
    assert_eq!(metadata.tokens_used, Some(answer.tokens_used));
    assert_eq!(metadata.model.as_deref(), Some("local"));
    assert_eq!(metadata.confidence, Some(8500));
    assert_eq!(metadata.sources, answer.sources);
    let stats = llm.get_stats();
    assert_eq!((stats.user_messages, stats.assistant_messages, stats.system_messages), (1, 1, 1));
    assert_eq!(stats.total_tokens, answer.tokens_used);

    let mut config = LlmConfig::default();
    config.use_rag = false;
    config.model = "m".into();
    let mut plain = PersonalControllerLlm::new(config).unwrap();
    let answer = plain.chat("q", vec![doc("a", 10)]).unwrap();
    assert!(answer.sources.is_empty());
    assert!(answer.response.ends_with("do modelo m."));
    let simple = rag.build_simple_prompt("q");
    assert_eq!(answer.tokens_used, (simple.len() + answer.response.len()) / 4);
    for other in ["Company", "Timesheet", "Other"] {
        let source = match other {
            "Company" => DocumentSource::Company("x".into()),
            "Timesheet" => DocumentSource::Timesheet("x".into()),
            _ => DocumentSource::Other("x".into()),
        };
        assert_eq!(describe_source(&source), format!("{other}(\"x\")"));
    }
}

#[test]
fn conversation_of_the_assistant_is_bounded() {
    let mut llm = PersonalControllerLlm::new(LlmConfig::default()).unwrap();
    for i in 0..8 {
        llm.chat(&format!("q{i}"), Vec::new()).unwrap();
    }
    let history = llm.get_history();
    assert_eq!(history.len(), 10);
    assert_eq!(history[0].content, "q3");
    assert_eq!(history[8].content, "q7");
}

fn reference_chunks(text: &str, chunk_size: usize, overlap: usize) -> Vec<String> {
    let words: Vec<&str> = text.split_whitespace().collect();
    let mut chunks = Vec::new();
    let mut start = 0;
    while start < words.len() {
        let end = (start + chunk_size).min(words.len());
        chunks.push(words[start..end].join(" "));
        if end >= words.len() {
            break;
        }
        start += chunk_size - overlap;
    }
    chunks
}

#[test]
fn chunks_follow_the_sliding_window() {
    let rag = RagSystem::new().unwrap();
    let text: String = (0..23).map(|i| format!("w{i} ")).collect();
    for chunk_size in 1..8 {
        for overlap in 0..chunk_size {
            for words in [0usize, 1, 2, 7, 23] {
                let part: String =
                    text.split_whitespace().take(words).collect::<Vec<_>>().join("  ");
                assert_eq!(
                    rag.chunk_text(&part, chunk_size, overlap),
                    reference_chunks(&part, chunk_size, overlap),
                    "{words} words, size {chunk_size}, overlap {overlap}"
                );
            }
        }
    }
}
