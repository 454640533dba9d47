//! Retrieval for a chat assistant: ranking of the documents that match
//! a query, the prompt that carries them, and the cutting of long texts
//! into overlapping pieces.

use crate::base::Error;
use crate::calendar::{clock_text, iso_date_text, two_digits};
use crate::company::Company;
use crate::embeddings::EmbeddingGenerator;
use crate::freight::FreightOrder;
use crate::locale::{format_amount, shown_amount};
use crate::timesheet::Timesheet;
use crate::text::{decimal_string, decimal_text, join_range, joined, push_text, split_words, words};
use std::sync::Arc;
use vstd::prelude::*;

verus! {

/// The record that a document was made from.
#[derive(Debug, Clone)]
pub enum DocumentSource {
    FreightOrder(String),
    Company(String),
    Timesheet(String),
    Route(String),
    Other(String),
}

/// What is known about a document besides its content. Times are
/// milliseconds since the Unix epoch.
#[derive(Debug, Clone)]
pub struct DocumentMetadata {
    pub created_at: Option<i64>,
    pub updated_at: Option<i64>,
    pub author: Option<String>,
    pub tags: Vec<String>,
}

/// A piece of text that may help to answer a query. The score says how
/// well it matches, in hundredths of a percent: 10000 is a full match.
#[derive(Debug, Clone)]
pub struct Document {
    pub id: String,
    pub content: String,
    pub score: i32,
    pub source: DocumentSource,
    pub metadata: Option<DocumentMetadata>,
}

/// Finds and presents the documents that bear on a query.
pub struct RagSystem {
    embedding_generator: Arc<EmbeddingGenerator>,
}

/// The index of the first document of `docs` with the highest score.
pub open spec fn first_best(docs: Seq<Document>) -> int
    decreases docs.len(),
{
    if docs.len() <= 1 {
        0
    } else {
        let b = first_best(docs.drop_last());
        if docs.last().score > docs[b].score {
            docs.len() - 1
        } else {
            b
        }
    }
}

/// The `k` best of `docs`, best first; of two with the same score, the
/// one that comes first in `docs` comes first.
pub open spec fn ranked(docs: Seq<Document>, k: nat) -> Seq<Document>
    decreases k,
{
    if k == 0 || docs.len() == 0 {
        seq![]
    } else {
        let b = first_best(docs);
        seq![docs[b]] + ranked(docs.remove(b), (k - 1) as nat)
    }
}

/// No document scores higher than one before it.
pub open spec fn best_first(docs: Seq<Document>) -> bool {
    forall|i: int, j: int| 0 <= i < j < docs.len() ==> docs[i].score >= docs[j].score
}

proof fn lemma_first_best(docs: Seq<Document>)
    requires
        docs.len() > 0,
    ensures
        0 <= first_best(docs) < docs.len(),
        forall|i: int|
            0 <= i < docs.len() ==> (#[trigger] docs[i]).score <= docs[first_best(docs)].score,
        forall|i: int|
            0 <= i < first_best(docs) ==> (#[trigger] docs[i]).score < docs[first_best(
                docs,
            )].score,
    decreases docs.len(),
{
    if docs.len() > 1 {
        let init = docs.drop_last();
        lemma_first_best(init);
        assert forall|i: int| 0 <= i < docs.len() implies (#[trigger] docs[i]).score
            <= docs[first_best(docs)].score by {
            if i < init.len() {
                assert(init[i] == docs[i]);
            }
        }
        assert forall|i: int| 0 <= i < first_best(docs) implies (#[trigger] docs[i]).score
            < docs[first_best(docs)].score by {
            assert(init[i] == docs[i]);
        }
    }
}

proof fn lemma_ranked(docs: Seq<Document>, k: nat)
    ensures
        ranked(docs, k).len() == (if k <= docs.len() {
            k
        } else {
            docs.len()
        }),
        forall|i: int|
            0 <= i < ranked(docs, k).len() ==> docs.contains(#[trigger] ranked(docs, k)[i]),
        best_first(ranked(docs, k)),
    decreases k,
{
    if k == 0 || docs.len() == 0 {
    } else {
        let b = first_best(docs);
        lemma_first_best(docs);
        let rest = docs.remove(b);
        let tail = ranked(rest, (k - 1) as nat);
        lemma_ranked(rest, (k - 1) as nat);
        let all = ranked(docs, k);
        assert(all =~= seq![docs[b]] + tail);
        assert forall|i: int| 0 <= i < all.len() implies docs.contains(#[trigger] all[i]) by {
            if i == 0 {
                assert(docs[b] == all[0]);
            } else {
                assert(all[i] == tail[i - 1]);
                assert(rest.contains(tail[i - 1]));
                let w = choose|w: int| 0 <= w < rest.len() && rest[w] == tail[i - 1];
                if w < b {
                    assert(docs[w] == rest[w]);
                } else {
                    assert(docs[w + 1] == rest[w]);
                }
            }
        }
        assert forall|i: int, j: int| 0 <= i < j < all.len() implies all[i].score
            >= all[j].score by {
            assert(all[j] == tail[j - 1]);
            if i == 0 {
                assert(docs.contains(all[j]));
                let w = choose|w: int| 0 <= w < docs.len() && docs[w] == all[j];
                assert(docs[w].score <= docs[b].score);
            } else {
                assert(all[i] == tail[i - 1]);
            }
        }
    }
}

impl Document {
    /// The score as a percentage with two decimals, such as `87.50`.
    pub open spec fn score_text(&self) -> Seq<char> {
        percent_text(self.score as int)
    }
}

/// Hundredths of a percent as a percentage with two decimals.
pub open spec fn percent_text(score: int) -> Seq<char> {
    if score < 0 {
        seq!['-'] + decimal_text(((-score) / 100) as nat) + seq!['.'] + two_digits((-score) % 100)
    } else {
        decimal_text((score / 100) as nat) + seq!['.'] + two_digits(score % 100)
    }
}

/// What opens a prompt that carries documents.
pub open spec fn prompt_preamble() -> Seq<char> {
    "Você é a Personal-Controller-LLM, uma IA especializada da Ávila Transportes.\n\n"@
}

/// What closes a prompt that carries documents: how to answer.
pub open spec fn prompt_instructions() -> Seq<char> {
    "# Instruções\n"@ + "- Responda em português claro e objetivo\n"@
        + "- Use os documentos fornecidos como contexto\n"@
        + "- Se não tiver certeza, diga que não sabe\n"@ + "- Cite as fontes quando relevante\n\n"@
        + "Resposta:"@
}

/// The entry of the document at position `i`, counted from 0: its
/// number, its score and its content.
pub open spec fn context_entry(i: int, doc: Document) -> Seq<char> {
    "Documento "@ + decimal_text((i + 1) as nat) + " (relevância: "@ + doc.score_text() + "%):\n"@
        + doc.content@ + "\n\n"@
}

/// The entries of the first `upto` documents, one after another.
pub open spec fn context_entries(docs: Seq<Document>, upto: int) -> Seq<char>
    decreases upto,
{
    if upto <= 0 {
        Seq::empty()
    } else {
        context_entries(docs, upto - 1) + context_entry(upto - 1, docs[upto - 1])
    }
}

/// The part of a prompt that lists the documents; empty where there are
/// none.
pub open spec fn context_section(docs: Seq<Document>) -> Seq<char> {
    if docs.len() == 0 {
        Seq::empty()
    } else {
        "# Contexto Relevante\n\n"@ + context_entries(docs, docs.len() as int)
    }
}

/// The prompt for a query with the documents that bear on it.
pub open spec fn prompt_text(query: Seq<char>, docs: Seq<Document>) -> Seq<char> {
    prompt_preamble() + context_section(docs) + "# Pergunta do Usuário\n"@ + query + "\n\n"@
        + prompt_instructions()
}

/// The prompt for a query alone: the prompt for the query with no
/// documents, and so without the part that lists them.
pub open spec fn simple_prompt_text(query: Seq<char>) -> Seq<char> {
    prompt_text(query, Seq::empty())
}

/// The pieces of `size` words each that cover `words` from word `start`
/// on, each piece starting `size - overlap` words after the one before;
/// the last piece may be shorter.
pub open spec fn chunks(words: Seq<Seq<char>>, start: int, size: int, overlap: int) -> Seq<
    Seq<char>,
>
    decreases words.len() - start,
{
    if start < 0 || start >= words.len() || overlap < 0 || size <= overlap {
        seq![]
    } else if start + size >= words.len() {
        seq![joined(words.subrange(start, words.len() as int), " "@)]
    } else {
        seq![joined(words.subrange(start, start + size), " "@)] + chunks(
            words,
            start + size - overlap,
            size,
            overlap,
        )
    }
}

/// Appends a score as a percentage with two decimals.
fn push_percent(s: &mut String, score: i32)
    ensures
        final(s)@ == old(s)@ + percent_text(score as int),
{
    let magnitude: u64 = if score < 0 {
        s.push('-');
        (0 - (score as i64)) as u64
    } else {
        score as u64
    };
    let whole = decimal_string(magnitude / 100);
    push_text(s, whole.as_str());
    s.push('.');
    let cents: u8 = (magnitude % 100) as u8;
    s.push((48 + cents / 10) as char);
    s.push((48 + cents % 10) as char);
    assert(s@ =~= old(s)@ + percent_text(score as int));
}

impl RagSystem {
    /// The generator that embeds the queries.
    pub closed spec fn generator(&self) -> EmbeddingGenerator {
        *self.embedding_generator
    }

    /// A retrieval system with a generator for vectors of 384
    /// components.
    pub fn new() -> (r: Result<RagSystem, Error>)
        ensures
            r matches Ok(rag) && rag.generator().size() == 384,
    {
        match EmbeddingGenerator::new() {
            Ok(generator) => Ok(RagSystem { embedding_generator: Arc::new(generator) }),
            Err(e) => Err(e),
        }
    }

    /// A retrieval system with a generator of the caller's.
    pub fn with_embeddings(generator: Arc<EmbeddingGenerator>) -> (r: RagSystem)
        ensures
            r.generator() == *generator,
    {
        RagSystem { embedding_generator: generator }
    }

    /// The generator that embeds the queries.
    pub fn embedding_generator(&self) -> (r: &EmbeddingGenerator)
        ensures
            *r == self.generator(),
    {
        &self.embedding_generator
    }

    /// The `top_k` best of the documents that the index found for a
    /// query, best first. An index that found nothing gives no
    /// documents, which is no error.
    pub fn retrieve_context(&self, matches: Vec<Document>, top_k: usize) -> (r: Result<
        Vec<Document>,
        Error,
    >)
        ensures
            r matches Ok(docs) && docs@ == ranked(matches@, top_k as nat),
            r matches Ok(docs) && docs@.len() == (if top_k <= matches@.len() {
                top_k as nat
            } else {
                matches@.len()
            }),
            r matches Ok(docs) && best_first(docs@),
            matches@.len() == 0 ==> (r matches Ok(docs) && docs@.len() == 0),
            r matches Ok(docs) && forall|i: int|
                0 <= i < docs@.len() ==> matches@.contains(#[trigger] docs@[i]),
    {
        let mut rest = matches;
        let mut out: Vec<Document> = Vec::new();
        let ghost all = rest@;
        proof {
            assert(out@ + ranked(rest@, top_k as nat) =~= ranked(all, top_k as nat));
        }
        while out.len() < top_k && rest.len() > 0
            invariant
                out@.len() <= top_k,
                out@ + ranked(rest@, (top_k - out@.len()) as nat) == ranked(all, top_k as nat),
            decreases rest@.len(),
        {
            let mut best: usize = 0;
            let mut i: usize = 1;
            proof {
                assert(rest@.take(1).len() == 1);
            }
            while i < rest.len()
                invariant
                    1 <= i <= rest.len(),
                    best == first_best(rest@.take(i as int)),
                    0 <= best < i,
                decreases rest.len() - i,
            {
                proof {
                    assert(rest@.take(i + 1).drop_last() =~= rest@.take(i as int));
                    assert(rest@.take(i as int)[best as int] == rest@[best as int]);
                }
                if rest[i].score > rest[best].score {
                    best = i;
                }
                i += 1;
            }
            proof {
                assert(rest@.take(rest.len() as int) =~= rest@);
            }
            let ghost before = out@;
            let ghost pool = rest@;
            let doc = rest.remove(best);
            out.push(doc);
            proof {
                assert(out@ + ranked(rest@, (top_k - out@.len()) as nat) =~= before + ranked(
                    pool,
                    (top_k - before.len()) as nat,
                ));
            }
        }
        proof {
            assert(ranked(rest@, (top_k - out@.len()) as nat) =~= Seq::<Document>::empty());
            assert(out@ =~= ranked(all, top_k as nat));
            lemma_ranked(all, top_k as nat);
        }
        Ok(out)
    }

    /// The prompt for a query with the documents that bear on it: who
    /// answers, the documents with number and score, the query, and how
    /// to answer.
    pub fn build_prompt(&self, query: &str, documents: &Vec<Document>) -> (r: String)
        ensures
            r@ == prompt_text(query@, documents@),
    {
        let mut prompt = String::new();
        push_text(
            &mut prompt,
            "Você é a Personal-Controller-LLM, uma IA especializada da Ávila Transportes.\n\n",
        );
        let ghost head = prompt@;
        if documents.len() > 0 {
            push_text(&mut prompt, "# Contexto Relevante\n\n");
            let ghost opened = prompt@;
            let mut i: usize = 0;
            while i < documents.len()
                invariant
                    i <= documents.len(),
                    prompt@ == opened + context_entries(documents@, i as int),
                decreases documents.len() - i,
            {
                let ghost before = prompt@;
                push_text(&mut prompt, "Documento ");
                let number = decimal_string((i + 1) as u64);
                push_text(&mut prompt, number.as_str());
                push_text(&mut prompt, " (relevância: ");
                push_percent(&mut prompt, documents[i].score);
                push_text(&mut prompt, "%):\n");
                push_text(&mut prompt, documents[i].content.as_str());
                push_text(&mut prompt, "\n\n");
                assert(prompt@ =~= before + context_entry(i as int, documents@[i as int]));
                i += 1;
                assert(prompt@ =~= opened + context_entries(documents@, i as int));
            }
            assert(prompt@ =~= head + context_section(documents@));
        } else {
            assert(prompt@ =~= head + context_section(documents@));
        }
        push_text(&mut prompt, "# Pergunta do Usuário\n");
        push_text(&mut prompt, query);
        push_text(&mut prompt, "\n\n");
        let ghost asked = prompt@;
        push_text(&mut prompt, "# Instruções\n");
        push_text(&mut prompt, "- Responda em português claro e objetivo\n");
        push_text(&mut prompt, "- Use os documentos fornecidos como contexto\n");
        push_text(&mut prompt, "- Se não tiver certeza, diga que não sabe\n");
        push_text(&mut prompt, "- Cite as fontes quando relevante\n\n");
        push_text(&mut prompt, "Resposta:");
        assert(prompt@ =~= asked + prompt_instructions());
        assert(prompt@ =~= prompt_text(query@, documents@));
        prompt
    }

    /// The prompt for a query alone: who answers, the query, and how to
    /// answer, as in a prompt with documents, but without the part that
    /// lists them.
    pub fn build_simple_prompt(&self, query: &str) -> (r: String)
        ensures
            r@ == simple_prompt_text(query@),
            r@ == prompt_text(query@, Seq::empty()),
    {
        let none: Vec<Document> = Vec::new();
        assert(none@ =~= Seq::<Document>::empty());
        self.build_prompt(query, &none)
    }

    /// Cuts a text into pieces of `chunk_size` words, each piece sharing
    /// its first `overlap` words with the end of the piece before.
    pub fn chunk_text(&self, text: &str, chunk_size: usize, overlap: usize) -> (r: Vec<String>)
        requires
            overlap < chunk_size,
        ensures
            r.deep_view() == chunks(words(text@), 0, chunk_size as int, overlap as int),
    {
        let tokens = split_words(text);
        let n = tokens.len();
        let ghost all = tokens.deep_view();
        let mut out: Vec<String> = Vec::new();
        let mut start: usize = 0;
        let mut done = false;
        proof {
            assert(out.deep_view() + chunks(all, 0, chunk_size as int, overlap as int) =~= chunks(
                all,
                0,
                chunk_size as int,
                overlap as int,
            ));
        }
        while !done && start < n
            invariant
                n == tokens.len(),
                all == tokens.deep_view(),
                overlap < chunk_size,
                !done ==> out.deep_view() + chunks(all, start as int, chunk_size as int, overlap as int)
                    == chunks(all, 0, chunk_size as int, overlap as int),
                done ==> out.deep_view() == chunks(all, 0, chunk_size as int, overlap as int),
            decreases (if done { 0int } else { 1int }), n - start,
        {
            let ghost before = out.deep_view();
            if chunk_size >= n - start {
                let piece = join_range(&tokens, start, n, " ");
                out.push(piece);
                done = true;
                assert(out.deep_view() =~= before + chunks(
                    all,
                    start as int,
                    chunk_size as int,
                    overlap as int,
                ));
            } else {
                let end = start + chunk_size;
                let piece = join_range(&tokens, start, end, " ");
                out.push(piece);
                let next = start + (chunk_size - overlap);
                assert(out.deep_view() + chunks(all, next as int, chunk_size as int, overlap as int)
                    =~= before + chunks(all, start as int, chunk_size as int, overlap as int));
                start = next;
            }
        }
        proof {
            if !done {
                assert(out.deep_view() + Seq::<Seq<char>>::empty() =~= out.deep_view());
            }
        }
        out
    }
}


/// The text that an optional field holds, or `N/A`.
pub open spec fn text_or_missing(o: Option<String>) -> Seq<char> {
    match o {
        Some(s) => s@,
        None => "N/A"@,
    }
}

/// Minutes as hours with two decimals, rounded to the nearest
/// hundredth, such as `8.50`.
pub open spec fn hours_text(minutes: int) -> Seq<char> {
    if minutes < 0 {
        seq!['-'] + decimal_text(((-minutes) / 60) as nat) + seq!['.'] + two_digits(
            (((-minutes) % 60) * 100 + 30) / 60,
        )
    } else {
        decimal_text((minutes / 60) as nat) + seq!['.'] + two_digits(
            ((minutes % 60) * 100 + 30) / 60,
        )
    }
}

/// What a document says of a freight order.
pub open spec fn freight_order_summary(order: FreightOrder) -> Seq<char> {
    "Ordem de Frete #"@ + order.id@ + "\nNúmero: "@ + order.numero@ + "\nRemetente: "@
        + order.remetente_nome@ + " - "@ + order.remetente_cidade@ + "\nDestinatário: "@
        + order.destinatario_nome@ + " - "@ + order.destinatario_cidade@
        + "\nValor do frete: R$ "@ + shown_amount(order.valor_frete@) + "\nStatus: "@
        + order.status.name()
}

/// What a document says of a company.
pub open spec fn company_summary(company: Company) -> Seq<char> {
    "Empresa: "@ + company.nome@ + "\nTipo: "@ + company.tipo.name() + "\nCNPJ: "@
        + text_or_missing(company.cnpj) + "\nCidade: "@ + company.cidade@ + " - "@
        + company.estado@ + "\nTelefone: "@ + text_or_missing(company.telefone) + "\nEmail: "@
        + text_or_missing(company.email)
}

/// What a document says of a record of hours.
pub open spec fn timesheet_summary(sheet: Timesheet) -> Seq<char> {
    "Registro de Ponto\nFuncionário: "@ + sheet.funcionario@ + "\nData: "@ + iso_date_text(
        sheet.data,
    ) + "\nEntrada: "@ + clock_text(sheet.entrada) + "\nSaída: "@ + clock_text(sheet.saida)
        + "\nHoras trabalhadas: "@ + hours_text(sheet.total_minutos as int)
}

/// Appends an optional field, or `N/A` where it holds nothing.
fn push_or_missing(r: &mut String, o: &Option<String>)
    ensures
        final(r)@ == old(r)@ + text_or_missing(*o),
{
    match o {
        Some(s) => {
            push_text(r, s.as_str());
        },
        None => {
            push_text(r, "N/A");
        },
    }
}

/// Appends minutes as hours with two decimals.
fn push_hours(r: &mut String, minutes: i32)
    ensures
        final(r)@ == old(r)@ + hours_text(minutes as int),
{
    let magnitude: u64 = if minutes < 0 {
        r.push('-');
        (0 - (minutes as i64)) as u64
    } else {
        minutes as u64
    };
    let whole = decimal_string(magnitude / 60);
    push_text(r, whole.as_str());
    r.push('.');
    let hundredths: u8 = (((magnitude % 60) * 100 + 30) / 60) as u8;
    r.push((48 + hundredths / 10) as char);
    r.push((48 + hundredths % 10) as char);
    assert(r@ =~= old(r)@ + hours_text(minutes as int));
}

/// What is known of a document that was made from a record at the given
/// times, under the given tags.
fn record_metadata(created_at: i64, updated_at: i64, first: &str, second: &str) -> (r:
    DocumentMetadata)
    ensures
        r.created_at == Some(created_at),
        r.updated_at == Some(updated_at),
        r.author is None,
        r.tags.deep_view() == seq![first@, second@],
{
    let mut tags: Vec<String> = Vec::new();
    tags.push(first.to_owned());
    tags.push(second.to_owned());
    assert(tags.deep_view() =~= seq![first@, second@]);
    DocumentMetadata { created_at: Some(created_at), updated_at: Some(updated_at), author: None, tags }
}

impl Document {
    /// The document of a freight order: its summary, under the order's
    /// identifier, with the order number as its source.
    pub fn from_freight_order(order: &FreightOrder, score: i32) -> (r: Document)
        ensures
            r.id@ == order.id@,
            r.content@ == freight_order_summary(*order),
            r.score == score,
            r.source matches DocumentSource::FreightOrder(numero) && numero@ == order.numero@,
            r.metadata matches Some(m) && m.created_at == Some(order.metadata.created_at)
                && m.updated_at == Some(order.metadata.updated_at) && m.author is None
                && m.tags.deep_view() == seq!["freight"@, "order"@],
    {
        let mut content = String::new();
        push_text(&mut content, "Ordem de Frete #");
        push_text(&mut content, order.id.as_str());
        push_text(&mut content, "\nNúmero: ");
        push_text(&mut content, order.numero.as_str());
        push_text(&mut content, "\nRemetente: ");
        push_text(&mut content, order.remetente_nome.as_str());
        push_text(&mut content, " - ");
        push_text(&mut content, order.remetente_cidade.as_str());
        push_text(&mut content, "\nDestinatário: ");
        push_text(&mut content, order.destinatario_nome.as_str());
        push_text(&mut content, " - ");
        push_text(&mut content, order.destinatario_cidade.as_str());
        push_text(&mut content, "\nValor do frete: R$ ");
        let valor_frete = format_amount(order.valor_frete.as_str());
        push_text(&mut content, valor_frete.as_str());
        push_text(&mut content, "\nStatus: ");
        let status = order.status.variant_name();
        push_text(&mut content, status.as_str());
        assert(content@ =~= freight_order_summary(*order));
        Document {
            id: order.id.clone(),
            content,
            score,
            source: DocumentSource::FreightOrder(order.numero.clone()),
            metadata: Some(
                record_metadata(
                    order.metadata.created_at,
                    order.metadata.updated_at,
                    "freight",
                    "order",
                ),
            ),
        }
    }

    /// The document of a company: its summary, under the company's
    /// identifier, with the company's name as its source.
    pub fn from_company(company: &Company, score: i32) -> (r: Document)
        ensures
            r.id@ == company.id@,
            r.content@ == company_summary(*company),
            r.score == score,
            r.source matches DocumentSource::Company(nome) && nome@ == company.nome@,
            r.metadata matches Some(m) && m.created_at == Some(company.metadata.created_at)
                && m.updated_at == Some(company.metadata.updated_at) && m.author is None
                && m.tags.deep_view() == seq!["company"@, company.tipo.tag()],
    {
        let mut content = String::new();
        push_text(&mut content, "Empresa: ");
        push_text(&mut content, company.nome.as_str());
        push_text(&mut content, "\nTipo: ");
        push_text(&mut content, company.tipo.variant_name());
        push_text(&mut content, "\nCNPJ: ");
        push_or_missing(&mut content, &company.cnpj);
        push_text(&mut content, "\nCidade: ");
        push_text(&mut content, company.cidade.as_str());
        push_text(&mut content, " - ");
        push_text(&mut content, company.estado.as_str());
        push_text(&mut content, "\nTelefone: ");
        push_or_missing(&mut content, &company.telefone);
        push_text(&mut content, "\nEmail: ");
        push_or_missing(&mut content, &company.email);
        assert(content@ =~= company_summary(*company));
        Document {
            id: company.id.clone(),
            content,
            score,
            source: DocumentSource::Company(company.nome.clone()),
            metadata: Some(
                record_metadata(
                    company.metadata.created_at,
                    company.metadata.updated_at,
                    "company",
                    company.tipo.lowercase_name(),
                ),
            ),
        }
    }

    /// The document of a record of hours: its summary, under the
    /// record's identifier, with employee and day as its source.
    pub fn from_timesheet(timesheet: &Timesheet, score: i32) -> (r: Document)
        requires
            timesheet.data.wf(),
            timesheet.entrada.wf(),
            timesheet.saida.wf(),
        ensures
            r.id@ == timesheet.id@,
            r.content@ == timesheet_summary(*timesheet),
            r.score == score,
            r.source matches DocumentSource::Timesheet(key) && key@ == timesheet.funcionario@
                + seq!['-'] + iso_date_text(timesheet.data),
            r.metadata matches Some(m) && m.created_at == Some(timesheet.metadata.created_at)
                && m.updated_at == Some(timesheet.metadata.updated_at) && m.author is None
                && m.tags.deep_view() == seq!["timesheet"@, "hours"@],
    {
        let day = timesheet.data.to_string();
        let mut content = String::new();
        push_text(&mut content, "Registro de Ponto\nFuncionário: ");
        push_text(&mut content, timesheet.funcionario.as_str());
        push_text(&mut content, "\nData: ");
        push_text(&mut content, day.as_str());
        push_text(&mut content, "\nEntrada: ");
        let entrada = timesheet.entrada.to_string();
        push_text(&mut content, entrada.as_str());
        push_text(&mut content, "\nSaída: ");
        let saida = timesheet.saida.to_string();
        push_text(&mut content, saida.as_str());
        push_text(&mut content, "\nHoras trabalhadas: ");
        push_hours(&mut content, timesheet.total_minutos);
        assert(content@ =~= timesheet_summary(*timesheet));
        let mut key = String::new();
        push_text(&mut key, timesheet.funcionario.as_str());
        key.push('-');
        push_text(&mut key, day.as_str());
        assert(key@ =~= timesheet.funcionario@ + seq!['-'] + iso_date_text(timesheet.data));
        Document {
            id: timesheet.id.clone(),
            content,
            score,
            source: DocumentSource::Timesheet(key),
            metadata: Some(
                record_metadata(
                    timesheet.metadata.created_at,
                    timesheet.metadata.updated_at,
                    "timesheet",
                    "hours",
                ),
            ),
        }
    }
}

} // verus!
