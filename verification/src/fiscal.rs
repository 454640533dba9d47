//! Fiscal documents: invoices, waybills and manifests. Amounts are
//! held as plain decimal text; a text that writes no number counts as
//! zero.

use crate::base::{AuditMetadata, Embeddable, Entity, Error};
use crate::calendar::Date;
use crate::locale::{is_negative, is_negative_number};
use crate::text::{chars_of, is_blank, join_range, joined, push_text, trimmed};
use vstd::prelude::*;

verus! {

/// An invoice (NF-e).
#[derive(Debug, Clone)]
pub struct Invoice {
    pub id: String,
    pub numero: String,
    pub serie: Option<String>,
    pub chave_acesso: Option<String>,
    pub data_emissao: Date,
    pub emitente_id: String,
    pub emitente_nome: String,
    pub destinatario_id: Option<String>,
    pub destinatario_nome: String,
    pub valor_total: String,
    pub valor_produtos: String,
    pub valor_frete: Option<String>,
    pub valor_icms: Option<String>,
    pub natureza_operacao: Option<String>,
    pub cfop: Option<String>,
    pub xml_path: Option<String>,
    pub pdf_path: Option<String>,
    pub metadata: AuditMetadata,
}

impl Entity for Invoice {
    /// The number is not blank and the total is not below zero.
    open spec fn valid(&self) -> bool {
        trimmed(self.numero@).len() > 0 && !is_negative_number(self.valor_total@)
    }

    open spec fn id_text(&self) -> Seq<char> {
        self.id@
    }

    open spec fn kind(&self) -> Seq<char> {
        "invoice"@
    }

    fn id(&self) -> (r: &String) {
        &self.id
    }

    fn entity_type(&self) -> (r: &str) {
        "invoice"
    }

    fn validate(&self) -> (r: Result<(), Error>) {
        if is_blank(self.numero.as_str()) {
            return Err(Error::Validation("Número não pode ser vazio".to_owned()));
        }
        if is_negative(self.valor_total.as_str()) {
            return Err(Error::Validation("Valor não pode ser negativo".to_owned()));
        }
        Ok(())
    }
}

/// An electronic waybill (CT-e).
#[derive(Debug, Clone)]
pub struct Cte {
    pub id: String,
    pub numero: String,
    pub serie: Option<String>,
    pub chave_acesso: String,
    pub data_emissao: Date,
    pub emitente_id: String,
    pub remetente_id: String,
    pub destinatario_id: String,
    pub expedidor_id: Option<String>,
    pub recebedor_id: Option<String>,
    pub valor_total: String,
    pub valor_receber: String,
    pub modal: String,
    pub tipo_servico: String,
    pub notas_fiscais: Vec<String>,
    pub xml_path: Option<String>,
    pub pdf_path: Option<String>,
    pub metadata: AuditMetadata,
}

impl Entity for Cte {
    /// The number is not blank and the access key has 44 characters.
    open spec fn valid(&self) -> bool {
        trimmed(self.numero@).len() > 0 && self.chave_acesso@.len() == 44
    }

    open spec fn id_text(&self) -> Seq<char> {
        self.id@
    }

    open spec fn kind(&self) -> Seq<char> {
        "cte"@
    }

    fn id(&self) -> (r: &String) {
        &self.id
    }

    fn entity_type(&self) -> (r: &str) {
        "cte"
    }

    fn validate(&self) -> (r: Result<(), Error>) {
        if is_blank(self.numero.as_str()) {
            return Err(Error::Validation("Número não pode ser vazio".to_owned()));
        }
        if chars_of(self.chave_acesso.as_str()).len() != 44 {
            return Err(Error::Validation("Chave de acesso inválida".to_owned()));
        }
        Ok(())
    }
}

/// A transport manifest.
#[derive(Debug, Clone)]
pub struct Manifest {
    pub id: String,
    pub tipo: String,
    pub numero: String,
    pub data_emissao: Date,
    pub data_entrega: Option<Date>,
    pub data_agendamento: Option<Date>,
    pub notas_fiscais: Vec<String>,
    pub chave_acesso: Option<String>,
    pub remetente_nome: String,
    pub destinatario_nome: String,
    pub destinatario_cidade: String,
    pub volumes: i32,
    pub peso: String,
    pub valor_notas: String,
    pub valor_frete: String,
    pub status: String,
    pub observacoes: Option<String>,
    pub metadata: AuditMetadata,
}

impl Manifest {
    /// The manifest as one line of text.
    pub open spec fn embedding_text(&self) -> Seq<char> {
        "Manifesto "@ + self.numero@ + " tipo "@ + self.tipo@ + " de "@ + self.remetente_nome@
            + " para "@ + self.destinatario_cidade@ + " notas "@ + joined(
            self.notas_fiscais.deep_view(),
            ","@,
        ) + " status "@ + self.status@
    }

    /// The fields by which the manifest is looked for: number, type,
    /// sender, recipient and city, status, then the invoice numbers.
    pub open spec fn search_fields(&self) -> Seq<Seq<char>> {
        seq![
            self.numero@,
            self.tipo@,
            self.remetente_nome@,
            self.destinatario_nome@,
            self.destinatario_cidade@,
            self.status@,
        ] + self.notas_fiscais.deep_view()
    }
}

impl Entity for Manifest {
    /// The number is not blank.
    open spec fn valid(&self) -> bool {
        trimmed(self.numero@).len() > 0
    }

    open spec fn id_text(&self) -> Seq<char> {
        self.id@
    }

    open spec fn kind(&self) -> Seq<char> {
        "manifest"@
    }

    fn id(&self) -> (r: &String) {
        &self.id
    }

    fn entity_type(&self) -> (r: &str) {
        "manifest"
    }

    fn validate(&self) -> (r: Result<(), Error>) {
        if is_blank(self.numero.as_str()) {
            return Err(Error::Validation("Número não pode ser vazio".to_owned()));
        }
        Ok(())
    }
}

impl Embeddable for Manifest {
    fn to_embedding_text(&self) -> (r: String)
        ensures
            r@ == self.embedding_text(),
    {
        let mut r = String::new();
        push_text(&mut r, "Manifesto ");
        push_text(&mut r, self.numero.as_str());
        push_text(&mut r, " tipo ");
        push_text(&mut r, self.tipo.as_str());
        push_text(&mut r, " de ");
        push_text(&mut r, self.remetente_nome.as_str());
        push_text(&mut r, " para ");
        push_text(&mut r, self.destinatario_cidade.as_str());
        push_text(&mut r, " notas ");
        let notas = join_range(&self.notas_fiscais, 0, self.notas_fiscais.len(), ",");
        assert(self.notas_fiscais.deep_view().subrange(0, self.notas_fiscais.len() as int)
            =~= self.notas_fiscais.deep_view());
        push_text(&mut r, notas.as_str());
        push_text(&mut r, " status ");
        push_text(&mut r, self.status.as_str());
        assert(r@ =~= self.embedding_text());
        r
    }

    fn searchable_fields(&self) -> (r: Vec<String>)
        ensures
            r.deep_view() == self.search_fields(),
    {
        let mut fields: Vec<String> = Vec::new();
        fields.push(self.numero.clone());
        fields.push(self.tipo.clone());
        fields.push(self.remetente_nome.clone());
        fields.push(self.destinatario_nome.clone());
        fields.push(self.destinatario_cidade.clone());
        fields.push(self.status.clone());
        let mut i: usize = 0;
        while i < self.notas_fiscais.len()
            invariant
                i <= self.notas_fiscais.len(),
                fields.deep_view() == seq![
                    self.numero@,
                    self.tipo@,
                    self.remetente_nome@,
                    self.destinatario_nome@,
                    self.destinatario_cidade@,
                    self.status@,
                ] + self.notas_fiscais.deep_view().take(i as int),
            decreases self.notas_fiscais.len() - i,
        {
            let ghost before = fields.deep_view();
            fields.push(self.notas_fiscais[i].clone());
            i += 1;
            proof {
                let notas = self.notas_fiscais.deep_view();
                assert(notas.take(i as int) =~= notas.take(i - 1).push(notas[i - 1]));
                assert(fields.deep_view() =~= before.push(notas[i - 1]));
            }
        }
        assert(self.notas_fiscais.deep_view().take(i as int) =~= self.notas_fiscais.deep_view());
        fields
    }
}

} // verus!
