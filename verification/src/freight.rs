//! Freight orders.

use crate::base::{new_id, AuditMetadata, Embeddable, Entity, Error, Status};
use crate::calendar::Date;
use crate::locale::{is_negative, is_negative_number};
use crate::text::{is_blank, join_range, joined, push_text, trimmed};
use vstd::prelude::*;

verus! {

/// An order to carry goods from a sender to a recipient. Amounts are
/// held as plain decimal text, such as `1234.56`; a text that writes no
/// number counts as zero.
#[derive(Debug, Clone)]
pub struct FreightOrder {
    pub id: String,
    pub numero: String,
    pub data_emissao: Date,
    pub data_agendamento: Option<Date>,
    pub data_entrega: Option<Date>,
    pub notas_fiscais: Vec<String>,
    pub cte_numero: Option<String>,
    pub cte_chave: Option<String>,
    pub pagador_id: String,
    pub pagador_nome: String,
    pub pagador_telefone: Option<String>,
    pub remetente_id: Option<String>,
    pub remetente_nome: String,
    pub remetente_cidade: String,
    pub destinatario_id: Option<String>,
    pub destinatario_nome: String,
    pub destinatario_cidade: String,
    pub volumes: i32,
    pub peso: String,
    pub valor_notas: String,
    pub valor_frete: String,
    pub frete_tabelado: Option<String>,
    pub filial_coleta: Option<String>,
    pub motorista_coleta: Option<String>,
    pub filial_entrega: Option<String>,
    pub motorista_entrega: Option<String>,
    pub forma_pagamento: Option<String>,
    pub status: Status,
    pub observacoes: Option<String>,
    pub fonte_arquivo: Option<String>,
    pub metadata: AuditMetadata,
}

impl FreightOrder {
    /// The order holds the given parties, cities and date of issue, and
    /// nothing else yet: no documents, no cargo, no operation, status
    /// pending.
    pub open spec fn is_new(
        &self,
        numero: Seq<char>,
        data_emissao: Date,
        pagador_nome: Seq<char>,
        remetente_nome: Seq<char>,
        remetente_cidade: Seq<char>,
        destinatario_nome: Seq<char>,
        destinatario_cidade: Seq<char>,
    ) -> bool {
        &&& self.numero@ == numero
        &&& self.data_emissao == data_emissao
        &&& self.data_agendamento is None
        &&& self.data_entrega is None
        &&& self.notas_fiscais@.len() == 0
        &&& self.cte_numero is None
        &&& self.cte_chave is None
        &&& self.pagador_nome@ == pagador_nome
        &&& self.pagador_telefone is None
        &&& self.remetente_id is None
        &&& self.remetente_nome@ == remetente_nome
        &&& self.remetente_cidade@ == remetente_cidade
        &&& self.destinatario_id is None
        &&& self.destinatario_nome@ == destinatario_nome
        &&& self.destinatario_cidade@ == destinatario_cidade
        &&& self.volumes == 0
        &&& self.peso@ == "0"@
        &&& self.valor_notas@ == "0"@
        &&& self.valor_frete@ == "0"@
        &&& self.frete_tabelado is None
        &&& self.filial_coleta is None
        &&& self.motorista_coleta is None
        &&& self.filial_entrega is None
        &&& self.motorista_entrega is None
        &&& self.forma_pagamento is None
        &&& self.status == Status::Pending
        &&& self.observacoes is None
        &&& self.fonte_arquivo is None
        &&& self.metadata.is_fresh_at(self.metadata.created_at)
    }

    /// A new order with identifiers of its own, made at this moment.
    pub fn new(
        numero: String,
        data_emissao: Date,
        pagador_nome: String,
        remetente_nome: String,
        remetente_cidade: String,
        destinatario_nome: String,
        destinatario_cidade: String,
    ) -> (r: FreightOrder)
        ensures
            r.is_new(
                numero@,
                data_emissao,
                pagador_nome@,
                remetente_nome@,
                remetente_cidade@,
                destinatario_nome@,
                destinatario_cidade@,
            ),
    {
        FreightOrder {
            id: new_id(),
            numero,
            data_emissao,
            data_agendamento: None,
            data_entrega: None,
            notas_fiscais: Vec::new(),
            cte_numero: None,
            cte_chave: None,
            pagador_id: new_id(),
            pagador_nome,
            pagador_telefone: None,
            remetente_id: None,
            remetente_nome,
            remetente_cidade,
            destinatario_id: None,
            destinatario_nome,
            destinatario_cidade,
            volumes: 0,
            peso: "0".to_owned(),
            valor_notas: "0".to_owned(),
            valor_frete: "0".to_owned(),
            frete_tabelado: None,
            filial_coleta: None,
            motorista_coleta: None,
            filial_entrega: None,
            motorista_entrega: None,
            forma_pagamento: None,
            status: Status::Pending,
            observacoes: None,
            fonte_arquivo: None,
            metadata: AuditMetadata::now(),
        }
    }

    /// The driver who delivers, or the empty text where none is named.
    pub open spec fn delivery_driver(&self) -> Seq<char> {
        match self.motorista_entrega {
            Some(name) => name@,
            None => Seq::empty(),
        }
    }

    /// The order as one line of text.
    pub open spec fn embedding_text(&self) -> Seq<char> {
        "Ordem "@ + self.numero@ + " de "@ + self.remetente_cidade@ + " para "@
            + self.destinatario_cidade@ + " pagador "@ + self.pagador_nome@ + " notas "@ + joined(
            self.notas_fiscais.deep_view(),
            ","@,
        ) + " valor "@ + self.valor_frete@ + " motorista "@ + self.delivery_driver()
    }

    /// The fields by which the order is looked for: number, parties and
    /// cities, then the invoice numbers, then the drivers that are named.
    pub open spec fn search_fields(&self) -> Seq<Seq<char>> {
        seq![
            self.numero@,
            self.pagador_nome@,
            self.remetente_nome@,
            self.remetente_cidade@,
            self.destinatario_nome@,
            self.destinatario_cidade@,
        ] + self.notas_fiscais.deep_view() + (match self.motorista_coleta {
            Some(name) => seq![name@],
            None => seq![],
        }) + (match self.motorista_entrega {
            Some(name) => seq![name@],
            None => seq![],
        })
    }
}

impl Entity for FreightOrder {
    /// Number, payer, sender and recipient are not blank, and neither
    /// the count of volumes nor weight, invoiced value or freight value
    /// is below zero.
    open spec fn valid(&self) -> bool {
        &&& trimmed(self.numero@).len() > 0
        &&& trimmed(self.pagador_nome@).len() > 0
        &&& trimmed(self.remetente_nome@).len() > 0
        &&& trimmed(self.destinatario_nome@).len() > 0
        &&& self.volumes >= 0
        &&& !is_negative_number(self.peso@)
        &&& !is_negative_number(self.valor_notas@)
        &&& !is_negative_number(self.valor_frete@)
    }

    open spec fn id_text(&self) -> Seq<char> {
        self.id@
    }

    open spec fn kind(&self) -> Seq<char> {
        "freight_order"@
    }

    fn id(&self) -> (r: &String) {
        &self.id
    }

    fn entity_type(&self) -> (r: &str) {
        "freight_order"
    }

    fn validate(&self) -> (r: Result<(), Error>) {
        if is_blank(self.numero.as_str()) {
            return Err(Error::Validation("Número não pode ser vazio".to_owned()));
        }
        if is_blank(self.pagador_nome.as_str()) {
            return Err(Error::Validation("Pagador não pode ser vazio".to_owned()));
        }
        if is_blank(self.remetente_nome.as_str()) {
            return Err(Error::Validation("Remetente não pode ser vazio".to_owned()));
        }
        if is_blank(self.destinatario_nome.as_str()) {
            return Err(Error::Validation("Destinatário não pode ser vazio".to_owned()));
        }
        if self.volumes < 0 {
            return Err(Error::Validation("Volumes não pode ser negativo".to_owned()));
        }
        if is_negative(self.peso.as_str()) {
            return Err(Error::Validation("Peso não pode ser negativo".to_owned()));
        }
        if is_negative(self.valor_notas.as_str()) {
            return Err(Error::Validation("Valor das notas não pode ser negativo".to_owned()));
        }
        if is_negative(self.valor_frete.as_str()) {
            return Err(Error::Validation("Valor do frete não pode ser negativo".to_owned()));
        }
        Ok(())
    }
}

impl Embeddable for FreightOrder {
    fn to_embedding_text(&self) -> (r: String)
        ensures
            r@ == self.embedding_text(),
    {
        let mut r = String::new();
        push_text(&mut r, "Ordem ");
        push_text(&mut r, self.numero.as_str());
        push_text(&mut r, " de ");
        push_text(&mut r, self.remetente_cidade.as_str());
        push_text(&mut r, " para ");
        push_text(&mut r, self.destinatario_cidade.as_str());
        push_text(&mut r, " pagador ");
        push_text(&mut r, self.pagador_nome.as_str());
        push_text(&mut r, " notas ");
        let notas = join_range(&self.notas_fiscais, 0, self.notas_fiscais.len(), ",");
        assert(self.notas_fiscais.deep_view().subrange(0, self.notas_fiscais.len() as int)
            =~= self.notas_fiscais.deep_view());
        push_text(&mut r, notas.as_str());
        push_text(&mut r, " valor ");
        push_text(&mut r, self.valor_frete.as_str());
        push_text(&mut r, " motorista ");
        match &self.motorista_entrega {
            Some(name) => {
                push_text(&mut r, name.as_str());
            },
            None => {},
        }
        assert(r@ =~= self.embedding_text());
        r
    }

    fn searchable_fields(&self) -> (r: Vec<String>)
        ensures
            r.deep_view() == self.search_fields(),
    {
        let mut fields: Vec<String> = Vec::new();
        fields.push(self.numero.clone());
        fields.push(self.pagador_nome.clone());
        fields.push(self.remetente_nome.clone());
        fields.push(self.remetente_cidade.clone());
        fields.push(self.destinatario_nome.clone());
        fields.push(self.destinatario_cidade.clone());
        let mut i: usize = 0;
        while i < self.notas_fiscais.len()
            invariant
                i <= self.notas_fiscais.len(),
                fields.deep_view() == seq![
                    self.numero@,
                    self.pagador_nome@,
                    self.remetente_nome@,
                    self.remetente_cidade@,
                    self.destinatario_nome@,
                    self.destinatario_cidade@,
                ] + self.notas_fiscais.deep_view().take(i as int),
            decreases self.notas_fiscais.len() - i,
        {
            let ghost before = fields.deep_view();
            fields.push(self.notas_fiscais[i].clone());
            i += 1;
            proof {
                let notas = self.notas_fiscais.deep_view();
                assert(notas.take(i as int) =~= notas.take(i - 1).push(notas[i - 1]));
                assert(fields.deep_view() =~= before.push(notas[i - 1]));
            }
        }
        assert(self.notas_fiscais.deep_view().take(i as int) =~= self.notas_fiscais.deep_view());
        match &self.motorista_coleta {
            Some(name) => {
                fields.push(name.clone());
            },
            None => {},
        }
        match &self.motorista_entrega {
            Some(name) => {
                fields.push(name.clone());
            },
            None => {},
        }
        assert(fields.deep_view() =~= self.search_fields());
        fields
    }
}

} // verus!
