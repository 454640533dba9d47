//! Freight orders out of the order export.

use crate::base::Error;
use crate::calendar::Date;
use crate::freight::FreightOrder;
use crate::importers::{optional_cell, trimmed_cell, Importer};
use crate::base::Entity;
use crate::locale::{
    amount_of, integer_of, is_negative, is_negative_number, list_items, parse_currency,
    parse_date, parse_int, parsed_date, split_multi_value,
};
use crate::tabular::read_export;
use crate::text::{
    clone_optional, contains, contains_seq, ends_with, ends_with_seq,
    law_trimmed_text_stays_as_it_is, optional_text, trim, trimmed,
};
use vstd::prelude::*;

verus! {

/// Reads freight orders out of the order export. Columns, from 0: order
/// number; date of scheduling; date of issue; invoice numbers; payer and
/// payer's telephone; sender and sender's city; recipient and
/// recipient's city; volumes, weight, invoiced value, freight value and
/// tabled rate in 10 to 14; pickup branch and driver, delivery branch
/// and driver in 26 to 29.
pub struct FreightOrderImporter {}

/// The amount in column `i` of `row` as decimal text, where the row has
/// such a column; `0` where the cell holds no number.
pub open spec fn optional_amount(row: Seq<Seq<char>>, i: int) -> Option<Seq<char>> {
    if 0 <= i < row.len() {
        Some(amount_of(row[i]))
    } else {
        None
    }
}

/// The amount in column `i` of `row` as decimal text, or `0` where the
/// row has no such column.
pub open spec fn amount_or_zero(row: Seq<Seq<char>>, i: int) -> Seq<char> {
    match optional_amount(row, i) {
        Some(a) => a,
        None => "0"@,
    }
}

/// A row gives an order: it has at least ten cells, an order number, a
/// payer, a sender and a recipient, and a date of issue, and neither
/// its count of volumes nor its weight, invoiced value or freight value
/// is below zero.
pub open spec fn freight_row_accepted(row: Seq<Seq<char>>) -> bool {
    &&& row.len() >= 10
    &&& trimmed(row[0]).len() > 0
    &&& trimmed(row[4]).len() > 0
    &&& trimmed(row[6]).len() > 0
    &&& trimmed(row[8]).len() > 0
    &&& parsed_date(row[2]) is Some
    &&& row.len() > 10 ==> integer_of(row[10]) >= 0
    &&& !is_negative_number(amount_or_zero(row, 11))
    &&& !is_negative_number(amount_or_zero(row, 12))
    &&& !is_negative_number(amount_or_zero(row, 13))
}

/// `order` holds what an accepted `row` says, and `source` as the file it
/// came from.
pub open spec fn order_matches_row(
    order: FreightOrder,
    row: Seq<Seq<char>>,
    source: Option<Seq<char>>,
) -> bool {
    &&& order.numero@ == trimmed(row[0])
    &&& order.data_agendamento == parsed_date(row[1])
    &&& Some(order.data_emissao) == parsed_date(row[2])
    &&& order.data_entrega is None
    &&& order.notas_fiscais.deep_view() == list_items(row[3])
    &&& order.cte_numero is None
    &&& order.cte_chave is None
    &&& order.pagador_nome@ == trimmed(row[4])
    &&& optional_text(order.pagador_telefone) == optional_cell(row, 5)
    &&& order.remetente_id is None
    &&& order.remetente_nome@ == trimmed(row[6])
    &&& order.remetente_cidade@ == trimmed(row[7])
    &&& order.destinatario_id is None
    &&& order.destinatario_nome@ == trimmed(row[8])
    &&& order.destinatario_cidade@ == trimmed(row[9])
    &&& order.volumes == (if row.len() > 10 {
        integer_of(row[10])
    } else {
        0
    })
    &&& order.peso@ == amount_or_zero(row, 11)
    &&& order.valor_notas@ == amount_or_zero(row, 12)
    &&& order.valor_frete@ == amount_or_zero(row, 13)
    &&& optional_text(order.frete_tabelado) == optional_amount(row, 14)
    &&& optional_text(order.filial_coleta) == optional_cell(row, 26)
    &&& optional_text(order.motorista_coleta) == optional_cell(row, 27)
    &&& optional_text(order.filial_entrega) == optional_cell(row, 28)
    &&& optional_text(order.motorista_entrega) == optional_cell(row, 29)
    &&& order.forma_pagamento is None
    &&& order.status == crate::base::Status::Pending
    &&& order.observacoes is None
    &&& optional_text(order.fonte_arquivo) == source
    &&& order.metadata.is_fresh_at(order.metadata.created_at)
}

/// The rows that give an order, in the order of the export.
pub open spec fn accepted_freight_rows(rows: Seq<Seq<Seq<char>>>) -> Seq<Seq<Seq<char>>>
    decreases rows.len(),
{
    if rows.len() == 0 {
        rows
    } else if freight_row_accepted(rows.last()) {
        accepted_freight_rows(rows.drop_last()).push(rows.last())
    } else {
        accepted_freight_rows(rows.drop_last())
    }
}

/// There is one order for each accepted row, in the same order; it
/// holds what the row says, and it is valid.
pub open spec fn orders_of_rows(
    orders: Seq<FreightOrder>,
    rows: Seq<Seq<Seq<char>>>,
    source: Option<Seq<char>>,
) -> bool {
    let accepted = accepted_freight_rows(rows);
    &&& orders.len() == accepted.len()
    &&& forall|k: int|
        0 <= k < orders.len() ==> order_matches_row(#[trigger] orders[k], accepted[k], source)
            && orders[k].valid()
}

/// A file name that the order export goes by: it ends in `.csv` and
/// holds `-04` or `Planilha`.
pub open spec fn is_freight_file_name(name: Seq<char>) -> bool {
    ends_with_seq(name, ".csv"@) && (contains_seq(name, "-04"@) || contains_seq(
        name,
        "Planilha"@,
    ))
}

fn amount_cell(row: &Vec<String>, i: usize) -> (r: Option<String>)
    ensures
        optional_text(r) == optional_amount(row.deep_view(), i as int),
{
    if i < row.len() {
        Some(parse_currency(row[i].as_str()))
    } else {
        None
    }
}

fn amount_cell_or_zero(row: &Vec<String>, i: usize) -> (r: String)
    ensures
        r@ == amount_or_zero(row.deep_view(), i as int),
{
    match amount_cell(row, i) {
        Some(a) => a,
        None => "0".to_owned(),
    }
}

impl FreightOrderImporter {
    pub fn new() -> (r: FreightOrderImporter) {
        FreightOrderImporter {  }
    }

    /// Reads a date cell.
    pub fn parse_date(&self, date_str: &str) -> (r: Option<Date>)
        ensures
            r == parsed_date(date_str@),
            r matches Some(d) ==> d.wf(),
    {
        parse_date(date_str)
    }

    /// Reads a currency cell as plain decimal text; a cell that holds
    /// no number reads as `0`.
    pub fn parse_amount(&self, value: &str) -> (r: String)
        ensures
            r@ == amount_of(value@),
    {
        parse_currency(value)
    }

    /// Reads an integer cell; a cell that holds no integer reads as 0.
    pub fn parse_int(&self, value: &str) -> (r: i32)
        ensures
            r == integer_of(value@),
    {
        parse_int(value)
    }

    /// Reads a cell of invoice numbers.
    pub fn split_notas(&self, notas_str: &str) -> (r: Vec<String>)
        ensures
            r.deep_view() == list_items(notas_str@),
    {
        split_multi_value(notas_str)
    }

    /// The order that a row gives, if it gives one.
    pub fn order_from_row(&self, row: &Vec<String>, source_file: &Option<String>) -> (r: Option<
        FreightOrder,
    >)
        ensures
            r is Some <==> freight_row_accepted(row.deep_view()),
            r matches Some(order) ==> order_matches_row(
                order,
                row.deep_view(),
                optional_text(*source_file),
            ),
            row.deep_view().len() < 10 ==> r is None,
            row.deep_view().len() >= 10 && trimmed(row.deep_view()[0]).len() == 0 ==> r is None,
            r matches Some(order) ==> order.valid(),
    {
        if row.len() < 10 {
            return None;
        }
        let numero = trim(row[0].as_str());
        if numero.as_str().is_empty() {
            return None;
        }
        let data_agendamento = parse_date(row[1].as_str());
        let data_emissao = parse_date(row[2].as_str());
        let notas_fiscais = split_multi_value(row[3].as_str());
        let pagador_nome = trim(row[4].as_str());
        let pagador_telefone = trimmed_cell(row, 5);
        let remetente_nome = trim(row[6].as_str());
        let remetente_cidade = trim(row[7].as_str());
        let destinatario_nome = trim(row[8].as_str());
        let destinatario_cidade = trim(row[9].as_str());
        if pagador_nome.as_str().is_empty() || remetente_nome.as_str().is_empty()
            || destinatario_nome.as_str().is_empty() {
            return None;
        }
        let volumes = if row.len() > 10 {
            parse_int(row[10].as_str())
        } else {
            0
        };
        let peso = amount_cell_or_zero(row, 11);
        let valor_notas = amount_cell_or_zero(row, 12);
        let valor_frete = amount_cell_or_zero(row, 13);
        let frete_tabelado = amount_cell(row, 14);
        let filial_coleta = trimmed_cell(row, 26);
        let motorista_coleta = trimmed_cell(row, 27);
        let filial_entrega = trimmed_cell(row, 28);
        let motorista_entrega = trimmed_cell(row, 29);
        let data_emissao = match data_emissao {
            Some(d) => d,
            None => {
                return None;
            },
        };
        if volumes < 0 || is_negative(peso.as_str()) || is_negative(valor_notas.as_str())
            || is_negative(valor_frete.as_str()) {
            return None;
        }
        proof {
            let cells = row.deep_view();
            law_trimmed_text_stays_as_it_is(cells[0]);
            law_trimmed_text_stays_as_it_is(cells[4]);
            law_trimmed_text_stays_as_it_is(cells[6]);
            law_trimmed_text_stays_as_it_is(cells[8]);
        }
        let mut order = FreightOrder::new(
            numero,
            data_emissao,
            pagador_nome,
            remetente_nome,
            remetente_cidade,
            destinatario_nome,
            destinatario_cidade,
        );
        order.data_agendamento = data_agendamento;
        order.notas_fiscais = notas_fiscais;
        order.pagador_telefone = pagador_telefone;
        order.volumes = volumes;
        order.peso = peso;
        order.valor_notas = valor_notas;
        order.valor_frete = valor_frete;
        order.frete_tabelado = frete_tabelado;
        order.filial_coleta = filial_coleta;
        order.motorista_coleta = motorista_coleta;
        order.filial_entrega = filial_entrega;
        order.motorista_entrega = motorista_entrega;
        order.fonte_arquivo = clone_optional(source_file);
        Some(order)
    }
}

impl Importer for FreightOrderImporter {
    type Output = FreightOrder;

    open spec fn accepts(&self, file_name: Seq<char>) -> bool {
        is_freight_file_name(file_name)
    }

    open spec fn imports(
        &self,
        records: Seq<FreightOrder>,
        rows: Seq<Seq<Seq<char>>>,
        source: Option<Seq<char>>,
    ) -> bool {
        orders_of_rows(records, rows, source)
    }

    fn import_rows(&self, rows: &Vec<Vec<String>>, source_file: &Option<String>) -> (orders: Vec<
        FreightOrder,
    >) {
        let mut orders: Vec<FreightOrder> = Vec::new();
        let ghost all = rows.deep_view();
        let ghost source = optional_text(*source_file);
        let mut i: usize = 0;
        while i < rows.len()
            invariant
                i <= rows.len(),
                all == rows.deep_view(),
                source == optional_text(*source_file),
                orders_of_rows(orders@, all.take(i as int), source),
            decreases rows.len() - i,
        {
            let ghost before = orders@;
            let ghost seen = all.take(i as int);
            proof {
                assert(all.take(i + 1).drop_last() =~= seen);
                assert(all.take(i + 1).last() == rows@[i as int].deep_view());
            }
            match self.order_from_row(&rows[i], source_file) {
                Some(order) => {
                    orders.push(order);
                },
                None => {},
            }
            i += 1;
        }
        assert(all.take(rows.len() as int) =~= all);
        orders
    }

    fn import_bytes(&self, bytes: &[u8], source_file: &Option<String>) -> (r: Result<
        Vec<FreightOrder>,
        Error,
    >) {
        if bytes.len() > usize::MAX / 8 {
            return Err(Error::Import("Erro ao ler arquivo: grande demais".to_owned()));
        }
        let rows = read_export(bytes);
        Ok(self.import_rows(&rows, source_file))
    }

    fn can_import(&self, file_name: &str) -> (b: bool) {
        ends_with(file_name, ".csv") && (contains(file_name, "-04") || contains(
            file_name,
            "Planilha",
        ))
    }
}


/// A row with fewer than ten cells, or without an order number, leaves
/// no trace in what is imported: the export gives the same orders with
/// the row as without it.
pub proof fn law_short_and_unnumbered_rows_are_left_out(rows: Seq<Seq<Seq<char>>>, i: int)
    requires
        0 <= i < rows.len(),
        rows[i].len() < 10 || trimmed(rows[i][0]).len() == 0,
    ensures
        accepted_freight_rows(rows) == accepted_freight_rows(rows.remove(i)),
    decreases rows.len(),
{
    if i == rows.len() - 1 {
        assert(rows.remove(i) =~= rows.drop_last());
    } else {
        let shorter = rows.remove(i);
        assert(shorter.last() == rows.last());
        assert(shorter.drop_last() =~= rows.drop_last().remove(i));
        law_short_and_unnumbered_rows_are_left_out(rows.drop_last(), i);
    }
}

} // verus!
