//! Records of hours worked out of the hours export.

use crate::base::{Entity, Error};
use crate::calendar::{Date, TimeOfDay};
use crate::importers::Importer;
use crate::locale::{parse_date, parse_time, parsed_date, parsed_time};
use crate::tabular::read_export;
use crate::text::{
    clone_optional, contains, contains_seq, ends_with, ends_with_seq,
    law_trimmed_text_stays_as_it_is, optional_text, trim, trimmed,
};
use crate::timesheet::{worked_minutes, Timesheet};
use vstd::prelude::*;

verus! {

/// Reads records of hours out of the hours export. Columns, from 0:
/// employee, period, day, clock-in, clock-out.
pub struct TimesheetImporter {}

/// A row gives a record: it has at least five cells, an employee, and a
/// day, a clock-in and a clock-out that all read.
pub open spec fn timesheet_row_accepted(row: Seq<Seq<char>>) -> bool {
    &&& row.len() >= 5
    &&& trimmed(row[0]).len() > 0
    &&& parsed_date(row[2]) is Some
    &&& parsed_time(row[3]) is Some
    &&& parsed_time(row[4]) is Some
}

/// `sheet` holds what an accepted `row` says, and `source` as the file it
/// came from.
pub open spec fn timesheet_matches_row(
    sheet: Timesheet,
    row: Seq<Seq<char>>,
    source: Option<Seq<char>>,
) -> bool {
    &&& sheet.funcionario@ == trimmed(row[0])
    &&& sheet.funcionario_id is None
    &&& sheet.mes@ == trimmed(row[1])
    &&& Some(sheet.data) == parsed_date(row[2])
    &&& Some(sheet.entrada) == parsed_time(row[3])
    &&& Some(sheet.saida) == parsed_time(row[4])
    &&& sheet.total_minutos == worked_minutes(sheet.entrada, sheet.saida)
    &&& sheet.saldo_minutos == 0
    &&& sheet.observacoes is None
    &&& optional_text(sheet.fonte_arquivo) == source
    &&& sheet.metadata.is_fresh_at(sheet.metadata.created_at)
}

/// The rows that give a record, in the order of the export.
pub open spec fn accepted_timesheet_rows(rows: Seq<Seq<Seq<char>>>) -> Seq<Seq<Seq<char>>>
    decreases rows.len(),
{
    if rows.len() == 0 {
        rows
    } else if timesheet_row_accepted(rows.last()) {
        accepted_timesheet_rows(rows.drop_last()).push(rows.last())
    } else {
        accepted_timesheet_rows(rows.drop_last())
    }
}

/// There is one record for each accepted row, in the same order; it
/// holds what the row says, and it is valid.
pub open spec fn timesheets_of_rows(
    sheets: Seq<Timesheet>,
    rows: Seq<Seq<Seq<char>>>,
    source: Option<Seq<char>>,
) -> bool {
    let accepted = accepted_timesheet_rows(rows);
    &&& sheets.len() == accepted.len()
    &&& forall|k: int|
        0 <= k < sheets.len() ==> timesheet_matches_row(#[trigger] sheets[k], accepted[k], source)
            && sheets[k].valid()
}

/// A file name that the hours export goes by: it ends in `.csv` and
/// holds `Horas`.
pub open spec fn is_timesheet_file_name(name: Seq<char>) -> bool {
    ends_with_seq(name, ".csv"@) && contains_seq(name, "Horas"@)
}

impl TimesheetImporter {
    pub fn new() -> (r: TimesheetImporter) {
        TimesheetImporter {  }
    }

    /// Reads a date cell.
    pub fn parse_date(&self, date_str: &str) -> (r: Option<Date>)
        ensures
            r == parsed_date(date_str@),
            r matches Some(d) ==> d.wf(),
    {
        parse_date(date_str)
    }

    /// Reads a time cell.
    pub fn parse_time(&self, time_str: &str) -> (r: Option<TimeOfDay>)
        ensures
            r == parsed_time(time_str@),
            r matches Some(t) ==> t.wf(),
    {
        parse_time(time_str)
    }

    /// The record that a row gives, if it gives one.
    pub fn timesheet_from_row(&self, row: &Vec<String>, source_file: &Option<String>) -> (r:
        Option<Timesheet>)
        ensures
            r is Some <==> timesheet_row_accepted(row.deep_view()),
            r matches Some(sheet) ==> timesheet_matches_row(
                sheet,
                row.deep_view(),
                optional_text(*source_file),
            ),
            r matches Some(sheet) ==> sheet.valid(),
    {
        if row.len() < 5 {
            return None;
        }
        let funcionario = trim(row[0].as_str());
        if funcionario.as_str().is_empty() {
            return None;
        }
        proof {
            law_trimmed_text_stays_as_it_is(row.deep_view()[0]);
        }
        let mes = trim(row[1].as_str());
        let data = parse_date(row[2].as_str());
        let entrada = parse_time(row[3].as_str());
        let saida = parse_time(row[4].as_str());
        match (data, entrada, saida) {
            (Some(data), Some(entrada), Some(saida)) => {
                let mut sheet = Timesheet::new(funcionario, mes, data, entrada, saida);
                sheet.fonte_arquivo = clone_optional(source_file);
                Some(sheet)
            },
            _ => None,
        }
    }
}

impl Importer for TimesheetImporter {
    type Output = Timesheet;

    open spec fn accepts(&self, file_name: Seq<char>) -> bool {
        is_timesheet_file_name(file_name)
    }

    open spec fn imports(
        &self,
        records: Seq<Timesheet>,
        rows: Seq<Seq<Seq<char>>>,
        source: Option<Seq<char>>,
    ) -> bool {
        timesheets_of_rows(records, rows, source)
    }

    fn import_rows(&self, rows: &Vec<Vec<String>>, source_file: &Option<String>) -> (sheets: Vec<
        Timesheet,
    >) {
        let mut sheets: Vec<Timesheet> = Vec::new();
        let ghost all = rows.deep_view();
        let ghost source = optional_text(*source_file);
        let mut i: usize = 0;
        while i < rows.len()
            invariant
                i <= rows.len(),
                all == rows.deep_view(),
                source == optional_text(*source_file),
                timesheets_of_rows(sheets@, all.take(i as int), source),
            decreases rows.len() - i,
        {
            proof {
                assert(all.take(i + 1).drop_last() =~= all.take(i as int));
                assert(all.take(i + 1).last() == rows@[i as int].deep_view());
            }
            match self.timesheet_from_row(&rows[i], source_file) {
                Some(sheet) => {
                    sheets.push(sheet);
                },
                None => {},
            }
            i += 1;
        }
        assert(all.take(rows.len() as int) =~= all);
        sheets
    }

    fn import_bytes(&self, bytes: &[u8], source_file: &Option<String>) -> (r: Result<
        Vec<Timesheet>,
        Error,
    >) {
        if bytes.len() > usize::MAX / 8 {
            return Err(Error::Import("Erro ao ler arquivo: grande demais".to_owned()));
        }
        let rows = read_export(bytes);
        Ok(self.import_rows(&rows, source_file))
    }

    fn can_import(&self, file_name: &str) -> (b: bool) {
        ends_with(file_name, ".csv") && contains(file_name, "Horas")
    }
}

} // verus!
