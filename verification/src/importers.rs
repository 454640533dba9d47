//! What every importer of an export offers, and the choice of an
//! importer by file name.

use crate::base::Error;
use crate::freight_importer::FreightOrderImporter;
use crate::route_importer::RouteImporter;
use crate::tabular::{decodable_len, export_rows};
use crate::text::{contains, contains_seq, optional_text, push_text, trim, trimmed};
use crate::timesheet_importer::TimesheetImporter;
use vstd::prelude::*;

verus! {

/// The cell of `row` in column `i`, trimmed, where the row has such a
/// column.
pub open spec fn optional_cell(row: Seq<Seq<char>>, i: int) -> Option<Seq<char>> {
    if 0 <= i < row.len() {
        Some(trimmed(row[i]))
    } else {
        None
    }
}

/// The cell of `row` in column `i`, trimmed, where the row has such a
/// column.
pub fn trimmed_cell(row: &Vec<String>, i: usize) -> (r: Option<String>)
    ensures
        optional_text(r) == optional_cell(row.deep_view(), i as int),
{
    if i < row.len() {
        Some(trim(row[i].as_str()))
    } else {
        None
    }
}

/// Reads the records of one kind out of an export.
pub trait Importer {
    type Output;

    /// Whether a file of this name is taken for an export of this kind.
    spec fn accepts(&self, file_name: Seq<char>) -> bool;

    /// Whether `records` are what the rows of an export give, each
    /// marked as coming from `source`.
    spec fn imports(
        &self,
        records: Seq<Self::Output>,
        rows: Seq<Seq<Seq<char>>>,
        source: Option<Seq<char>>,
    ) -> bool;

    /// Reads the records out of the rows of an export.
    fn import_rows(&self, rows: &Vec<Vec<String>>, source_file: &Option<String>) -> (records:
        Vec<Self::Output>)
        ensures
            self.imports(records@, rows.deep_view(), optional_text(*source_file)),
    ;

    /// Reads the records out of the bytes of an export. Fails only
    /// where the bytes are too many to decode.
    fn import_bytes(&self, bytes: &[u8], source_file: &Option<String>) -> (r: Result<
        Vec<Self::Output>,
        Error,
    >)
        ensures
            r is Ok <==> decodable_len(bytes@.len()),
            r matches Ok(records) ==> self.imports(
                records@,
                export_rows(bytes@),
                optional_text(*source_file),
            ),
            r matches Err(e) ==> e is Import,
    ;

    /// Whether a file of this name is taken for an export of this kind.
    fn can_import(&self, file_name: &str) -> (b: bool)
        ensures
            b == self.accepts(file_name@),
    ;
}


/// The importer that was chosen for a file.
pub enum DetectedImporter {
    Timesheet(TimesheetImporter),
    Route(RouteImporter),
    FreightOrder(FreightOrderImporter),
}

/// The name tells of hours worked: it holds `Horas` or `Ponto`.
pub open spec fn names_timesheets(name: Seq<char>) -> bool {
    contains_seq(name, "Horas"@) || contains_seq(name, "Ponto"@)
}

/// The name tells of routes: it holds `Rotas`.
pub open spec fn names_routes(name: Seq<char>) -> bool {
    contains_seq(name, "Rotas"@)
}

/// The name tells of freight orders: it holds `-04` or `Planilha`.
pub open spec fn names_freight_orders(name: Seq<char>) -> bool {
    contains_seq(name, "-04"@) || contains_seq(name, "Planilha"@)
}

/// Chooses the importer for a file by its name: hours first, then
/// routes, then freight orders. A name that tells of none of them is an
/// error that quotes the name.
pub fn auto_detect_importer(file_name: &str) -> (r: Result<DetectedImporter, Error>)
    ensures
        match r {
            Ok(DetectedImporter::Timesheet(_)) => names_timesheets(file_name@),
            Ok(DetectedImporter::Route(_)) => !names_timesheets(file_name@) && names_routes(
                file_name@,
            ),
            Ok(DetectedImporter::FreightOrder(_)) => !names_timesheets(file_name@) && !names_routes(
                file_name@,
            ) && names_freight_orders(file_name@),
            Err(e) => !names_timesheets(file_name@) && !names_routes(file_name@)
                && !names_freight_orders(file_name@) && e is Import && e.message()
                == "Não foi possível detectar o tipo do arquivo: "@ + file_name@,
        },
{
    if contains(file_name, "Horas") || contains(file_name, "Ponto") {
        Ok(DetectedImporter::Timesheet(TimesheetImporter::new()))
    } else if contains(file_name, "Rotas") {
        Ok(DetectedImporter::Route(RouteImporter::new()))
    } else if contains(file_name, "-04") || contains(file_name, "Planilha") {
        Ok(DetectedImporter::FreightOrder(FreightOrderImporter::new()))
    } else {
        let mut message = String::new();
        push_text(&mut message, "Não foi possível detectar o tipo do arquivo: ");
        push_text(&mut message, file_name);
        assert(message@ =~= "Não foi possível detectar o tipo do arquivo: "@ + file_name@);
        Err(Error::Import(message))
    }
}

} // verus!
