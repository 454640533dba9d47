//! Records of hours worked.

use crate::base::{new_id, AuditMetadata, Entity, Error};
use crate::calendar::{iso_date_text, Date, TimeOfDay};
use crate::text::{is_blank, trimmed};
use vstd::prelude::*;

verus! {

/// One day of one employee: when they clocked in and out.
#[derive(Debug, Clone)]
pub struct Timesheet {
    pub id: String,
    pub funcionario: String,
    pub funcionario_id: Option<String>,
    pub mes: String,
    pub data: Date,
    pub entrada: TimeOfDay,
    pub saida: TimeOfDay,
    pub total_minutos: i32,
    pub saldo_minutos: i32,
    pub observacoes: Option<String>,
    pub fonte_arquivo: Option<String>,
    pub metadata: AuditMetadata,
}

/// The minutes between clocking in and clocking out. Where the clock-out
/// is earlier in the day than the clock-in, the shift ran past midnight.
pub open spec fn worked_minutes(entrada: TimeOfDay, saida: TimeOfDay) -> int {
    let start = entrada.minute_of_day();
    let end = saida.minute_of_day();
    if end >= start {
        end - start
    } else {
        (24 * 60 - start) + end
    }
}

impl Timesheet {
    /// The record holds the given employee, period, day and times, the
    /// minutes worked that follow from the times, and nothing else yet.
    pub open spec fn is_new(
        &self,
        funcionario: Seq<char>,
        mes: Seq<char>,
        data: Date,
        entrada: TimeOfDay,
        saida: TimeOfDay,
    ) -> bool {
        &&& self.funcionario@ == funcionario
        &&& self.funcionario_id is None
        &&& self.mes@ == mes
        &&& self.data == data
        &&& self.entrada == entrada
        &&& self.saida == saida
        &&& self.total_minutos == worked_minutes(entrada, saida)
        &&& self.saldo_minutos == 0
        &&& self.observacoes is None
        &&& self.fonte_arquivo is None
        &&& self.metadata.is_fresh_at(self.metadata.created_at)
    }

    /// A new record with an identifier of its own, made at this moment.
    pub fn new(
        funcionario: String,
        mes: String,
        data: Date,
        entrada: TimeOfDay,
        saida: TimeOfDay,
    ) -> (r: Timesheet)
        requires
            entrada.wf(),
            saida.wf(),
        ensures
            r.is_new(funcionario@, mes@, data, entrada, saida),
    {
        let total_minutos = Timesheet::calculate_minutes(entrada, saida);
        Timesheet {
            id: new_id(),
            funcionario,
            funcionario_id: None,
            mes,
            data,
            entrada,
            saida,
            total_minutos,
            saldo_minutos: 0,
            observacoes: None,
            fonte_arquivo: None,
            metadata: AuditMetadata::now(),
        }
    }

    /// The minutes between clocking in and clocking out.
    pub fn calculate_minutes(entrada: TimeOfDay, saida: TimeOfDay) -> (r: i32)
        requires
            entrada.wf(),
            saida.wf(),
        ensures
            r == worked_minutes(entrada, saida),
            0 <= r < 24 * 60,
    {
        let entrada_mins: i32 = (entrada.hour * 60 + entrada.minute) as i32;
        let saida_mins: i32 = (saida.hour * 60 + saida.minute) as i32;
        if saida_mins >= entrada_mins {
            saida_mins - entrada_mins
        } else {
            (24 * 60 - entrada_mins) + saida_mins
        }
    }

    /// The fields by which the record is looked for: employee, period
    /// and day.
    pub fn searchable_fields(&self) -> (r: Vec<String>)
        requires
            self.data.wf(),
        ensures
            r.deep_view() == seq![self.funcionario@, self.mes@, iso_date_text(self.data)],
    {
        let mut fields: Vec<String> = Vec::new();
        fields.push(self.funcionario.clone());
        fields.push(self.mes.clone());
        fields.push(self.data.to_string());
        assert(fields.deep_view() =~= seq![
            self.funcionario@,
            self.mes@,
            iso_date_text(self.data),
        ]);
        fields
    }
}

impl Entity for Timesheet {
    /// The employee's name is not blank.
    open spec fn valid(&self) -> bool {
        trimmed(self.funcionario@).len() > 0
    }

    open spec fn id_text(&self) -> Seq<char> {
        self.id@
    }

    open spec fn kind(&self) -> Seq<char> {
        "timesheet"@
    }

    fn id(&self) -> (r: &String) {
        &self.id
    }

    fn entity_type(&self) -> (r: &str) {
        "timesheet"
    }

    fn validate(&self) -> (r: Result<(), Error>) {
        if is_blank(self.funcionario.as_str()) {
            return Err(Error::Validation("Funcionário não pode ser vazio".to_owned()));
        }
        Ok(())
    }
}

} // verus!
