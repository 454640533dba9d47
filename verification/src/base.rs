//! Types shared by every record: errors, processing status, audit
//! trail, paging.

use crate::text::push_text;
use vstd::prelude::*;

verus! {

/// What can go wrong, each kind with its message.
#[derive(Debug)]
pub enum Error {
    Database(String),
    Import(String),
    Validation(String),
    NotFound(String),
    Llm(String),
    Internal(String),
}

impl Error {
    /// The message that the error carries.
    pub open spec fn message(&self) -> Seq<char> {
        match self {
            Error::Database(m) => m@,
            Error::Import(m) => m@,
            Error::Validation(m) => m@,
            Error::NotFound(m) => m@,
            Error::Llm(m) => m@,
            Error::Internal(m) => m@,
        }
    }

    /// The words that introduce an error of this kind.
    pub open spec fn label(&self) -> Seq<char> {
        match self {
            Error::Database(_) => "Database error: "@,
            Error::Import(_) => "Import error: "@,
            Error::Validation(_) => "Validation error: "@,
            Error::NotFound(_) => "Not found: "@,
            Error::Llm(_) => "LLM error: "@,
            Error::Internal(_) => "Internal error: "@,
        }
    }

    /// The error as one line: its kind, then its message.
    pub fn to_string(&self) -> (r: String)
        ensures
            r@ == self.label() + self.message(),
    {
        let mut r = String::new();
        match self {
            Error::Database(m) => {
                push_text(&mut r, "Database error: ");
                push_text(&mut r, m.as_str());
            },
            Error::Import(m) => {
                push_text(&mut r, "Import error: ");
                push_text(&mut r, m.as_str());
            },
            Error::Validation(m) => {
                push_text(&mut r, "Validation error: ");
                push_text(&mut r, m.as_str());
            },
            Error::NotFound(m) => {
                push_text(&mut r, "Not found: ");
                push_text(&mut r, m.as_str());
            },
            Error::Llm(m) => {
                push_text(&mut r, "LLM error: ");
                push_text(&mut r, m.as_str());
            },
            Error::Internal(m) => {
                push_text(&mut r, "Internal error: ");
                push_text(&mut r, m.as_str());
            },
        }
        assert(r@ =~= self.label() + self.message());
        r
    }
}

/// How far the processing of a record has come.
#[derive(Debug, Clone, Copy, PartialEq, Eq, Structural)]
pub enum Status {
    Pending,
    Processing,
    Completed,
    Failed,
    Cancelled,
}

impl Status {
    /// The status in Portuguese.
    pub open spec fn label(&self) -> Seq<char> {
        match self {
            Status::Pending => "Pendente"@,
            Status::Processing => "Processando"@,
            Status::Completed => "Concluído"@,
            Status::Failed => "Falhou"@,
            Status::Cancelled => "Cancelado"@,
        }
    }

    /// The name of the status as written in code.
    pub open spec fn name(&self) -> Seq<char> {
        match self {
            Status::Pending => "Pending"@,
            Status::Processing => "Processing"@,
            Status::Completed => "Completed"@,
            Status::Failed => "Failed"@,
            Status::Cancelled => "Cancelled"@,
        }
    }

    /// The status in Portuguese.
    pub fn to_string(&self) -> (r: String)
        ensures
            r@ == self.label(),
    {
        match self {
            Status::Pending => "Pendente".to_owned(),
            Status::Processing => "Processando".to_owned(),
            Status::Completed => "Concluído".to_owned(),
            Status::Failed => "Falhou".to_owned(),
            Status::Cancelled => "Cancelado".to_owned(),
        }
    }

    /// The name of the status as written in code.
    pub fn variant_name(&self) -> (r: String)
        ensures
            r@ == self.name(),
    {
        match self {
            Status::Pending => "Pending".to_owned(),
            Status::Processing => "Processing".to_owned(),
            Status::Completed => "Completed".to_owned(),
            Status::Failed => "Failed".to_owned(),
            Status::Cancelled => "Cancelled".to_owned(),
        }
    }
}

/// `chrono::Utc::now`, as milliseconds since the Unix epoch. The value
/// is whatever the system clock says; chrono gives up where that clock
/// stands before 1970.
#[verifier::external_body]
fn clock_millis() -> (now: i64) {
    chrono::Utc::now().timestamp_millis()
}

/// `uuid::Uuid::new_v4`, in its hyphenated text form. The value is
/// random.
#[verifier::external_body]
pub(crate) fn new_id() -> (id: String) {
    uuid::Uuid::new_v4().to_string()
}

/// When a record was created and last changed, and by whom. Times are
/// milliseconds since the Unix epoch.
#[derive(Debug, Clone)]
pub struct AuditMetadata {
    pub created_at: i64,
    pub updated_at: i64,
    pub created_by: Option<String>,
    pub updated_by: Option<String>,
}

impl AuditMetadata {
    /// The record was made at `now`, by nobody in particular, and not
    /// changed since.
    pub open spec fn is_fresh_at(&self, now: i64) -> bool {
        &&& self.created_at == now
        &&& self.updated_at == now
        &&& self.created_by is None
        &&& self.updated_by is None
    }

    /// The audit trail of a record made at `now`.
    pub fn at(now: i64) -> (r: AuditMetadata)
        ensures
            r.is_fresh_at(now),
    {
        AuditMetadata { created_at: now, updated_at: now, created_by: None, updated_by: None }
    }

    /// The audit trail of a record made at this moment.
    pub fn now() -> (r: AuditMetadata)
        ensures
            r.is_fresh_at(r.created_at),
    {
        AuditMetadata::at(clock_millis())
    }
}

impl Default for AuditMetadata {
    fn default() -> (r: AuditMetadata)
        ensures
            r.is_fresh_at(r.created_at),
    {
        AuditMetadata::now()
    }
}

/// A position in a paged listing. Pages count from 1.
#[derive(Debug, Clone)]
pub struct Pagination {
    pub page: usize,
    pub per_page: usize,
    pub total: usize,
}

impl Pagination {
    pub fn new(page: usize, per_page: usize, total: usize) -> (r: Pagination)
        ensures
            r.page == page,
            r.per_page == per_page,
            r.total == total,
    {
        Pagination { page, per_page, total }
    }

    /// The number of pages that hold `total` items, `per_page` to a
    /// page.
    pub open spec fn page_count(&self) -> int {
        (self.total + self.per_page - 1) / (self.per_page as int)
    }

    /// The number of items on the pages before this one.
    pub open spec fn items_before(&self) -> int {
        (self.page - 1) * self.per_page
    }

    /// The number of pages.
    pub fn total_pages(&self) -> (r: usize)
        requires
            self.per_page > 0,
            self.total + self.per_page <= usize::MAX,
        ensures
            r == self.page_count(),
    {
        (self.total + self.per_page - 1) / self.per_page
    }

    /// The index of the first item of this page.
    pub fn offset(&self) -> (r: usize)
        requires
            self.page >= 1,
            (self.page - 1) * self.per_page <= usize::MAX,
        ensures
            r == self.items_before(),
    {
        (self.page - 1) * self.per_page
    }
}

/// One page of a listing.
#[derive(Debug, Clone)]
pub struct PaginatedResponse<T> {
    pub data: Vec<T>,
    pub pagination: Pagination,
}

/// A record that can be put into words for semantic search.
pub trait Embeddable {
    /// The record as one line of text.
    fn to_embedding_text(&self) -> String;

    /// The fields by which the record is most likely looked for.
    fn searchable_fields(&self) -> Vec<String>;
}

/// A record that can be stored.
pub trait Entity {
    /// The record meets what storage asks of it.
    spec fn valid(&self) -> bool;

    /// The identifier of the record.
    spec fn id_text(&self) -> Seq<char>;

    /// The name of the collection that holds such records.
    spec fn kind(&self) -> Seq<char>;

    fn id(&self) -> (r: &String)
        ensures
            r@ == self.id_text(),
    ;

    fn entity_type(&self) -> (r: &str)
        ensures
            r@ == self.kind(),
    ;

    /// Accepts the record exactly where it is valid.
    fn validate(&self) -> (r: Result<(), Error>)
        ensures
            r is Ok <==> self.valid(),
            r matches Err(e) ==> e is Validation,
    ;
}

} // verus!
