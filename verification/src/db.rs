//! The storage that the library writes to: one collection for each kind
//! of record, which takes a record only where it is valid.

use crate::base::{Entity, Error};
use crate::company::{Company, Contact};
use crate::fiscal::Manifest;
use crate::freight::FreightOrder;
use crate::route::Route;
use crate::timesheet::Timesheet;
use std::marker::PhantomData;
use vstd::prelude::*;

verus! {

/// The number of records of each kind.
#[derive(Debug, Clone)]
pub struct DatabaseStats {
    pub companies: usize,
    pub freight_orders: usize,
    pub timesheets: usize,
    pub contacts: usize,
    pub routes: usize,
    pub manifests: usize,
}

/// What a collection of records of one kind offers.
pub trait GenericRepository<T: Entity> {
    /// The record with the given identifier, if the collection holds
    /// it.
    fn find_by_id(&self, id: &str) -> Result<Option<T>, Error>;

    /// All records of the collection.
    fn find_all(&self) -> Result<Vec<T>, Error>;

    /// Stores a record. A record that is not valid is refused.
    fn save(&self, entity: &T) -> (r: Result<(), Error>)
        ensures
            r is Ok ==> entity.valid(),
            !entity.valid() ==> (r matches Err(e) && e is Validation),
    ;

    /// Stores a record in place of its earlier state. A record that is
    /// not valid is refused.
    fn update(&self, entity: &T) -> (r: Result<(), Error>)
        ensures
            r is Ok ==> entity.valid(),
            !entity.valid() ==> (r matches Err(e) && e is Validation),
    ;

    /// Removes the record with the given identifier.
    fn delete(&self, id: &str) -> Result<(), Error>;

    /// One page of the records of the collection.
    fn find_paginated(&self, page: usize, per_page: usize) -> Result<Vec<T>, Error>;

    /// The records whose field `field` holds `value`.
    fn find_by_field(&self, field: &str, value: &str) -> Result<Vec<T>, Error>;
}

/// A collection that checks what it is given and keeps nothing.
pub struct Repository<T> {
    collection_name: String,
    _phantom: PhantomData<T>,
}

impl<T: Entity> Repository<T> {
    /// The name of the collection.
    pub closed spec fn name(&self) -> Seq<char> {
        self.collection_name@
    }

    /// The collection of the given name.
    pub fn new(collection_name: &str) -> (r: Repository<T>)
        ensures
            r.name() == collection_name@,
    {
        Repository { collection_name: collection_name.to_owned(), _phantom: PhantomData }
    }

    /// The name of the collection.
    pub fn collection_name(&self) -> (r: &str)
        ensures
            r@ == self.name(),
    {
        self.collection_name.as_str()
    }
}

impl<T: Entity> GenericRepository<T> for Repository<T> {
    fn find_by_id(&self, id: &str) -> (r: Result<Option<T>, Error>)
        ensures
            r matches Ok(found) && found is None,
    {
        Ok(None)
    }

    fn find_all(&self) -> (r: Result<Vec<T>, Error>)
        ensures
            r matches Ok(found) && found@.len() == 0,
    {
        Ok(Vec::new())
    }

    fn save(&self, entity: &T) -> (r: Result<(), Error>)
        ensures
            r is Ok <==> entity.valid(),
    {
        entity.validate()
    }

    fn update(&self, entity: &T) -> (r: Result<(), Error>)
        ensures
            r is Ok <==> entity.valid(),
    {
        entity.validate()
    }

    fn delete(&self, id: &str) -> (r: Result<(), Error>)
        ensures
            r is Ok,
    {
        Ok(())
    }

    fn find_paginated(&self, page: usize, per_page: usize) -> (r: Result<Vec<T>, Error>)
        ensures
            r matches Ok(found) && found@.len() == 0,
    {
        Ok(Vec::new())
    }

    fn find_by_field(&self, field: &str, value: &str) -> (r: Result<Vec<T>, Error>)
        ensures
            r matches Ok(found) && found@.len() == 0,
    {
        Ok(Vec::new())
    }
}

/// The collections of the library, one for each kind of record.
pub struct PersonalControllerDb {
    pub companies: Repository<Company>,
    pub freight_orders: Repository<FreightOrder>,
    pub timesheets: Repository<Timesheet>,
    pub contacts: Repository<Contact>,
    pub routes: Repository<Route>,
    pub manifests: Repository<Manifest>,
}

impl PersonalControllerDb {
    /// The collections under their names.
    pub fn connect(url: &str) -> (r: Result<PersonalControllerDb, Error>)
        ensures
            r matches Ok(db) && db.companies.name() == "companies"@ && db.freight_orders.name()
                == "freight_orders"@ && db.timesheets.name() == "timesheets"@
                && db.contacts.name() == "contacts"@ && db.routes.name() == "routes"@
                && db.manifests.name() == "manifests"@,
    {
        Ok(
            PersonalControllerDb {
                companies: Repository::new("companies"),
                freight_orders: Repository::new("freight_orders"),
                timesheets: Repository::new("timesheets"),
                contacts: Repository::new("contacts"),
                routes: Repository::new("routes"),
                manifests: Repository::new("manifests"),
            },
        )
    }

    /// Makes the collections ready.
    pub fn initialize(&self) -> (r: Result<(), Error>)
        ensures
            r is Ok,
    {
        Ok(())
    }

    /// The number of records of each kind: none, as nothing is kept.
    pub fn stats(&self) -> (r: Result<DatabaseStats, Error>)
        ensures
            r matches Ok(s) && s.companies == 0 && s.freight_orders == 0 && s.timesheets == 0
                && s.contacts == 0 && s.routes == 0 && s.manifests == 0,
    {
        Ok(
            DatabaseStats {
                companies: 0,
                freight_orders: 0,
                timesheets: 0,
                contacts: 0,
                routes: 0,
                manifests: 0,
            },
        )
    }
}

} // verus!
