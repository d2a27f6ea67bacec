//! Bookkeeping of what is read from a MongoDB server.
use vstd::prelude::*;
use crate::collectors::state::AppState;
use crate::text::{concat, decimal, decimal_string};

verus! {

/// Collections whose documents are read, per database.
pub const COLLECTIONS_SAMPLED: usize = 5;

/// Documents read per collection.
pub const DOCS_PER_COLLECTION: usize = 20;

/// The size line shown for the server: the number of databases and ` DBs`.
pub open spec fn size_label(n: nat) -> Seq<char> {
    decimal(n) + " DBs"@
}

impl AppState {
    /// Records the list of databases and the size line derived from it.
    pub fn set_mongo_databases(&mut self, dbs: Vec<String>)
        ensures
            final(self).mongo_db_size@ == size_label(dbs@.len()),
            *final(self) == (AppState {
                mongo_dbs: dbs,
                mongo_db_size: final(self).mongo_db_size,
                ..*old(self)
            }),
    {
        let n = decimal_string(dbs.len() as u64);
        self.mongo_db_size = concat(n.as_str(), " DBs");
        self.mongo_dbs = dbs;
    }
}

} // verus!
