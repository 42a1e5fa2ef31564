use crate::ident::{is_short_id, new_short_id};
use crate::messages::Failure;
use crate::model::lemma_lookup_decides;
use crate::record::issued;
pub use crate::record::ShortenUrl;
use crate::sync::{guard_table, lock_table, table_of};
use crate::table::UrlTable;
use crate::validation::{is_url_with_host, is_valid_url};
use std::sync::{Arc, Mutex};
use vstd::prelude::*;

verus! {

/// A handle on one table of stored URLs that many threads may share.
///
/// Every operation holds the table's lock from its first look at the table
/// to its last, so the operations of all handles on one table take place one
/// after another. A clone of a handle shares its table.
///
/// What the table holds at the moment of a call depends on what the other
/// holders have done, so the contracts here say what is true of every
/// outcome; [`UrlTable`] states the exact effect of each operation on the
/// table.
#[derive(Debug, Clone)]
pub struct Shortener {
    domain: String,
    urls: Arc<Mutex<UrlTable>>,
}

impl Shortener {
    /// The domain under which this handle forms its short links.
    pub closed spec fn domain(&self) -> Seq<char> {
        self.domain@
    }

    /// A handle on a new, empty table, with `domain` as the base of its
    /// short links.
    pub fn new(domain: String) -> (shortener: Shortener)
        ensures
            shortener.domain() == domain@,
    {
        Shortener { domain, urls: Arc::new(guard_table(UrlTable::new())) }
    }

    /// Stores `url` and hands back the new record.
    ///
    /// A text that is not an absolute URL with a host fails as invalid,
    /// before the lock is touched. An absolute URL with a host is stored
    /// under a freshly drawn identifier unless the lock cannot be acquired.
    pub fn store(&self, url: String) -> (r: Result<ShortenUrl, String>)
        ensures
            !is_url_with_host(url@) ==> (r matches Err(e) && e@ == Failure::InvalidUrl.text()),
            is_url_with_host(url@) ==> match r {
                Ok(rec) => is_short_id(rec@.short_id) && rec@ == issued(
                    self.domain(),
                    url@,
                    rec@.short_id,
                ),
                Err(e) => e@ == Failure::LockFailure.text(),
            },
    {
        match is_valid_url(url.as_str()) {
            Err(e) => Err(e),
            Ok(()) => match lock_table(&self.urls) {
                None => Err(Failure::LockFailure.message()),
                Some(mut guard) => {
                    let id = new_short_id();
                    let table = table_of(&mut guard);
                    Ok(table.insert(self.domain.as_str(), url, id))
                },
            },
        }
    }

    /// Resolves `short_id`, counting one visit, and hands back the record
    /// found.
    ///
    /// Fails as not found where the table holds no record under `short_id`
    /// at the moment the lock is held, and as a lock failure where the lock
    /// cannot be acquired.
    pub fn read(&self, short_id: String) -> (r: Result<ShortenUrl, String>)
        ensures
            match r {
                Ok(rec) => rec@.short_id == short_id@ && rec.visits >= 1,
                Err(e) => e@ == Failure::NotFound.text() || e@ == Failure::LockFailure.text(),
            },
    {
        match lock_table(&self.urls) {
            None => Err(Failure::LockFailure.message()),
            Some(mut guard) => {
                let table = table_of(&mut guard);
                let ghost before = table@;
                let r = table.read(&short_id);
                proof {
                    lemma_lookup_decides(before, short_id@);
                }
                r
            },
        }
    }
}

} // verus!
