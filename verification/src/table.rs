use crate::ident::{is_short_id, new_short_id};
use crate::messages::Failure;
use crate::model::{
    after_read, lemma_lookup_decides, lemma_lookup_first_match, lookup, never_negative,
    read_outcome,
};
use crate::record::{issued, ShortenUrl, UrlEntry};
use crate::validation::{is_url_with_host, is_valid_url};
use vstd::prelude::*;

verus! {

/// The registry of stored URLs, in the order in which they were stored.
///
/// A table belongs to one owner; its value is the sequence of its entries.
/// Identifiers are drawn at random and are not checked against the entries
/// already held, so two entries can carry the same identifier: resolution
/// then finds the older one.
#[derive(Debug)]
pub struct UrlTable {
    urls: Vec<ShortenUrl>,
}

impl View for UrlTable {
    type V = Seq<UrlEntry>;

    closed spec fn view(&self) -> Seq<UrlEntry> {
        self.urls@.map_values(|r: ShortenUrl| r@)
    }
}

impl UrlTable {
    /// Every table keeps its visit counts at or above zero.
    #[verifier::type_invariant]
    pub open spec fn well_formed(self) -> bool {
        never_negative(self@)
    }

    /// An empty table.
    pub fn new() -> (table: UrlTable)
        ensures
            table@ == Seq::<UrlEntry>::empty(),
    {
        let table = UrlTable { urls: Vec::new() };
        assert(table@ =~= Seq::<UrlEntry>::empty());
        table
    }

    /// The number of records held.
    pub fn len(&self) -> (n: usize)
        ensures
            n == self@.len(),
    {
        self.urls.len()
    }

    /// Appends the record for `url` under the identifier `id` and hands back
    /// a copy of it. Whatever `id` is, it is taken as given: neither its
    /// shape nor its freshness is checked.
    pub fn insert(&mut self, domain: &str, url: String, id: String) -> (rec: ShortenUrl)
        ensures
            rec@ == issued(domain@, url@, id@),
            final(self)@ == old(self)@.push(rec@),
    {
        proof {
            use_type_invariant(&*self);
        }
        let rec = ShortenUrl::issue(domain, url, id);
        let copy = rec.snapshot();
        let mut urls: Vec<ShortenUrl> = Vec::new();
        core::mem::swap(&mut self.urls, &mut urls);
        urls.push(rec);
        proof {
            let s = urls@.map_values(|r: ShortenUrl| r@);
            assert(s =~= old(self)@.push(copy@));
            assert forall|i: int| 0 <= i < s.len() implies (#[trigger] s[i]).visits >= 0 by {
                if i < old(self)@.len() {
                    assert(s[i] == old(self)@[i]);
                }
            }
        }
        self.urls = urls;
        copy
    }

    /// Stores `url`: validates it, draws an identifier, and appends the new
    /// record. A text that is not an absolute URL with a host is refused
    /// before an identifier is drawn, and the table stays as it was.
    pub fn store(&mut self, domain: &str, url: String) -> (r: Result<ShortenUrl, String>)
        ensures
            match r {
                Ok(rec) => {
                    &&& is_url_with_host(url@)
                    &&& is_short_id(rec@.short_id)
                    &&& rec@ == issued(domain@, url@, rec@.short_id)
                    &&& final(self)@ == old(self)@.push(rec@)
                },
                Err(e) => {
                    &&& !is_url_with_host(url@)
                    &&& e@ == Failure::InvalidUrl.text()
                    &&& final(self)@ == old(self)@
                },
            },
    {
        match is_valid_url(url.as_str()) {
            Err(e) => Err(e),
            Ok(()) => {
                let id = new_short_id();
                Ok(self.insert(domain, url, id))
            },
        }
    }

    /// The position of the first record that carries `short_id`.
    fn position(&self, short_id: &String) -> (at: Option<usize>)
        ensures
            lookup(self@, short_id@) == match at {
                Some(i) => Some(i as int),
                None => None,
            },
    {
        let mut i: usize = 0;
        while i < self.urls.len()
            invariant
                i <= self.urls.len(),
                forall|j: int| 0 <= j < i ==> (#[trigger] self@[j]).short_id != short_id@,
            decreases self.urls.len() - i,
        {
            if self.urls[i].short_id == *short_id {
                proof {
                    assert(self@[i as int].short_id == short_id@);
                    lemma_lookup_first_match(self@, short_id@, i as int);
                }
                return Some(i);
            }
            i += 1;
        }
        proof {
            lemma_lookup_decides(self@, short_id@);
        }
        None
    }

    /// Resolves `short_id`: the first record that carries it gets one more
    /// visit, and a copy of the updated record is handed back. Where no
    /// record carries it the table stays as it was.
    pub fn read(&mut self, short_id: &String) -> (r: Result<ShortenUrl, String>)
        ensures
            final(self)@ == after_read(old(self)@, short_id@),
            match r {
                Ok(rec) => read_outcome(old(self)@, short_id@) == Some(rec@) && rec.visits >= 1,
                Err(e) => read_outcome(old(self)@, short_id@) is None && e@
                    == Failure::NotFound.text(),
            },
    {
        proof {
            use_type_invariant(&*self);
        }
        match self.position(short_id) {
            None => Err(Failure::NotFound.message()),
            Some(i) => {
                let mut urls: Vec<ShortenUrl> = Vec::new();
                core::mem::swap(&mut self.urls, &mut urls);
                urls[i].visit();
                let rec = urls[i].snapshot();
                proof {
                    let s = urls@.map_values(|r: ShortenUrl| r@);
                    assert(old(self)@[i as int].visits >= 0);
                    assert(s =~= old(self)@.update(i as int, rec@));
                    assert forall|k: int| 0 <= k < s.len() implies (#[trigger] s[k]).visits
                        >= 0 by {
                        if k != i {
                            assert(s[k] == old(self)@[k]);
                        }
                    }
                }
                self.urls = urls;
                Ok(rec)
            },
        }
    }
}

} // verus!
