use vstd::prelude::*;

verus! {

/// The largest visit count a record can hold.
pub const MAX_VISITS: i32 = 0x7fff_ffff;

/// One stored association between a short identifier and a destination URL.
#[derive(Debug, Clone)]
pub struct ShortenUrl {
    /// The generated identifier under which the record is found.
    pub short_id: String,
    /// The destination, as the caller supplied it.
    pub url: String,
    /// The short link: the configured domain, a slash, the identifier.
    pub target_url: String,
    /// How many times the record has been resolved.
    pub visits: i32,
}

/// The mathematical value of a [`ShortenUrl`]: its texts as character
/// sequences and its counter as an unbounded integer.
pub struct UrlEntry {
    pub short_id: Seq<char>,
    pub url: Seq<char>,
    pub target_url: Seq<char>,
    pub visits: int,
}

impl View for ShortenUrl {
    type V = UrlEntry;

    open spec fn view(&self) -> UrlEntry {
        UrlEntry {
            short_id: self.short_id@,
            url: self.url@,
            target_url: self.target_url@,
            visits: self.visits as int,
        }
    }
}

/// The short link for identifier `id` under `domain`.
pub open spec fn short_link(domain: Seq<char>, id: Seq<char>) -> Seq<char> {
    domain + seq!['/'] + id
}

/// The entry that storing `url` under identifier `id` creates: the link is
/// derived from the domain, and nobody has visited it yet.
pub open spec fn issued(domain: Seq<char>, url: Seq<char>, id: Seq<char>) -> UrlEntry {
    UrlEntry { short_id: id, url, target_url: short_link(domain, id), visits: 0 }
}

/// The entry after one more resolution. The counter goes up by one and stays
/// where it is once it has reached [`MAX_VISITS`]; nothing else changes.
pub open spec fn visited(e: UrlEntry) -> UrlEntry {
    UrlEntry { visits: if e.visits < MAX_VISITS { e.visits + 1 } else { e.visits }, ..e }
}

impl ShortenUrl {
    /// Builds the record for `url` stored under `id`, with its link under
    /// `domain` and a visit count of zero.
    pub fn issue(domain: &str, url: String, id: String) -> (rec: ShortenUrl)
        ensures
            rec@ == issued(domain@, url@, id@),
    {
        let mut link = String::from_str(domain);
        proof {
            reveal_strlit("/");
            assert("/"@ =~= seq!['/']);
        }
        link.append("/");
        link.append(id.as_str());
        ShortenUrl { short_id: id, url, target_url: link, visits: 0 }
    }

    /// An independent copy of the record.
    pub fn snapshot(&self) -> (rec: ShortenUrl)
        ensures
            rec@ == self@,
    {
        ShortenUrl {
            short_id: self.short_id.clone(),
            url: self.url.clone(),
            target_url: self.target_url.clone(),
            visits: self.visits,
        }
    }

    /// Counts one more resolution.
    pub fn visit(&mut self)
        ensures
            final(self)@ == visited(old(self)@),
        no_unwind
    {
        if self.visits < MAX_VISITS {
            self.visits = self.visits + 1;
        }
    }
}

} // verus!
