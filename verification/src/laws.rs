use crate::model::{
    after_read, after_reads, after_step, after_steps, is_first_match, knows,
    lemma_lookup_decides, lemma_lookup_first_match, lookup, never_negative, read_outcome,
    reads_of, Step,
};
use crate::record::{issued, short_link, visited, UrlEntry, MAX_VISITS};
use vstd::prelude::*;

verus! {

/// Every entry of `s` has the link that `domain` gives its identifier.
pub open spec fn links_under(s: Seq<UrlEntry>, domain: Seq<char>) -> bool {
    forall|i: int|
        0 <= i < s.len() ==> (#[trigger] s[i]).target_url == short_link(domain, s[i].short_id)
}

/// No two entries of `s` carry the same identifier.
pub open spec fn ids_distinct(s: Seq<UrlEntry>) -> bool {
    forall|i: int, j: int|
        0 <= i < j < s.len() ==> (#[trigger] s[i]).short_id != (#[trigger] s[j]).short_id
}

/// Entry `e` with its visit count replaced by `visits`.
pub open spec fn with_visits(e: UrlEntry, visits: int) -> UrlEntry {
    UrlEntry { visits, ..e }
}

/// An entry pushed under an identifier that the table did not know is the
/// first match for that identifier.
proof fn lemma_pushed_is_first_match(s: Seq<UrlEntry>, e: UrlEntry)
    requires
        !knows(s, e.short_id),
    ensures
        lookup(s.push(e), e.short_id) == Some(s.len() as int),
{
    let t = s.push(e);
    assert forall|j: int| 0 <= j < s.len() implies (#[trigger] t[j]).short_id != e.short_id by {
        assert(t[j] == s[j]);
    }
    assert(is_first_match(t, e.short_id, s.len() as int));
    lemma_lookup_first_match(t, e.short_id, s.len() as int);
}

/// Lookup goes by identifiers alone: two tables of one length whose entries
/// carry the same identifiers, place by place, find the same position.
proof fn lemma_lookup_by_ids(s: Seq<UrlEntry>, t: Seq<UrlEntry>, id: Seq<char>)
    requires
        s.len() == t.len(),
        forall|j: int| 0 <= j < s.len() ==> (#[trigger] t[j]).short_id == s[j].short_id,
    ensures
        lookup(t, id) == lookup(s, id),
{
    lemma_lookup_decides(s, id);
    lemma_lookup_decides(t, id);
    if lookup(s, id) is Some {
        let i = lookup(s, id)->Some_0;
        assert forall|j: int| 0 <= j < i implies (#[trigger] t[j]).short_id != id by {
            assert(s[j].short_id != id);
        }
        assert(is_first_match(t, id, i));
        lemma_lookup_first_match(t, id, i);
    } else if lookup(t, id) is Some {
        let i = lookup(t, id)->Some_0;
        assert(t[i].short_id == s[i].short_id);
        assert(knows(s, id));
    }
}

/// Round trip. Store a URL under an identifier that no older entry carries,
/// then resolve that identifier: the record handed back has the URL, the
/// identifier and the link of the stored one, and a visit count of one. The
/// table then holds the older entries unchanged, followed by that record.
///
/// Where an older entry carries the identifier already, resolution finds the
/// older entry instead; such tables are left out.
pub proof fn lemma_store_then_read(
    s: Seq<UrlEntry>,
    domain: Seq<char>,
    url: Seq<char>,
    id: Seq<char>,
)
    requires
        !knows(s, id),
    ensures
        read_outcome(s.push(issued(domain, url, id)), id) == Some(
            with_visits(issued(domain, url, id), 1),
        ),
        after_read(s.push(issued(domain, url, id)), id) == s.push(
            with_visits(issued(domain, url, id), 1),
        ),
{
    let stored = issued(domain, url, id);
    let t = s.push(stored);
    lemma_pushed_is_first_match(s, stored);
    assert(t.update(s.len() as int, visited(stored)) =~= s.push(with_visits(stored, 1)));
}

/// Resolution changes nothing but one visit count, and that one only
/// upwards: the table keeps its length, every entry keeps its identifier,
/// its URL and its link, and no visit count goes down.
pub proof fn lemma_read_only_counts(s: Seq<UrlEntry>, id: Seq<char>)
    ensures
        after_read(s, id).len() == s.len(),
        forall|j: int|
            0 <= j < s.len() ==> {
                &&& (#[trigger] after_read(s, id)[j]).short_id == s[j].short_id
                &&& after_read(s, id)[j].url == s[j].url
                &&& after_read(s, id)[j].target_url == s[j].target_url
                &&& after_read(s, id)[j].visits >= s[j].visits
            },
        lookup(after_read(s, id), id) == lookup(s, id),
{
    lemma_lookup_decides(s, id);
    if lookup(s, id) is Some {
        let i = lookup(s, id)->Some_0;
        let t = after_read(s, id);
        assert forall|j: int| 0 <= j < i implies (#[trigger] t[j]).short_id != id by {
            assert(t[j] == s[j]);
        }
        assert(is_first_match(t, id, i));
        lemma_lookup_first_match(t, id, i);
    }
}

/// Visit monotonicity. Resolve one identifier `n` times in a row, starting
/// with a table whose first entry under it stands at `i` and has room for
/// `n` more visits. The `n`-th resolution hands back that entry with `n`
/// visits more than it had at the start, which is one more than the call
/// before it handed back, and the table afterwards differs from the first
/// one in that count alone.
pub proof fn lemma_repeated_reads(s: Seq<UrlEntry>, id: Seq<char>, i: int, n: nat)
    requires
        lookup(s, id) == Some(i),
        s[i].visits + n <= MAX_VISITS,
    ensures
        after_reads(s, id, n) == s.update(i, with_visits(s[i], s[i].visits + n)),
        lookup(after_reads(s, id, n), id) == Some(i),
        n > 0 ==> read_outcome(after_reads(s, id, (n - 1) as nat), id) == Some(
            with_visits(s[i], s[i].visits + n),
        ),
    decreases n,
{
    lemma_lookup_decides(s, id);
    if n == 0 {
        assert(s.update(i, with_visits(s[i], s[i].visits + 0)) =~= s);
    } else {
        let m = (n - 1) as nat;
        lemma_repeated_reads(s, id, i, m);
        let t = after_reads(s, id, m);
        assert(t[i] == with_visits(s[i], s[i].visits + m));
        assert(visited(t[i]) == with_visits(s[i], s[i].visits + n));
        assert(after_read(t, id) =~= s.update(i, with_visits(s[i], s[i].visits + n)));
        lemma_read_only_counts(t, id);
    }
}

/// Store a URL under an identifier that no older entry carries, then resolve
/// the identifier `n` times, `n` at least one: the `n`-th resolution hands
/// back the stored record with a visit count of `n`.
pub proof fn lemma_reads_after_store(
    s: Seq<UrlEntry>,
    domain: Seq<char>,
    url: Seq<char>,
    id: Seq<char>,
    n: nat,
)
    requires
        !knows(s, id),
        0 < n <= MAX_VISITS,
    ensures
        read_outcome(after_reads(s.push(issued(domain, url, id)), id, (n - 1) as nat), id) == Some(
            with_visits(issued(domain, url, id), n as int),
        ),
{
    let stored = issued(domain, url, id);
    let t = s.push(stored);
    lemma_pushed_is_first_match(s, stored);
    lemma_repeated_reads(t, id, s.len() as int, n);
}

/// Visit monotonicity among other operations. Let a table go through any
/// operations: stores under any identifiers, resolutions of any identifiers.
/// The entry that was the first under `id` at the start stays the first
/// under it, keeps its place and its texts, and has gained exactly one visit
/// for each resolution of `id` among the operations, whatever the others
/// were. The next resolution of `id` hands that entry back with one visit
/// more.
///
/// Operations that would take the count past its largest value are left
/// out: there the count stays where it is.
pub proof fn lemma_interleaved_reads(s: Seq<UrlEntry>, id: Seq<char>, i: int, steps: Seq<Step>)
    requires
        lookup(s, id) == Some(i),
        s[i].visits + reads_of(steps, id) <= MAX_VISITS,
    ensures
        lookup(after_steps(s, steps), id) == Some(i),
        after_steps(s, steps)[i] == with_visits(s[i], s[i].visits + reads_of(steps, id)),
        s[i].visits + reads_of(steps, id) < MAX_VISITS ==> read_outcome(
            after_steps(s, steps),
            id,
        ) == Some(with_visits(s[i], s[i].visits + reads_of(steps, id) + 1)),
    decreases steps.len(),
{
    lemma_lookup_decides(s, id);
    if steps.len() > 0 {
        let before = after_steps(s, steps.drop_last());
        lemma_interleaved_reads(s, id, i, steps.drop_last());
        let after = after_step(before, steps.last());
        lemma_lookup_decides(before, id);
        match steps.last() {
            Step::Store { domain, url, id: stored_id } => {
                assert forall|j: int| 0 <= j < i implies (#[trigger] after[j]).short_id != id by {
                    assert(after[j] == before[j]);
                }
                assert(after[i] == before[i]);
                assert(is_first_match(after, id, i));
                lemma_lookup_first_match(after, id, i);
            },
            Step::Read { id: read_id } => {
                lemma_read_only_counts(before, read_id);
                lemma_lookup_by_ids(before, after, id);
                if read_id != id {
                    lemma_lookup_decides(before, read_id);
                    if lookup(before, read_id) is Some {
                        let k = lookup(before, read_id)->Some_0;
                        assert(before[k].short_id == read_id);
                        assert(k != i);
                    }
                    assert(after[i] == before[i]);
                }
            },
        }
    }
}

/// Store a URL under an identifier that no older entry carries, then let the
/// table go through any operations. The next resolution of that identifier
/// hands back the stored record with a visit count of one more than the
/// number of resolutions of it among those operations: the `n`-th
/// resolution of an identifier since its store yields `n`, whatever was
/// stored or resolved in between.
pub proof fn lemma_interleaved_reads_after_store(
    s: Seq<UrlEntry>,
    domain: Seq<char>,
    url: Seq<char>,
    id: Seq<char>,
    steps: Seq<Step>,
)
    requires
        !knows(s, id),
        reads_of(steps, id) < MAX_VISITS,
    ensures
        read_outcome(after_steps(s.push(issued(domain, url, id)), steps), id) == Some(
            with_visits(issued(domain, url, id), reads_of(steps, id) as int + 1),
        ),
{
    let stored = issued(domain, url, id);
    lemma_pushed_is_first_match(s, stored);
    lemma_interleaved_reads(s.push(stored), id, s.len() as int, steps);
}

/// Unknown identifier. Resolving an identifier that no entry carries finds
/// nothing and leaves the table as it was.
pub proof fn lemma_unknown_id(s: Seq<UrlEntry>, id: Seq<char>)
    requires
        !knows(s, id),
    ensures
        read_outcome(s, id) is None,
        after_read(s, id) == s,
{
    lemma_lookup_decides(s, id);
}

/// An empty table knows no identifier.
pub proof fn lemma_empty_knows_nothing(id: Seq<char>)
    ensures
        !knows(Seq::<UrlEntry>::empty(), id),
        read_outcome(Seq::<UrlEntry>::empty(), id) is None,
{
    lemma_lookup_decides(Seq::<UrlEntry>::empty(), id);
}

/// A table knows exactly the identifiers under which something was stored:
/// after a store it knows the new identifier and those it knew before, and
/// a resolution neither adds nor removes one.
pub proof fn lemma_known_ids(
    s: Seq<UrlEntry>,
    domain: Seq<char>,
    url: Seq<char>,
    id: Seq<char>,
    other: Seq<char>,
)
    ensures
        knows(s.push(issued(domain, url, id)), other) <==> (other == id || knows(s, other)),
        knows(after_read(s, id), other) <==> knows(s, other),
{
    let t = s.push(issued(domain, url, id));
    assert(t[s.len() as int].short_id == id);
    if knows(s, other) {
        let k = choose|k: int| 0 <= k < s.len() && (#[trigger] s[k]).short_id == other;
        assert(t[k] == s[k]);
    }
    if knows(t, other) && other != id {
        let k = choose|k: int| 0 <= k < t.len() && (#[trigger] t[k]).short_id == other;
        assert(t[k] == s[k]);
    }
    lemma_read_only_counts(s, id);
    let r = after_read(s, id);
    if knows(s, other) {
        let k = choose|k: int| 0 <= k < s.len() && (#[trigger] s[k]).short_id == other;
        assert(r[k].short_id == other);
    }
    if knows(r, other) {
        let k = choose|k: int| 0 <= k < r.len() && (#[trigger] r[k]).short_id == other;
        assert(s[k].short_id == other);
    }
}

/// Derived link. A table whose links all lie under one domain keeps that
/// property when a URL is stored under the same domain and when an
/// identifier is resolved.
pub proof fn lemma_links_stay_under_domain(
    s: Seq<UrlEntry>,
    domain: Seq<char>,
    url: Seq<char>,
    id: Seq<char>,
)
    requires
        links_under(s, domain),
    ensures
        links_under(s.push(issued(domain, url, id)), domain),
        links_under(after_read(s, id), domain),
{
    let t = s.push(issued(domain, url, id));
    assert forall|j: int| 0 <= j < t.len() implies (#[trigger] t[j]).target_url == short_link(
        domain,
        t[j].short_id,
    ) by {
        if j < s.len() {
            assert(t[j] == s[j]);
        }
    }
    lemma_read_only_counts(s, id);
    let r = after_read(s, id);
    assert forall|j: int| 0 <= j < r.len() implies (#[trigger] r[j]).target_url == short_link(
        domain,
        r[j].short_id,
    ) by {
        assert(r[j].target_url == s[j].target_url);
        assert(r[j].short_id == s[j].short_id);
    }
}

/// Visit counts never become negative: a table without a negative count has
/// none after a store and none after a resolution.
pub proof fn lemma_counts_stay_non_negative(
    s: Seq<UrlEntry>,
    domain: Seq<char>,
    url: Seq<char>,
    id: Seq<char>,
)
    requires
        never_negative(s),
    ensures
        never_negative(s.push(issued(domain, url, id))),
        never_negative(after_read(s, id)),
{
    let t = s.push(issued(domain, url, id));
    assert forall|j: int| 0 <= j < t.len() implies (#[trigger] t[j]).visits >= 0 by {
        if j < s.len() {
            assert(t[j] == s[j]);
        }
    }
    lemma_read_only_counts(s, id);
    let r = after_read(s, id);
    assert forall|j: int| 0 <= j < r.len() implies (#[trigger] r[j]).visits >= 0 by {
        assert(r[j].visits >= s[j].visits);
    }
}

/// Identifiers stay unique as long as each new one is fresh: a table without
/// a repeated identifier has none after a store under an identifier it did
/// not know, and none after a resolution.
pub proof fn lemma_fresh_ids_stay_distinct(
    s: Seq<UrlEntry>,
    domain: Seq<char>,
    url: Seq<char>,
    id: Seq<char>,
)
    requires
        ids_distinct(s),
    ensures
        !knows(s, id) ==> ids_distinct(s.push(issued(domain, url, id))),
        ids_distinct(after_read(s, id)),
{
    let t = s.push(issued(domain, url, id));
    if !knows(s, id) {
        assert forall|i: int, j: int| 0 <= i < j < t.len() implies (#[trigger] t[i]).short_id != (
        #[trigger] t[j]).short_id by {
            assert(t[i] == s[i]);
            if j < s.len() {
                assert(t[j] == s[j]);
            }
        }
    }
    lemma_read_only_counts(s, id);
    let r = after_read(s, id);
    assert forall|i: int, j: int| 0 <= i < j < r.len() implies (#[trigger] r[i]).short_id != (
    #[trigger] r[j]).short_id by {
        assert(r[i].short_id == s[i].short_id);
        assert(r[j].short_id == s[j].short_id);
    }
}

} // verus!
