use crate::record::{issued, visited, UrlEntry};
use vstd::prelude::*;

verus! {

/// Entry `i` of `s` carries identifier `id`, and no entry before it does.
pub open spec fn is_first_match(s: Seq<UrlEntry>, id: Seq<char>, i: int) -> bool {
    &&& 0 <= i < s.len()
    &&& s[i].short_id == id
    &&& forall|j: int| 0 <= j < i ==> (#[trigger] s[j]).short_id != id
}

/// Some entry of `s` carries identifier `id`.
pub open spec fn knows(s: Seq<UrlEntry>, id: Seq<char>) -> bool {
    exists|i: int| 0 <= i < s.len() && (#[trigger] s[i]).short_id == id
}

/// The position of the first entry of `s` that carries `id`, if there is one.
pub open spec fn lookup(s: Seq<UrlEntry>, id: Seq<char>) -> Option<int> {
    if exists|i: int| is_first_match(s, id, i) {
        Some(choose|i: int| is_first_match(s, id, i))
    } else {
        None
    }
}

/// What resolving `id` against `s` hands back: the first matching entry with
/// one more visit, or nothing where no entry matches.
pub open spec fn read_outcome(s: Seq<UrlEntry>, id: Seq<char>) -> Option<UrlEntry> {
    match lookup(s, id) {
        Some(i) => Some(visited(s[i])),
        None => None,
    }
}

/// The table after resolving `id` against `s`: the first matching entry has
/// one more visit; where no entry matches, nothing has changed.
pub open spec fn after_read(s: Seq<UrlEntry>, id: Seq<char>) -> Seq<UrlEntry> {
    match lookup(s, id) {
        Some(i) => s.update(i, visited(s[i])),
        None => s,
    }
}

/// The table after resolving `id` against `s` `n` times in a row.
pub open spec fn after_reads(s: Seq<UrlEntry>, id: Seq<char>, n: nat) -> Seq<UrlEntry>
    decreases n,
{
    if n == 0 {
        s
    } else {
        after_read(after_reads(s, id, (n - 1) as nat), id)
    }
}

/// One operation that a table has gone through: a store that succeeded, or a
/// resolution, whether or not it found anything.
pub enum Step {
    Store { domain: Seq<char>, url: Seq<char>, id: Seq<char> },
    Read { id: Seq<char> },
}

/// The table after one operation on `s`.
pub open spec fn after_step(s: Seq<UrlEntry>, step: Step) -> Seq<UrlEntry> {
    match step {
        Step::Store { domain, url, id } => s.push(issued(domain, url, id)),
        Step::Read { id } => after_read(s, id),
    }
}

/// The table after the operations `steps` on `s`, first to last.
pub open spec fn after_steps(s: Seq<UrlEntry>, steps: Seq<Step>) -> Seq<UrlEntry>
    decreases steps.len(),
{
    if steps.len() == 0 {
        s
    } else {
        after_step(after_steps(s, steps.drop_last()), steps.last())
    }
}

/// How many of `steps` are resolutions of `id`.
pub open spec fn reads_of(steps: Seq<Step>, id: Seq<char>) -> nat
    decreases steps.len(),
{
    if steps.len() == 0 {
        0
    } else if steps.last() == (Step::Read { id }) {
        reads_of(steps.drop_last(), id) + 1
    } else {
        reads_of(steps.drop_last(), id)
    }
}

/// No entry of `s` has a negative visit count.
pub open spec fn never_negative(s: Seq<UrlEntry>) -> bool {
    forall|i: int| 0 <= i < s.len() ==> (#[trigger] s[i]).visits >= 0
}

/// A first match is the one that [`lookup`] finds.
pub proof fn lemma_lookup_first_match(s: Seq<UrlEntry>, id: Seq<char>, i: int)
    requires
        is_first_match(s, id, i),
    ensures
        lookup(s, id) == Some(i),
{
    let k = choose|k: int| is_first_match(s, id, k);
    assert(is_first_match(s, id, k));
    if k < i {
        assert(s[k].short_id != id);
    } else if i < k {
        assert(s[i].short_id != id);
    }
}

/// Among the first `n` entries of `s`, either none carries `id` or one of them
/// is the first match.
proof fn lemma_first_match_in_prefix(s: Seq<UrlEntry>, id: Seq<char>, n: int)
    requires
        0 <= n <= s.len(),
    ensures
        (forall|j: int| 0 <= j < n ==> (#[trigger] s[j]).short_id != id) || (exists|i: int|
            i < n && is_first_match(s, id, i)),
    decreases n,
{
    if n > 0 {
        lemma_first_match_in_prefix(s, id, n - 1);
        if forall|j: int| 0 <= j < n - 1 ==> (#[trigger] s[j]).short_id != id {
            if s[n - 1].short_id == id {
                assert(is_first_match(s, id, n - 1));
            }
        } else {
            let i = choose|i: int| i < n - 1 && is_first_match(s, id, i);
            assert(i < n && is_first_match(s, id, i));
        }
    }
}

/// [`lookup`] finds an entry exactly when the table knows the identifier, and
/// the entry it finds is the first match.
pub proof fn lemma_lookup_decides(s: Seq<UrlEntry>, id: Seq<char>)
    ensures
        lookup(s, id) is Some <==> knows(s, id),
        lookup(s, id) matches Some(i) ==> is_first_match(s, id, i),
{
    lemma_first_match_in_prefix(s, id, s.len() as int);
    if knows(s, id) {
        let k = choose|k: int| 0 <= k < s.len() && (#[trigger] s[k]).short_id == id;
        assert(s[k].short_id == id);
    }
    if lookup(s, id) is Some {
        let i = lookup(s, id)->Some_0;
        assert(is_first_match(s, id, i));
        assert(s[i].short_id == id);
    }
}

} // verus!
