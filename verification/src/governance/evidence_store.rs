//! An evidence store kept in memory: one record per commit, plus the hash of
//! the record appended last.

use vstd::prelude::*;
use vstd::utf8::encode_utf8;
use crate::text::{ascii_chars, decimal, lemma_decimal_parses, parse_unsigned, parse_unsigned_bytes, usize_to_string};
use crate::governance::error::GitGovernanceError;
use crate::governance::types;
use crate::governance::types::{CommitId, EntryModel, EvidenceEntry, EvidencePage, opt_hash_view};

verus! {

/// The plain values of a list of records.
pub open spec fn entry_models(v: Seq<EvidenceEntry>) -> Seq<EntryModel> {
    Seq::new(v.len(), |i: int| v[i]@)
}

/// No two records are for the same commit.
pub open spec fn unique_commits(s: Seq<EntryModel>) -> bool {
    forall|i: int, j: int|
        0 <= i < s.len() && 0 <= j < s.len() && #[trigger] s[i].commit_id == #[trigger] s[j].commit_id
            ==> i == j
}

/// Some record is for commit `id`.
pub open spec fn has_commit(s: Seq<EntryModel>, id: Seq<char>) -> bool {
    exists|i: int| 0 <= i < s.len() && #[trigger] s[i].commit_id == id
}

/// The position of the record for commit `id` (meaningful when there is one).
pub open spec fn commit_index(s: Seq<EntryModel>, id: Seq<char>) -> int {
    choose|i: int| 0 <= i < s.len() && #[trigger] s[i].commit_id == id
}

/// The record for commit `id`, if any.
pub open spec fn lookup(s: Seq<EntryModel>, id: Seq<char>) -> Option<EntryModel> {
    if has_commit(s, id) {
        Some(s[commit_index(s, id)])
    } else {
        None
    }
}

/// Storing a record replaces the record for the same commit in place, or adds
/// it at the end when the commit has none.
pub open spec fn upsert(s: Seq<EntryModel>, e: EntryModel) -> Seq<EntryModel> {
    if has_commit(s, e.commit_id) {
        s.update(commit_index(s, e.commit_id), e)
    } else {
        s.push(e)
    }
}

/// The plain values of an optional record.
pub open spec fn opt_entry_view(o: Option<EvidenceEntry>) -> Option<EntryModel> {
    match o {
        Some(e) => Some(e@),
        None => None,
    }
}

/// The position a cursor names: the number it parses to, or zero when there
/// is no cursor or it does not parse.
pub open spec fn cursor_start(cursor: Option<String>) -> nat {
    match cursor {
        Some(c) => match parse_unsigned(encode_utf8(c@), usize::MAX as nat) {
            Some(n) => n,
            None => 0,
        },
        None => 0,
    }
}

/// The end of a page of at most `limit` records starting at `start`.
pub open spec fn page_end(start: nat, limit: nat, len: nat) -> nat {
    if start + limit < len { start + limit } else { len }
}

/// The records of a store in the order they were first stored, and the hash
/// of the record appended last.
pub struct StoreModel {
    pub entries: Seq<EntryModel>,
    pub last_hash: Option<Seq<u8>>,
}

/// Evidence records kept in memory, one per commit.
pub struct InMemoryEvidenceStore {
    entries: Vec<EvidenceEntry>,
    last_hash: Option<types::Hash>,
}

impl View for InMemoryEvidenceStore {
    type V = StoreModel;

    closed spec fn view(&self) -> StoreModel {
        StoreModel { entries: entry_models(self.entries@), last_hash: opt_hash_view(self.last_hash) }
    }
}

impl InMemoryEvidenceStore {
    #[verifier::type_invariant]
    pub open spec fn one_record_per_commit(&self) -> bool {
        unique_commits(self@.entries)
    }

    /// An empty store.
    pub fn new() -> (s: Self)
        ensures
            s@.entries == Seq::<EntryModel>::empty(),
            s@.last_hash is None,
            unique_commits(s@.entries),
    {
        let s = InMemoryEvidenceStore { entries: Vec::new(), last_hash: None };
        assert(entry_models(s.entries@) =~= Seq::<EntryModel>::empty());
        s
    }

    /// Where the record for commit `id` is, if there is one.
    fn position_of(&self, id: &String) -> (r: Option<usize>)
        ensures
            match r {
                Some(i) => i < self@.entries.len() && self@.entries[i as int].commit_id == id@,
                None => !has_commit(self@.entries, id@),
            },
    {
        let mut i: usize = 0;
        while i < self.entries.len()
            invariant
                i <= self.entries@.len(),
                forall|j: int| 0 <= j < i ==> #[trigger] self.entries@[j].commit_id.0@ != id@,
            decreases self.entries@.len() - i,
        {
            if self.entries[i].commit_id.0 == *id {
                return Some(i);
            }
            i = i + 1;
        }
        proof {
            if has_commit(self@.entries, id@) {
                let k = choose|k: int| 0 <= k < self@.entries.len() && #[trigger] self@.entries[k].commit_id == id@;
                assert(self.entries@[k].commit_id.0@ == id@);
            }
        }
        None
    }

    /// Stores a record (replacing the one for the same commit) and makes its
    /// hash the last hash; returns that hash.
    pub fn append(&mut self, entry: EvidenceEntry) -> (r: Result<types::Hash, GitGovernanceError>)
        ensures
            r matches Ok(h) && h.0@ == entry@.current_hash,
            final(self)@.entries == upsert(old(self)@.entries, entry@),
            final(self)@.last_hash == Some(entry@.current_hash),
            unique_commits(final(self)@.entries),
    {
        proof { use_type_invariant(&*self); }
        let ghost old_entries = self@.entries;
        let hash = entry.current_hash.clone();
        let hash2 = entry.current_hash.clone();
        let pos = self.position_of(&entry.commit_id.0);
        let mut entries: Vec<EvidenceEntry> = Vec::new();
        std::mem::swap(&mut entries, &mut self.entries);
        assert(entry_models(entries@) == old_entries);
        match pos {
            Some(i) => {
                proof {
                    let k = commit_index(old_entries, entry@.commit_id);
                    assert(old_entries[i as int].commit_id == entry@.commit_id);
                    assert(k == i);
                    assert(entry_models(entries@.update(i as int, entry)) =~= old_entries.update(
                        i as int,
                        entry@,
                    ));
                    let n = old_entries.update(i as int, entry@);
                    assert(unique_commits(n)) by {
                        assert forall|a: int, b: int|
                            0 <= a < n.len() && 0 <= b < n.len() && #[trigger] n[a].commit_id
                                == #[trigger] n[b].commit_id implies a == b by {
                            if a != i && b != i {
                                assert(n[a] == old_entries[a] && n[b] == old_entries[b]);
                            } else if a == i && b != i {
                                assert(old_entries[b].commit_id == old_entries[a].commit_id);
                            } else if b == i && a != i {
                                assert(old_entries[a].commit_id == old_entries[b].commit_id);
                            }
                        }
                    }
                }
                entries.set(i, entry);
            },
            None => {
                proof {
                    assert(entry_models(entries@.push(entry)) =~= old_entries.push(entry@));
                    let n = old_entries.push(entry@);
                    assert(unique_commits(n)) by {
                        assert forall|a: int, b: int|
                            0 <= a < n.len() && 0 <= b < n.len() && #[trigger] n[a].commit_id
                                == #[trigger] n[b].commit_id implies a == b by {
                            if a < old_entries.len() && b < old_entries.len() {
                                assert(n[a] == old_entries[a] && n[b] == old_entries[b]);
                            } else if a < old_entries.len() {
                                assert(old_entries[a].commit_id == entry@.commit_id);
                            } else if b < old_entries.len() {
                                assert(old_entries[b].commit_id == entry@.commit_id);
                            }
                        }
                    }
                }
                entries.push(entry);
            },
        }
        self.entries = entries;
        self.last_hash = Some(hash);
        Ok(hash2)
    }

    /// The hash of the record appended last, if any.
    pub fn last_hash(&self) -> (r: Option<types::Hash>)
        ensures
            opt_hash_view(r) == self@.last_hash,
    {
        match &self.last_hash {
            Some(h) => Some(h.clone()),
            None => None,
        }
    }

    /// Checks the chain of records; this store accepts every chain.
    pub fn verify_chain(&self) -> (r: Result<(), GitGovernanceError>)
        ensures
            r is Ok,
    {
        Ok(())
    }

    /// The record for a commit, if one is stored.
    pub fn get(&self, commit_id: &CommitId) -> (r: Result<Option<EvidenceEntry>, GitGovernanceError>)
        ensures
            r matches Ok(o) && opt_entry_view(o) == lookup(self@.entries, commit_id.0@),
    {
        proof { use_type_invariant(self); }
        match self.position_of(&commit_id.0) {
            Some(i) => {
                proof {
                    let k = commit_index(self@.entries, commit_id.0@);
                    assert(k == i);
                }
                Ok(Some(self.entries[i].clone()))
            },
            None => Ok(None),
        }
    }

    /// A page of at most `limit` records, starting at the position the cursor
    /// names (zero when there is none or it does not parse), with the cursor of
    /// the next page when records remain after it.
    pub fn list(&self, cursor: Option<String>, limit: usize) -> (r: Result<EvidencePage, GitGovernanceError>)
        requires
            cursor_start(cursor) <= self@.entries.len(),
            cursor_start(cursor) + limit <= usize::MAX,
        ensures
            r matches Ok(page) && {
                let start = cursor_start(cursor);
                let end = page_end(start, limit as nat, self@.entries.len());
                &&& entry_models(page.entries@) == self@.entries.subrange(start as int, end as int)
                &&& match page.next_cursor {
                    Some(c) => end < self@.entries.len() && c@ == ascii_chars(decimal(end))
                        && cursor_start(Some(c)) == end,
                    None => end == self@.entries.len(),
                }
            },
    {
        let start: usize = match &cursor {
            Some(c) => match parse_unsigned_bytes(c.as_str().as_bytes(), usize::MAX as u64) {
                Some(n) => n as usize,
                None => 0,
            },
            None => 0,
        };
        let len = self.entries.len();
        let end: usize = if start + limit < len { start + limit } else { len };
        let mut out: Vec<EvidenceEntry> = Vec::new();
        let mut i: usize = start;
        while i < end
            invariant
                start <= i <= end <= self.entries@.len(),
                entry_models(out@) == entry_models(self.entries@).subrange(start as int, i as int),
            decreases end - i,
        {
            let e = self.entries[i].clone();
            assert(e@ == self.entries@[i as int]@);
            let ghost prev = out@;
            out.push(e);
            assert(entry_models(out@) =~= entry_models(prev).push(e@));
            i = i + 1;
            assert(entry_models(out@) =~= entry_models(self.entries@).subrange(start as int, i as int));
        }
        let next_cursor = if end < len {
            let c = usize_to_string(end);
            proof { lemma_decimal_parses(end as nat, usize::MAX as nat); }
            Some(c)
        } else {
            None
        };
        Ok(EvidencePage { entries: out, next_cursor })
    }
}

/// Reading back a stored record gives the record that was stored.
pub proof fn law_get_after_append(s: Seq<EntryModel>, e: EntryModel)
    requires
        unique_commits(s),
    ensures
        lookup(upsert(s, e), e.commit_id) == Some(e),
        unique_commits(upsert(s, e)),
{
    let n = upsert(s, e);
    if has_commit(s, e.commit_id) {
        let k = commit_index(s, e.commit_id);
        assert(n[k].commit_id == e.commit_id);
        let j = commit_index(n, e.commit_id);
        assert forall|a: int, b: int|
            0 <= a < n.len() && 0 <= b < n.len() && #[trigger] n[a].commit_id == #[trigger] n[b].commit_id
                implies a == b by {
            if a != k && b != k {
                assert(n[a] == s[a] && n[b] == s[b]);
            } else if a == k && b != k {
                assert(s[b].commit_id == s[a].commit_id);
            } else if b == k && a != k {
                assert(s[a].commit_id == s[b].commit_id);
            }
        }
        assert(j == k);
    } else {
        let k = s.len() as int;
        assert(n[k].commit_id == e.commit_id);
        let j = commit_index(n, e.commit_id);
        assert forall|a: int, b: int|
            0 <= a < n.len() && 0 <= b < n.len() && #[trigger] n[a].commit_id == #[trigger] n[b].commit_id
                implies a == b by {
            if a < k && b < k {
                assert(n[a] == s[a] && n[b] == s[b]);
            } else if a < k {
                assert(s[a].commit_id == e.commit_id);
            } else if b < k {
                assert(s[b].commit_id == e.commit_id);
            }
        }
        assert(j == k);
    }
}

/// Storing a record leaves the records of every other commit as they were.
pub proof fn law_append_keeps_others(s: Seq<EntryModel>, e: EntryModel, id: Seq<char>)
    requires
        unique_commits(s),
        id != e.commit_id,
    ensures
        lookup(upsert(s, e), id) == lookup(s, id),
{
    let n = upsert(s, e);
    law_get_after_append(s, e);
    if has_commit(s, id) {
        let k = commit_index(s, id);
        assert(n[k].commit_id == id);
        let j = commit_index(n, id);
        assert(n[j].commit_id == id);
        assert(j == k);
    } else {
        if has_commit(n, id) {
            let j = commit_index(n, id);
            assert(j < s.len());
            assert(s[j].commit_id == id);
        }
    }
}

/// The records of a store that starts empty after storing `es`, one after
/// another.
pub open spec fn append_all(es: Seq<EntryModel>) -> Seq<EntryModel>
    decreases es.len(),
{
    if es.len() == 0 {
        Seq::empty()
    } else {
        upsert(append_all(es.drop_last()), es.last())
    }
}

/// The last record of `es` for commit `id`, if there is one.
pub open spec fn last_with_id(es: Seq<EntryModel>, id: Seq<char>) -> Option<EntryModel>
    decreases es.len(),
{
    if es.len() == 0 {
        None
    } else if es.last().commit_id == id {
        Some(es.last())
    } else {
        last_with_id(es.drop_last(), id)
    }
}

/// Reading back after a run of appends to an empty store gives, for each
/// commit, the record appended last for it, and nothing for a commit that was
/// never appended; the store keeps one record per commit throughout.
pub proof fn law_get_after_appends(es: Seq<EntryModel>, id: Seq<char>)
    ensures
        unique_commits(append_all(es)),
        lookup(append_all(es), id) == last_with_id(es, id),
    decreases es.len(),
{
    if es.len() > 0 {
        law_get_after_appends(es.drop_last(), id);
        let s = append_all(es.drop_last());
        let e = es.last();
        law_get_after_append(s, e);
        if e.commit_id != id {
            law_append_keeps_others(s, e, id);
        }
    }
}

/// A page's next cursor, handed back to `list`, starts the following page where
/// this one ended.
pub proof fn law_cursor_resumes(end: usize)
    ensures
        parse_unsigned(encode_utf8(ascii_chars(decimal(end as nat))), usize::MAX as nat) == Some(end as nat),
{
    lemma_decimal_parses(end as nat, usize::MAX as nat);
}

/// The records of the pages read from position `start` on, each page holding
/// at most `limit` records and each next cursor starting the next page, as
/// `list` hands them out.
pub open spec fn pages_from(s: Seq<EntryModel>, start: nat, limit: nat) -> Seq<EntryModel>
    decreases s.len() - start,
{
    let end = page_end(start, limit, s.len());
    if limit > 0 && end < s.len() {
        s.subrange(start as int, end as int) + pages_from(s, end, limit)
    } else {
        s.subrange(start as int, end as int)
    }
}

/// How many pages are read from position `start` on.
pub open spec fn page_count(s: Seq<EntryModel>, start: nat, limit: nat) -> nat
    decreases s.len() - start,
{
    let end = page_end(start, limit, s.len());
    if limit > 0 && end < s.len() {
        1 + page_count(s, end, limit)
    } else {
        1
    }
}

/// Following the cursors from any position reads every remaining record
/// exactly once, in order, no page longer than `limit`, in one page when none
/// remain and otherwise in as many pages as `limit` divides the remaining
/// records into (rounded up).
pub proof fn law_pages_partition(s: Seq<EntryModel>, start: nat, limit: nat)
    requires
        limit > 0,
        start <= s.len(),
    ensures
        pages_from(s, start, limit) == s.subrange(start as int, s.len() as int),
        page_end(start, limit, s.len()) - start <= limit,
        page_count(s, start, limit) == if start == s.len() {
            1
        } else {
            ((s.len() - start) + limit - 1) as nat / limit
        },
    decreases s.len() - start,
{
    let end = page_end(start, limit, s.len());
    let x: int = s.len() - start;
    if end < s.len() {
        law_pages_partition(s, end, limit);
        assert(s.subrange(start as int, end as int) + s.subrange(end as int, s.len() as int)
            =~= s.subrange(start as int, s.len() as int));
        let y: int = x - limit;
        assert(y > 0);
        assert((y + limit - 1) / (limit as int) + 1 == (x + limit - 1) / (limit as int)) by (nonlinear_arith)
            requires
                y > 0,
                limit > 0,
                x == y + limit,
        {
            assert((y + limit - 1) + limit == x + limit - 1);
        }
    } else if start < s.len() {
        assert((x + limit - 1) / (limit as int) == 1) by (nonlinear_arith)
            requires
                0 < x <= limit,
        ;
    }
}

} // verus!
