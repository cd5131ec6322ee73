//! The canonical encoding of evidence records and the hash that chains them.

use vstd::prelude::*;
use vstd::utf8::encode_utf8;
use vstd::string::StringSliceAdditionalSpecFns;
use crate::gdid::le_bytes;
use crate::primitives::{blake3_digest, blake3_hash};
use crate::text::bytes_equal;
use crate::governance::error::GitGovernanceError;
use crate::governance::types;
use crate::governance::types::{
    CanonicalFormatVersion, CommitId, EntryModel, EvidenceEntry, EvidencePage, Finding,
    FindingCode, GovernanceDecision, PolicyVersion, decision_byte, decision_code,
    severity_byte, severity_code, category_byte, category_code, finding_code_byte,
    finding_code_num, path_bytes, line_of,
};

verus! {

/// Stores evidence records.
pub trait EvidenceStore: Send + Sync {
    fn last_hash(&self) -> Result<Option<types::Hash>, GitGovernanceError>;

    fn append(&mut self, entry: EvidenceEntry) -> Result<(), GitGovernanceError>;

    fn get(&self, commit_id: &CommitId) -> Result<Option<EvidenceEntry>, GitGovernanceError>;

    fn list(&self, cursor: Option<String>, limit: usize) -> Result<EvidencePage, GitGovernanceError>;
}

/// `ARKHE-EVIDENCE`, the bytes every canonical encoding starts with.
pub open spec fn evidence_magic() -> Seq<u8> {
    seq![65u8, 82, 75, 72, 69, 45, 69, 86, 73, 68, 69, 78, 67, 69]
}

/// The magic bytes followed by the format version's byte.
pub open spec fn encoding_header(version: CanonicalFormatVersion) -> Seq<u8> {
    evidence_magic().push(version.spec_byte())
}

/// One tagged field: the tag, the data's length as 8 little-endian bytes, the data.
pub open spec fn field_bytes(tag: u8, data: Seq<u8>) -> Seq<u8> {
    seq![tag] + le_bytes(data.len(), 8) + data
}

/// Appends the `k` little-endian bytes of `n`.
fn push_le(v: &mut Vec<u8>, n: u64, k: usize)
    ensures
        final(v)@ == old(v)@ + le_bytes(n as nat, k as nat),
    decreases k,
{
    if k > 0 {
        v.push((n % 256) as u8);
        push_le(v, n / 256, k - 1);
        proof {
            assert(le_bytes(n as nat, k as nat) == seq![((n as nat) % 256) as u8] + le_bytes(
                (n as nat) / 256,
                (k - 1) as nat,
            ));
            assert(final(v)@ =~= old(v)@ + le_bytes(n as nat, k as nat));
        }
    } else {
        assert(final(v)@ =~= old(v)@ + le_bytes(n as nat, k as nat));
    }
}

/// Collects tagged fields in canonical form; the digest is BLAKE3 over
/// everything written.
pub struct CanonicalHasher {
    version: CanonicalFormatVersion,
    buffer: Vec<u8>,
}

impl View for CanonicalHasher {
    type V = Seq<u8>;

    /// The bytes written so far, header included.
    closed spec fn view(&self) -> Seq<u8> {
        self.buffer@
    }
}

impl CanonicalHasher {
    /// The format version the hasher was made with.
    pub closed spec fn format(&self) -> CanonicalFormatVersion {
        self.version
    }

    /// A hasher that has absorbed the header for `version`.
    pub fn new(version: CanonicalFormatVersion) -> (h: Self)
        ensures
            h@ == encoding_header(version),
            h.format() == version,
    {
        let mut buffer: Vec<u8> = vec![65u8, 82, 75, 72, 69, 45, 69, 86, 73, 68, 69, 78, 67, 69];
        buffer.push(version.byte());
        let h = CanonicalHasher { version, buffer };
        assert(h@ =~= encoding_header(version));
        h
    }

    /// Absorbs one tagged field.
    pub fn write_field(&mut self, tag: u8, data: &[u8])
        ensures
            final(self)@ == old(self)@ + field_bytes(tag, data@),
            final(self).format() == old(self).format(),
    {
        let len: u64 = data.len() as u64;
        self.buffer.push(tag);
        push_le(&mut self.buffer, len, 8);
        let mut i: usize = 0;
        while i < data.len()
            invariant
                i <= data@.len(),
                self.version == old(self).version,
                self.buffer@ == old(self).buffer@ + seq![tag] + le_bytes(data@.len(), 8)
                    + data@.subrange(0, i as int),
            decreases data@.len() - i,
        {
            self.buffer.push(data[i]);
            i = i + 1;
            assert(self.buffer@ =~= old(self).buffer@ + seq![tag] + le_bytes(data@.len(), 8)
                + data@.subrange(0, i as int));
        }
        assert(data@.subrange(0, i as int) =~= data@);
        assert(self.buffer@ =~= old(self).buffer@ + field_bytes(tag, data@));
    }

    /// Absorbs a one-byte field.
    pub fn write_u8(&mut self, tag: u8, value: u8)
        ensures
            final(self)@ == old(self)@ + field_bytes(tag, seq![value]),
            final(self).format() == old(self).format(),
    {
        let data: [u8; 1] = [value];
        assert(data@ =~= seq![value]);
        self.write_field(tag, data.as_slice());
    }

    /// Absorbs a 32-bit field in little-endian order.
    pub fn write_u32(&mut self, tag: u8, value: u32)
        ensures
            final(self)@ == old(self)@ + field_bytes(tag, le_bytes(value as nat, 4)),
            final(self).format() == old(self).format(),
    {
        let mut data: Vec<u8> = Vec::new();
        push_le(&mut data, value as u64, 4);
        assert(data@ =~= le_bytes(value as nat, 4));
        self.write_field(tag, data.as_slice());
    }

    /// Absorbs a string field as its UTF-8 bytes.
    pub fn write_str(&mut self, tag: u8, value: &str)
        ensures
            final(self)@ == old(self)@ + field_bytes(tag, encode_utf8(value@)),
            final(self).format() == old(self).format(),
    {
        let b = value.as_bytes();
        self.write_field(tag, b);
    }

    /// Absorbs a boolean field as one byte, 1 for true and 0 for false.
    pub fn write_bool(&mut self, tag: u8, value: bool)
        ensures
            final(self)@ == old(self)@ + field_bytes(tag, seq![if value { 1u8 } else { 0u8 }]),
            final(self).format() == old(self).format(),
    {
        let b: u8 = if value { 1 } else { 0 };
        self.write_u8(tag, b);
    }

    /// The digest of everything absorbed: BLAKE3 over the written bytes, which
    /// is the digest `blake3`'s incremental hasher gives when fed the same
    /// bytes piece by piece.
    pub fn finalize(self) -> (h: types::Hash)
        ensures
            h.0@ == blake3_hash(self@),
    {
        types::Hash(blake3_digest(self.buffer.as_slice()))
    }
}


/// The text bytes of a finding's free-form code, if it has one.
pub open spec fn other_code_field(c: FindingCode) -> Seq<u8> {
    match c {
        FindingCode::Other(m) => field_bytes(7, encode_utf8(m@)),
        _ => Seq::empty(),
    }
}

/// The fields one finding contributes: severity, category, code number, the
/// code's text for a free-form code, file path and line (cut to 32 bits).
pub open spec fn finding_encoding(f: Finding) -> Seq<u8> {
    field_bytes(4, seq![severity_code(f.severity)])
        + field_bytes(5, seq![category_code(f.category)])
        + field_bytes(6, seq![finding_code_num(f.code)])
        + other_code_field(f.code)
        + field_bytes(8, path_bytes(f))
        + field_bytes(9, le_bytes((line_of(f) as u32) as nat, 4))
}

/// The fields of all findings, in order.
pub open spec fn findings_encoding(fs: Seq<Finding>) -> Seq<u8>
    decreases fs.len(),
{
    if fs.len() == 0 {
        Seq::empty()
    } else {
        findings_encoding(fs.drop_last()) + finding_encoding(fs.last())
    }
}

/// The canonical encoding of a record (its own hash left out): header,
/// commit id, decision, score, findings, policy version, configuration hash,
/// and the previous hash when there is one.
pub open spec fn entry_encoding(e: EntryModel) -> Seq<u8> {
    encoding_header(CanonicalFormatVersion::V1)
        + field_bytes(1, encode_utf8(e.commit_id))
        + field_bytes(2, seq![decision_code(e.decision)])
        + field_bytes(3, le_bytes(e.altai_score as nat, 4))
        + findings_encoding(e.findings)
        + field_bytes(10, encode_utf8(e.policy_version))
        + field_bytes(11, e.config_hash)
        + match e.previous_hash {
            Some(p) => field_bytes(12, p),
            None => Seq::empty(),
        }
}

/// The hash of a record: BLAKE3 over its canonical encoding.
pub open spec fn entry_hash(e: EntryModel) -> Seq<u8> {
    blake3_hash(entry_encoding(e))
}

/// A record's hash covers its predecessor: the encoding that is hashed for a
/// record with previous hash `p` is the encoding of the same record without
/// one, followed by tag 12, the length of `p` as 8 little-endian bytes, and
/// `p`. So records that differ only in their previous hash (one and none, or
/// two different ones) have different encodings.
pub proof fn law_hash_covers_previous(e: EntryModel, p: Seq<u8>, q: Seq<u8>)
    ensures
        entry_encoding(EntryModel { previous_hash: Some(p), ..e }) == entry_encoding(
            EntryModel { previous_hash: None, ..e },
        ) + seq![12u8] + le_bytes(p.len(), 8) + p,
        entry_encoding(EntryModel { previous_hash: Some(p), ..e }) != entry_encoding(
            EntryModel { previous_hash: None, ..e },
        ),
        p != q ==> entry_encoding(EntryModel { previous_hash: Some(p), ..e }) != entry_encoding(
            EntryModel { previous_hash: Some(q), ..e },
        ),
{
    let base = entry_encoding(EntryModel { previous_hash: None, ..e });
    let ep = entry_encoding(EntryModel { previous_hash: Some(p), ..e });
    let eq = entry_encoding(EntryModel { previous_hash: Some(q), ..e });
    assert(base + Seq::<u8>::empty() =~= base);
    assert(ep =~= base + seq![12u8] + le_bytes(p.len(), 8) + p);
    assert(eq =~= base + seq![12u8] + le_bytes(q.len(), 8) + q);
    reveal_with_fuel(le_bytes, 9);
    assert(le_bytes(p.len(), 8).len() == 8);
    assert(le_bytes(q.len(), 8).len() == 8);
    if p != q && p.len() == q.len() {
        let k = choose|k: int| 0 <= k < p.len() && p[k] != q[k];
        if !(p =~= q) {
            let n = base.len() + 9;
            assert(ep[n + k] == p[k]);
            assert(eq[n + k] == q[k]);
        }
    }
}

/// The record made of these values: the findings put in canonical order, and
/// the hash over the record's canonical encoding.
pub open spec fn built_entry(
    commit_id: Seq<char>,
    decision: GovernanceDecision,
    altai_score: u32,
    findings: Seq<Finding>,
    policy_version: Seq<char>,
    config_hash: Seq<u8>,
    previous_hash: Option<Seq<u8>>,
) -> EntryModel {
    let e = EntryModel {
        commit_id,
        decision,
        altai_score,
        findings: sort_findings(findings),
        policy_version,
        config_hash,
        previous_hash,
        current_hash: Seq::empty(),
    };
    EntryModel { current_hash: entry_hash(e), ..e }
}

/// Absorbs the fields of one finding.
fn write_finding(hasher: &mut CanonicalHasher, f: &Finding)
    ensures
        final(hasher)@ == old(hasher)@ + finding_encoding(*f),
        final(hasher).format() == old(hasher).format(),
{
    hasher.write_u8(4, severity_byte(f.severity));
    hasher.write_u8(5, category_byte(f.category));
    hasher.write_u8(6, finding_code_byte(&f.code));
    let ghost mid = hasher@;
    match &f.code {
        FindingCode::Other(msg) => {
            hasher.write_str(7, msg.as_str());
        },
        _ => {},
    }
    assert(hasher@ =~= mid + other_code_field(f.code));
    let path: &str = match &f.file_path {
        Some(p) => p.as_str(),
        None => {
            let e = "";
            proof {
                reveal_strlit("");
                assert(e@ =~= Seq::<char>::empty());
                assert(encode_utf8(e@) =~= Seq::<u8>::empty());
            }
            e
        },
    };
    assert(encode_utf8(path@) == path_bytes(*f));
    hasher.write_str(8, path);
    let line: usize = match f.line_number {
        Some(n) => n,
        None => 0,
    };
    #[verifier::truncate]
    let line32: u32 = line as u32;
    hasher.write_u32(9, line32);
    assert(final(hasher)@ =~= old(hasher)@ + finding_encoding(*f));
}

/// Byte strings in lexicographic order, a proper prefix first (the order of `str`).
pub open spec fn bytes_lt(a: Seq<u8>, b: Seq<u8>) -> bool
    decreases a.len(),
{
    if a.len() == 0 {
        b.len() > 0
    } else if b.len() == 0 {
        false
    } else if a[0] != b[0] {
        a[0] < b[0]
    } else {
        bytes_lt(a.drop_first(), b.drop_first())
    }
}

/// No byte string is below another that is below it.
pub proof fn lemma_bytes_lt_asym(a: Seq<u8>, b: Seq<u8>)
    ensures
        !(bytes_lt(a, b) && bytes_lt(b, a)),
    decreases a.len(),
{
    if a.len() > 0 && b.len() > 0 && a[0] == b[0] {
        lemma_bytes_lt_asym(a.drop_first(), b.drop_first());
    }
}

/// The lexicographic order is transitive.
pub proof fn lemma_bytes_lt_trans(a: Seq<u8>, b: Seq<u8>, c: Seq<u8>)
    requires
        bytes_lt(a, b),
        bytes_lt(b, c),
    ensures
        bytes_lt(a, c),
    decreases a.len(),
{
    if a.len() > 0 && b.len() > 0 && c.len() > 0 && a[0] == b[0] && b[0] == c[0] {
        lemma_bytes_lt_trans(a.drop_first(), b.drop_first(), c.drop_first());
    }
}

/// Two different byte strings are ordered one way or the other.
pub proof fn lemma_bytes_lt_total(a: Seq<u8>, b: Seq<u8>)
    ensures
        a == b || bytes_lt(a, b) || bytes_lt(b, a),
    decreases a.len(),
{
    if a.len() > 0 && b.len() > 0 && a[0] == b[0] {
        lemma_bytes_lt_total(a.drop_first(), b.drop_first());
        if a.drop_first() == b.drop_first() {
            assert(a =~= seq![a[0]] + a.drop_first());
            assert(b =~= seq![b[0]] + b.drop_first());
        }
    } else if a.len() == 0 && b.len() == 0 {
        assert(a =~= b);
    }
}

/// Whether `a` comes before `b` in the lexicographic byte order.
pub fn bytes_less(a: &[u8], b: &[u8]) -> (r: bool)
    ensures
        r == bytes_lt(a@, b@),
{
    let mut i: usize = 0;
    assert(a@.skip(0) =~= a@);
    assert(b@.skip(0) =~= b@);
    while i < a.len() && i < b.len()
        invariant
            i <= a@.len(),
            i <= b@.len(),
            bytes_lt(a@, b@) == bytes_lt(a@.skip(i as int), b@.skip(i as int)),
        decreases a@.len() - i,
    {
        if a[i] != b[i] {
            return a[i] < b[i];
        }
        assert(a@.skip(i as int).drop_first() =~= a@.skip(i + 1));
        assert(b@.skip(i as int).drop_first() =~= b@.skip(i + 1));
        i = i + 1;
    }
    i == a.len() && i < b.len()
}

/// The canonical order of findings: by category, then file path (empty when
/// absent), then line (zero when absent), then code number.
pub open spec fn key_lt(a: Finding, b: Finding) -> bool {
    if category_code(a.category) != category_code(b.category) {
        category_code(a.category) < category_code(b.category)
    } else if path_bytes(a) != path_bytes(b) {
        bytes_lt(path_bytes(a), path_bytes(b))
    } else if line_of(a) != line_of(b) {
        line_of(a) < line_of(b)
    } else {
        finding_code_num(a.code) < finding_code_num(b.code)
    }
}

/// Two findings have the same canonical key.
pub open spec fn same_key(a: Finding, b: Finding) -> bool {
    &&& category_code(a.category) == category_code(b.category)
    &&& path_bytes(a) == path_bytes(b)
    &&& line_of(a) == line_of(b)
    &&& finding_code_num(a.code) == finding_code_num(b.code)
}

/// The canonical order is a strict weak order: asymmetric, and whatever is
/// below `c` is below `b` or `b` is below `c`.
pub proof fn lemma_key_lt_order(a: Finding, b: Finding, c: Finding)
    ensures
        !(key_lt(a, b) && key_lt(b, a)),
        key_lt(a, c) ==> key_lt(a, b) || key_lt(b, c),
        !key_lt(a, b) && !key_lt(b, a) <==> same_key(a, b),
{
    lemma_bytes_lt_asym(path_bytes(a), path_bytes(b));
    lemma_bytes_lt_asym(path_bytes(a), path_bytes(c));
    lemma_bytes_lt_asym(path_bytes(b), path_bytes(c));
    lemma_bytes_lt_total(path_bytes(a), path_bytes(b));
    lemma_bytes_lt_total(path_bytes(b), path_bytes(c));
    if bytes_lt(path_bytes(a), path_bytes(b)) && bytes_lt(path_bytes(b), path_bytes(c)) {
        lemma_bytes_lt_trans(path_bytes(a), path_bytes(b), path_bytes(c));
    }
    if bytes_lt(path_bytes(b), path_bytes(a)) && bytes_lt(path_bytes(c), path_bytes(b)) {
        lemma_bytes_lt_trans(path_bytes(c), path_bytes(b), path_bytes(a));
    }
    if bytes_lt(path_bytes(a), path_bytes(c)) && bytes_lt(path_bytes(c), path_bytes(b)) {
        lemma_bytes_lt_trans(path_bytes(a), path_bytes(c), path_bytes(b));
    }
    if bytes_lt(path_bytes(b), path_bytes(a)) && bytes_lt(path_bytes(a), path_bytes(c)) {
        lemma_bytes_lt_trans(path_bytes(b), path_bytes(a), path_bytes(c));
    }
}

/// Whether `a` comes before `b` in the canonical order.
pub fn key_less(a: &Finding, b: &Finding) -> (r: bool)
    ensures
        r == key_lt(*a, *b),
{
    let ka = a.canonical_sort_key();
    let kb = b.canonical_sort_key();
    if ka.0 != kb.0 {
        return ka.0 < kb.0;
    }
    let pa = ka.1.as_bytes();
    let pb = kb.1.as_bytes();
    if !bytes_equal(pa, pb) {
        return bytes_less(pa, pb);
    }
    if ka.2 != kb.2 {
        return ka.2 < kb.2;
    }
    ka.3 < kb.3
}

/// Inserts `f` into `s` after every finding that does not come after it.
pub open spec fn insert_sorted(s: Seq<Finding>, f: Finding) -> Seq<Finding>
    decreases s.len(),
{
    if s.len() == 0 {
        seq![f]
    } else if key_lt(f, s.last()) {
        insert_sorted(s.drop_last(), f).push(s.last())
    } else {
        s.push(f)
    }
}

/// The findings in canonical order; findings with equal keys keep their
/// relative order (a stable sort).
pub open spec fn sort_findings(s: Seq<Finding>) -> Seq<Finding>
    decreases s.len(),
{
    if s.len() == 0 {
        Seq::empty()
    } else {
        insert_sorted(sort_findings(s.drop_last()), s.last())
    }
}

/// No finding comes after a later one in the canonical order.
pub open spec fn findings_sorted(s: Seq<Finding>) -> bool {
    forall|i: int, j: int| 0 <= i < j < s.len() ==> !key_lt(#[trigger] s[j], #[trigger] s[i])
}

/// Where `insert_sorted` puts the new finding: after every finding it does not
/// come before, and before the rest, which all come after it.
pub proof fn lemma_insert_position(s: Seq<Finding>, f: Finding) -> (p: int)
    ensures
        0 <= p <= s.len(),
        insert_sorted(s, f) == s.insert(p, f),
        forall|j: int| p <= j < s.len() ==> key_lt(f, #[trigger] s[j]),
        p > 0 ==> !key_lt(f, s[p - 1]),
    decreases s.len(),
{
    if s.len() == 0 {
        assert(seq![f] =~= s.insert(0, f));
        0
    } else if key_lt(f, s.last()) {
        let p = lemma_insert_position(s.drop_last(), f);
        assert(s.drop_last().insert(p, f).push(s.last()) =~= s.insert(p, f));
        assert forall|j: int| p <= j < s.len() implies key_lt(f, #[trigger] s[j]) by {
            if j < s.len() - 1 {
                assert(s[j] == s.drop_last()[j]);
            }
        }
        p
    } else {
        assert(s.push(f) =~= s.insert(s.len() as int, f));
        s.len() as int
    }
}

/// Inserting into a sorted sequence keeps it sorted and adds exactly the new
/// finding.
pub proof fn lemma_insert_sorted(s: Seq<Finding>, f: Finding)
    requires
        findings_sorted(s),
    ensures
        findings_sorted(insert_sorted(s, f)),
        insert_sorted(s, f).to_multiset() == s.to_multiset().insert(f),
{
    let p = lemma_insert_position(s, f);
    let r = insert_sorted(s, f);
    assert forall|i: int, j: int| 0 <= i < j < r.len() implies !key_lt(#[trigger] r[j], #[trigger] r[i]) by {
        if j < p {
            assert(r[i] == s[i] && r[j] == s[j]);
        } else if i > p {
            assert(r[i] == s[i - 1] && r[j] == s[j - 1]);
        } else if i < p && j > p {
            assert(r[i] == s[i] && r[j] == s[j - 1]);
        } else if j == p {
            assert(r[i] == s[i] && r[j] == f);
            lemma_key_lt_order(f, s[p - 1], s[i]);
            if i < p - 1 {
                assert(!key_lt(s[p - 1], s[i]));
            }
        } else {
            assert(i == p && r[i] == f && r[j] == s[j - 1]);
            lemma_key_lt_order(f, s[j - 1], f);
        }
    }
    broadcast use vstd::seq_lib::group_to_multiset_ensures;
    assert(r.remove(p) =~= s);
    assert(r[p] == f);
    assert(r.to_multiset().count(f) > 0);
    assert(r.to_multiset() =~= s.to_multiset().insert(f));
}

/// Canonical ordering sorts the findings.
pub proof fn law_sort_sorted(s: Seq<Finding>)
    ensures
        findings_sorted(sort_findings(s)),
    decreases s.len(),
{
    if s.len() > 0 {
        law_sort_sorted(s.drop_last());
        lemma_insert_sorted(sort_findings(s.drop_last()), s.last());
    }
}

/// Canonical ordering keeps every finding, as often as it occurs.
pub proof fn law_sort_permutation(s: Seq<Finding>)
    ensures
        sort_findings(s).to_multiset() == s.to_multiset(),
    decreases s.len(),
{
    broadcast use vstd::seq_lib::group_to_multiset_ensures;
    if s.len() > 0 {
        law_sort_permutation(s.drop_last());
        law_sort_sorted(s.drop_last());
        lemma_insert_sorted(sort_findings(s.drop_last()), s.last());
        assert(s.drop_last().push(s.last()) =~= s);
    } else {
        assert(sort_findings(s) =~= s);
    }
}

/// Findings already in canonical order are left as they are.
pub proof fn law_sort_idempotent(s: Seq<Finding>)
    requires
        findings_sorted(s),
    ensures
        sort_findings(s) == s,
    decreases s.len(),
{
    if s.len() > 0 {
        let t = s.drop_last();
        assert(findings_sorted(t)) by {
            assert forall|i: int, j: int| 0 <= i < j < t.len() implies !key_lt(#[trigger] t[j], #[trigger] t[i]) by {
                assert(t[i] == s[i] && t[j] == s[j]);
            }
        }
        law_sort_idempotent(t);
        if t.len() > 0 {
            assert(!key_lt(s[s.len() - 1], s[s.len() - 2]));
        }
        assert(t.push(s.last()) =~= s);
    } else {
        assert(sort_findings(s) =~= s);
    }
}

/// Two sequences in canonical order that hold the same findings are the same
/// sequence, where findings with the same key are equal.
proof fn lemma_sorted_unique(s: Seq<Finding>, t: Seq<Finding>)
    requires
        findings_sorted(s),
        findings_sorted(t),
        s.to_multiset() == t.to_multiset(),
        forall|a: Finding, b: Finding|
            #[trigger] s.to_multiset().count(a) > 0 && #[trigger] s.to_multiset().count(b) > 0
                && same_key(a, b) ==> a == b,
    ensures
        s == t,
    decreases s.len(),
{
    broadcast use vstd::seq_lib::group_to_multiset_ensures;
    assert(s.len() == s.to_multiset().len());
    assert(t.len() == t.to_multiset().len());
    if s.len() == 0 {
        assert(s =~= t);
    } else {
        let n = s.len() - 1;
        let x = s[n];
        let y = t[n];
        assert(s.contains(x));
        assert(t.contains(y));
        assert(s.to_multiset().count(x) > 0);
        assert(t.to_multiset().count(y) > 0);
        if x != y {
            lemma_key_lt_order(x, y, x);
            if key_lt(x, y) {
                assert(s.contains(y));
                let i = choose|i: int| 0 <= i < s.len() && s[i] == y;
                assert(!key_lt(s[n], s[i]));
            } else {
                assert(t.contains(x));
                let j = choose|j: int| 0 <= j < t.len() && t[j] == x;
                assert(!key_lt(t[n], t[j]));
            }
        }
        let s2 = s.drop_last();
        let t2 = t.drop_last();
        assert(s.remove(n) =~= s2);
        assert(t.remove(n) =~= t2);
        assert(s2.to_multiset() == s.to_multiset().remove(x));
        assert(t2.to_multiset() == t.to_multiset().remove(y));
        assert(findings_sorted(s2)) by {
            assert forall|i: int, j: int| 0 <= i < j < s2.len() implies !key_lt(#[trigger] s2[j], #[trigger] s2[i]) by {
                assert(s2[i] == s[i] && s2[j] == s[j]);
            }
        }
        assert(findings_sorted(t2)) by {
            assert forall|i: int, j: int| 0 <= i < j < t2.len() implies !key_lt(#[trigger] t2[j], #[trigger] t2[i]) by {
                assert(t2[i] == t[i] && t2[j] == t[j]);
            }
        }
        assert forall|a: Finding, b: Finding|
            #[trigger] s2.to_multiset().count(a) > 0 && #[trigger] s2.to_multiset().count(b) > 0
                && same_key(a, b) implies a == b by {
            assert(s.to_multiset().count(a) > 0);
            assert(s.to_multiset().count(b) > 0);
        }
        lemma_sorted_unique(s2, t2);
        assert(s =~= s2.push(x));
        assert(t =~= t2.push(y));
    }
}

/// Canonical ordering does not depend on the order the findings come in: two
/// lists holding the same findings, as often each, sort to the same sequence
/// where findings with the same key are equal (as they are where no two
/// findings share a key), and so a record built from either, with the other
/// values the same, is the same record with the same hash.
pub proof fn law_sort_ignores_input_order(fs1: Seq<Finding>, fs2: Seq<Finding>)
    requires
        fs1.to_multiset() == fs2.to_multiset(),
        forall|i: int, j: int|
            0 <= i < fs1.len() && 0 <= j < fs1.len() && same_key(#[trigger] fs1[i], #[trigger] fs1[j])
                ==> fs1[i] == fs1[j],
    ensures
        sort_findings(fs1) == sort_findings(fs2),
        forall|id: Seq<char>, d: GovernanceDecision, score: u32, pv: Seq<char>, ch: Seq<u8>, prev: Option<Seq<u8>>|
            #[trigger] built_entry(id, d, score, fs1, pv, ch, prev) == built_entry(id, d, score, fs2, pv, ch, prev),
{
    broadcast use vstd::seq_lib::group_to_multiset_ensures;
    law_sort_sorted(fs1);
    law_sort_sorted(fs2);
    law_sort_permutation(fs1);
    law_sort_permutation(fs2);
    let s = sort_findings(fs1);
    assert forall|a: Finding, b: Finding|
        #[trigger] s.to_multiset().count(a) > 0 && #[trigger] s.to_multiset().count(b) > 0
            && same_key(a, b) implies a == b by {
        assert(fs1.to_multiset().count(a) > 0);
        assert(fs1.to_multiset().count(b) > 0);
        assert(fs1.contains(a));
        assert(fs1.contains(b));
        let i = choose|i: int| 0 <= i < fs1.len() && fs1[i] == a;
        let j = choose|j: int| 0 <= j < fs1.len() && fs1[j] == b;
        assert(same_key(fs1[i], fs1[j]));
    }
    lemma_sorted_unique(s, sort_findings(fs2));
}

/// Inserts `f` into the sorted vector `v` as `insert_sorted` does.
fn insert_in_order(v: &mut Vec<Finding>, f: Finding)
    ensures
        final(v)@ == insert_sorted(old(v)@, f),
{
    let mut p: usize = v.len();
    let mut moving = true;
    assert(v@.subrange(0, p as int) =~= v@);
    assert(insert_sorted(v@, f) =~= insert_sorted(v@.subrange(0, p as int), f) + v@.subrange(
        p as int,
        v@.len() as int,
    ));
    while moving && p > 0
        invariant
            p <= v@.len(),
            v@ == old(v)@,
            insert_sorted(v@, f) == insert_sorted(v@.subrange(0, p as int), f) + v@.subrange(
                p as int,
                v@.len() as int,
            ),
            !moving ==> p > 0 && !key_lt(f, v@[p - 1]),
        decreases p + if moving { 1int } else { 0int },
    {
        if key_less(&f, &v[p - 1]) {
            proof {
                let sub = v@.subrange(0, p as int);
                assert(sub.drop_last() =~= v@.subrange(0, p - 1));
                assert(sub.last() == v@[p - 1]);
                assert(insert_sorted(sub, f) == insert_sorted(v@.subrange(0, p - 1), f).push(v@[p - 1]));
                assert(insert_sorted(v@.subrange(0, p - 1), f).push(v@[p - 1]) + v@.subrange(p as int, v@.len() as int)
                    =~= insert_sorted(v@.subrange(0, p - 1), f) + v@.subrange(p - 1, v@.len() as int));
            }
            p = p - 1;
        } else {
            moving = false;
        }
    }
    proof {
        let sub = v@.subrange(0, p as int);
        if p > 0 {
            assert(sub.last() == v@[p - 1]);
            assert(insert_sorted(sub, f) == sub.push(f));
        } else {
            assert(insert_sorted(sub, f) == seq![f]);
        }
        assert(insert_sorted(v@, f) =~= v@.insert(p as int, f));
    }
    v.insert(p, f);
}

/// The findings in canonical order (a stable sort by category, path, line and
/// code number).
pub fn sort_canonical(findings: &Vec<Finding>) -> (r: Vec<Finding>)
    ensures
        r@ == sort_findings(findings@),
{
    let mut r: Vec<Finding> = Vec::new();
    let mut i: usize = 0;
    while i < findings.len()
        invariant
            i <= findings@.len(),
            r@ == sort_findings(findings@.subrange(0, i as int)),
        decreases findings@.len() - i,
    {
        let f = findings[i].clone();
        insert_in_order(&mut r, f);
        proof {
            let s = findings@.subrange(0, i + 1);
            assert(s.drop_last() =~= findings@.subrange(0, i as int));
        }
        i = i + 1;
    }
    assert(findings@.subrange(0, i as int) =~= findings@);
    r
}

/// Builds evidence records.
pub struct EvidenceBuilder;

impl EvidenceBuilder {
    /// A record of a decision: the findings put in canonical order and the
    /// record's hash computed over its canonical encoding.
    pub fn build(
        commit_id: CommitId,
        decision: GovernanceDecision,
        altai_score: u32,
        findings: Vec<Finding>,
        policy_version: PolicyVersion,
        config_hash: types::Hash,
        previous_hash: Option<types::Hash>,
    ) -> (e: EvidenceEntry)
        ensures
            e@.commit_id == commit_id.0@,
            e@.decision == decision,
            e@.altai_score == altai_score,
            e@.findings == sort_findings(findings@),
            e@.policy_version == policy_version.0@,
            e@.config_hash == config_hash.0@,
            e@.previous_hash == types::opt_hash_view(previous_hash),
            e@.current_hash == entry_hash(e@),
            e@ == built_entry(
                commit_id.0@,
                decision,
                altai_score,
                findings@,
                policy_version.0@,
                config_hash.0@,
                types::opt_hash_view(previous_hash),
            ),
    {
        let sorted = sort_canonical(&findings);
        let entry = EvidenceEntry {
            commit_id,
            decision,
            altai_score,
            findings: sorted,
            policy_version,
            config_hash,
            previous_hash,
            current_hash: types::Hash::zero(),
        };
        let current_hash = Self::compute_hash(&entry);
        EvidenceEntry { current_hash, ..entry }
    }

    /// The hash of a record as stored: BLAKE3 over its canonical encoding.
    pub fn compute_hash(entry: &EvidenceEntry) -> (h: types::Hash)
        ensures
            h.0@ == entry_hash(entry@),
    {
        let mut hasher = CanonicalHasher::new(CanonicalFormatVersion::V1);
        hasher.write_str(1, entry.commit_id.0.as_str());
        hasher.write_u8(2, decision_byte(entry.decision));
        hasher.write_u32(3, entry.altai_score);
        let ghost start = hasher@;
        let mut i: usize = 0;
        while i < entry.findings.len()
            invariant
                i <= entry.findings@.len(),
                hasher@ == start + findings_encoding(entry.findings@.subrange(0, i as int)),
            decreases entry.findings@.len() - i,
        {
            write_finding(&mut hasher, &entry.findings[i]);
            proof {
                let s = entry.findings@.subrange(0, i + 1);
                assert(s.drop_last() =~= entry.findings@.subrange(0, i as int));
            }
            i = i + 1;
        }
        assert(entry.findings@.subrange(0, i as int) =~= entry.findings@);
        hasher.write_str(10, entry.policy_version.0.as_str());
        hasher.write_field(11, entry.config_hash.0.as_slice());
        match &entry.previous_hash {
            Some(prev) => {
                hasher.write_field(12, prev.0.as_slice());
            },
            None => {},
        }
        assert(hasher@ =~= entry_encoding(entry@));
        hasher.finalize()
    }
}

} // verus!
