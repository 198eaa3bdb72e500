//! The tamper-evident audit log: every event row carries the hash of the row
//! before it and its own hash over that link and its canonical text.
//! Appending (`next_link`) and checking (`verify_chain`) are stated over the
//! same link function, and the laws below show that appending keeps a checked
//! chain checked.
use vstd::prelude::*;

use crate::crypto::{extend_bytes, hex_encode, hex_lower, sha256, sha256_digest, utf8};
use crate::formats::{in_chrono_range, json_quote, json_quoted, rfc3339_micros, rfc3339_micros_z};
use crate::ids::{uuid_text, uuid_to_string};
use crate::server::{json_parses, json_reserialize_text, json_reserialized};
use vstd::utf8::decode_utf8;

verus! {

/// The link that the first hashed row points back to.
pub open spec fn genesis() -> Seq<char> {
    seq!['G', 'E', 'N', 'E', 'S', 'I', 'S']
}

/// The row hash for a row whose predecessor link is `prev` and whose
/// canonical serialization is `canonical`: hex(SHA-256(prev | canonical)).
pub open spec fn chain_hash(prev: Seq<char>, canonical: Seq<char>) -> Seq<char> {
    hex_lower(sha256_digest(utf8(prev) + seq![124u8] + utf8(canonical)))
}

/// One stored audit event as the chain check reads it: its id, its place in
/// the chain (`chain_seq`, assigned in insertion order), its canonical
/// serialization, and the stored predecessor link and row hash (legacy rows
/// written before hashing have no row hash).
pub struct AuditChainRow {
    pub id: u128,
    pub chain_seq: i64,
    pub canonical: String,
    pub prev_hash: Option<String>,
    pub row_hash: Option<String>,
}

/// The result of checking the whole chain.
pub struct AuditVerifyReport {
    pub total: u64,
    pub verified: u64,
    pub broken_at: Option<u128>,
    pub ok: bool,
}

/// The state of the check after a prefix of the rows: the link the next
/// hashed row must carry, how many rows passed, and the first broken row.
pub struct ChainScan {
    pub prev: Seq<char>,
    pub verified: nat,
    pub broken_at: Option<u128>,
}

/// The view of an optional stored string.
pub open spec fn opt_view(o: Option<String>) -> Option<Seq<char>> {
    match o {
        Some(s) => Some(s@),
        None => None,
    }
}

/// Checks the rows in order. A row without a row hash is counted as verified
/// and skipped; a hashed row must point back to the current link and hash to
/// its stored row hash, else the check stops there.
pub open spec fn scan(rows: Seq<AuditChainRow>) -> ChainScan
    decreases rows.len(),
{
    if rows.len() == 0 {
        ChainScan { prev: genesis(), verified: 0, broken_at: None }
    } else {
        let s = scan(rows.drop_last());
        let r = rows.last();
        if s.broken_at is Some {
            s
        } else {
            match r.row_hash {
                None => ChainScan { prev: s.prev, verified: s.verified + 1, broken_at: None },
                Some(got) => {
                    let stored_prev = match r.prev_hash {
                        Some(p) => p@,
                        None => Seq::<char>::empty(),
                    };
                    if stored_prev != s.prev || chain_hash(s.prev, r.canonical@) != got@ {
                        ChainScan { prev: s.prev, verified: s.verified, broken_at: Some(r.id) }
                    } else {
                        ChainScan { prev: got@, verified: s.verified + 1, broken_at: None }
                    }
                },
            }
        }
    }
}

/// The report `verify_chain` gives for `rows`.
pub open spec fn report_of(rows: Seq<AuditChainRow>) -> (u64, u64, Option<u128>, bool) {
    let s = scan(rows);
    (rows.len() as u64, s.verified as u64, s.broken_at, s.broken_at is None)
}

/// The link a new event is written with: the newest row's hash, or the
/// genesis link when there is no row or the newest one has no hash.
pub open spec fn latest_link(rows: Seq<AuditChainRow>) -> Seq<char> {
    if rows.len() == 0 {
        genesis()
    } else {
        match rows.last().row_hash {
            Some(h) => h@,
            None => genesis(),
        }
    }
}

proof fn lemma_scan_verified_bound(rows: Seq<AuditChainRow>)
    ensures
        scan(rows).verified <= rows.len(),
    decreases rows.len(),
{
    if rows.len() > 0 {
        lemma_scan_verified_bound(rows.drop_last());
    }
}

/// The literal `GENESIS`.
pub fn genesis_link() -> (r: String)
    ensures
        r@ == genesis(),
{
    let mut s = String::new();
    crate::text::push_char(&mut s, 'G');
    crate::text::push_char(&mut s, 'E');
    crate::text::push_char(&mut s, 'N');
    crate::text::push_char(&mut s, 'E');
    crate::text::push_char(&mut s, 'S');
    crate::text::push_char(&mut s, 'I');
    crate::text::push_char(&mut s, 'S');
    assert(s@ == genesis());
    s
}

/// hex(SHA-256(prev | canonical)): the hash of a row given its predecessor link.
pub fn hash_chain(prev: &str, canonical: &str) -> (r: String)
    ensures
        r@ == chain_hash(prev@, canonical@),
{
    let mut buf: Vec<u8> = Vec::new();
    extend_bytes(&mut buf, prev.as_bytes());
    buf.push(124u8);
    extend_bytes(&mut buf, canonical.as_bytes());
    assert(buf@ == utf8(prev@) + seq![124u8] + utf8(canonical@));
    let d = sha256(buf.as_slice());
    hex_encode(d.as_slice())
}

/// The `(prev_hash, row_hash)` pair a new event is stored with, given the
/// newest row's hash (`None` when there is no row or it predates hashing).
pub fn next_link(newest_row_hash: Option<&str>, canonical: &str) -> (r: (String, String))
    ensures
        r.0@ == (match newest_row_hash {
            Some(h) => h@,
            None => genesis(),
        }),
        r.1@ == chain_hash(r.0@, canonical@),
{
    let prev = match newest_row_hash {
        Some(h) => crate::text::owned(h),
        None => genesis_link(),
    };
    let row_hash = hash_chain(prev.as_str(), canonical);
    (prev, row_hash)
}

fn str_eq(a: &String, b: &String) -> (r: bool)
    ensures
        r == (a@ == b@),
{
    a.eq(b)
}

/// Row `a` comes before row `b` in the chain: a lower `chain_seq`, or the
/// same one and an earlier place in `rows`.
pub open spec fn chain_before(rows: Seq<AuditChainRow>, a: int, b: int) -> bool {
    rows[a].chain_seq < rows[b].chain_seq || (rows[a].chain_seq == rows[b].chain_seq && a < b)
}

/// `order` lists the places of `rows` in chain order: ascending `chain_seq`
/// (ties in the order given), each place once.
pub open spec fn is_chain_order(rows: Seq<AuditChainRow>, order: Seq<usize>) -> bool {
    &&& order.len() == rows.len()
    &&& forall|i: int| 0 <= i < order.len() ==> (#[trigger] order[i]) < rows.len()
    &&& forall|i: int, j: int| 0 <= i < j < order.len() ==> chain_before(rows, order[i] as int, order[j] as int)
}

/// The rows taken in the order `order`.
pub open spec fn in_order(rows: Seq<AuditChainRow>, order: Seq<usize>) -> Seq<AuditChainRow> {
    Seq::new(order.len(), |i: int| rows[order[i] as int])
}

/// The places of the rows sorted into chain order (insertion sort, stable).
fn chain_order(rows: &Vec<AuditChainRow>) -> (order: Vec<usize>)
    ensures
        is_chain_order(rows@, order@),
{
    let n = rows.len();
    let mut order: Vec<usize> = Vec::new();
    for k in 0..n
        invariant
            n == rows@.len(),
            order@.len() == k,
            forall|i: int| 0 <= i < order@.len() ==> (#[trigger] order@[i]) < k,
            forall|i: int, j: int|
                0 <= i < j < order@.len() ==> chain_before(rows@, order@[i] as int, order@[j] as int),
    {
        let key = rows[k].chain_seq;
        let mut p: usize = 0;
        loop
            invariant
                n == rows@.len(),
                k < n,
                order@.len() == k,
                key == rows@[k as int].chain_seq,
                p <= order@.len(),
                forall|i: int| 0 <= i < order@.len() ==> (#[trigger] order@[i]) < k,
                forall|i: int| 0 <= i < p ==> rows@[(#[trigger] order@[i]) as int].chain_seq <= key,
            ensures
                p <= order@.len(),
                forall|i: int| 0 <= i < p ==> rows@[(#[trigger] order@[i]) as int].chain_seq <= key,
                p < order@.len() ==> rows@[order@[p as int] as int].chain_seq > key,
            decreases order@.len() - p,
        {
            if p >= order.len() {
                break;
            }
            if rows[order[p]].chain_seq > key {
                break;
            }
            p = p + 1;
        }
        let ghost old_order = order@;
        order.insert(p, k);
        proof {
            assert forall|i: int| p < i < old_order.len() implies rows@[(#[trigger] old_order[i]) as int].chain_seq
                > key by {
                assert(chain_before(rows@, old_order[p as int] as int, old_order[i] as int));
            }
            assert forall|i: int, j: int| 0 <= i < j < order@.len() implies chain_before(
                rows@,
                order@[i] as int,
                order@[j] as int,
            ) by {
                if j < p {
                    assert(order@[i] == old_order[i] && order@[j] == old_order[j]);
                } else if j == p {
                    assert(order@[i] == old_order[i]);
                } else if i == p {
                    assert(order@[j] == old_order[j - 1]);
                } else if i < p {
                    assert(order@[i] == old_order[i] && order@[j] == old_order[j - 1]);
                } else {
                    assert(order@[i] == old_order[i - 1] && order@[j] == old_order[j - 1]);
                }
            }
        }
    }
    order
}

/// Walks the rows in chain order (ascending `chain_seq`) and reports how
/// many verify and where the chain breaks first; `ok` when it does not break.
pub fn verify_chain(rows: &Vec<AuditChainRow>) -> (r: AuditVerifyReport)
    ensures
        exists|order: Seq<usize>|
            #[trigger] is_chain_order(rows@, order) && (r.total, r.verified, r.broken_at, r.ok) == report_of(
                in_order(rows@, order),
            ),
{
    let order = chain_order(rows);
    let ghost walk = in_order(rows@, order@);
    let n = rows.len();
    let mut prev = genesis_link();
    let mut verified: u64 = 0;
    let mut broken_at: Option<u128> = None;
    let mut i: usize = 0;
    while i < n
        invariant
            n == rows@.len(),
            is_chain_order(rows@, order@),
            walk == in_order(rows@, order@),
            0 <= i <= n,
            ({
                let s = scan(walk.subrange(0, i as int));
                &&& s.broken_at == broken_at
                &&& s.verified == verified
                &&& s.prev == prev@
            }),
            broken_at is None,
            verified <= i,
        decreases n - i,
    {
        let ghost pre = walk.subrange(0, i as int);
        let ghost cur = walk.subrange(0, i + 1);
        assert(cur.drop_last() == pre);
        let r = &rows[order[i]];
        assert(*r == walk[i as int]);
        match &r.row_hash {
            None => {
                verified = verified + 1;
            },
            Some(got) => {
                let stored_prev = match &r.prev_hash {
                    Some(p) => p.clone(),
                    None => String::new(),
                };
                let expected = hash_chain(prev.as_str(), r.canonical.as_str());
                if !str_eq(&stored_prev, &prev) || !str_eq(&expected, got) {
                    broken_at = Some(r.id);
                    proof {
                        lemma_scan_verified_bound(walk);
                        lemma_scan_stays_broken(walk, i as int + 1);
                    }
                    return AuditVerifyReport {
                        total: n as u64,
                        verified,
                        broken_at,
                        ok: false,
                    };
                }
                verified = verified + 1;
                prev = got.clone();
            },
        }
        i = i + 1;
    }
    assert(walk.subrange(0, n as int) == walk);
    AuditVerifyReport { total: n as u64, verified, broken_at, ok: true }
}

/// The places of `order` as integers.
pub open spec fn places(order: Seq<usize>) -> Seq<int> {
    order.map_values(|x: usize| x as int)
}

/// A chain order lists every place of `rows` (each once).
proof fn lemma_chain_order_covers(rows: Seq<AuditChainRow>, order: Seq<usize>, x: int)
    requires
        is_chain_order(rows, order),
        0 <= x < rows.len(),
    ensures
        exists|j: int| 0 <= j < order.len() && order[j] as int == x,
{
    let s = places(order);
    assert(s.no_duplicates()) by {
        assert forall|i: int, j: int| 0 <= i < s.len() && 0 <= j < s.len() && i != j implies s[i] != s[j] by {
            if i < j {
                assert(chain_before(rows, order[i] as int, order[j] as int));
            } else {
                assert(chain_before(rows, order[j] as int, order[i] as int));
            }
        }
    }
    s.unique_seq_to_set();
    vstd::set_lib::lemma_int_range(0, rows.len() as int);
    let r = vstd::set_lib::set_int_range(0, rows.len() as int);
    assert(s.to_set().subset_of(r)) by {
        assert forall|y: int| s.to_set().contains(y) implies r.contains(y) by {
            let i = choose|i: int| 0 <= i < s.len() && s[i] == y;
            assert(order[i] < rows.len());
        }
    }
    vstd::seq_lib::seq_to_set_is_finite(s);
    vstd::set_lib::lemma_subset_equality(s.to_set(), r);
    assert(r.contains(x));
    assert(s.to_set().contains(x));
    let j = choose|j: int| 0 <= j < s.len() && s[j] == x;
    assert(order[j] as int == x);
}

proof fn lemma_chain_order_prefix(rows: Seq<AuditChainRow>, o1: Seq<usize>, o2: Seq<usize>, k: int)
    requires
        is_chain_order(rows, o1),
        is_chain_order(rows, o2),
        0 <= k <= rows.len(),
    ensures
        forall|i: int| 0 <= i < k ==> o1[i] == o2[i],
    decreases k,
{
    if k > 0 {
        lemma_chain_order_prefix(rows, o1, o2, k - 1);
        let c = k - 1;
        if o1[c] != o2[c] {
            let a = o1[c] as int;
            let b = o2[c] as int;
            lemma_chain_order_covers(rows, o2, a);
            lemma_chain_order_covers(rows, o1, b);
            let j = choose|j: int| 0 <= j < o2.len() && o2[j] as int == a;
            let jj = choose|j: int| 0 <= j < o1.len() && o1[j] as int == b;
            if j < c {
                assert(o1[j] == o2[j]);
                assert(chain_before(rows, o1[j] as int, o1[c] as int));
            }
            if jj < c {
                assert(o1[jj] == o2[jj]);
                assert(chain_before(rows, o2[jj] as int, o2[c] as int));
            }
            assert(j > c && jj > c);
            assert(chain_before(rows, o2[c] as int, o2[j] as int));
            assert(chain_before(rows, o1[c] as int, o1[jj] as int));
            assert(false);
        }
    }
}

/// The chain order of a set of rows is unique, so the check's walk, and with
/// it its report, is fixed by the rows alone.
pub proof fn lemma_chain_order_unique(rows: Seq<AuditChainRow>, o1: Seq<usize>, o2: Seq<usize>)
    requires
        is_chain_order(rows, o1),
        is_chain_order(rows, o2),
    ensures
        o1 == o2,
        report_of(in_order(rows, o1)) == report_of(in_order(rows, o2)),
{
    lemma_chain_order_prefix(rows, o1, o2, rows.len() as int);
    assert(o1 =~= o2);
}

/// Once the check has stopped at a row, the rows after it change nothing.
proof fn lemma_scan_stays_broken(rows: Seq<AuditChainRow>, k: int)
    requires
        0 <= k <= rows.len(),
        scan(rows.subrange(0, k)).broken_at is Some,
    ensures
        scan(rows) == scan(rows.subrange(0, k)),
    decreases rows.len() - k,
{
    if k < rows.len() {
        let next = rows.subrange(0, k + 1);
        assert(next.drop_last() == rows.subrange(0, k));
        lemma_scan_stays_broken(rows, k + 1);
    } else {
        assert(rows.subrange(0, k) == rows);
    }
}

/// The rows with the canonical text of row `k` replaced, its stored links
/// left as they were (a row edited in place, hashes untouched).
pub open spec fn tampered(rows: Seq<AuditChainRow>, k: int, canonical: String) -> Seq<AuditChainRow> {
    rows.update(k, AuditChainRow { canonical, ..rows[k] })
}

/// Editing a hashed row of a chain that checks breaks the check at that row:
/// unless the edited text hashes, with the row's stored predecessor link, to
/// its stored row hash (a SHA-256 collision), the check stops at that row's
/// id.
pub proof fn lemma_tampered_row_breaks(rows: Seq<AuditChainRow>, k: int, canonical: String)
    requires
        scan(rows).broken_at is None,
        0 <= k < rows.len(),
        rows[k].row_hash is Some,
        rows[k].prev_hash is Some,
        chain_hash(rows[k].prev_hash->0@, canonical@) != rows[k].row_hash->0@,
    ensures
        scan(tampered(rows, k, canonical)).broken_at == Some(rows[k].id),
{
    let t = tampered(rows, k, canonical);
    if scan(rows.subrange(0, k + 1)).broken_at is Some {
        lemma_scan_stays_broken(rows, k + 1);
    }
    if scan(rows.subrange(0, k)).broken_at is Some {
        assert(rows.subrange(0, k + 1).drop_last() == rows.subrange(0, k));
    }
    assert(rows.subrange(0, k + 1).drop_last() == rows.subrange(0, k));
    assert(t.subrange(0, k) == rows.subrange(0, k));
    assert(t.subrange(0, k + 1).drop_last() == t.subrange(0, k));
    assert(t.subrange(0, k + 1).last() == t[k]);
    assert(rows.subrange(0, k + 1).last() == rows[k]);
    lemma_scan_stays_broken(t, k + 1);
}

/// The row that `record` appends after `rows` for an event with the given id
/// and canonical text.
pub open spec fn appended(rows: Seq<AuditChainRow>, id: u128, canonical: String, row_hash: String, prev: String) -> Seq<AuditChainRow> {
    rows.push(AuditChainRow { id, chain_seq: rows.len() as i64, canonical, prev_hash: Some(prev), row_hash: Some(row_hash) })
}

/// Appending keeps a sound chain sound: when the rows check without a break
/// and the newest row carries a hash (or there are no rows), the row that
/// `next_link` produces for any new event checks too, and one more row counts
/// as verified.
pub proof fn lemma_append_keeps_chain(
    rows: Seq<AuditChainRow>,
    id: u128,
    canonical: String,
    prev: String,
    row_hash: String,
)
    requires
        scan(rows).broken_at is None,
        rows.len() == 0 || rows.last().row_hash is Some,
        prev@ == latest_link(rows),
        row_hash@ == chain_hash(prev@, canonical@),
    ensures
        scan(appended(rows, id, canonical, row_hash, prev)).broken_at is None,
        scan(appended(rows, id, canonical, row_hash, prev)).verified == scan(rows).verified + 1,
        scan(appended(rows, id, canonical, row_hash, prev)).prev == row_hash@,
{
    let ext = appended(rows, id, canonical, row_hash, prev);
    assert(ext.drop_last() == rows);
    lemma_scan_prev_is_latest(rows);
}

/// In a chain that checks and whose newest row carries a hash, the current
/// link is that hash (the genesis link when there are no rows).
proof fn lemma_scan_prev_is_latest(rows: Seq<AuditChainRow>)
    requires
        scan(rows).broken_at is None,
        rows.len() == 0 || rows.last().row_hash is Some,
    ensures
        scan(rows).prev == latest_link(rows),
{
    if rows.len() > 0 {
        assert(scan(rows.drop_last()).broken_at is None);
    }
}

/// The rows that successive `record` calls write for the canonical texts
/// `canonicals` (with ids `ids`), starting from an empty log.
pub open spec fn recorded(ids: Seq<u128>, canonicals: Seq<String>, prevs: Seq<String>, hashes: Seq<String>) -> Seq<AuditChainRow>
    recommends
        ids.len() == canonicals.len() == prevs.len() == hashes.len(),
{
    Seq::new(
        ids.len(),
        |i: int|
            AuditChainRow {
                id: ids[i],
                chain_seq: i as i64,
                canonical: canonicals[i],
                prev_hash: Some(prevs[i]),
                row_hash: Some(hashes[i]),
            },
    )
}

/// The links of a log written only by `record`: each row points back to the
/// hash of the row before it (genesis for the first) and hashes over that link.
pub open spec fn written_by_record(canonicals: Seq<String>, prevs: Seq<String>, hashes: Seq<String>) -> bool {
    &&& canonicals.len() == prevs.len() == hashes.len()
    &&& forall|i: int|
        0 <= i < canonicals.len() ==> #[trigger] prevs[i]@ == (if i == 0 {
            genesis()
        } else {
            hashes[i - 1]@
        })
    &&& forall|i: int|
        0 <= i < canonicals.len() ==> #[trigger] hashes[i]@ == chain_hash(prevs[i]@, canonicals[i]@)
}

/// Every log written only through `record` checks in full: no break, and
/// every row counts as verified.
pub proof fn lemma_recorded_log_verifies(
    ids: Seq<u128>,
    canonicals: Seq<String>,
    prevs: Seq<String>,
    hashes: Seq<String>,
)
    requires
        ids.len() == canonicals.len(),
        written_by_record(canonicals, prevs, hashes),
    ensures
        scan(recorded(ids, canonicals, prevs, hashes)).broken_at is None,
        scan(recorded(ids, canonicals, prevs, hashes)).verified == ids.len(),
    decreases ids.len(),
{
    let rows = recorded(ids, canonicals, prevs, hashes);
    let n = ids.len();
    if n > 0 {
        let ids0 = ids.drop_last();
        let c0 = canonicals.drop_last();
        let p0 = prevs.drop_last();
        let h0 = hashes.drop_last();
        assert(written_by_record(c0, p0, h0)) by {
            assert forall|i: int| 0 <= i < c0.len() implies #[trigger] p0[i]@ == (if i == 0 {
                genesis()
            } else {
                h0[i - 1]@
            }) by {
                assert(p0[i] == prevs[i]);
                if i > 0 {
                    assert(h0[i - 1] == hashes[i - 1]);
                }
            }
            assert forall|i: int| 0 <= i < c0.len() implies #[trigger] h0[i]@ == chain_hash(p0[i]@, c0[i]@) by {
                assert(h0[i] == hashes[i]);
                assert(p0[i] == prevs[i]);
                assert(c0[i] == canonicals[i]);
            }
        }
        lemma_recorded_log_verifies(ids0, c0, p0, h0);
        let rows0 = recorded(ids0, c0, p0, h0);
        assert(rows0 == rows.drop_last());
        assert(prevs[n - 1]@ == latest_link(rows0)) by {
            if n > 1 {
                assert(rows0.last().row_hash == Some(hashes[n - 2]));
            }
        }
        assert(hashes[n - 1]@ == chain_hash(prevs[n - 1]@, canonicals[n - 1]@));
        lemma_append_keeps_chain(rows0, ids[n - 1], canonicals[n - 1], prevs[n - 1], hashes[n - 1]);
        assert(appended(rows0, ids[n - 1], canonicals[n - 1], hashes[n - 1], prevs[n - 1]) == rows);
    }
}

// ---------------------------------------------------------------------------
// Events and their canonical text
// ---------------------------------------------------------------------------

/// An audit event as stored and listed; `meta` is its JSON text.
pub struct AuditDto {
    pub id: u128,
    pub user_id: Option<u128>,
    pub action: String,
    pub ip: Option<String>,
    pub user_agent: Option<String>,
    pub meta: String,
    pub created_at: i64,
}

/// A JSON string literal, or `null`.
pub open spec fn json_or_null(o: Option<Seq<char>>) -> Seq<char> {
    match o {
        Some(s) => json_quoted(s),
        None => "null"@,
    }
}

/// The view of an optional text.
pub open spec fn opt_str(o: Option<&str>) -> Option<Seq<char>> {
    match o {
        Some(s) => Some(s@),
        None => None,
    }
}

/// The `meta` JSON as the canonical text holds it: parsed and written again
/// compactly by serde_json (keys sorted); `None` when it is not JSON.
pub open spec fn canonical_meta(meta: Seq<char>) -> Option<Seq<char>> {
    if json_parses(utf8(meta)) {
        Some(decode_utf8(json_reserialized(utf8(meta))))
    } else {
        None
    }
}

/// The canonical text of an event, which its row hash covers: a compact JSON
/// object with its keys in sorted order (as serde_json writes its maps),
/// ids as hyphenated strings, absent values as `null`, `meta` written again
/// compactly (`canonical_meta`) and the time in RFC 3339 with microseconds
/// and `Z`. `None` where the time has no RFC 3339 form or `meta` is not
/// JSON.
pub open spec fn canonical_spec(
    id: u128,
    user_id: Option<u128>,
    action: Seq<char>,
    ip: Option<Seq<char>>,
    user_agent: Option<Seq<char>>,
    meta: Seq<char>,
    created_at: i64,
) -> Option<Seq<char>> {
    match (rfc3339_micros_z(created_at), canonical_meta(meta)) {
        (None, _) => None,
        (_, None) => None,
        (Some(ts), Some(m)) => Some(
            "{\"action\":"@ + json_quoted(action) + ",\"created_at\":"@ + json_quoted(ts)
                + ",\"id\":"@ + json_quoted(uuid_text(id)) + ",\"ip\":"@ + json_or_null(ip)
                + ",\"meta\":"@ + m + ",\"user_agent\":"@ + json_or_null(user_agent)
                + ",\"user_id\":"@ + json_or_null(
                match user_id {
                    Some(u) => Some(uuid_text(u)),
                    None => None,
                },
            ) + "}"@,
        ),
    }
}

/// Appends a JSON string literal for `o`, or `null`.
fn push_json_opt(out: &mut String, o: Option<&str>)
    ensures
        final(out)@ == old(out)@ + json_or_null(opt_str(o)),
{
    match o {
        Some(s) => {
            let q = json_quote(s);
            out.append(q.as_str());
        },
        None => {
            out.append("null");
        },
    }
}

/// The canonical text of an event (see `canonical_spec`); it exists for every
/// time within chrono's range and `meta` that is JSON.
pub fn canonical_row(
    id: u128,
    user_id: Option<u128>,
    action: &str,
    ip: Option<&str>,
    user_agent: Option<&str>,
    meta_json: &str,
    created_at: i64,
) -> (r: Option<String>)
    ensures
        match r {
            Some(s) => canonical_spec(id, user_id, action@, opt_str(ip), opt_str(user_agent), meta_json@, created_at) == Some(s@),
            None => canonical_spec(id, user_id, action@, opt_str(ip), opt_str(user_agent), meta_json@, created_at) is None,
        },
        in_chrono_range(created_at) && json_parses(utf8(meta_json@)) ==> r is Some,
{
    let ts = match rfc3339_micros(created_at) {
        Some(t) => t,
        None => return None,
    };
    let meta = match json_reserialize_text(meta_json) {
        Some(m) => m,
        None => return None,
    };
    let mut out = String::new();
    out.append("{\"action\":");
    out.append(json_quote(action).as_str());
    out.append(",\"created_at\":");
    out.append(json_quote(ts.as_str()).as_str());
    out.append(",\"id\":");
    out.append(json_quote(uuid_to_string(id).as_str()).as_str());
    out.append(",\"ip\":");
    push_json_opt(&mut out, ip);
    out.append(",\"meta\":");
    out.append(meta.as_str());
    out.append(",\"user_agent\":");
    push_json_opt(&mut out, user_agent);
    out.append(",\"user_id\":");
    match user_id {
        Some(u) => {
            let t = uuid_to_string(u);
            push_json_opt(&mut out, Some(t.as_str()));
        },
        None => push_json_opt(&mut out, None),
    }
    out.append("}");
    Some(out)
}

/// The client address of a request: the `X-Forwarded-For` header when
/// present, else `X-Real-IP`; a header whose value is not visible ASCII gives
/// none (each header is `None` when absent, `Some(None)` when unreadable).
pub fn client_address(forwarded_for: Option<Option<String>>, real_ip: Option<Option<String>>) -> (r: Option<String>)
    ensures
        r == match forwarded_for {
            Some(v) => v,
            None => match real_ip {
                Some(v) => v,
                None => None,
            },
        },
{
    match forwarded_for {
        Some(v) => v,
        None => match real_ip {
            Some(v) => v,
            None => None,
        },
    }
}

/// The chain check's row for a stored event: its canonical text made from
/// its fields (`None` where its time has no RFC 3339 form).
pub fn chain_row_of(e: &AuditDto, chain_seq: i64, prev_hash: Option<String>, row_hash: Option<String>) -> (r: Option<AuditChainRow>)
    ensures
        r is None <==> canonical_spec(e.id, e.user_id, e.action@, opt_view(e.ip), opt_view(e.user_agent), e.meta@, e.created_at) is None,
        r matches Some(c) ==> c.id == e.id && c.chain_seq == chain_seq && c.prev_hash == prev_hash && c.row_hash == row_hash
            && canonical_spec(e.id, e.user_id, e.action@, opt_view(e.ip), opt_view(e.user_agent), e.meta@, e.created_at) == Some(c.canonical@),
{
    let ip: Option<&str> = match &e.ip {
        Some(s) => Some(s.as_str()),
        None => None,
    };
    let ua: Option<&str> = match &e.user_agent {
        Some(s) => Some(s.as_str()),
        None => None,
    };
    assert(opt_str(ip) == opt_view(e.ip));
    assert(opt_str(ua) == opt_view(e.user_agent));
    match canonical_row(e.id, e.user_id, e.action.as_str(), ip, ua, e.meta.as_str(), e.created_at) {
        Some(c) => Some(AuditChainRow { id: e.id, chain_seq, canonical: c, prev_hash, row_hash }),
        None => None,
    }
}

/// The query of `GET /me/audit`: page size, and a cursor (events before it).
pub struct AuditQuery {
    pub limit: Option<u64>,
    pub cursor: Option<i64>,
}

/// The page size of `GET /me/audit`: 100 unless asked, at most 500.
pub fn audit_page_limit(limit: Option<u64>) -> (r: u64)
    ensures
        r == (match limit {
            Some(l) => if l < 500 {
                l
            } else {
                500
            },
            None => 100,
        }),
{
    match limit {
        Some(l) => if l < 500 {
            l
        } else {
            500
        },
        None => 100,
    }
}

/// The rows in the order given, as a chain order when their `chain_seq`s
/// rise strictly.
proof fn lemma_rising_seq_is_chain_order(rows: Seq<AuditChainRow>)
    requires
        rows.len() < usize::MAX,
        forall|i: int, j: int| 0 <= i < j < rows.len() ==> rows[i].chain_seq < rows[j].chain_seq,
    ensures
        is_chain_order(rows, Seq::new(rows.len(), |i: int| i as usize)),
        in_order(rows, Seq::new(rows.len(), |i: int| i as usize)) == rows,
{
    let id = Seq::new(rows.len(), |i: int| i as usize);
    assert forall|i: int, j: int| 0 <= i < j < id.len() implies chain_before(rows, id[i] as int, id[j] as int) by {
        assert(id[i] as int == i && id[j] as int == j);
    }
    assert(in_order(rows, id) =~= rows);
}

/// A log written only by successive `record`s checks clean whenever
/// `verify_chain` walks it: in its chain order every row verifies, none is
/// broken, and the report is `ok`.
pub proof fn lemma_recorded_log_checks_clean(
    ids: Seq<u128>,
    canonicals: Seq<String>,
    prevs: Seq<String>,
    hashes: Seq<String>,
    order: Seq<usize>,
)
    requires
        ids.len() == canonicals.len(),
        ids.len() < i64::MAX,
        ids.len() < usize::MAX,
        written_by_record(canonicals, prevs, hashes),
        is_chain_order(recorded(ids, canonicals, prevs, hashes), order),
    ensures
        report_of(in_order(recorded(ids, canonicals, prevs, hashes), order)) == (
            ids.len() as u64,
            ids.len() as u64,
            None::<u128>,
            true,
        ),
{
    let rows = recorded(ids, canonicals, prevs, hashes);
    lemma_rising_seq_is_chain_order(rows);
    let id = Seq::new(rows.len(), |i: int| i as usize);
    lemma_chain_order_unique(rows, order, id);
    lemma_recorded_log_verifies(ids, canonicals, prevs, hashes);
}

/// Editing one hashed row of a log that checks clean, hashes left as they
/// were, makes the next check report that row broken (barring a SHA-256
/// collision: the edited text must not hash, with the row's stored link, to
/// its stored row hash).
pub proof fn lemma_tampered_log_breaks(
    rows: Seq<AuditChainRow>,
    order: Seq<usize>,
    k: int,
    canonical: String,
    order2: Seq<usize>,
)
    requires
        is_chain_order(rows, order),
        report_of(in_order(rows, order)).3,
        0 <= k < rows.len(),
        rows[k].row_hash is Some,
        rows[k].prev_hash is Some,
        chain_hash(rows[k].prev_hash->0@, canonical@) != rows[k].row_hash->0@,
        is_chain_order(tampered(rows, k, canonical), order2),
    ensures
        report_of(in_order(tampered(rows, k, canonical), order2)).2 == Some(rows[k].id),
        !report_of(in_order(tampered(rows, k, canonical), order2)).3,
{
    let t = tampered(rows, k, canonical);
    assert(is_chain_order(t, order)) by {
        assert forall|i: int, j: int| 0 <= i < j < order.len() implies chain_before(t, order[i] as int, order[j] as int) by {
            assert(chain_before(rows, order[i] as int, order[j] as int));
        }
    }
    lemma_chain_order_unique(t, order2, order);
    lemma_chain_order_covers(rows, order, k);
    let p = choose|j: int| 0 <= j < order.len() && order[j] as int == k;
    let walk = in_order(rows, order);
    assert(in_order(t, order) =~= tampered(walk, p, canonical)) by {
        assert forall|i: int| 0 <= i < order.len() implies #[trigger] in_order(t, order)[i] == tampered(walk, p, canonical)[i] by {
            if i != p {
                assert(order[i] != order[p]) by {
                    if i < p {
                        assert(chain_before(rows, order[i] as int, order[p] as int));
                    } else {
                        assert(chain_before(rows, order[p] as int, order[i] as int));
                    }
                }
            }
        }
    }
    assert(walk[p] == rows[k]);
    lemma_tampered_row_breaks(walk, p, canonical);
}

} // verus!
