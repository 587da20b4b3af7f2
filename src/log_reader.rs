//! The log overlay: lookups over the materialized records of the log, with the
//! same query shape as the segment's metadata index.
use roaring::RoaringBitmap;
use vstd::prelude::*;

use crate::bitmap::{bitmap_insert, bitmap_new, ids_of};
use crate::types::{satisfies, MetadataValue, PrimitiveOperator};

verus! {

/// The final operation of a record after all its pending log entries merged.
#[derive(Clone, Copy, Debug, PartialEq, Eq, Structural)]
pub enum MaterializedLogOperation {
    Initial,
    AddNew,
    OverwriteExisting,
    UpdateExisting,
    DeleteExisting,
}

/// One record's final, merged state.
#[derive(Debug)]
pub struct MaterializedLogRecord {
    pub offset_id: u32,
    pub user_id: String,
    pub final_operation: MaterializedLogOperation,
    pub metadata: Vec<(String, MetadataValue)>,
    pub document: Option<String>,
}

/// A record that the log changed since the segment was written.
pub open spec fn is_touched(r: MaterializedLogRecord) -> bool {
    !(r.final_operation is Initial || r.final_operation is AddNew)
}

/// A record that forward lookups can see.
pub open spec fn is_live(r: MaterializedLogRecord) -> bool {
    !(r.final_operation is DeleteExisting)
}

/// Whether `needle` occurs in `hay` as a contiguous run.
pub open spec fn is_substring(needle: Seq<char>, hay: Seq<char>) -> bool {
    exists|i: int|
        0 <= i && i + needle.len() <= hay.len() && #[trigger] hay.subrange(i, i + needle.len())
            == needle
}

/// The ids of the first `n` records that the log touched.
pub open spec fn touched_ids_upto(logs: Seq<MaterializedLogRecord>, n: int) -> Set<u32> {
    Set::new(
        |id: u32|
            exists|i: int|
                0 <= i < n && is_touched(#[trigger] logs[i]) && logs[i].offset_id == id,
    )
}

pub open spec fn touched_ids(logs: Seq<MaterializedLogRecord>) -> Set<u32> {
    touched_ids_upto(logs, logs.len() as int)
}

/// Whether one of the first `m` metadata pairs of `r` is under `key` and stands
/// in relation `op` to `q`.
pub open spec fn record_matches_upto(
    r: MaterializedLogRecord,
    key: Seq<char>,
    op: PrimitiveOperator,
    q: MetadataValue,
    m: int,
) -> bool {
    exists|j: int|
        0 <= j < m && (#[trigger] r.metadata@[j]).0@ == key && satisfies(r.metadata@[j].1, op, q)
}

pub open spec fn record_matches(
    r: MaterializedLogRecord,
    key: Seq<char>,
    op: PrimitiveOperator,
    q: MetadataValue,
) -> bool {
    record_matches_upto(r, key, op, q, r.metadata.len() as int)
}

pub open spec fn metadata_ids_upto(
    logs: Seq<MaterializedLogRecord>,
    n: int,
    key: Seq<char>,
    op: PrimitiveOperator,
    q: MetadataValue,
) -> Set<u32> {
    Set::new(
        |id: u32|
            exists|i: int|
                0 <= i < n && is_live(#[trigger] logs[i]) && logs[i].offset_id == id
                    && record_matches(logs[i], key, op, q),
    )
}

/// The ids of live records with a value under `key` in relation `op` to `q`.
pub open spec fn metadata_ids(
    logs: Seq<MaterializedLogRecord>,
    key: Seq<char>,
    op: PrimitiveOperator,
    q: MetadataValue,
) -> Set<u32> {
    metadata_ids_upto(logs, logs.len() as int, key, op, q)
}

pub open spec fn record_has_document(r: MaterializedLogRecord, query: Seq<char>) -> bool {
    is_live(r) && r.document is Some && is_substring(query, r.document.unwrap()@)
}

pub open spec fn document_ids_upto(
    logs: Seq<MaterializedLogRecord>,
    n: int,
    query: Seq<char>,
) -> Set<u32> {
    Set::new(
        |id: u32|
            exists|i: int|
                0 <= i < n && record_has_document(#[trigger] logs[i], query) && logs[i].offset_id
                    == id,
    )
}

/// The ids of live records whose document contains `query`.
pub open spec fn document_ids(logs: Seq<MaterializedLogRecord>, query: Seq<char>) -> Set<u32> {
    document_ids_upto(logs, logs.len() as int, query)
}

pub open spec fn user_listed_upto(r: MaterializedLogRecord, user_ids: Seq<String>, m: int) -> bool {
    exists|k: int| 0 <= k < m && (#[trigger] user_ids[k])@ == r.user_id@
}

pub open spec fn user_offset_ids_upto(
    logs: Seq<MaterializedLogRecord>,
    n: int,
    user_ids: Seq<String>,
) -> Set<u32> {
    Set::new(
        |id: u32|
            exists|i: int|
                0 <= i < n && is_live(#[trigger] logs[i]) && logs[i].offset_id == id
                    && user_listed_upto(logs[i], user_ids, user_ids.len() as int),
    )
}

/// The offset ids of live records whose user id is listed.
pub open spec fn user_offset_ids(
    logs: Seq<MaterializedLogRecord>,
    user_ids: Seq<String>,
) -> Set<u32> {
    user_offset_ids_upto(logs, logs.len() as int, user_ids)
}

/// Relies on `str::contains` with a `&str` pattern: whether the pattern occurs
/// as a substring.
#[verifier::external_body]
fn str_contains(hay: &str, needle: &str) -> (r: bool)
    ensures
        r == is_substring(needle@, hay@),
{
    hay.contains(needle)
}

/// The metadata pair at a position (record, pair) of the chunk.
pub open spec fn pair_at(logs: Seq<MaterializedLogRecord>, p: (usize, usize)) -> (
    String,
    MetadataValue,
) {
    logs[p.0 as int].metadata@[p.1 as int]
}

/// Whether a position names a metadata pair of a live record.
pub open spec fn is_live_pair(logs: Seq<MaterializedLogRecord>, p: (usize, usize)) -> bool {
    p.0 < logs.len() && is_live(logs[p.0 as int]) && p.1 < logs[p.0 as int].metadata@.len()
}

/// Whether position (i, j) is among the indexed positions.
pub open spec fn indexed(index: Seq<(usize, usize)>, i: int, j: int) -> bool {
    exists|k: int| 0 <= k < index.len() && (#[trigger] index[k]).0 as int == i && index[k].1 as int == j
}

/// Whether position `i` is among the listed positions.
pub open spec fn listed(positions: Seq<usize>, i: int) -> bool {
    exists|k: int| 0 <= k < positions.len() && (#[trigger] positions[k]) as int == i
}

/// The ids of the first `n` listed records whose document contains `query`.
pub open spec fn document_list_ids_upto(
    logs: Seq<MaterializedLogRecord>,
    positions: Seq<usize>,
    n: int,
    query: Seq<char>,
) -> Set<u32> {
    Set::new(
        |id: u32|
            exists|k: int|
                0 <= k < n && record_has_document(logs[(#[trigger] positions[k]) as int], query)
                    && logs[positions[k] as int].offset_id == id,
    )
}

/// The ids of the first `n` listed records whose user id is among `user_ids`.
pub open spec fn user_list_ids_upto(
    logs: Seq<MaterializedLogRecord>,
    positions: Seq<usize>,
    n: int,
    user_ids: Seq<String>,
) -> Set<u32> {
    Set::new(
        |id: u32|
            exists|k: int|
                0 <= k < n && is_live(logs[(#[trigger] positions[k]) as int]) && user_listed_upto(
                    logs[positions[k] as int],
                    user_ids,
                    user_ids.len() as int,
                ) && logs[positions[k] as int].offset_id == id,
    )
}

/// The ids of the first `n` indexed pairs that are under `key` and stand in
/// relation `op` to `q`.
pub open spec fn index_ids_upto(
    logs: Seq<MaterializedLogRecord>,
    index: Seq<(usize, usize)>,
    n: int,
    key: Seq<char>,
    op: PrimitiveOperator,
    q: MetadataValue,
) -> Set<u32> {
    Set::new(
        |id: u32|
            exists|k: int|
                0 <= k < n && pair_at(logs, #[trigger] index[k]).0@ == key && satisfies(
                    pair_at(logs, index[k]).1,
                    op,
                    q,
                ) && logs[index[k].0 as int].offset_id == id,
    )
}

/// The log overlay of one filter call. It borrows the chunk of materialized
/// records for the call's duration and indexes it by position: the metadata
/// pairs of live records, the live records that carry a document, and the live
/// records by user id. Deleted records only count as touched.
pub struct MetadataLogReader<'me> {
    pub logs: &'me [MaterializedLogRecord],
    /// The (record, pair) positions of every metadata pair of a live record.
    pub compact_metadata: Vec<(usize, usize)>,
    /// The positions of the live records that carry a document.
    pub document: Vec<usize>,
    /// The positions of the live records, through which user ids resolve.
    pub user_id_to_offset_id: Vec<usize>,
    /// Every offset id that the log touched: updated, overwritten or deleted.
    pub updated_offset_ids: RoaringBitmap,
}

impl<'me> MetadataLogReader<'me> {
    /// The index covers exactly the live records and their metadata pairs.
    pub open spec fn wf(&self) -> bool {
        let logs = self.logs@;
        &&& forall|k: int|
            0 <= k < self.compact_metadata@.len() ==> is_live_pair(
                logs,
                #[trigger] self.compact_metadata@[k],
            )
        &&& forall|i: int, j: int|
            0 <= i < logs.len() && is_live(logs[i]) && 0 <= j < logs[i].metadata@.len()
                ==> #[trigger] indexed(self.compact_metadata@, i, j)
        &&& forall|k: int|
            0 <= k < self.document@.len() ==> self.document@[k] < logs.len()
                && is_live(logs[#[trigger] self.document@[k] as int]) && logs[self.document@[k] as int].document is Some
        &&& forall|i: int|
            0 <= i < logs.len() && is_live(logs[i]) && logs[i].document is Some ==> #[trigger] listed(
                self.document@,
                i,
            )
        &&& forall|k: int|
            0 <= k < self.user_id_to_offset_id@.len() ==> self.user_id_to_offset_id@[k] < logs.len()
                && is_live(logs[#[trigger] self.user_id_to_offset_id@[k] as int])
        &&& forall|i: int|
            0 <= i < logs.len() && is_live(logs[i]) ==> #[trigger] listed(
                self.user_id_to_offset_id@,
                i,
            )
    }

    pub fn new(logs: &'me [MaterializedLogRecord]) -> (r: MetadataLogReader<'me>)
        ensures
            r.logs@ == logs@,
            r.wf(),
            ids_of(r.updated_offset_ids) == touched_ids(logs@),
    {
        let mut updated_offset_ids = bitmap_new();
        let mut compact_metadata: Vec<(usize, usize)> = Vec::new();
        let mut document: Vec<usize> = Vec::new();
        let mut user_id_to_offset_id: Vec<usize> = Vec::new();
        let mut i: usize = 0;
        while i < logs.len()
            invariant
                i <= logs@.len(),
                ids_of(updated_offset_ids) == touched_ids_upto(logs@, i as int),
                forall|k: int|
                    0 <= k < compact_metadata@.len() ==> is_live_pair(
                        logs@,
                        #[trigger] compact_metadata@[k],
                    ) && compact_metadata@[k].0 < i,
                forall|a: int, j: int|
                    0 <= a < i && is_live(logs@[a]) && 0 <= j < logs@[a].metadata@.len()
                        ==> #[trigger] indexed(compact_metadata@, a, j),
                forall|k: int|
                    0 <= k < document@.len() ==> document@[k] < i && is_live(
                        logs@[#[trigger] document@[k] as int],
                    ) && logs@[document@[k] as int].document is Some,
                forall|a: int|
                    0 <= a < i && is_live(logs@[a]) && logs@[a].document is Some ==> #[trigger] listed(
                        document@,
                        a,
                    ),
                forall|k: int|
                    0 <= k < user_id_to_offset_id@.len() ==> user_id_to_offset_id@[k] < i && is_live(
                        logs@[#[trigger] user_id_to_offset_id@[k] as int],
                    ),
                forall|a: int|
                    0 <= a < i && is_live(logs@[a]) ==> #[trigger] listed(user_id_to_offset_id@, a),
            decreases logs@.len() - i,
        {
            let log = &logs[i];
            if !matches!(log.final_operation, MaterializedLogOperation::Initial | MaterializedLogOperation::AddNew) {
                bitmap_insert(&mut updated_offset_ids, log.offset_id);
                assert(touched_ids_upto(logs@, i + 1) =~= touched_ids_upto(logs@, i as int).insert(
                    log.offset_id,
                ));
            } else {
                assert(touched_ids_upto(logs@, i + 1) =~= touched_ids_upto(logs@, i as int));
            }
            if !matches!(log.final_operation, MaterializedLogOperation::DeleteExisting) {
                let ghost before = user_id_to_offset_id@;
                user_id_to_offset_id.push(i);
                assert(user_id_to_offset_id@[user_id_to_offset_id@.len() - 1] == i);
                assert(listed(user_id_to_offset_id@, i as int));
                assert forall|a: int| listed(before, a) implies #[trigger] listed(
                    user_id_to_offset_id@,
                    a,
                ) by {
                    let k = choose|k: int| 0 <= k < before.len() && (#[trigger] before[k]) as int == a;
                    assert(user_id_to_offset_id@[k] == before[k]);
                }
                let mut j: usize = 0;
                while j < log.metadata.len()
                    invariant
                        *log == logs@[i as int],
                        is_live(*log),
                        i < logs@.len(),
                        j <= log.metadata@.len(),
                        forall|k: int|
                            0 <= k < compact_metadata@.len() ==> is_live_pair(
                                logs@,
                                #[trigger] compact_metadata@[k],
                            ) && compact_metadata@[k].0 <= i,
                        forall|a: int, b: int|
                            0 <= a < i && is_live(logs@[a]) && 0 <= b < logs@[a].metadata@.len()
                                ==> #[trigger] indexed(compact_metadata@, a, b),
                        forall|b: int| 0 <= b < j ==> #[trigger] indexed(compact_metadata@, i as int, b),
                    decreases log.metadata@.len() - j,
                {
                    let ghost before = compact_metadata@;
                    compact_metadata.push((i, j));
                    assert(compact_metadata@[compact_metadata@.len() - 1] == (i, j));
                    assert(indexed(compact_metadata@, i as int, j as int));
                    assert forall|a: int, b: int| indexed(before, a, b) implies #[trigger] indexed(
                        compact_metadata@,
                        a,
                        b,
                    ) by {
                        let k = choose|k: int|
                            0 <= k < before.len() && (#[trigger] before[k]).0 as int == a
                                && before[k].1 as int == b;
                        assert(compact_metadata@[k] == before[k]);
                    }
                    j = j + 1;
                }
                if log.document.is_some() {
                    let ghost before = document@;
                    document.push(i);
                    assert(document@[document@.len() - 1] == i);
                    assert(listed(document@, i as int));
                    assert forall|a: int| listed(before, a) implies #[trigger] listed(document@, a) by {
                        let k = choose|k: int| 0 <= k < before.len() && (#[trigger] before[k]) as int == a;
                        assert(document@[k] == before[k]);
                    }
                }
            }
            i = i + 1;
        }
        MetadataLogReader { logs, compact_metadata, document, user_id_to_offset_id, updated_offset_ids }
    }

    /// The ids of live records with a value under `key` in relation `op` to `val`.
    pub fn get(&self, key: &String, val: &MetadataValue, op: PrimitiveOperator) -> (r:
        RoaringBitmap)
        requires
            self.wf(),
            op != PrimitiveOperator::NotEqual,
        ensures
            ids_of(r) == metadata_ids(self.logs@, key@, op, *val),
    {
        let logs = self.logs;
        let mut res = bitmap_new();
        let mut k: usize = 0;
        while k < self.compact_metadata.len()
            invariant
                self.wf(),
                logs@ == self.logs@,
                k <= self.compact_metadata@.len(),
                ids_of(res) == index_ids_upto(logs@, self.compact_metadata@, k as int, key@, op, *val),
            decreases self.compact_metadata@.len() - k,
        {
            let (i, j) = self.compact_metadata[k];
            assert(is_live_pair(logs@, self.compact_metadata@[k as int]));
            let entry = &logs[i].metadata[j];
            if entry.0.eq(key) && entry.1.satisfies(op, val) {
                bitmap_insert(&mut res, logs[i].offset_id);
                assert(index_ids_upto(logs@, self.compact_metadata@, k + 1, key@, op, *val)
                    =~= index_ids_upto(logs@, self.compact_metadata@, k as int, key@, op, *val).insert(
                    logs[i as int].offset_id,
                ));
            } else {
                assert(index_ids_upto(logs@, self.compact_metadata@, k + 1, key@, op, *val)
                    =~= index_ids_upto(logs@, self.compact_metadata@, k as int, key@, op, *val));
            }
            k = k + 1;
        }
        proof {
            self.lemma_index_covers_metadata(key@, op, *val);
        }
        res
    }

    proof fn lemma_index_covers_metadata(&self, key: Seq<char>, op: PrimitiveOperator, q: MetadataValue)
        requires
            self.wf(),
        ensures
            index_ids_upto(self.logs@, self.compact_metadata@, self.compact_metadata@.len() as int, key, op, q)
                == metadata_ids(self.logs@, key, op, q),
    {
        let logs = self.logs@;
        let cm = self.compact_metadata@;
        let a = index_ids_upto(logs, cm, cm.len() as int, key, op, q);
        let b = metadata_ids(logs, key, op, q);
        assert forall|id: u32| a.contains(id) implies b.contains(id) by {
            let k = choose|k: int|
                0 <= k < cm.len() && pair_at(logs, #[trigger] cm[k]).0@ == key && satisfies(
                    pair_at(logs, cm[k]).1,
                    op,
                    q,
                ) && logs[cm[k].0 as int].offset_id == id;
            assert(is_live_pair(logs, cm[k]));
            let i = cm[k].0 as int;
            let j = cm[k].1 as int;
            assert(logs[i].metadata@[j] == pair_at(logs, cm[k]));
            assert(record_matches(logs[i], key, op, q));
        }
        assert forall|id: u32| b.contains(id) implies a.contains(id) by {
            let i = choose|i: int|
                0 <= i < logs.len() && is_live(#[trigger] logs[i]) && logs[i].offset_id == id
                    && record_matches(logs[i], key, op, q);
            let j = choose|j: int|
                0 <= j < logs[i].metadata@.len() && (#[trigger] logs[i].metadata@[j]).0@ == key
                    && satisfies(logs[i].metadata@[j].1, op, q);
            assert(indexed(cm, i, j));
            let k = choose|k: int| 0 <= k < cm.len() && (#[trigger] cm[k]).0 as int == i && cm[k].1 as int == j;
            assert(pair_at(logs, cm[k]) == logs[i].metadata@[j]);
        }
        assert(a =~= b);
    }

    /// The ids of live records whose document contains `query`.
    pub fn search_document(&self, query: &str) -> (r: RoaringBitmap)
        requires
            self.wf(),
        ensures
            ids_of(r) == document_ids(self.logs@, query@),
    {
        let logs = self.logs;
        let mut res = bitmap_new();
        let mut k: usize = 0;
        while k < self.document.len()
            invariant
                self.wf(),
                logs@ == self.logs@,
                k <= self.document@.len(),
                ids_of(res) == document_list_ids_upto(logs@, self.document@, k as int, query@),
            decreases self.document@.len() - k,
        {
            let i = self.document[k];
            let hit = match &logs[i].document {
                Some(doc) => str_contains(doc.as_str(), query),
                None => false,
            };
            if hit {
                bitmap_insert(&mut res, logs[i].offset_id);
                assert(document_list_ids_upto(logs@, self.document@, k + 1, query@)
                    =~= document_list_ids_upto(logs@, self.document@, k as int, query@).insert(
                    logs[i as int].offset_id,
                ));
            } else {
                assert(document_list_ids_upto(logs@, self.document@, k + 1, query@)
                    =~= document_list_ids_upto(logs@, self.document@, k as int, query@));
            }
            k = k + 1;
        }
        proof {
            let d = self.document@;
            let a = document_list_ids_upto(logs@, d, d.len() as int, query@);
            let b = document_ids(logs@, query@);
            assert forall|id: u32| b.contains(id) implies a.contains(id) by {
                let i = choose|i: int|
                    0 <= i < logs@.len() && record_has_document(#[trigger] logs@[i], query@)
                        && logs@[i].offset_id == id;
                assert(listed(d, i));
                let k = choose|k: int| 0 <= k < d.len() && (#[trigger] d[k]) as int == i;
            }
            assert(a =~= b);
        }
        res
    }

    /// The offset ids of live records whose user id is listed.
    pub fn search_user_ids(&self, user_ids: &[String]) -> (r: RoaringBitmap)
        requires
            self.wf(),
        ensures
            ids_of(r) == user_offset_ids(self.logs@, user_ids@),
    {
        let logs = self.logs;
        let mut res = bitmap_new();
        let mut k: usize = 0;
        while k < self.user_id_to_offset_id.len()
            invariant
                self.wf(),
                logs@ == self.logs@,
                k <= self.user_id_to_offset_id@.len(),
                ids_of(res) == user_list_ids_upto(logs@, self.user_id_to_offset_id@, k as int, user_ids@),
            decreases self.user_id_to_offset_id@.len() - k,
        {
            let i = self.user_id_to_offset_id[k];
            let log = &logs[i];
            let mut found = false;
            let mut u: usize = 0;
            while u < user_ids.len()
                invariant
                    u <= user_ids@.len(),
                    found == user_listed_upto(*log, user_ids@, u as int),
                decreases user_ids@.len() - u,
            {
                if user_ids[u].eq(&log.user_id) {
                    found = true;
                }
                u = u + 1;
            }
            if found {
                bitmap_insert(&mut res, log.offset_id);
                assert(user_list_ids_upto(logs@, self.user_id_to_offset_id@, k + 1, user_ids@)
                    =~= user_list_ids_upto(logs@, self.user_id_to_offset_id@, k as int, user_ids@).insert(
                    log.offset_id,
                ));
            } else {
                assert(user_list_ids_upto(logs@, self.user_id_to_offset_id@, k + 1, user_ids@)
                    =~= user_list_ids_upto(logs@, self.user_id_to_offset_id@, k as int, user_ids@));
            }
            k = k + 1;
        }
        proof {
            let d = self.user_id_to_offset_id@;
            let a = user_list_ids_upto(logs@, d, d.len() as int, user_ids@);
            let b = user_offset_ids(logs@, user_ids@);
            assert forall|id: u32| b.contains(id) implies a.contains(id) by {
                let i = choose|i: int|
                    0 <= i < logs@.len() && is_live(#[trigger] logs@[i]) && logs@[i].offset_id == id
                        && user_listed_upto(logs@[i], user_ids@, user_ids@.len() as int);
                assert(listed(d, i));
                let k = choose|k: int| 0 <= k < d.len() && (#[trigger] d[k]) as int == i;
            }
            assert(a =~= b);
        }
        res
    }
}

} // verus!
