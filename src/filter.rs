//! The filter operation: evaluates the where clause against the log overlay
//! and against the segment, applies the user-id allow-list, and keeps every
//! record that the log touched out of the segment's result.
use vstd::prelude::*;

use crate::bitmap::{bitmap_clone, bitmap_insert, bitmap_new, ids_of};
use crate::eval::{eval_where, signed_result};
use crate::log_reader::{touched_ids, user_offset_ids, MaterializedLogRecord, MetadataLogReader};
use crate::provider::{Backend, MetadataProvider, SegmentLookups};
use crate::signed::{
    and_spec, denotes, full_set, lemma_denotes_and_or, SignedRoaringBitmap, SignedSet,
};
use crate::types::{FilterError, Where};

verus! {

/// One entry of the segment's record index: the offset id that holds a user id.
#[derive(Debug)]
pub struct RecordAnswer {
    pub user_id: String,
    pub offset_id: u32,
}

/// What the segment's readers furnished for one filter call. `record` is
/// `None` where the segment has no record index.
#[derive(Debug)]
pub struct SegmentData {
    pub metadata: SegmentLookups,
    pub record: Option<Vec<RecordAnswer>>,
}

#[derive(Debug)]
pub struct FilterOperator {
    pub query_ids: Option<Vec<String>>,
    pub where_clause: Option<Where>,
}

/// The log's materialized records and the segment's data.
#[derive(Debug)]
pub struct FilterInput {
    pub logs: Vec<MaterializedLogRecord>,
    pub segments: SegmentData,
}

/// The matching ids: in the log, and in the segment.
#[derive(Debug)]
pub struct FilterOutput {
    pub log_offset_ids: SignedRoaringBitmap,
    pub compact_offset_ids: SignedRoaringBitmap,
}

pub open spec fn record_offset_ids_upto(
    record: Seq<RecordAnswer>,
    n: int,
    user_ids: Seq<String>,
) -> Set<u32> {
    Set::new(
        |id: u32|
            exists|a: int|
                0 <= a < n && (#[trigger] record[a]).offset_id == id && exists|k: int|
                    0 <= k < user_ids.len() && (#[trigger] user_ids[k])@ == record[a].user_id@,
    )
}

/// The segment's offset ids of the listed user ids.
pub open spec fn record_offset_ids(record: Seq<RecordAnswer>, user_ids: Seq<String>) -> Set<u32> {
    record_offset_ids_upto(record, record.len() as int, user_ids)
}

/// The allow-list on the log's side.
pub open spec fn allowed_log(query_ids: Option<Vec<String>>, logs: Seq<MaterializedLogRecord>) -> SignedSet {
    match query_ids {
        None => full_set(),
        Some(ids) => SignedSet::Include(user_offset_ids(logs, ids@)),
    }
}

/// The allow-list on the segment's side.
pub open spec fn allowed_compact(query_ids: Option<Vec<String>>, seg: SegmentData) -> SignedSet {
    match query_ids {
        None => full_set(),
        Some(ids) => match seg.record {
            None => full_set(),
            Some(r) => SignedSet::Include(record_offset_ids(r@, ids@)),
        },
    }
}

pub open spec fn log_backend(input: FilterInput) -> Backend {
    Backend::Log(input.logs@)
}

pub open spec fn segment_backend(input: FilterInput) -> Backend {
    Backend::Segment(input.segments.metadata.metadata@, input.segments.metadata.documents@)
}

/// The result of a filter call: both sides, or the first error met.
pub open spec fn filter_spec(op: FilterOperator, input: FilterInput) -> Result<
    (SignedSet, SignedSet),
    FilterError,
> {
    let allow_log = allowed_log(op.query_ids, input.logs@);
    let allow_compact = allowed_compact(op.query_ids, input.segments);
    let touched = SignedSet::Exclude(touched_ids(input.logs@));
    match op.where_clause {
        None => Ok((allow_log, and_spec(allow_compact, touched))),
        Some(w) => match eval_where(w, log_backend(input)) {
            Err(e) => Err(e),
            Ok(l) => match eval_where(w, segment_backend(input)) {
                Err(e) => Err(e),
                Ok(c) => Ok((and_spec(l, allow_log), and_spec(and_spec(c, allow_compact), touched))),
            },
        },
    }
}

/// The segment's offset ids of the listed user ids.
pub fn search_record_user_ids(record: &Vec<RecordAnswer>, user_ids: &[String]) -> (r:
    roaring::RoaringBitmap)
    ensures
        ids_of(r) == record_offset_ids(record@, user_ids@),
{
    let mut res = bitmap_new();
    let mut a: usize = 0;
    while a < record.len()
        invariant
            a <= record@.len(),
            ids_of(res) == record_offset_ids_upto(record@, a as int, user_ids@),
        decreases record@.len() - a,
    {
        let entry = &record[a];
        let mut listed = false;
        let mut k: usize = 0;
        while k < user_ids.len()
            invariant
                k <= user_ids@.len(),
                listed == exists|j: int|
                    0 <= j < k && (#[trigger] user_ids@[j])@ == entry.user_id@,
            decreases user_ids@.len() - k,
        {
            if user_ids[k].eq(&entry.user_id) {
                listed = true;
            }
            k = k + 1;
        }
        if listed {
            bitmap_insert(&mut res, entry.offset_id);
            assert(record_offset_ids_upto(record@, a + 1, user_ids@) =~= record_offset_ids_upto(
                record@,
                a as int,
                user_ids@,
            ).insert(entry.offset_id));
        } else {
            assert(record_offset_ids_upto(record@, a + 1, user_ids@) =~= record_offset_ids_upto(
                record@,
                a as int,
                user_ids@,
            ));
        }
        a = a + 1;
    }
    res
}

/// Whatever the where clause and the allow-list, the segment's result of a
/// successful filter holds no id that the log touched.
pub proof fn lemma_segment_result_excludes_touched(op: FilterOperator, input: FilterInput)
    ensures
        filter_spec(op, input) is Ok ==> forall|id: u32|
            touched_ids(input.logs@).contains(id) ==> !denotes(
                filter_spec(op, input).unwrap().1,
                id,
            ),
{
    let touched = SignedSet::Exclude(touched_ids(input.logs@));
    assert forall|a: SignedSet, id: u32| touched_ids(input.logs@).contains(id) implies !denotes(
        and_spec(a, touched),
        id,
    ) by {
        lemma_denotes_and_or(a, touched, id);
    }
}

impl FilterOperator {
    /// Runs the filter. The segment's result never holds an id that the log
    /// touched.
    pub fn run(&self, input: &FilterInput) -> (r: Result<FilterOutput, FilterError>)
        ensures
            match r {
                Ok(out) => filter_spec(*self, *input) == Ok::<(SignedSet, SignedSet), FilterError>(
                    (out.log_offset_ids@, out.compact_offset_ids@),
                ),
                Err(e) => filter_spec(*self, *input) == Err::<(SignedSet, SignedSet), FilterError>(
                    e,
                ),
            },
            r is Ok ==> forall|id: u32|
                touched_ids(input.logs@).contains(id) ==> !denotes(
                    r.unwrap().compact_offset_ids@,
                    id,
                ),
    {
        let metadata_log_reader = MetadataLogReader::new(input.logs.as_slice());
        let log_metadata_provider = MetadataProvider::from_metadata_log_reader(
            &metadata_log_reader,
        );
        let compact_metadata_provider = MetadataProvider::from_metadata_segment_reader(
            &input.segments.metadata,
        );
        let (user_allowed_log_offset_ids, user_allowed_compact_offset_ids) = match &self.query_ids {
            Some(user_allowed_ids) => {
                let log_offset_ids = SignedRoaringBitmap::Include(
                    metadata_log_reader.search_user_ids(user_allowed_ids.as_slice()),
                );
                let compact_offset_ids = match &input.segments.record {
                    Some(record) => SignedRoaringBitmap::Include(
                        search_record_user_ids(record, user_allowed_ids.as_slice()),
                    ),
                    None => SignedRoaringBitmap::full(),
                };
                (log_offset_ids, compact_offset_ids)
            },
            None => (SignedRoaringBitmap::full(), SignedRoaringBitmap::full()),
        };
        let touched = SignedRoaringBitmap::Exclude(bitmap_clone(&metadata_log_reader.updated_offset_ids));
        match &self.where_clause {
            Some(clause) => {
                let log_eval = match clause.eval(&log_metadata_provider) {
                    Ok(b) => b,
                    Err(e) => {
                        return Err(e);
                    },
                };
                let compact_eval = match clause.eval(&compact_metadata_provider) {
                    Ok(b) => b,
                    Err(e) => {
                        return Err(e);
                    },
                };
                let log_offset_ids = log_eval.bitand(user_allowed_log_offset_ids);
                let compact_offset_ids = compact_eval.bitand(user_allowed_compact_offset_ids).bitand(
                    touched,
                );
                Ok(FilterOutput { log_offset_ids, compact_offset_ids })
            },
            None => {
                let compact_offset_ids = user_allowed_compact_offset_ids.bitand(touched);
                Ok(FilterOutput { log_offset_ids: user_allowed_log_offset_ids, compact_offset_ids })
            },
        }
    }
}

} // verus!
