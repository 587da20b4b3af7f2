//! The two backends that answer raw (unsigned) lookups: the segment's index,
//! given as the answers its readers returned, and the log overlay.
use roaring::RoaringBitmap;
use vstd::prelude::*;

use crate::bitmap::{bitmap_clone, bitmap_new, ids_of};
use crate::log_reader::{document_ids, metadata_ids, MaterializedLogRecord, MetadataLogReader};
use crate::types::{same_value, FilterError, MetadataValue, PrimitiveOperator};

verus! {

/// What the segment's metadata index returned for one lookup; an `Err` is the
/// failure that the index reported.
#[derive(Debug)]
pub struct MetadataAnswer {
    pub key: String,
    pub value: MetadataValue,
    pub op: PrimitiveOperator,
    pub result: Result<RoaringBitmap, FilterError>,
}

/// What the segment's full-text index returned for one query.
#[derive(Debug)]
pub struct DocumentAnswer {
    pub query: String,
    pub result: Result<RoaringBitmap, FilterError>,
}

/// The answers of the segment's readers. A lookup with no answer is one for
/// which the segment has no reader (a type it never indexed): its result is
/// empty.
#[derive(Debug)]
pub struct SegmentLookups {
    pub metadata: Vec<MetadataAnswer>,
    pub documents: Vec<DocumentAnswer>,
}

/// The ids a lookup result holds, or its error.
pub open spec fn result_ids(r: Result<RoaringBitmap, FilterError>) -> Result<Set<u32>, FilterError> {
    match r {
        Ok(b) => Ok(ids_of(b)),
        Err(e) => Err(e),
    }
}

/// The first answer for `(key, q, op)`, or the empty set where there is none.
pub open spec fn metadata_answer(
    s: Seq<MetadataAnswer>,
    key: Seq<char>,
    q: MetadataValue,
    op: PrimitiveOperator,
) -> Result<Set<u32>, FilterError>
    decreases s.len(),
{
    if s.len() == 0 {
        Ok(Set::empty())
    } else if s[0].key@ == key && same_value(s[0].value, q) && s[0].op == op {
        result_ids(s[0].result)
    } else {
        metadata_answer(s.drop_first(), key, q, op)
    }
}

/// The first answer for `query`, or the empty set where there is none.
pub open spec fn document_answer(s: Seq<DocumentAnswer>, query: Seq<char>) -> Result<
    Set<u32>,
    FilterError,
>
    decreases s.len(),
{
    if s.len() == 0 {
        Ok(Set::empty())
    } else if s[0].query@ == query {
        result_ids(s[0].result)
    } else {
        document_answer(s.drop_first(), query)
    }
}

fn copy_result(r: &Result<RoaringBitmap, FilterError>) -> (c: Result<RoaringBitmap, FilterError>)
    ensures
        result_ids(c) == result_ids(*r),
{
    match r {
        Ok(b) => Ok(bitmap_clone(b)),
        Err(e) => Err(*e),
    }
}

impl SegmentLookups {
    pub fn get(&self, key: &String, val: &MetadataValue, op: PrimitiveOperator) -> (r: Result<
        RoaringBitmap,
        FilterError,
    >)
        ensures
            result_ids(r) == metadata_answer(self.metadata@, key@, *val, op),
    {
        let mut i: usize = 0;
        assert(self.metadata@.skip(0) =~= self.metadata@);
        while i < self.metadata.len()
            invariant
                i <= self.metadata@.len(),
                metadata_answer(self.metadata@, key@, *val, op) == metadata_answer(
                    self.metadata@.skip(i as int),
                    key@,
                    *val,
                    op,
                ),
            decreases self.metadata@.len() - i,
        {
            let a = &self.metadata[i];
            assert(self.metadata@.skip(i as int)[0] == *a);
            if a.key.eq(key) && a.value.same_value(val) && a.op == op {
                return copy_result(&a.result);
            }
            assert(self.metadata@.skip(i as int).drop_first() =~= self.metadata@.skip(i + 1));
            i = i + 1;
        }
        Ok(bitmap_new())
    }

    pub fn search(&self, query: &str) -> (r: Result<RoaringBitmap, FilterError>)
        ensures
            result_ids(r) == document_answer(self.documents@, query@),
    {
        let mut i: usize = 0;
        assert(self.documents@.skip(0) =~= self.documents@);
        while i < self.documents.len()
            invariant
                i <= self.documents@.len(),
                document_answer(self.documents@, query@) == document_answer(
                    self.documents@.skip(i as int),
                    query@,
                ),
            decreases self.documents@.len() - i,
        {
            let a = &self.documents[i];
            assert(self.documents@.skip(i as int)[0] == *a);
            if str_eq(a.query.as_str(), query) {
                return copy_result(&a.result);
            }
            assert(self.documents@.skip(i as int).drop_first() =~= self.documents@.skip(i + 1));
            i = i + 1;
        }
        Ok(bitmap_new())
    }
}

/// Character-wise equality of two strings.
fn str_eq(a: &str, b: &str) -> (r: bool)
    ensures
        r == (a@ == b@),
{
    let ac = a.to_owned();
    let bc = b.to_owned();
    ac.eq(&bc)
}

/// One of the two backends.
pub enum MetadataProvider<'me> {
    CompactData(&'me SegmentLookups),
    Log(&'me MetadataLogReader<'me>),
}

/// What a provider answers from: the segment's answers, or the log's records.
pub ghost enum Backend {
    Segment(Seq<MetadataAnswer>, Seq<DocumentAnswer>),
    Log(Seq<MaterializedLogRecord>),
}

impl<'me> View for MetadataProvider<'me> {
    type V = Backend;

    open spec fn view(&self) -> Backend {
        match *self {
            MetadataProvider::CompactData(s) => Backend::Segment(s.metadata@, s.documents@),
            MetadataProvider::Log(r) => Backend::Log(r.logs@),
        }
    }
}

/// What a provider returns for a metadata lookup.
pub open spec fn provider_metadata(
    p: Backend,
    key: Seq<char>,
    q: MetadataValue,
    op: PrimitiveOperator,
) -> Result<Set<u32>, FilterError> {
    match p {
        Backend::Segment(m, _) => metadata_answer(m, key, q, op),
        Backend::Log(logs) => Ok(metadata_ids(logs, key, op, q)),
    }
}

/// What a provider returns for a document lookup.
pub open spec fn provider_document(p: Backend, query: Seq<char>) -> Result<
    Set<u32>,
    FilterError,
> {
    match p {
        Backend::Segment(_, d) => document_answer(d, query),
        Backend::Log(logs) => Ok(document_ids(logs, query)),
    }
}

impl<'me> MetadataProvider<'me> {
    /// A log-backed provider reads a well-formed overlay.
    pub open spec fn wf(&self) -> bool {
        match *self {
            MetadataProvider::CompactData(_) => true,
            MetadataProvider::Log(r) => r.wf(),
        }
    }

    pub fn from_metadata_segment_reader(reader: &'me SegmentLookups) -> (r: MetadataProvider<'me>)
        ensures
            r == MetadataProvider::CompactData(reader),
    {
        MetadataProvider::CompactData(reader)
    }

    pub fn from_metadata_log_reader(reader: &'me MetadataLogReader<'me>) -> (r: MetadataProvider<
        'me,
    >)
        ensures
            r == MetadataProvider::Log(reader),
    {
        MetadataProvider::Log(reader)
    }

    /// The ids whose document contains `query`.
    pub fn filter_by_document(&self, query: &str) -> (r: Result<RoaringBitmap, FilterError>)
        requires
            self.wf(),
        ensures
            result_ids(r) == provider_document(self@, query@),
    {
        match self {
            MetadataProvider::CompactData(s) => s.search(query),
            MetadataProvider::Log(l) => Ok(l.search_document(query)),
        }
    }

    /// The ids with a value under `key` in relation `op` to `val`; inequality is
    /// never asked of a provider.
    pub fn filter_by_metadata(&self, key: &String, val: &MetadataValue, op: PrimitiveOperator) -> (r:
        Result<RoaringBitmap, FilterError>)
        requires
            self.wf(),
            op != PrimitiveOperator::NotEqual,
        ensures
            result_ids(r) == provider_metadata(self@, key@, *val, op),
    {
        match self {
            MetadataProvider::CompactData(s) => s.get(key, val, op),
            MetadataProvider::Log(l) => Ok(l.get(key, val, op)),
        }
    }
}

} // verus!
