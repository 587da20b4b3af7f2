//! Metadata values, the where-clause tree and the error taxonomy.
use vstd::prelude::*;
use vstd::utf8::encode_utf8;

verus! {

/// A metadata value. A float is held as its order key: the IEEE-754 bit
/// pattern mapped so that unsigned order is numeric order.
#[derive(Debug)]
pub enum MetadataValue {
    Bool(bool),
    Int(i64),
    Float(u64),
    Str(String),
}

#[derive(Debug)]
pub enum MetadataSetValue {
    Bool(Vec<bool>),
    Int(Vec<i64>),
    Float(Vec<u64>),
    Str(Vec<String>),
}

#[derive(Clone, Copy, Debug, PartialEq, Eq, Structural)]
pub enum PrimitiveOperator {
    Equal,
    NotEqual,
    GreaterThan,
    GreaterThanOrEqual,
    LessThan,
    LessThanOrEqual,
}

#[derive(Clone, Copy, Debug, PartialEq, Eq, Structural)]
pub enum SetOperator {
    In,
    NotIn,
}

#[derive(Clone, Copy, Debug, PartialEq, Eq, Structural)]
pub enum DocumentOperator {
    Contains,
    NotContains,
}

#[derive(Clone, Copy, Debug, PartialEq, Eq, Structural)]
pub enum BooleanOperator {
    And,
    Or,
}

#[derive(Debug)]
pub enum WhereComparison {
    Primitive(PrimitiveOperator, MetadataValue),
    Membership(SetOperator, MetadataSetValue),
}

#[derive(Debug)]
pub struct DirectWhereComparison {
    pub key: String,
    pub comparison: WhereComparison,
}

#[derive(Debug)]
pub struct DirectDocumentComparison {
    pub document: String,
    pub operator: DocumentOperator,
}

#[derive(Debug)]
pub struct WhereChildren {
    pub children: Vec<Where>,
    pub operator: BooleanOperator,
}

/// A where-clause tree.
#[derive(Debug)]
pub enum Where {
    DirectWhereComparison(DirectWhereComparison),
    DirectWhereDocumentComparison(DirectDocumentComparison),
    WhereChildren(WhereChildren),
}

#[derive(Clone, Copy, Debug, PartialEq, Eq, Structural)]
pub enum ErrorCodes {
    Success,
    Cancelled,
    Unknown,
    InvalidArgument,
    DeadlineExceeded,
    NotFound,
    AlreadyExists,
    PermissionDenied,
    ResourceExhausted,
    FailedPrecondition,
    Aborted,
    OutOfRange,
    Unimplemented,
    Internal,
    Unavailable,
    DataLoss,
    Unauthenticated,
    VersionMismatch,
}

/// Why a filter could not be computed; each kind carries the code of its cause.
#[derive(Clone, Copy, Debug, PartialEq, Eq, Structural)]
pub enum FilterError {
    /// A segment reader could not be obtained.
    FetchSegment(ErrorCodes),
    /// A metadata or full-text index reported an error during a lookup.
    Index(ErrorCodes),
    /// The log could not be materialized.
    LogMaterializer(ErrorCodes),
}

impl FilterError {
    /// The code of the underlying cause.
    pub fn code(&self) -> (r: ErrorCodes)
        ensures
            r == match *self {
                FilterError::FetchSegment(c) => c,
                FilterError::Index(c) => c,
                FilterError::LogMaterializer(c) => c,
            },
    {
        match self {
            FilterError::FetchSegment(c) => *c,
            FilterError::Index(c) => *c,
            FilterError::LogMaterializer(c) => *c,
        }
    }
}

/// Byte-lexicographic order: -1, 0 or 1.
pub open spec fn lex_cmp(a: Seq<u8>, b: Seq<u8>) -> int
    decreases a.len(),
{
    if a.len() == 0 {
        if b.len() == 0 { 0 } else { -1 }
    } else if b.len() == 0 {
        1
    } else if a[0] < b[0] {
        -1
    } else if a[0] > b[0] {
        1
    } else {
        lex_cmp(a.drop_first(), b.drop_first())
    }
}

pub open spec fn int_cmp(a: int, b: int) -> int {
    if a < b { -1 } else if a > b { 1 } else { 0 }
}

/// The order of two values of one variant (-1, 0 or 1); values of different
/// variants are not comparable.
pub open spec fn value_cmp(a: MetadataValue, b: MetadataValue) -> Option<int> {
    match (a, b) {
        (MetadataValue::Bool(x), MetadataValue::Bool(y)) => Some(
            int_cmp(if x { 1 } else { 0 }, if y { 1 } else { 0 }),
        ),
        (MetadataValue::Int(x), MetadataValue::Int(y)) => Some(int_cmp(x as int, y as int)),
        (MetadataValue::Float(x), MetadataValue::Float(y)) => Some(int_cmp(x as int, y as int)),
        (MetadataValue::Str(x), MetadataValue::Str(y)) => Some(
            lex_cmp(encode_utf8(x@), encode_utf8(y@)),
        ),
        _ => None,
    }
}

/// Whether a stored value `v` stands in relation `op` to the query value `q`.
pub open spec fn satisfies(v: MetadataValue, op: PrimitiveOperator, q: MetadataValue) -> bool {
    match value_cmp(v, q) {
        None => false,
        Some(c) => match op {
            PrimitiveOperator::Equal => c == 0,
            PrimitiveOperator::NotEqual => c != 0,
            PrimitiveOperator::GreaterThan => c > 0,
            PrimitiveOperator::GreaterThanOrEqual => c >= 0,
            PrimitiveOperator::LessThan => c < 0,
            PrimitiveOperator::LessThanOrEqual => c <= 0,
        },
    }
}

/// Whether two values are the same query value.
pub open spec fn same_value(a: MetadataValue, b: MetadataValue) -> bool {
    match (a, b) {
        (MetadataValue::Bool(x), MetadataValue::Bool(y)) => x == y,
        (MetadataValue::Int(x), MetadataValue::Int(y)) => x == y,
        (MetadataValue::Float(x), MetadataValue::Float(y)) => x == y,
        (MetadataValue::Str(x), MetadataValue::Str(y)) => x@ == y@,
        _ => false,
    }
}

fn int_order(a: i64, b: i64) -> (r: i8)
    ensures
        r as int == int_cmp(a as int, b as int),
{
    if a < b {
        -1
    } else if a > b {
        1
    } else {
        0
    }
}

fn u64_order(a: u64, b: u64) -> (r: i8)
    ensures
        r as int == int_cmp(a as int, b as int),
{
    if a < b {
        -1
    } else if a > b {
        1
    } else {
        0
    }
}

/// Byte-lexicographic comparison of two byte strings.
pub fn bytes_order(a: &[u8], b: &[u8]) -> (r: i8)
    ensures
        r as int == lex_cmp(a@, b@),
{
    let mut i: usize = 0;
    assert(a@.skip(0) =~= a@);
    assert(b@.skip(0) =~= b@);
    while i < a.len() && i < b.len()
        invariant
            i <= a@.len(),
            i <= b@.len(),
            lex_cmp(a@, b@) == lex_cmp(a@.skip(i as int), b@.skip(i as int)),
        decreases a@.len() - i,
    {
        if a[i] < b[i] {
            return -1;
        } else if a[i] > b[i] {
            return 1;
        }
        assert(a@.skip(i as int).drop_first() =~= a@.skip(i + 1));
        assert(b@.skip(i as int).drop_first() =~= b@.skip(i + 1));
        i = i + 1;
    }
    if i < b.len() {
        -1
    } else if i < a.len() {
        1
    } else {
        0
    }
}

impl MetadataValue {
    /// Compares two values of one variant; `None` for different variants.
    pub fn compare(&self, other: &MetadataValue) -> (r: Option<i8>)
        ensures
            r is Some <==> value_cmp(*self, *other) is Some,
            r is Some ==> r.unwrap() as int == value_cmp(*self, *other).unwrap(),
    {
        match (self, other) {
            (MetadataValue::Bool(x), MetadataValue::Bool(y)) => {
                Some(int_order(if *x { 1 } else { 0 }, if *y { 1 } else { 0 }))
            },
            (MetadataValue::Int(x), MetadataValue::Int(y)) => Some(int_order(*x, *y)),
            (MetadataValue::Float(x), MetadataValue::Float(y)) => Some(u64_order(*x, *y)),
            (MetadataValue::Str(x), MetadataValue::Str(y)) => {
                Some(bytes_order(x.as_str().as_bytes(), y.as_str().as_bytes()))
            },
            _ => None,
        }
    }

    /// Whether this stored value stands in relation `op` to the query value `q`.
    pub fn satisfies(&self, op: PrimitiveOperator, q: &MetadataValue) -> (r: bool)
        ensures
            r == satisfies(*self, op, *q),
    {
        match self.compare(q) {
            None => false,
            Some(c) => match op {
                PrimitiveOperator::Equal => c == 0,
                PrimitiveOperator::NotEqual => c != 0,
                PrimitiveOperator::GreaterThan => c > 0,
                PrimitiveOperator::GreaterThanOrEqual => c >= 0,
                PrimitiveOperator::LessThan => c < 0,
                PrimitiveOperator::LessThanOrEqual => c <= 0,
            },
        }
    }

    /// Whether two values are the same query value.
    pub fn same_value(&self, other: &MetadataValue) -> (r: bool)
        ensures
            r == same_value(*self, *other),
    {
        match (self, other) {
            (MetadataValue::Bool(x), MetadataValue::Bool(y)) => *x == *y,
            (MetadataValue::Int(x), MetadataValue::Int(y)) => *x == *y,
            (MetadataValue::Float(x), MetadataValue::Float(y)) => *x == *y,
            (MetadataValue::Str(x), MetadataValue::Str(y)) => x.eq(y),
            _ => false,
        }
    }
}

} // verus!
