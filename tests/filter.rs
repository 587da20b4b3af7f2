use chroma_filter::filter::{FilterInput, FilterOperator, RecordAnswer, SegmentData};
use chroma_filter::log_reader::{MaterializedLogOperation, MaterializedLogRecord, MetadataLogReader};
use chroma_filter::provider::{DocumentAnswer, MetadataAnswer, MetadataProvider, SegmentLookups};
use chroma_filter::signed::SignedRoaringBitmap;
use chroma_filter::types::{
    BooleanOperator, DirectDocumentComparison, DirectWhereComparison, DocumentOperator,
    ErrorCodes, FilterError, MetadataSetValue, MetadataValue, PrimitiveOperator, SetOperator,
    Where, WhereChildren, WhereComparison,
};
use roaring::RoaringBitmap;

fn bits<I: IntoIterator<Item = u32>>(ids: I) -> RoaringBitmap {
    ids.into_iter().collect()
}

fn meta(id: u32) -> Vec<(String, MetadataValue)> {
    vec![
        ("id".to_string(), MetadataValue::Int(id as i64)),
        ("is_even".to_string(), MetadataValue::Bool(id % 2 == 0)),
        ("modulo_3".to_string(), MetadataValue::Int((id % 3) as i64)),
    ]
}

fn record(id: u32, op: MaterializedLogOperation) -> MaterializedLogRecord {
    MaterializedLogRecord {
        offset_id: id,
        user_id: format!("user_{}", id),
        final_operation: op,
        metadata: meta(id),
        document: Some(format!("document number {}", id)),
    }
}

/// The log: records 51..=100 newly added, records 11..=20 deleted.
fn log_records() -> Vec<MaterializedLogRecord> {
    let mut logs: Vec<MaterializedLogRecord> =
        (51..=100).map(|i| record(i, MaterializedLogOperation::AddNew)).collect();
    logs.extend((11..=20).map(|i| record(i, MaterializedLogOperation::DeleteExisting)));
    logs
}

/// The segment holds ids 1..=50 with the same metadata as the log's records.
fn segment_ids() -> std::ops::RangeInclusive<u32> {
    1..=50
}

fn segment_answer(key: &str, value: MetadataValue, op: PrimitiveOperator) -> MetadataAnswer {
    let ids = segment_ids().filter(|&i| {
        meta(i).iter().any(|(k, v)| {
            k == key
                && match (v, &value) {
                    (MetadataValue::Int(a), MetadataValue::Int(b)) => match op {
                        PrimitiveOperator::Equal => a == b,
                        PrimitiveOperator::GreaterThan => a > b,
                        PrimitiveOperator::GreaterThanOrEqual => a >= b,
                        PrimitiveOperator::LessThan => a < b,
                        PrimitiveOperator::LessThanOrEqual => a <= b,
                        PrimitiveOperator::NotEqual => a != b,
                    },
                    (MetadataValue::Bool(a), MetadataValue::Bool(b)) => a == b,
                    _ => false,
                }
        })
    });
    let result = Ok(bits(ids));
    MetadataAnswer {
        key: key.to_string(),
        value,
        op,
        result,
    }
}

fn segment(metadata: Vec<MetadataAnswer>) -> SegmentData {
    SegmentData {
        metadata: SegmentLookups {
            metadata,
            documents: vec![],
        },
        record: Some(
            segment_ids()
                .map(|i| RecordAnswer {
                    user_id: format!("user_{}", i),
                    offset_id: i,
                })
                .collect(),
        ),
    }
}

fn primitive(key: &str, op: PrimitiveOperator, value: MetadataValue) -> Where {
    Where::DirectWhereComparison(DirectWhereComparison {
        key: key.to_string(),
        comparison: WhereComparison::Primitive(op, value),
    })
}

fn run(op: FilterOperator, input: &FilterInput) -> (SignedRoaringBitmap, SignedRoaringBitmap) {
    let out = op.run(input).expect("FilterOperator should not fail");
    (out.log_offset_ids, out.compact_offset_ids)
}

#[test]
fn no_predicate_no_allow_list_gives_full_and_untouched() {
    let input = FilterInput {
        logs: log_records(),
        segments: segment(vec![]),
    };
    let (log, compact) = run(
        FilterOperator {
            query_ids: None,
            where_clause: None,
        },
        &input,
    );
    assert_eq!(log, SignedRoaringBitmap::full());
    assert_eq!(compact, SignedRoaringBitmap::Exclude(bits(11..=20)));
}

#[test]
fn allow_list_only() {
    let input = FilterInput {
        logs: log_records(),
        segments: segment(vec![]),
    };
    let (log, compact) = run(
        FilterOperator {
            query_ids: Some(vec!["user_55".to_string(), "user_12".to_string()]),
            where_clause: None,
        },
        &input,
    );
    assert_eq!(log, SignedRoaringBitmap::Include(bits([55])));
    // Offset 12 was deleted by the log, so the segment may not report it.
    assert_eq!(compact, SignedRoaringBitmap::Include(bits([])));
}

#[test]
fn allow_list_by_user_ids() {
    let input = FilterInput {
        logs: log_records(),
        segments: segment(vec![]),
    };
    let (log, compact) = run(
        FilterOperator {
            query_ids: Some((0..30).map(|i| format!("user_{}", i)).collect()),
            where_clause: None,
        },
        &input,
    );
    assert_eq!(log, SignedRoaringBitmap::empty());
    assert_eq!(
        compact,
        SignedRoaringBitmap::Include(bits((1..30).filter(|i| !(11..=20).contains(i))))
    );
}

#[test]
fn allow_list_without_record_index_is_full_on_segment() {
    let mut seg = segment(vec![]);
    seg.record = None;
    let input = FilterInput {
        logs: log_records(),
        segments: seg,
    };
    let (_, compact) = run(
        FilterOperator {
            query_ids: Some(vec!["user_3".to_string()]),
            where_clause: None,
        },
        &input,
    );
    assert_eq!(compact, SignedRoaringBitmap::Exclude(bits(11..=20)));
}

#[test]
fn boolean_equality() {
    let input = FilterInput {
        logs: log_records(),
        segments: segment(vec![segment_answer(
            "is_even",
            MetadataValue::Bool(true),
            PrimitiveOperator::Equal,
        )]),
    };
    let (log, compact) = run(
        FilterOperator {
            query_ids: None,
            where_clause: Some(primitive(
                "is_even",
                PrimitiveOperator::Equal,
                MetadataValue::Bool(true),
            )),
        },
        &input,
    );
    assert_eq!(
        log,
        SignedRoaringBitmap::Include(bits((51..=100).filter(|i| i % 2 == 0)))
    );
    assert_eq!(
        compact,
        SignedRoaringBitmap::Include(bits((1..=50).filter(|i| i % 2 == 0 && !(11..=20).contains(i))))
    );
}

#[test]
fn boolean_equality_odd_flag() {
    let logs: Vec<MaterializedLogRecord> = (51..=100)
        .map(|i| MaterializedLogRecord {
            offset_id: i,
            user_id: format!("user_{}", i),
            final_operation: MaterializedLogOperation::AddNew,
            metadata: vec![("flag".to_string(), MetadataValue::Bool(i % 2 == 1))],
            document: None,
        })
        .collect();
    let input = FilterInput {
        logs,
        segments: segment(vec![]),
    };
    let (log, _) = run(
        FilterOperator {
            query_ids: None,
            where_clause: Some(primitive(
                "flag",
                PrimitiveOperator::Equal,
                MetadataValue::Bool(true),
            )),
        },
        &input,
    );
    assert_eq!(log, SignedRoaringBitmap::Include(bits((51..=99).step_by(2))));
}

#[test]
fn integer_inequality() {
    let input = FilterInput {
        logs: log_records(),
        segments: segment(vec![segment_answer(
            "modulo_3",
            MetadataValue::Int(0),
            PrimitiveOperator::Equal,
        )]),
    };
    let (log, compact) = run(
        FilterOperator {
            query_ids: None,
            where_clause: Some(primitive(
                "modulo_3",
                PrimitiveOperator::NotEqual,
                MetadataValue::Int(0),
            )),
        },
        &input,
    );
    assert_eq!(
        log,
        SignedRoaringBitmap::Exclude(bits((51..=100).filter(|i| i % 3 == 0)))
    );
    assert_eq!(
        compact,
        SignedRoaringBitmap::Exclude(bits((1..=50).filter(|i| i % 3 == 0).chain(11..=20)))
    );
}

#[test]
fn integer_inequality_on_segment_count() {
    let mut seg = segment(vec![MetadataAnswer {
        key: "count".to_string(),
        value: MetadataValue::Int(0),
        op: PrimitiveOperator::Equal,
        result: Ok(bits([30, 60, 90])),
    }]);
    seg.record = None;
    let input = FilterInput {
        logs: log_records(),
        segments: seg,
    };
    let (_, compact) = run(
        FilterOperator {
            query_ids: None,
            where_clause: Some(primitive("count", PrimitiveOperator::NotEqual, MetadataValue::Int(0))),
        },
        &input,
    );
    assert_eq!(
        compact,
        SignedRoaringBitmap::Exclude(bits([30, 60, 90].into_iter().chain(11..=20)))
    );
}

#[test]
fn integer_greater_than() {
    let input = FilterInput {
        logs: log_records(),
        segments: segment(vec![segment_answer(
            "id",
            MetadataValue::Int(36),
            PrimitiveOperator::GreaterThan,
        )]),
    };
    let (log, compact) = run(
        FilterOperator {
            query_ids: None,
            where_clause: Some(primitive("id", PrimitiveOperator::GreaterThan, MetadataValue::Int(36))),
        },
        &input,
    );
    assert_eq!(log, SignedRoaringBitmap::Include(bits(51..=100)));
    assert_eq!(compact, SignedRoaringBitmap::Include(bits(37..=50)));
}

#[test]
fn integer_ranges_on_log() {
    let logs = log_records();
    let reader = MetadataLogReader::new(&logs);
    let key = "id".to_string();
    assert_eq!(reader.get(&key, &MetadataValue::Int(60), PrimitiveOperator::LessThan), bits(51..60));
    assert_eq!(reader.get(&key, &MetadataValue::Int(60), PrimitiveOperator::LessThanOrEqual), bits(51..=60));
    assert_eq!(reader.get(&key, &MetadataValue::Int(98), PrimitiveOperator::GreaterThanOrEqual), bits(98..=100));
    assert_eq!(reader.get(&key, &MetadataValue::Int(12), PrimitiveOperator::Equal), bits([]));
    // A value of another type never matches.
    assert_eq!(reader.get(&key, &MetadataValue::Str("60".to_string()), PrimitiveOperator::LessThan), bits([]));
    // An absent key matches nothing.
    assert_eq!(reader.get(&"nope".to_string(), &MetadataValue::Int(1), PrimitiveOperator::GreaterThan), bits([]));
}

#[test]
fn string_ranges_on_log() {
    let logs: Vec<MaterializedLogRecord> = ["apple", "banana", "cherry", "bananas"]
        .iter()
        .enumerate()
        .map(|(i, s)| MaterializedLogRecord {
            offset_id: i as u32,
            user_id: format!("u{}", i),
            final_operation: MaterializedLogOperation::AddNew,
            metadata: vec![("fruit".to_string(), MetadataValue::Str(s.to_string()))],
            document: None,
        })
        .collect();
    let reader = MetadataLogReader::new(&logs);
    let key = "fruit".to_string();
    let banana = MetadataValue::Str("banana".to_string());
    assert_eq!(reader.get(&key, &banana, PrimitiveOperator::Equal), bits([1]));
    assert_eq!(reader.get(&key, &banana, PrimitiveOperator::GreaterThan), bits([2, 3]));
    assert_eq!(reader.get(&key, &banana, PrimitiveOperator::LessThanOrEqual), bits([0, 1]));
}

#[test]
fn touched_ids_of_log() {
    let logs = vec![
        record(1, MaterializedLogOperation::Initial),
        record(2, MaterializedLogOperation::AddNew),
        record(3, MaterializedLogOperation::UpdateExisting),
        record(4, MaterializedLogOperation::OverwriteExisting),
        record(5, MaterializedLogOperation::DeleteExisting),
    ];
    let reader = MetadataLogReader::new(&logs);
    assert_eq!(reader.updated_offset_ids, bits([3, 4, 5]));
    let ids: Vec<String> = (1..=5).map(|i| format!("user_{}", i)).collect();
    assert_eq!(reader.search_user_ids(&ids), bits([1, 2, 3, 4]));
}

#[test]
fn set_membership_in_and_not_in() {
    let logs = log_records();
    let reader = MetadataLogReader::new(&logs);
    let provider = MetadataProvider::from_metadata_log_reader(&reader);
    let in_clause = Where::DirectWhereComparison(DirectWhereComparison {
        key: "id".to_string(),
        comparison: WhereComparison::Membership(SetOperator::In, MetadataSetValue::Int(vec![52, 70, 12, 500])),
    });
    assert_eq!(in_clause.eval(&provider).unwrap(), SignedRoaringBitmap::Include(bits([52, 70])));
    let not_in_clause = Where::DirectWhereComparison(DirectWhereComparison {
        key: "id".to_string(),
        comparison: WhereComparison::Membership(SetOperator::NotIn, MetadataSetValue::Int(vec![52, 70])),
    });
    assert_eq!(not_in_clause.eval(&provider).unwrap(), SignedRoaringBitmap::Exclude(bits([52, 70])));
    let empty_in = Where::DirectWhereComparison(DirectWhereComparison {
        key: "id".to_string(),
        comparison: WhereComparison::Membership(SetOperator::In, MetadataSetValue::Str(vec![])),
    });
    assert_eq!(empty_in.eval(&provider).unwrap(), SignedRoaringBitmap::empty());
}

#[test]
fn document_contains_and_not_contains() {
    let logs = log_records();
    let reader = MetadataLogReader::new(&logs);
    let provider = MetadataProvider::from_metadata_log_reader(&reader);
    let contains = Where::DirectWhereDocumentComparison(DirectDocumentComparison {
        document: "number 7".to_string(),
        operator: DocumentOperator::Contains,
    });
    assert_eq!(contains.eval(&provider).unwrap(), SignedRoaringBitmap::Include(bits(70..=79)));
    let not_contains = Where::DirectWhereDocumentComparison(DirectDocumentComparison {
        document: "number 1".to_string(),
        operator: DocumentOperator::NotContains,
    });
    // Deleted records 11..=20 are not searched.
    assert_eq!(not_contains.eval(&provider).unwrap(), SignedRoaringBitmap::Exclude(bits([100])));
}

#[test]
fn boolean_composition() {
    let logs = log_records();
    let reader = MetadataLogReader::new(&logs);
    let provider = MetadataProvider::from_metadata_log_reader(&reader);
    let and = Where::WhereChildren(WhereChildren {
        children: vec![
            primitive("id", PrimitiveOperator::GreaterThan, MetadataValue::Int(90)),
            primitive("is_even", PrimitiveOperator::NotEqual, MetadataValue::Bool(true)),
        ],
        operator: BooleanOperator::And,
    });
    assert_eq!(and.eval(&provider).unwrap(), SignedRoaringBitmap::Include(bits([91, 93, 95, 97, 99])));
    let or = Where::WhereChildren(WhereChildren {
        children: vec![
            primitive("id", PrimitiveOperator::LessThan, MetadataValue::Int(53)),
            Where::WhereChildren(WhereChildren {
                children: vec![primitive("id", PrimitiveOperator::Equal, MetadataValue::Int(100))],
                operator: BooleanOperator::And,
            }),
        ],
        operator: BooleanOperator::Or,
    });
    assert_eq!(or.eval(&provider).unwrap(), SignedRoaringBitmap::Include(bits([51, 52, 100])));
    let empty_and = Where::WhereChildren(WhereChildren { children: vec![], operator: BooleanOperator::And });
    assert_eq!(empty_and.eval(&provider).unwrap(), SignedRoaringBitmap::full());
    let empty_or = Where::WhereChildren(WhereChildren { children: vec![], operator: BooleanOperator::Or });
    assert_eq!(empty_or.eval(&provider).unwrap(), SignedRoaringBitmap::empty());
}

#[test]
fn segment_lookup_error_aborts() {
    let input = FilterInput {
        logs: log_records(),
        segments: SegmentData {
            metadata: SegmentLookups {
                metadata: vec![],
                documents: vec![DocumentAnswer {
                    query: "hello".to_string(),
                    result: Err(FilterError::Index(ErrorCodes::Internal)),
                }],
            },
            record: None,
        },
    };
    let op = FilterOperator {
        query_ids: None,
        where_clause: Some(Where::DirectWhereDocumentComparison(DirectDocumentComparison {
            document: "hello".to_string(),
            operator: DocumentOperator::Contains,
        })),
    };
    let err = op.run(&input).unwrap_err();
    assert_eq!(err, FilterError::Index(ErrorCodes::Internal));
    assert_eq!(err.code(), ErrorCodes::Internal);
}

#[test]
fn segment_without_reader_is_empty() {
    let input = FilterInput {
        logs: vec![],
        segments: segment(vec![]),
    };
    let (log, compact) = run(
        FilterOperator {
            query_ids: None,
            where_clause: Some(primitive("score", PrimitiveOperator::Equal, MetadataValue::Float(7))),
        },
        &input,
    );
    assert_eq!(log, SignedRoaringBitmap::empty());
    assert_eq!(compact, SignedRoaringBitmap::empty());
}
