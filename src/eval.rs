//! Evaluation of a where-clause tree against one provider, to a signed bitmap.
use vstd::prelude::*;

use crate::provider::{provider_document, provider_metadata, Backend, MetadataProvider};
use crate::signed::{and_spec, empty_set, full_set, or_spec, SignedRoaringBitmap, SignedSet};
use crate::types::{
    BooleanOperator, DirectDocumentComparison, DirectWhereComparison, DocumentOperator,
    FilterError, MetadataSetValue, MetadataValue, PrimitiveOperator, SetOperator, Where,
    WhereChildren, WhereComparison,
};

verus! {

/// The signed set of an evaluation, or its error.
pub open spec fn signed_result(r: Result<SignedRoaringBitmap, FilterError>) -> Result<
    SignedSet,
    FilterError,
> {
    match r {
        Ok(b) => Ok(b@),
        Err(e) => Err(e),
    }
}

/// The candidate values of a set-membership comparison, in order.
pub open spec fn set_values(sv: MetadataSetValue) -> Seq<MetadataValue> {
    match sv {
        MetadataSetValue::Bool(v) => v@.map_values(|b: bool| MetadataValue::Bool(b)),
        MetadataSetValue::Int(v) => v@.map_values(|i: i64| MetadataValue::Int(i)),
        MetadataSetValue::Float(v) => v@.map_values(|f: u64| MetadataValue::Float(f)),
        MetadataSetValue::Str(v) => v@.map_values(|s: String| MetadataValue::Str(s)),
    }
}

/// The fold of the first `n` candidates: OR of their equality matches for
/// `In`, AND of the exclusions of their equality matches for `NotIn`. The
/// first failed lookup ends the fold.
pub open spec fn membership_fold(
    p: Backend,
    key: Seq<char>,
    op: SetOperator,
    vals: Seq<MetadataValue>,
    n: int,
) -> Result<SignedSet, FilterError>
    decreases n,
{
    if n <= 0 {
        Ok(
            match op {
                SetOperator::In => empty_set(),
                SetOperator::NotIn => full_set(),
            },
        )
    } else {
        match membership_fold(p, key, op, vals, n - 1) {
            Err(e) => Err(e),
            Ok(acc) => match provider_metadata(p, key, vals[n - 1], PrimitiveOperator::Equal) {
                Err(e) => Err(e),
                Ok(s) => Ok(
                    match op {
                        SetOperator::In => or_spec(acc, SignedSet::Include(s)),
                        SetOperator::NotIn => and_spec(acc, SignedSet::Exclude(s)),
                    },
                ),
            },
        }
    }
}

/// A metadata comparison: `!=` is the exclusion of the equality match,
/// the other operators the inclusion of their match.
pub open spec fn eval_direct(c: DirectWhereComparison, p: Backend) -> Result<
    SignedSet,
    FilterError,
> {
    match c.comparison {
        WhereComparison::Primitive(op, v) => {
            if op == PrimitiveOperator::NotEqual {
                match provider_metadata(p, c.key@, v, PrimitiveOperator::Equal) {
                    Err(e) => Err(e),
                    Ok(s) => Ok(SignedSet::Exclude(s)),
                }
            } else {
                match provider_metadata(p, c.key@, v, op) {
                    Err(e) => Err(e),
                    Ok(s) => Ok(SignedSet::Include(s)),
                }
            }
        },
        WhereComparison::Membership(op, sv) => membership_fold(
            p,
            c.key@,
            op,
            set_values(sv),
            set_values(sv).len() as int,
        ),
    }
}

/// A document comparison: the inclusion, or exclusion, of the containment match.
pub open spec fn eval_document(c: DirectDocumentComparison, p: Backend) -> Result<
    SignedSet,
    FilterError,
> {
    match provider_document(p, c.document@) {
        Err(e) => Err(e),
        Ok(s) => Ok(
            match c.operator {
                DocumentOperator::Contains => SignedSet::Include(s),
                DocumentOperator::NotContains => SignedSet::Exclude(s),
            },
        ),
    }
}

/// The value of a where-clause tree on a provider.
pub open spec fn eval_where(w: Where, p: Backend) -> Result<SignedSet, FilterError>
    decreases w, 0int,
{
    match w {
        Where::DirectWhereComparison(c) => eval_direct(c, p),
        Where::DirectWhereDocumentComparison(c) => eval_document(c, p),
        Where::WhereChildren(wc) => eval_children(wc, p, wc.children@.len() as int),
    }
}

/// The fold of the first `n` children: AND from `full`, or OR from `empty`.
/// The first failed child ends the fold.
pub open spec fn eval_children(wc: WhereChildren, p: Backend, n: int) -> Result<
    SignedSet,
    FilterError,
>
    decreases wc, n,
{
    if n <= 0 || n > wc.children@.len() {
        Ok(
            match wc.operator {
                BooleanOperator::And => full_set(),
                BooleanOperator::Or => empty_set(),
            },
        )
    } else {
        match eval_children(wc, p, n - 1) {
            Err(e) => Err(e),
            Ok(acc) => match eval_where(wc.children@[n - 1], p) {
                Err(e) => Err(e),
                Ok(s) => Ok(
                    match wc.operator {
                        BooleanOperator::And => and_spec(acc, s),
                        BooleanOperator::Or => or_spec(acc, s),
                    },
                ),
            },
        }
    }
}

proof fn lemma_membership_error_stays(
    p: Backend,
    key: Seq<char>,
    op: SetOperator,
    vals: Seq<MetadataValue>,
    i: int,
    n: int,
)
    requires
        0 <= i <= n,
        membership_fold(p, key, op, vals, i) is Err,
    ensures
        membership_fold(p, key, op, vals, n) == membership_fold(p, key, op, vals, i),
    decreases n - i,
{
    if n > i {
        lemma_membership_error_stays(p, key, op, vals, i, n - 1);
    }
}

proof fn lemma_children_error_stays(wc: WhereChildren, p: Backend, i: int, n: int)
    requires
        0 <= i <= n <= wc.children@.len(),
        eval_children(wc, p, i) is Err,
    ensures
        eval_children(wc, p, n) == eval_children(wc, p, i),
    decreases n - i,
{
    if n > i {
        lemma_children_error_stays(wc, p, i, n - 1);
    }
}

fn set_len(sv: &MetadataSetValue) -> (r: usize)
    ensures
        r == set_values(*sv).len(),
{
    match sv {
        MetadataSetValue::Bool(v) => v.len(),
        MetadataSetValue::Int(v) => v.len(),
        MetadataSetValue::Float(v) => v.len(),
        MetadataSetValue::Str(v) => v.len(),
    }
}

fn set_value_at(sv: &MetadataSetValue, i: usize) -> (r: MetadataValue)
    requires
        i < set_values(*sv).len(),
    ensures
        r == set_values(*sv)[i as int],
{
    match sv {
        MetadataSetValue::Bool(v) => MetadataValue::Bool(v[i]),
        MetadataSetValue::Int(v) => MetadataValue::Int(v[i]),
        MetadataSetValue::Float(v) => MetadataValue::Float(v[i]),
        MetadataSetValue::Str(v) => MetadataValue::Str(v[i].clone()),
    }
}

impl Where {
    /// Evaluates the tree against `provider`; the first failed lookup ends it.
    pub fn eval(&self, provider: &MetadataProvider) -> (r: Result<SignedRoaringBitmap, FilterError>)
        requires
            provider.wf(),
        ensures
            signed_result(r) == eval_where(*self, provider@),
        decreases self, 1int,
    {
        match self {
            Where::DirectWhereComparison(c) => c.eval(provider),
            Where::DirectWhereDocumentComparison(c) => c.eval(provider),
            Where::WhereChildren(wc) => wc.eval(provider),
        }
    }
}

impl DirectWhereComparison {
    /// Evaluates a metadata comparison; `!=` is asked of the provider as `==`
    /// and its match excluded.
    pub fn eval(&self, provider: &MetadataProvider) -> (r: Result<SignedRoaringBitmap, FilterError>)
        requires
            provider.wf(),
        ensures
            signed_result(r) == eval_direct(*self, provider@),
    {
        match &self.comparison {
            WhereComparison::Primitive(op, v) => {
                if *op == PrimitiveOperator::NotEqual {
                    match provider.filter_by_metadata(&self.key, v, PrimitiveOperator::Equal) {
                        Err(e) => Err(e),
                        Ok(b) => Ok(SignedRoaringBitmap::Exclude(b)),
                    }
                } else {
                    match provider.filter_by_metadata(&self.key, v, *op) {
                        Err(e) => Err(e),
                        Ok(b) => Ok(SignedRoaringBitmap::Include(b)),
                    }
                }
            },
            WhereComparison::Membership(op, sv) => {
                let n = set_len(sv);
                let mut acc = match op {
                    SetOperator::In => SignedRoaringBitmap::empty(),
                    SetOperator::NotIn => SignedRoaringBitmap::full(),
                };
                let mut i: usize = 0;
                while i < n
                    invariant
                        provider.wf(),
                        i <= n,
                        n == set_values(*sv).len(),
                        self.comparison == WhereComparison::Membership(*op, *sv),
                        membership_fold(provider@, self.key@, *op, set_values(*sv), i as int)
                            == Ok::<SignedSet, FilterError>(acc@),
                    decreases n - i,
                {
                    let value = set_value_at(sv, i);
                    match provider.filter_by_metadata(&self.key, &value, PrimitiveOperator::Equal) {
                        Err(e) => {
                            proof {
                                assert(membership_fold(
                                    provider@,
                                    self.key@,
                                    *op,
                                    set_values(*sv),
                                    i + 1,
                                ) == Err::<SignedSet, FilterError>(e));
                                lemma_membership_error_stays(
                                    provider@,
                                    self.key@,
                                    *op,
                                    set_values(*sv),
                                    i + 1,
                                    n as int,
                                );
                            }
                            return Err(e);
                        },
                        Ok(b) => {
                            acc = match op {
                                SetOperator::In => acc.bitor(SignedRoaringBitmap::Include(b)),
                                SetOperator::NotIn => acc.bitand(SignedRoaringBitmap::Exclude(b)),
                            };
                        },
                    }
                    i = i + 1;
                }
                Ok(acc)
            },
        }
    }
}

impl DirectDocumentComparison {
    /// Evaluates a document comparison.
    pub fn eval(&self, provider: &MetadataProvider) -> (r: Result<SignedRoaringBitmap, FilterError>)
        requires
            provider.wf(),
        ensures
            signed_result(r) == eval_document(*self, provider@),
    {
        match provider.filter_by_document(self.document.as_str()) {
            Err(e) => Err(e),
            Ok(b) => match self.operator {
                DocumentOperator::Contains => Ok(SignedRoaringBitmap::Include(b)),
                DocumentOperator::NotContains => Ok(SignedRoaringBitmap::Exclude(b)),
            },
        }
    }
}

impl WhereChildren {
    /// Evaluates the children in order and folds them; the first failed child
    /// ends the evaluation.
    pub fn eval(&self, provider: &MetadataProvider) -> (r: Result<SignedRoaringBitmap, FilterError>)
        requires
            provider.wf(),
        ensures
            signed_result(r) == eval_children(*self, provider@, self.children@.len() as int),
        decreases self, 0int,
    {
        let mut acc = match self.operator {
            BooleanOperator::And => SignedRoaringBitmap::full(),
            BooleanOperator::Or => SignedRoaringBitmap::empty(),
        };
        let mut i: usize = 0;
        while i < self.children.len()
            invariant
                provider.wf(),
                i <= self.children@.len(),
                eval_children(*self, provider@, i as int) == Ok::<SignedSet, FilterError>(acc@),
            decreases self.children@.len() - i,
        {
            match self.children[i].eval(provider) {
                Err(e) => {
                    proof {
                        lemma_children_error_stays(
                            *self,
                            provider@,
                            i + 1,
                            self.children@.len() as int,
                        );
                    }
                    return Err(e);
                },
                Ok(b) => {
                    acc = match self.operator {
                        BooleanOperator::And => acc.bitand(b),
                        BooleanOperator::Or => acc.bitor(b),
                    };
                },
            }
            i = i + 1;
        }
        Ok(acc)
    }
}


/// The where-clause node comparing `key` by `c`.
pub open spec fn comparison_node(key: String, c: WhereComparison) -> Where {
    Where::DirectWhereComparison(DirectWhereComparison { key: key, comparison: c })
}

/// An inclusion result turned into the exclusion of the same set; errors and
/// exclusions are left as they are.
pub open spec fn excluded(r: Result<SignedSet, FilterError>) -> Result<SignedSet, FilterError> {
    match r {
        Ok(SignedSet::Include(s)) => Ok(SignedSet::Exclude(s)),
        _ => r,
    }
}

/// Evaluating `key != v` is evaluating `key == v` and excluding its match.
pub proof fn lemma_not_equal_is_excluded_equal(key: String, v: MetadataValue, p: Backend)
    ensures
        eval_where(comparison_node(key, WhereComparison::Primitive(PrimitiveOperator::NotEqual, v)), p)
            == excluded(eval_where(comparison_node(key, WhereComparison::Primitive(PrimitiveOperator::Equal, v)), p)),
{
}

/// The OR-fold (from `empty`) of the first `n` evaluations of `key == vals[i]`;
/// the first failed evaluation ends it.
pub open spec fn or_fold_of_equalities(key: String, vals: Seq<MetadataValue>, p: Backend, n: int) -> Result<SignedSet, FilterError>
    decreases n,
{
    if n <= 0 {
        Ok(empty_set())
    } else {
        match or_fold_of_equalities(key, vals, p, n - 1) {
            Err(e) => Err(e),
            Ok(acc) => match eval_where(comparison_node(key, WhereComparison::Primitive(PrimitiveOperator::Equal, vals[n - 1])), p) {
                Err(e) => Err(e),
                Ok(s) => Ok(or_spec(acc, s)),
            },
        }
    }
}

/// The AND-fold (from `full`) of the first `n` exclusions of the evaluations
/// of `key == vals[i]`; the first failed evaluation ends it.
pub open spec fn and_fold_of_excluded_equalities(key: String, vals: Seq<MetadataValue>, p: Backend, n: int) -> Result<SignedSet, FilterError>
    decreases n,
{
    if n <= 0 {
        Ok(full_set())
    } else {
        match and_fold_of_excluded_equalities(key, vals, p, n - 1) {
            Err(e) => Err(e),
            Ok(acc) => match excluded(eval_where(comparison_node(key, WhereComparison::Primitive(PrimitiveOperator::Equal, vals[n - 1])), p)) {
                Err(e) => Err(e),
                Ok(s) => Ok(and_spec(acc, s)),
            },
        }
    }
}

proof fn lemma_membership_folds(key: String, vals: Seq<MetadataValue>, p: Backend, n: int)
    ensures
        membership_fold(p, key@, SetOperator::In, vals, n) == or_fold_of_equalities(key, vals, p, n),
        membership_fold(p, key@, SetOperator::NotIn, vals, n) == and_fold_of_excluded_equalities(key, vals, p, n),
    decreases n,
{
    if n > 0 {
        lemma_membership_folds(key, vals, p, n - 1);
    }
}

/// Evaluating `key In [v1, ..., vn]` is the OR-fold of the evaluations of
/// `key == vi`, and `key NotIn [v1, ..., vn]` the AND-fold of their exclusions.
pub proof fn lemma_membership_is_fold_of_equalities(key: String, sv: MetadataSetValue, p: Backend)
    ensures
        eval_where(comparison_node(key, WhereComparison::Membership(SetOperator::In, sv)), p)
            == or_fold_of_equalities(key, set_values(sv), p, set_values(sv).len() as int),
        eval_where(comparison_node(key, WhereComparison::Membership(SetOperator::NotIn, sv)), p)
            == and_fold_of_excluded_equalities(key, set_values(sv), p, set_values(sv).len() as int),
{
    lemma_membership_folds(key, set_values(sv), p, set_values(sv).len() as int);
}

} // verus!
