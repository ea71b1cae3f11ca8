//! Loss functions: the terminal node of a pipeline.
//!
//! A loss converts a prediction and a target of the same shape into one
//! scalar, caching both so that its `backward` can seed the pipeline's
//! gradient pass with the gradient of the loss with respect to the
//! prediction.

use crate::matrix::Matrix;
use crate::num::Num;
use vstd::prelude::*;

verus! {

/// Why a loss evaluation was rejected.
#[derive(Clone, Copy, Debug, PartialEq, Eq, Structural)]
pub enum LossError {
    /// The prediction holds a value exactly at the boundary of the loss's
    /// domain (for the logistic loss: exactly zero or exactly one), where the
    /// loss or its gradient would divide by zero.
    InvalidPrediction,
}

/// One component's contribution to the logistic loss:
/// `t·log2(p) + (1−t)·log2(1−p)`.
pub open spec fn logistic_term<T: Num>(pv: T, tv: T) -> T {
    tv.spec_mul(pv.spec_log2()).spec_add(
        T::spec_one().spec_sub(tv).spec_mul(T::spec_one().spec_sub(pv).spec_log2()),
    )
}

/// The sum of the first `k` components' contributions to the logistic loss,
/// taken in row-major order: a left fold seeded with `spec_zero`, exactly as
/// the executable loss accumulates it.
pub open spec fn logistic_sum<T: Num>(p: Matrix<T>, t: Matrix<T>, k: int) -> T
    decreases k,
{
    if k <= 0 {
        T::spec_zero()
    } else {
        logistic_sum(p, t, k - 1).spec_add(
            logistic_term(
                p@[(k - 1) / p.ncols()][(k - 1) % p.ncols()],
                t@[(k - 1) / p.ncols()][(k - 1) % p.ncols()],
            ),
        )
    }
}

/// One component of the logistic loss's gradient:
/// `log2(e)·((1−t)/(1−p) − t/p)`, the derivative of `logistic_term`'s
/// negation with respect to `p`.
pub open spec fn logistic_grad_term<T: Num>(pv: T, tv: T) -> T {
    T::spec_log2_e().spec_mul(
        T::spec_one().spec_sub(tv).spec_div(T::spec_one().spec_sub(pv)).spec_sub(
            tv.spec_div(pv),
        ),
    )
}

/// Whether some component of `p` lies on the boundary of the logistic
/// loss's domain: exactly zero or exactly one.
pub open spec fn has_boundary_component<T: Num>(p: Matrix<T>) -> bool {
    exists|i: int, j: int|
        0 <= i < p.nrows() && 0 <= j < p.ncols() && ((#[trigger] p@[i][j]).spec_is_zero()
            || p@[i][j].spec_is_one())
}

/// The contract every loss satisfies: `forward` scores a prediction against
/// a target and caches both; `backward` returns the gradient of the loss
/// with respect to the cached prediction, with the cached shape.
pub trait Loss<T>: Sized {
    /// The loss's internal invariant.
    spec fn wf(&self) -> bool;

    /// Whether the loss holds the cached pair that `backward` needs.
    spec fn has_cache(&self) -> bool;

    /// The number of rows of the cached prediction and target.
    spec fn cache_rows(&self) -> int;

    /// The number of columns of the cached prediction and target.
    spec fn cache_cols(&self) -> int;

    /// The exact effect of `forward`: how the state after the call and the
    /// returned result relate to the state before it, the prediction and the
    /// target.
    spec fn forward_rel(
        &self,
        prediction: Matrix<T>,
        target: Matrix<T>,
        post: Self,
        r: Result<T, LossError>,
    ) -> bool;

    /// The exact effect of `backward`: how the state after the call and the
    /// returned gradient relate to the state before it.
    spec fn backward_rel(&self, post: Self, g: Matrix<T>) -> bool;

    /// Scores `prediction` against `target` and caches both.  On success the
    /// cache holds matrices of the prediction's shape; a rejected prediction
    /// leaves the loss exactly as it was.
    fn forward(&mut self, prediction: &Matrix<T>, target: &Matrix<T>) -> (r: Result<
        T,
        LossError,
    >)
        requires
            old(self).wf(),
            prediction.wf(),
            target.wf(),
            prediction.nrows() >= 1,
            prediction.ncols() >= 1,
            prediction.nrows() == target.nrows(),
            prediction.ncols() == target.ncols(),
        ensures
            final(self).wf(),
            r is Ok ==> final(self).has_cache(),
            r is Ok ==> final(self).cache_rows() == prediction.nrows(),
            r is Ok ==> final(self).cache_cols() == prediction.ncols(),
            r is Err ==> *final(self) == *old(self),
            old(self).forward_rel(*prediction, *target, *final(self), r),
    ;

    /// The gradient of the loss with respect to the cached prediction; one
    /// entry per cached prediction entry.  The cache survives the call with
    /// its shape intact.
    fn backward(&mut self) -> (g: Matrix<T>)
        requires
            old(self).wf(),
            old(self).has_cache(),
        ensures
            final(self).wf(),
            final(self).has_cache(),
            final(self).cache_rows() == old(self).cache_rows(),
            final(self).cache_cols() == old(self).cache_cols(),
            g.wf(),
            g.nrows() == old(self).cache_rows(),
            g.ncols() == old(self).cache_cols(),
            old(self).backward_rel(*final(self), g),
    ;
}

/// The logistic (binary cross-entropy) loss.
///
/// `forward` computes `-(sum target * log2(prediction)
/// + (1 - target) * log2(1 - prediction))`, summed over every component and
/// not normalized by the component count.  `backward` returns, per
/// component, `log2(e) * ((1 - target) / (1 - prediction)
/// - target / prediction)`: the derivative of the base-two loss above, so
/// that subtracting it (scaled by the learning rate) from the parameters
/// descends the loss.  A prediction with a component exactly zero or one is
/// rejected before anything is cached, since both the loss and its gradient
/// divide by `prediction` and by `1 - prediction`.
pub struct Logistics<T> {
    pred: Option<Matrix<T>>,
    targ: Option<Matrix<T>>,
}

impl<T> Logistics<T> {
    /// The cached prediction, if `forward` has accepted one.
    pub closed spec fn spec_pred(&self) -> Option<Matrix<T>> {
        self.pred
    }

    /// The cached target, if `forward` has accepted one.
    pub closed spec fn spec_targ(&self) -> Option<Matrix<T>> {
        self.targ
    }

    /// The invariant: prediction and target are cached together, well
    /// formed, non-degenerate and of one shape.
    pub open spec fn logistics_wf(&self) -> bool {
        match (self.spec_pred(), self.spec_targ()) {
            (Option::Some(p), Option::Some(t)) => {
                &&& p.wf()
                &&& t.wf()
                &&& p.nrows() >= 1
                &&& p.ncols() >= 1
                &&& p.nrows() == t.nrows()
                &&& p.ncols() == t.ncols()
            },
            (Option::None, Option::None) => true,
            _ => false,
        }
    }

}

impl<T: Num> Logistics<T> {
    /// An empty loss, ready to score its first prediction.
    pub fn new() -> (l: Logistics<T>)
        ensures
            l.wf(),
            !l.has_cache(),
    {
        Logistics { pred: None, targ: None }
    }
}

impl<T: Num> Loss<T> for Logistics<T> {
    open spec fn wf(&self) -> bool {
        self.logistics_wf()
    }

    open spec fn has_cache(&self) -> bool {
        self.spec_pred() is Some
    }

    open spec fn cache_rows(&self) -> int {
        match self.spec_pred() {
            Option::Some(p) => p.nrows(),
            Option::None => 0,
        }
    }

    open spec fn cache_cols(&self) -> int {
        match self.spec_pred() {
            Option::Some(p) => p.ncols(),
            Option::None => 0,
        }
    }

    open spec fn forward_rel(
        &self,
        prediction: Matrix<T>,
        target: Matrix<T>,
        post: Self,
        r: Result<T, LossError>,
    ) -> bool {
        &&& (r is Err <==> has_boundary_component(prediction))
        &&& r is Err ==> post == *self
        &&& r is Ok ==> match (post.spec_pred(), post.spec_targ()) {
            (Some(pc), Some(tc)) => {
                &&& pc@ == prediction@
                &&& pc.nrows() == prediction.nrows()
                &&& pc.ncols() == prediction.ncols()
                &&& tc@ == target@
                &&& tc.nrows() == target.nrows()
                &&& tc.ncols() == target.ncols()
            },
            _ => false,
        }
        &&& r is Ok ==> r->Ok_0 == logistic_sum(
            prediction,
            target,
            prediction.nrows() * prediction.ncols(),
        ).spec_neg()
    }

    open spec fn backward_rel(&self, post: Self, g: Matrix<T>) -> bool {
        &&& post == *self
        &&& match (self.spec_pred(), self.spec_targ()) {
            (Some(p), Some(t)) => forall|i: int, j: int|
                0 <= i < p.nrows() && 0 <= j < p.ncols() ==> #[trigger] g@[i][j]
                    == logistic_grad_term(p@[i][j], t@[i][j]),
            _ => false,
        }
    }

    fn forward(&mut self, prediction: &Matrix<T>, target: &Matrix<T>) -> Result<T, LossError> {
        let rows = prediction.num_rows();
        let cols = prediction.num_cols();
        let mut i: usize = 0;
        while i < rows
            invariant
                old(self).wf(),
                *self == *old(self),
                prediction.wf(),
                rows == prediction.nrows(),
                cols == prediction.ncols(),
                i <= rows,
                forall|a: int, b: int|
                    0 <= a < i && 0 <= b < cols ==> !((#[trigger] prediction@[a][b]).spec_is_zero()
                        || prediction@[a][b].spec_is_one()),
            decreases rows - i,
        {
            let mut j: usize = 0;
            while j < cols
                invariant
                    old(self).wf(),
                    *self == *old(self),
                    prediction.wf(),
                    rows == prediction.nrows(),
                    cols == prediction.ncols(),
                    i < rows,
                    j <= cols,
                    forall|a: int, b: int|
                        0 <= a < i && 0 <= b < cols ==> !((
                        #[trigger] prediction@[a][b]).spec_is_zero()
                            || prediction@[a][b].spec_is_one()),
                    forall|b: int|
                        0 <= b < j ==> !((#[trigger] prediction@[i as int][b]).spec_is_zero()
                            || prediction@[i as int][b].spec_is_one()),
                decreases cols - j,
            {
                let p = prediction.get(i, j);
                if p.is_zero() || p.is_one() {
                    proof {
                        assert(has_boundary_component(*prediction));
                    }
                    return Err(LossError::InvalidPrediction);
                }
                j += 1;
            }
            i += 1;
        }
        proof {
            assert(!has_boundary_component(*prediction));
        }
        let mut acc = T::zero();
        i = 0;
        while i < rows
            invariant
                prediction.wf(),
                target.wf(),
                rows == prediction.nrows(),
                cols == prediction.ncols(),
                rows == target.nrows(),
                cols == target.ncols(),
                cols >= 1,
                i <= rows,
                acc == logistic_sum(*prediction, *target, i as int * cols as int),
            decreases rows - i,
        {
            let mut j: usize = 0;
            while j < cols
                invariant
                    prediction.wf(),
                    target.wf(),
                    rows == prediction.nrows(),
                    cols == prediction.ncols(),
                    rows == target.nrows(),
                    cols == target.ncols(),
                    cols >= 1,
                    i < rows,
                    j <= cols,
                    acc == logistic_sum(*prediction, *target, i as int * cols as int + j as int),
                decreases cols - j,
            {
                let p = prediction.get(i, j);
                let t = target.get(i, j);
                let fit = t.mul_val(p.log2_val());
                let miss = T::one().sub_val(t).mul_val(T::one().sub_val(p).log2_val());
                acc = acc.add_val(fit.add_val(miss));
                proof {
                    let k = i as int * cols as int + j as int;
                    vstd::arithmetic::div_mod::lemma_fundamental_div_mod_converse(
                        k,
                        cols as int,
                        i as int,
                        j as int,
                    );
                    assert(logistic_sum(*prediction, *target, k + 1) == logistic_sum(
                        *prediction,
                        *target,
                        k,
                    ).spec_add(
                        logistic_term(
                            prediction@[i as int][j as int],
                            target@[i as int][j as int],
                        ),
                    ));
                }
                j += 1;
            }
            proof {
                assert((i as int + 1) * (cols as int) == i as int * cols as int + cols as int)
                    by (nonlinear_arith);
            }
            i += 1;
        }
        self.pred = Some(prediction.duplicate());
        self.targ = Some(target.duplicate());
        Ok(acc.neg_val())
    }

    fn backward(&mut self) -> Matrix<T> {
        let p = self.pred.as_ref().unwrap();
        let t = self.targ.as_ref().unwrap();
        let rows = p.num_rows();
        let cols = p.num_cols();
        let mut data: Vec<Vec<T>> = Vec::new();
        let mut i: usize = 0;
        while i < rows
            invariant
                p.wf(),
                t.wf(),
                rows == p.nrows(),
                cols == p.ncols(),
                rows == t.nrows(),
                cols == t.ncols(),
                i <= rows,
                data@.len() == i,
                forall|q: int| 0 <= q < i ==> (#[trigger] data@[q])@.len() == cols,
                forall|a: int, b: int|
                    0 <= a < i && 0 <= b < cols ==> data@[a]@[b] == logistic_grad_term(
                        p@[a][b],
                        t@[a][b],
                    ),
            decreases rows - i,
        {
            let mut row: Vec<T> = Vec::new();
            let mut j: usize = 0;
            while j < cols
                invariant
                    p.wf(),
                    t.wf(),
                    rows == p.nrows(),
                    cols == p.ncols(),
                    rows == t.nrows(),
                    cols == t.ncols(),
                    i < rows,
                    j <= cols,
                    row@.len() == j,
                    forall|b: int|
                        0 <= b < j ==> row@[b] == logistic_grad_term(
                            p@[i as int][b],
                            t@[i as int][b],
                        ),
                decreases cols - j,
            {
                let pv = p.get(i, j);
                let tv = t.get(i, j);
                let miss = T::one().sub_val(tv).div_val(T::one().sub_val(pv));
                let fit = tv.div_val(pv);
                row.push(T::log2_e().mul_val(miss.sub_val(fit)));
                j += 1;
            }
            data.push(row);
            i += 1;
        }
        Matrix::from_rows(data)
    }
}

} // verus!
