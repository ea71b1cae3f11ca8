//! Pipeline layers: the common layer contract, the dense (fully-connected)
//! layer and the element-wise activation layer.
//!
//! Every layer declares an input shape and an output shape, and implements
//! four operations: `forward` (which caches what `backward` will need),
//! `backward` (which consumes the gradient of the loss with respect to the
//! layer's output, fills the layer's gradient buffers, and returns the
//! gradient with respect to the layer's input), `update` (one gradient-descent
//! step on the layer's parameters) and `clear` (which resets the gradient
//! buffers).  The contract below pins the shapes of everything that flows
//! through a layer, which is what makes a whole pipeline's wiring sound.

use crate::func::Func;
use crate::matrix::mat_mul_entry;
use crate::matrix::mat_mul_transpose_entry;
use crate::matrix::lemma_mul_entry_by_transpose;
use crate::matrix::Matrix;
use crate::num::Num;
use vstd::prelude::*;

verus! {

/// The contract every pipeline stage satisfies.
///
/// Implementations must keep their declared shapes constant, must never touch
/// their parameters outside `update`, and must account for their forward
/// cache and gradient buffers exactly as stated here.
pub trait Layer<T>: Sized {
    /// The layer's internal invariant.
    spec fn wf(&self) -> bool;

    /// The declared number of rows of an input.
    spec fn in_rows(&self) -> int;

    /// The declared number of columns of an input.
    spec fn in_cols(&self) -> int;

    /// The declared number of rows of an output.
    spec fn out_rows(&self) -> int;

    /// The declared number of columns of an output.
    spec fn out_cols(&self) -> int;

    /// Whether the layer holds the forward-pass cache that `backward` needs.
    spec fn has_cache(&self) -> bool;

    /// Whether the layer's gradient buffers are empty.
    spec fn is_cleared(&self) -> bool;

    /// Whether this layer holds the same trainable parameters — and, for a
    /// parameter-free layer, the same fixed configuration — as `other`.
    spec fn params_eq(&self, other: Self) -> bool;

    /// The exact effect of `clear`: how the state after a `clear` call
    /// relates to the state before it.
    spec fn clear_rel(&self, post: Self) -> bool;

    /// The exact effect of `forward`: how the state after the call and the
    /// returned output relate to the state before it and the input.
    spec fn forward_rel(&self, input: Matrix<T>, post: Self, out: Matrix<T>) -> bool;

    /// The exact effect of `backward`: how the state after the call and the
    /// returned input gradient relate to the state before it and the output
    /// gradient.
    spec fn backward_rel(&self, grads: Matrix<T>, post: Self, out: Matrix<T>) -> bool;

    /// The exact effect of `update`: how the state after an `update` call
    /// with the given rate relates to the state before it.
    spec fn update_rel(&self, rate: T, post: Self) -> bool;

    /// Parameter equality is reflexive: every layer holds the same
    /// parameters as itself.
    proof fn params_eq_refl(&self)
        ensures
            self.params_eq(*self),
    ;

    /// Parameter equality is transitive.
    proof fn params_eq_trans(&self, mid: Self, end: Self)
        requires
            self.params_eq(mid),
            mid.params_eq(end),
        ensures
            self.params_eq(end),
    ;

    /// The clear relation is idempotent: a second `clear` in a row changes
    /// nothing at all.
    proof fn clear_rel_idempotent(&self, mid: Self, end: Self)
        requires
            self.clear_rel(mid),
            mid.clear_rel(end),
        ensures
            end == mid,
    ;

    /// The forward effect is a function of the layer's parameters and the
    /// input's entries alone: two forward effects of layers holding equal
    /// parameters and declared shapes, on inputs holding equal entries,
    /// produce outputs holding equal entries.
    proof fn forward_rel_deterministic(
        &self,
        other: Self,
        in1: Matrix<T>,
        post1: Self,
        out1: Matrix<T>,
        in2: Matrix<T>,
        post2: Self,
        out2: Matrix<T>,
    )
        requires
            self.wf(),
            other.wf(),
            self.params_eq(other),
            self.in_rows() == other.in_rows(),
            self.in_cols() == other.in_cols(),
            self.out_rows() == other.out_rows(),
            self.out_cols() == other.out_cols(),
            self.forward_rel(in1, post1, out1),
            other.forward_rel(in2, post2, out2),
            in1@ == in2@,
            out1.wf(),
            out1.nrows() == self.out_rows(),
            out1.ncols() == self.out_cols(),
            out2.wf(),
            out2.nrows() == other.out_rows(),
            out2.ncols() == other.out_cols(),
        ensures
            out1@ == out2@,
    ;

    /// The declared number of rows of an input.
    fn input_rows(&self) -> (r: usize)
        requires
            self.wf(),
        ensures
            r == self.in_rows(),
    ;

    /// The declared number of columns of an input.
    fn input_cols(&self) -> (r: usize)
        requires
            self.wf(),
        ensures
            r == self.in_cols(),
    ;

    /// The declared number of rows of an output.
    fn output_rows(&self) -> (r: usize)
        requires
            self.wf(),
        ensures
            r == self.out_rows(),
    ;

    /// The declared number of columns of an output.
    fn output_cols(&self) -> (r: usize)
        requires
            self.wf(),
        ensures
            r == self.out_cols(),
    ;

    /// Maps an input of the declared input shape to an output of the declared
    /// output shape, and caches whatever `backward` will later need.  The
    /// `training` flag is accepted uniformly by every layer and changes no
    /// numeric behaviour for the layer kinds of this crate.  Parameters are
    /// untouched.
    fn forward(&mut self, input: Matrix<T>, training: bool) -> (out: Matrix<T>)
        requires
            old(self).wf(),
            input.wf(),
            input.nrows() == old(self).in_rows(),
            input.ncols() == old(self).in_cols(),
        ensures
            final(self).wf(),
            final(self).in_rows() == old(self).in_rows(),
            final(self).in_cols() == old(self).in_cols(),
            final(self).out_rows() == old(self).out_rows(),
            final(self).out_cols() == old(self).out_cols(),
            final(self).params_eq(*old(self)),
            final(self).has_cache(),
            final(self).is_cleared() == old(self).is_cleared(),
            old(self).forward_rel(input, *final(self), out),
            out.wf(),
            out.nrows() == old(self).out_rows(),
            out.ncols() == old(self).out_cols(),
    ;

    /// Consumes the gradient of the loss with respect to this layer's output
    /// and returns the gradient with respect to its input, using the cached
    /// forward-pass state.  Fills the layer's gradient buffers; parameters
    /// are untouched.
    fn backward(&mut self, grads: Matrix<T>) -> (out: Matrix<T>)
        requires
            old(self).wf(),
            old(self).has_cache(),
            grads.wf(),
            grads.nrows() == old(self).out_rows(),
            grads.ncols() == old(self).out_cols(),
        ensures
            final(self).wf(),
            final(self).in_rows() == old(self).in_rows(),
            final(self).in_cols() == old(self).in_cols(),
            final(self).out_rows() == old(self).out_rows(),
            final(self).out_cols() == old(self).out_cols(),
            final(self).params_eq(*old(self)),
            final(self).has_cache(),
            old(self).backward_rel(grads, *final(self), out),
            out.wf(),
            out.nrows() == old(self).in_rows(),
            out.ncols() == old(self).in_cols(),
    ;

    /// Applies one gradient-descent step, scaled by `rate`, to any owned
    /// parameters, using the buffers filled by the last `backward` call.
    /// A no-op for parameter-free layers; in particular, a layer whose
    /// buffers are cleared keeps its parameters unchanged.
    fn update(&mut self, rate: T)
        requires
            old(self).wf(),
        ensures
            final(self).wf(),
            final(self).in_rows() == old(self).in_rows(),
            final(self).in_cols() == old(self).in_cols(),
            final(self).out_rows() == old(self).out_rows(),
            final(self).out_cols() == old(self).out_cols(),
            final(self).has_cache() == old(self).has_cache(),
            final(self).is_cleared() == old(self).is_cleared(),
            old(self).is_cleared() ==> final(self).params_eq(*old(self)),
            old(self).update_rel(rate, *final(self)),
    ;

    /// Resets the gradient buffers; everything else, the parameters and the
    /// forward cache included, is left as it was.
    fn clear(&mut self)
        requires
            old(self).wf(),
        ensures
            final(self).wf(),
            final(self).in_rows() == old(self).in_rows(),
            final(self).in_cols() == old(self).in_cols(),
            final(self).out_rows() == old(self).out_rows(),
            final(self).out_cols() == old(self).out_cols(),
            final(self).params_eq(*old(self)),
            final(self).has_cache() == old(self).has_cache(),
            final(self).is_cleared(),
            old(self).clear_rel(*final(self)),
    ;
}

/// A fully-connected layer: `output = input * weights + bias`, on row-vector
/// inputs.  Owns a weight matrix of shape (input size, output size) and a
/// bias row vector of shape (1, output size).
pub struct Dense<T> {
    weights: Matrix<T>,
    bias: Matrix<T>,
    w_grads: Option<Matrix<T>>,
    b_grads: Option<Matrix<T>>,
    cache: Option<Matrix<T>>,
}

impl<T> Dense<T> {
    /// The weight matrix.
    pub closed spec fn spec_weights(&self) -> Matrix<T> {
        self.weights
    }

    /// The bias row vector.
    pub closed spec fn spec_bias(&self) -> Matrix<T> {
        self.bias
    }

    /// The weight-gradient buffer, if `backward` has filled it.
    pub closed spec fn spec_w_grads(&self) -> Option<Matrix<T>> {
        self.w_grads
    }

    /// The bias-gradient buffer, if `backward` has filled it.
    pub closed spec fn spec_b_grads(&self) -> Option<Matrix<T>> {
        self.b_grads
    }

    /// The cached forward-pass input, if `forward` has run.
    pub closed spec fn spec_cache(&self) -> Option<Matrix<T>> {
        self.cache
    }

    /// The dense layer's invariant: the weight matrix is non-degenerate, the
    /// bias is one row of the weights' width, and every cached matrix has the
    /// shape its role demands.  The two gradient buffers are filled together.
    pub open spec fn dense_wf(&self) -> bool {
        &&& self.spec_weights().wf()
        &&& self.spec_weights().nrows() >= 1
        &&& self.spec_weights().ncols() >= 1
        &&& self.spec_bias().wf()
        &&& self.spec_bias().nrows() == 1
        &&& self.spec_bias().ncols() == self.spec_weights().ncols()
        &&& match self.spec_cache() {
            Option::Some(c) => c.wf() && c.nrows() == 1 && c.ncols() == self.spec_weights().nrows(),
            Option::None => true,
        }
        &&& match self.spec_w_grads() {
            Option::Some(g) => g.wf() && g.nrows() == self.spec_weights().nrows() && g.ncols()
                == self.spec_weights().ncols(),
            Option::None => true,
        }
        &&& match self.spec_b_grads() {
            Option::Some(g) => g.wf() && g.nrows() == 1 && g.ncols()
                == self.spec_weights().ncols(),
            Option::None => true,
        }
        &&& (self.spec_w_grads() is Some <==> self.spec_b_grads() is Some)
    }

    /// The weight matrix.
    pub fn weights_ref(&self) -> (r: &Matrix<T>)
        ensures
            *r == self.spec_weights(),
    {
        &self.weights
    }

    /// The bias row vector.
    pub fn bias_ref(&self) -> (r: &Matrix<T>)
        ensures
            *r == self.spec_bias(),
    {
        &self.bias
    }

    /// The weight-gradient buffer.
    pub fn w_grads_ref(&self) -> (r: &Option<Matrix<T>>)
        ensures
            *r == self.spec_w_grads(),
    {
        &self.w_grads
    }

    /// The bias-gradient buffer.
    pub fn b_grads_ref(&self) -> (r: &Option<Matrix<T>>)
        ensures
            *r == self.spec_b_grads(),
    {
        &self.b_grads
    }
}

impl<T: Num> Dense<T> {
    /// Builds a dense layer from its initial weights and bias.  The caller
    /// supplies the initial values, so any randomized (or reproducible,
    /// seeded) initialization scheme can be injected.
    pub fn new(weights: Matrix<T>, bias: Matrix<T>) -> (d: Dense<T>)
        requires
            weights.wf(),
            weights.nrows() >= 1,
            weights.ncols() >= 1,
            bias.wf(),
            bias.nrows() == 1,
            bias.ncols() == weights.ncols(),
        ensures
            d.wf(),
            d.in_rows() == 1,
            d.in_cols() == weights.nrows(),
            d.out_rows() == 1,
            d.out_cols() == weights.ncols(),
            !d.has_cache(),
            d.is_cleared(),
            d.spec_weights() == weights,
            d.spec_bias() == bias,
    {
        Dense { weights, bias, w_grads: None, b_grads: None, cache: None }
    }
}

impl<T: Num> Layer<T> for Dense<T> {
    open spec fn wf(&self) -> bool {
        self.dense_wf()
    }

    open spec fn in_rows(&self) -> int {
        1
    }

    open spec fn in_cols(&self) -> int {
        self.spec_weights().nrows()
    }

    open spec fn out_rows(&self) -> int {
        1
    }

    open spec fn out_cols(&self) -> int {
        self.spec_weights().ncols()
    }

    open spec fn has_cache(&self) -> bool {
        self.spec_cache() is Some
    }

    open spec fn is_cleared(&self) -> bool {
        self.spec_w_grads() is None && self.spec_b_grads() is None
    }

    open spec fn params_eq(&self, other: Self) -> bool {
        self.spec_weights() == other.spec_weights() && self.spec_bias() == other.spec_bias()
    }

    open spec fn clear_rel(&self, post: Self) -> bool {
        &&& post.spec_weights() == self.spec_weights()
        &&& post.spec_bias() == self.spec_bias()
        &&& post.spec_cache() == self.spec_cache()
        &&& post.spec_w_grads() is None
        &&& post.spec_b_grads() is None
    }

    open spec fn forward_rel(&self, input: Matrix<T>, post: Self, out: Matrix<T>) -> bool {
        &&& post.spec_weights() == self.spec_weights()
        &&& post.spec_bias() == self.spec_bias()
        &&& post.spec_w_grads() == self.spec_w_grads()
        &&& post.spec_b_grads() == self.spec_b_grads()
        &&& post.spec_cache() == Some(input)
        &&& forall|j: int|
            0 <= j < self.spec_weights().ncols() ==> #[trigger] out@[0][j] == mat_mul_entry(
                input,
                self.spec_weights(),
                0,
                j,
                self.spec_weights().nrows(),
            ).spec_add(self.spec_bias()@[0][j])
    }

    open spec fn backward_rel(&self, grads: Matrix<T>, post: Self, out: Matrix<T>) -> bool {
        &&& post.spec_weights() == self.spec_weights()
        &&& post.spec_bias() == self.spec_bias()
        &&& post.spec_cache() == self.spec_cache()
        &&& post.spec_b_grads() == Some(grads)
        &&& match (self.spec_cache(), post.spec_w_grads()) {
            (Some(c), Some(wg)) => {
                &&& wg.wf()
                &&& wg.nrows() == self.spec_weights().nrows()
                &&& wg.ncols() == self.spec_weights().ncols()
                &&& forall|i: int, j: int|
                    0 <= i < wg.nrows() && 0 <= j < wg.ncols() ==> #[trigger] wg@[i][j]
                        == T::spec_zero().spec_add(c@[0][i].spec_mul(grads@[0][j]))
            },
            _ => false,
        }
        &&& forall|i: int|
            0 <= i < self.spec_weights().nrows() ==> #[trigger] out@[0][i]
                == mat_mul_transpose_entry(
                grads,
                self.spec_weights(),
                0,
                i,
                self.spec_weights().ncols(),
            )
    }

    open spec fn update_rel(&self, rate: T, post: Self) -> bool {
        match (self.spec_w_grads(), self.spec_b_grads()) {
            (Some(wg), Some(bg)) => {
                &&& post.spec_w_grads() == self.spec_w_grads()
                &&& post.spec_b_grads() == self.spec_b_grads()
                &&& post.spec_cache() == self.spec_cache()
                &&& forall|i: int, j: int|
                    0 <= i < self.spec_weights().nrows() && 0 <= j < self.spec_weights().ncols()
                        ==> #[trigger] post.spec_weights()@[i][j]
                        == self.spec_weights()@[i][j].spec_sub(wg@[i][j].spec_mul(rate))
                &&& forall|j: int|
                    0 <= j < self.spec_bias().ncols() ==> #[trigger] post.spec_bias()@[0][j]
                        == self.spec_bias()@[0][j].spec_sub(bg@[0][j].spec_mul(rate))
            },
            (None, None) => post == *self,
            _ => false,
        }
    }

    proof fn params_eq_refl(&self) {
    }

    proof fn params_eq_trans(&self, mid: Self, end: Self) {
    }

    proof fn clear_rel_idempotent(&self, mid: Self, end: Self) {
    }

    proof fn forward_rel_deterministic(
        &self,
        other: Self,
        in1: Matrix<T>,
        post1: Self,
        out1: Matrix<T>,
        in2: Matrix<T>,
        post2: Self,
        out2: Matrix<T>,
    ) {
        assert forall|j: int|
            0 <= j < self.spec_weights().ncols() implies out1@[0][j] == out2@[0][j] by {
            crate::matrix::lemma_mul_entry_congruent(
                in1,
                self.spec_weights(),
                in2,
                other.spec_weights(),
                0,
                j,
                self.spec_weights().nrows(),
            );
        }
        assert(out1@[0] =~= out2@[0]);
        assert(out1@ =~~= out2@);
    }

    fn input_rows(&self) -> usize {
        1
    }

    fn input_cols(&self) -> usize {
        self.weights.num_rows()
    }

    fn output_rows(&self) -> usize {
        1
    }

    fn output_cols(&self) -> usize {
        self.weights.num_cols()
    }

    fn forward(&mut self, input: Matrix<T>, _training: bool) -> Matrix<T> {
        let out = input.mul_mat(&self.weights).add_mat(&self.bias);
        self.cache = Some(input);
        out
    }

    fn backward(&mut self, grads: Matrix<T>) -> Matrix<T> {
        let w_g;
        {
            let c = self.cache.as_ref().unwrap();
            let ct = c.transpose();
            w_g = ct.mul_mat(&grads);
            proof {
                assert forall|i: int, j: int|
                    0 <= i < w_g.nrows() && 0 <= j < w_g.ncols() implies #[trigger] w_g@[i][j]
                    == T::spec_zero().spec_add(c@[0][i].spec_mul(grads@[0][j])) by {
                    assert(mat_mul_entry(ct, grads, i, j, 0) == T::spec_zero());
                    assert(ct@[i][0] == c@[0][i]);
                }
            }
        }
        let wt = self.weights.transpose();
        let out = grads.mul_mat(&wt);
        proof {
            assert forall|i: int|
                0 <= i < self.spec_weights().nrows() implies #[trigger] out@[0][i]
                == mat_mul_transpose_entry(
                grads,
                self.spec_weights(),
                0,
                i,
                self.spec_weights().ncols(),
            ) by {
                lemma_mul_entry_by_transpose(
                    grads,
                    wt,
                    self.spec_weights(),
                    0,
                    i,
                    self.spec_weights().ncols(),
                );
            }
        }
        self.w_grads = Some(w_g);
        self.b_grads = Some(grads);
        out
    }

    fn update(&mut self, rate: T) {
        if self.w_grads.is_some() {
            let new_w;
            let new_b;
            {
                let wg = self.w_grads.as_ref().unwrap();
                new_w = self.weights.sub_scaled(wg, rate);
            }
            {
                let bg = self.b_grads.as_ref().unwrap();
                new_b = self.bias.sub_scaled(bg, rate);
            }
            self.weights = new_w;
            self.bias = new_b;
        }
    }

    fn clear(&mut self) {
        self.w_grads = None;
        self.b_grads = None;
    }
}

/// Clearing a dense layer is idempotent: after one `clear` the gradient
/// buffers are empty, and a second `clear` in a row changes nothing at all.
pub proof fn lemma_dense_clear_idempotent<T: Num>(d0: Dense<T>, d1: Dense<T>, d2: Dense<T>)
    requires
        d0.clear_rel(d1),
        d1.clear_rel(d2),
    ensures
        d1.is_cleared(),
        d2.is_cleared(),
        d2 == d1,
{
}

/// An element-wise activation layer.  Parameter-free; applies the supplied
/// scalar function to every element on the way forward, and multiplies the
/// incoming gradient by the function's derivative on the way back.
pub struct Activation<T, F> {
    rows: usize,
    cols: usize,
    func: F,
    cache: Option<Matrix<T>>,
}

impl<T, F> Activation<T, F> {
    /// The declared number of rows.
    pub closed spec fn spec_rows(&self) -> int {
        self.rows as int
    }

    /// The declared number of columns.
    pub closed spec fn spec_cols(&self) -> int {
        self.cols as int
    }

    /// The cached forward-pass output, if `forward` has run.
    pub closed spec fn spec_cache(&self) -> Option<Matrix<T>> {
        self.cache
    }

    /// The activation function this layer applies.
    pub closed spec fn spec_func(&self) -> F {
        self.func
    }

    /// The activation layer's invariant: a non-degenerate declared shape, and
    /// a cache (when present) of exactly that shape.
    pub open spec fn act_wf(&self) -> bool {
        &&& self.spec_rows() >= 1
        &&& self.spec_cols() >= 1
        &&& match self.spec_cache() {
            Option::Some(c) => c.wf() && c.nrows() == self.spec_rows() && c.ncols()
                == self.spec_cols(),
            Option::None => true,
        }
    }
}

impl<T: Num, F: Func<T>> Activation<T, F> {
    /// Builds an activation layer of the given shape around the given scalar
    /// function.
    pub fn new(rows: usize, cols: usize, func: F) -> (a: Activation<T, F>)
        requires
            rows >= 1,
            cols >= 1,
        ensures
            a.wf(),
            a.in_rows() == rows,
            a.in_cols() == cols,
            a.out_rows() == rows,
            a.out_cols() == cols,
            !a.has_cache(),
            a.is_cleared(),
    {
        Activation { rows, cols, func, cache: None }
    }
}

impl<T: Num, F: Func<T>> Layer<T> for Activation<T, F> {
    open spec fn wf(&self) -> bool {
        self.act_wf()
    }

    open spec fn in_rows(&self) -> int {
        self.spec_rows()
    }

    open spec fn in_cols(&self) -> int {
        self.spec_cols()
    }

    open spec fn out_rows(&self) -> int {
        self.spec_rows()
    }

    open spec fn out_cols(&self) -> int {
        self.spec_cols()
    }

    open spec fn has_cache(&self) -> bool {
        self.spec_cache() is Some
    }

    open spec fn is_cleared(&self) -> bool {
        true
    }

    open spec fn params_eq(&self, other: Self) -> bool {
        self.spec_func() == other.spec_func()
    }

    open spec fn clear_rel(&self, post: Self) -> bool {
        post == *self
    }

    open spec fn forward_rel(&self, input: Matrix<T>, post: Self, out: Matrix<T>) -> bool {
        &&& post.spec_rows() == self.spec_rows()
        &&& post.spec_cols() == self.spec_cols()
        &&& post.spec_func() == self.spec_func()
        &&& forall|i: int, j: int|
            0 <= i < self.spec_rows() && 0 <= j < self.spec_cols() ==> #[trigger] out@[i][j]
                == self.spec_func().spec_forward(input@[i][j])
        &&& match post.spec_cache() {
            Some(c) => c@ == out@ && c.nrows() == out.nrows() && c.ncols() == out.ncols(),
            None => false,
        }
    }

    open spec fn backward_rel(&self, grads: Matrix<T>, post: Self, out: Matrix<T>) -> bool {
        &&& post == *self
        &&& match self.spec_cache() {
            Some(c) => forall|i: int, j: int|
                0 <= i < self.spec_rows() && 0 <= j < self.spec_cols() ==> #[trigger] out@[i][j]
                    == grads@[i][j].spec_mul(self.spec_func().spec_backward(c@[i][j])),
            None => false,
        }
    }

    open spec fn update_rel(&self, _rate: T, post: Self) -> bool {
        post == *self
    }

    proof fn params_eq_refl(&self) {
    }

    proof fn params_eq_trans(&self, mid: Self, end: Self) {
    }

    proof fn clear_rel_idempotent(&self, mid: Self, end: Self) {
    }

    proof fn forward_rel_deterministic(
        &self,
        other: Self,
        in1: Matrix<T>,
        post1: Self,
        out1: Matrix<T>,
        in2: Matrix<T>,
        post2: Self,
        out2: Matrix<T>,
    ) {
        assert forall|p: int, q: int|
            0 <= p < self.spec_rows() && 0 <= q < self.spec_cols() implies out1@[p][q]
            == out2@[p][q] by {
            assert(in1@[p][q] == in2@[p][q]);
        }
        assert forall|p: int| 0 <= p < out1@.len() implies out1@[p] =~= out2@[p] by {
            assert(forall|q: int| 0 <= q < self.spec_cols() ==> out1@[p][q] == out2@[p][q]);
        }
        assert(out1@ =~~= out2@);
    }

    fn input_rows(&self) -> usize {
        self.rows
    }

    fn input_cols(&self) -> usize {
        self.cols
    }

    fn output_rows(&self) -> usize {
        self.rows
    }

    fn output_cols(&self) -> usize {
        self.cols
    }

    fn forward(&mut self, input: Matrix<T>, _training: bool) -> Matrix<T> {
        let rows = self.rows;
        let cols = self.cols;
        let mut data: Vec<Vec<T>> = Vec::new();
        let mut i: usize = 0;
        while i < rows
            invariant
                input.wf(),
                rows == input.nrows(),
                cols == input.ncols(),
                i <= rows,
                data@.len() == i,
                forall|p: int| 0 <= p < i ==> (#[trigger] data@[p])@.len() == cols,
                forall|p: int, q: int|
                    0 <= p < i && 0 <= q < cols ==> data@[p]@[q] == self.spec_func().spec_forward(
                        input@[p][q],
                    ),
            decreases rows - i,
        {
            let mut row: Vec<T> = Vec::new();
            let mut j: usize = 0;
            while j < cols
                invariant
                    input.wf(),
                    rows == input.nrows(),
                    cols == input.ncols(),
                    i < rows,
                    j <= cols,
                    row@.len() == j,
                    forall|q: int|
                        0 <= q < j ==> row@[q] == self.spec_func().spec_forward(
                            input@[i as int][q],
                        ),
                decreases cols - j,
            {
                row.push(self.func.forward(input.get(i, j)));
                j += 1;
            }
            data.push(row);
            i += 1;
        }
        let out = Matrix::from_rows(data);
        self.cache = Some(out.duplicate());
        out
    }

    fn backward(&mut self, grads: Matrix<T>) -> Matrix<T> {
        let rows = self.rows;
        let cols = self.cols;
        let c = self.cache.as_ref().unwrap();
        let mut data: Vec<Vec<T>> = Vec::new();
        let mut i: usize = 0;
        while i < rows
            invariant
                grads.wf(),
                c.wf(),
                rows == grads.nrows(),
                cols == grads.ncols(),
                rows == c.nrows(),
                cols == c.ncols(),
                i <= rows,
                data@.len() == i,
                forall|p: int| 0 <= p < i ==> (#[trigger] data@[p])@.len() == cols,
                forall|p: int, q: int|
                    0 <= p < i && 0 <= q < cols ==> data@[p]@[q] == grads@[p][q].spec_mul(
                        self.spec_func().spec_backward(c@[p][q]),
                    ),
            decreases rows - i,
        {
            let mut row: Vec<T> = Vec::new();
            let mut j: usize = 0;
            while j < cols
                invariant
                    grads.wf(),
                    c.wf(),
                    rows == grads.nrows(),
                    cols == grads.ncols(),
                    rows == c.nrows(),
                    cols == c.ncols(),
                    i < rows,
                    j <= cols,
                    row@.len() == j,
                    forall|q: int|
                        0 <= q < j ==> row@[q] == grads@[i as int][q].spec_mul(
                            self.spec_func().spec_backward(c@[i as int][q]),
                        ),
                decreases cols - j,
            {
                row.push(grads.get(i, j).mul_val(self.func.backward(c.get(i, j))));
                j += 1;
            }
            data.push(row);
            i += 1;
        }
        Matrix::from_rows(data)
    }

    fn update(&mut self, _rate: T) {
    }

    fn clear(&mut self) {
    }
}

/// One stage of a heterogeneous pipeline: either a dense layer or an
/// activation layer.  Implements the full layer contract by delegating to
/// whichever it holds, so a single pipeline can mix both kinds.
pub enum LayerKind<T, F> {
    Dense(Dense<T>),
    Activation(Activation<T, F>),
}

impl<T: Num, F: Func<T>> Layer<T> for LayerKind<T, F> {
    open spec fn wf(&self) -> bool {
        match *self {
            LayerKind::Dense(d) => d.wf(),
            LayerKind::Activation(a) => a.wf(),
        }
    }

    open spec fn in_rows(&self) -> int {
        match *self {
            LayerKind::Dense(d) => d.in_rows(),
            LayerKind::Activation(a) => a.in_rows(),
        }
    }

    open spec fn in_cols(&self) -> int {
        match *self {
            LayerKind::Dense(d) => d.in_cols(),
            LayerKind::Activation(a) => a.in_cols(),
        }
    }

    open spec fn out_rows(&self) -> int {
        match *self {
            LayerKind::Dense(d) => d.out_rows(),
            LayerKind::Activation(a) => a.out_rows(),
        }
    }

    open spec fn out_cols(&self) -> int {
        match *self {
            LayerKind::Dense(d) => d.out_cols(),
            LayerKind::Activation(a) => a.out_cols(),
        }
    }

    open spec fn has_cache(&self) -> bool {
        match *self {
            LayerKind::Dense(d) => d.has_cache(),
            LayerKind::Activation(a) => a.has_cache(),
        }
    }

    open spec fn is_cleared(&self) -> bool {
        match *self {
            LayerKind::Dense(d) => d.is_cleared(),
            LayerKind::Activation(a) => a.is_cleared(),
        }
    }

    open spec fn params_eq(&self, other: Self) -> bool {
        match *self {
            LayerKind::Dense(d) => match other {
                LayerKind::Dense(od) => d.params_eq(od),
                LayerKind::Activation(_) => false,
            },
            LayerKind::Activation(a) => match other {
                LayerKind::Activation(oa) => a.params_eq(oa),
                LayerKind::Dense(_) => false,
            },
        }
    }

    open spec fn clear_rel(&self, post: Self) -> bool {
        match *self {
            LayerKind::Dense(d) => match post {
                LayerKind::Dense(pd) => d.clear_rel(pd),
                LayerKind::Activation(_) => false,
            },
            LayerKind::Activation(a) => match post {
                LayerKind::Activation(pa) => a.clear_rel(pa),
                LayerKind::Dense(_) => false,
            },
        }
    }

    open spec fn forward_rel(&self, input: Matrix<T>, post: Self, out: Matrix<T>) -> bool {
        match *self {
            LayerKind::Dense(d) => match post {
                LayerKind::Dense(pd) => d.forward_rel(input, pd, out),
                LayerKind::Activation(_) => false,
            },
            LayerKind::Activation(a) => match post {
                LayerKind::Activation(pa) => a.forward_rel(input, pa, out),
                LayerKind::Dense(_) => false,
            },
        }
    }

    open spec fn backward_rel(&self, grads: Matrix<T>, post: Self, out: Matrix<T>) -> bool {
        match *self {
            LayerKind::Dense(d) => match post {
                LayerKind::Dense(pd) => d.backward_rel(grads, pd, out),
                LayerKind::Activation(_) => false,
            },
            LayerKind::Activation(a) => match post {
                LayerKind::Activation(pa) => a.backward_rel(grads, pa, out),
                LayerKind::Dense(_) => false,
            },
        }
    }

    open spec fn update_rel(&self, rate: T, post: Self) -> bool {
        match *self {
            LayerKind::Dense(d) => match post {
                LayerKind::Dense(pd) => d.update_rel(rate, pd),
                LayerKind::Activation(_) => false,
            },
            LayerKind::Activation(a) => match post {
                LayerKind::Activation(pa) => a.update_rel(rate, pa),
                LayerKind::Dense(_) => false,
            },
        }
    }

    proof fn params_eq_refl(&self) {
        match *self {
            LayerKind::Dense(d) => d.params_eq_refl(),
            LayerKind::Activation(a) => a.params_eq_refl(),
        }
    }

    proof fn params_eq_trans(&self, mid: Self, end: Self) {
        match *self {
            LayerKind::Dense(d) => {
                if let LayerKind::Dense(dm) = mid {
                    if let LayerKind::Dense(de) = end {
                        d.params_eq_trans(dm, de);
                    }
                }
            },
            LayerKind::Activation(a) => {
                if let LayerKind::Activation(am) = mid {
                    if let LayerKind::Activation(ae) = end {
                        a.params_eq_trans(am, ae);
                    }
                }
            },
        }
    }

    proof fn clear_rel_idempotent(&self, mid: Self, end: Self) {
        match *self {
            LayerKind::Dense(d) => {
                if let LayerKind::Dense(dm) = mid {
                    if let LayerKind::Dense(de) = end {
                        d.clear_rel_idempotent(dm, de);
                    }
                }
            },
            LayerKind::Activation(a) => {
                if let LayerKind::Activation(am) = mid {
                    if let LayerKind::Activation(ae) = end {
                        a.clear_rel_idempotent(am, ae);
                    }
                }
            },
        }
    }

    proof fn forward_rel_deterministic(
        &self,
        other: Self,
        in1: Matrix<T>,
        post1: Self,
        out1: Matrix<T>,
        in2: Matrix<T>,
        post2: Self,
        out2: Matrix<T>,
    ) {
        match *self {
            LayerKind::Dense(d) => {
                if let LayerKind::Dense(od) = other {
                    if let LayerKind::Dense(p1) = post1 {
                        if let LayerKind::Dense(p2) = post2 {
                            d.forward_rel_deterministic(od, in1, p1, out1, in2, p2, out2);
                        }
                    }
                }
            },
            LayerKind::Activation(a) => {
                if let LayerKind::Activation(oa) = other {
                    if let LayerKind::Activation(p1) = post1 {
                        if let LayerKind::Activation(p2) = post2 {
                            a.forward_rel_deterministic(oa, in1, p1, out1, in2, p2, out2);
                        }
                    }
                }
            },
        }
    }

    fn input_rows(&self) -> usize {
        match self {
            LayerKind::Dense(d) => d.input_rows(),
            LayerKind::Activation(a) => a.input_rows(),
        }
    }

    fn input_cols(&self) -> usize {
        match self {
            LayerKind::Dense(d) => d.input_cols(),
            LayerKind::Activation(a) => a.input_cols(),
        }
    }

    fn output_rows(&self) -> usize {
        match self {
            LayerKind::Dense(d) => d.output_rows(),
            LayerKind::Activation(a) => a.output_rows(),
        }
    }

    fn output_cols(&self) -> usize {
        match self {
            LayerKind::Dense(d) => d.output_cols(),
            LayerKind::Activation(a) => a.output_cols(),
        }
    }

    fn forward(&mut self, input: Matrix<T>, training: bool) -> Matrix<T> {
        match self {
            LayerKind::Dense(d) => d.forward(input, training),
            LayerKind::Activation(a) => a.forward(input, training),
        }
    }

    fn backward(&mut self, grads: Matrix<T>) -> Matrix<T> {
        match self {
            LayerKind::Dense(d) => d.backward(grads),
            LayerKind::Activation(a) => a.backward(grads),
        }
    }

    fn update(&mut self, rate: T) {
        match self {
            LayerKind::Dense(d) => d.update(rate),
            LayerKind::Activation(a) => a.update(rate),
        }
    }

    fn clear(&mut self) {
        match self {
            LayerKind::Dense(d) => d.clear(),
            LayerKind::Activation(a) => a.clear(),
        }
    }
}

} // verus!
