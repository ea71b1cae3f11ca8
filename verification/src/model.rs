//! The model composer and the training loop.
//!
//! A [`Model`] assembles an ordered list of layers and one loss into a single
//! pipeline.  Shape compatibility between adjacent layers is checked as each
//! layer is added, before any data flows: a mismatch is a build-time error,
//! and a built pipeline's `forward`, `backward`, `update` and `clear` never
//! encounter one.  `fit` drives the online gradient-descent cycle —
//! forward, loss, reverse-order backward, update, clear — over a dataset for
//! a fixed epoch count and learning rate.

use crate::layer::Layer;
use crate::loss::Loss;
use crate::loss::LossError;
use crate::matrix::Matrix;
use crate::num::Num;
use core::marker::PhantomData;
use vstd::prelude::*;

verus! {

/// Why a layer was rejected while assembling a pipeline.
#[derive(Clone, Copy, Debug, PartialEq, Eq, Structural)]
pub enum BuildError {
    /// The layer's declared input shape differs from the declared output
    /// shape of the layer before it.
    ShapeMismatch,
}

/// An ordered pipeline of layers terminated by a loss.
///
/// The type is polymorphic over the layer capability set, not over one
/// concrete layer type: any implementation of [`Layer`] can be chained, and
/// [`crate::layer::LayerKind`] mixes the crate's own layer kinds in one
/// pipeline.
pub struct Model<T, K, L> {
    layers: Vec<K>,
    loss: L,
    marker: PhantomData<T>,
}

impl<T: Num, K: Layer<T>, L: Loss<T>> Model<T, K, L> {
    /// The layers, in forward order.
    pub closed spec fn layers_seq(&self) -> Seq<K> {
        self.layers@
    }

    /// The loss at the end of the pipeline.
    pub closed spec fn loss_of(&self) -> L {
        self.loss
    }

    /// The number of layers.
    pub open spec fn num_layers(&self) -> int {
        self.layers_seq().len() as int
    }

    /// Adjacent layers agree on their shapes: each layer's declared input
    /// shape equals the declared output shape of the layer before it.
    pub open spec fn chained(&self) -> bool {
        forall|i: int|
            1 <= i < self.layers_seq().len() ==> ((#[trigger] self.layers_seq()[i]).in_rows()
                == self.layers_seq()[i - 1].out_rows() && self.layers_seq()[i].in_cols()
                == self.layers_seq()[i - 1].out_cols())
    }

    /// The pipeline invariant: every layer and the loss are well formed, and
    /// the layer chain is shape-compatible.
    pub open spec fn wf(&self) -> bool {
        &&& forall|i: int|
            0 <= i < self.layers_seq().len() ==> (#[trigger] self.layers_seq()[i]).wf()
        &&& self.chained()
        &&& self.loss_of().wf()
    }

    /// The declared number of rows of the pipeline's input.
    pub open spec fn in_rows(&self) -> int
        recommends
            self.num_layers() > 0,
    {
        self.layers_seq()[0].in_rows()
    }

    /// The declared number of columns of the pipeline's input.
    pub open spec fn in_cols(&self) -> int
        recommends
            self.num_layers() > 0,
    {
        self.layers_seq()[0].in_cols()
    }

    /// The declared number of rows of the pipeline's output.
    pub open spec fn out_rows(&self) -> int
        recommends
            self.num_layers() > 0,
    {
        self.layers_seq()[self.num_layers() - 1].out_rows()
    }

    /// The declared number of columns of the pipeline's output.
    pub open spec fn out_cols(&self) -> int
        recommends
            self.num_layers() > 0,
    {
        self.layers_seq()[self.num_layers() - 1].out_cols()
    }

    /// Whether every layer holds the forward cache its `backward` needs.
    pub open spec fn all_cached(&self) -> bool {
        forall|i: int|
            0 <= i < self.layers_seq().len() ==> (#[trigger] self.layers_seq()[i]).has_cache()
    }

    /// Whether every layer's gradient buffers are empty.
    pub open spec fn all_cleared(&self) -> bool {
        forall|i: int|
            0 <= i < self.layers_seq().len() ==> (#[trigger] self.layers_seq()[i]).is_cleared()
    }

    /// `self` and `other` hold the same number of layers with the same
    /// declared shapes, stage for stage.
    pub open spec fn dims_eq(&self, other: Self) -> bool {
        &&& self.layers_seq().len() == other.layers_seq().len()
        &&& forall|i: int|
            0 <= i < self.layers_seq().len() ==> ((#[trigger] self.layers_seq()[i]).in_rows()
                == other.layers_seq()[i].in_rows() && self.layers_seq()[i].in_cols()
                == other.layers_seq()[i].in_cols() && self.layers_seq()[i].out_rows()
                == other.layers_seq()[i].out_rows() && self.layers_seq()[i].out_cols()
                == other.layers_seq()[i].out_cols())
    }

    /// `self` and `other` hold the same trainable parameters, stage for
    /// stage.
    pub open spec fn params_eq(&self, other: Self) -> bool {
        &&& self.layers_seq().len() == other.layers_seq().len()
        &&& forall|i: int|
            0 <= i < self.layers_seq().len() ==> (#[trigger] self.layers_seq()[i]).params_eq(
                other.layers_seq()[i],
            )
    }

    /// One forward data flow: `mids` threads the input through every layer
    /// in declaration order — `mids[0]` is the pipeline input, each layer
    /// `i` steps from its state in `pre` to its state in `post` mapping
    /// `mids[i]` to `mids[i + 1]`, and the last entry is the pipeline
    /// output.
    pub open spec fn chain_links(
        pre: Self,
        post: Self,
        mids: Seq<Matrix<T>>,
        input: Matrix<T>,
        out: Matrix<T>,
    ) -> bool {
        &&& mids.len() == pre.layers_seq().len() + 1
        &&& mids[0] == input
        &&& mids[pre.layers_seq().len() as int] == out
        &&& forall|i: int|
            0 <= i < pre.layers_seq().len() ==> pre.layers_seq()[i].forward_rel(
                mids[i],
                #[trigger] post.layers_seq()[i],
                mids[i + 1],
            )
        &&& forall|i: int|
            0 <= i < pre.layers_seq().len() ==> (#[trigger] mids[i + 1]).wf() && mids[i
                + 1].nrows() == pre.layers_seq()[i].out_rows() && mids[i + 1].ncols()
                == pre.layers_seq()[i].out_cols()
    }

    /// A forward pass is exactly the composition of the layers' `forward`
    /// effects in declaration order, each output fed to the next layer as
    /// its input.
    pub open spec fn forward_chain(
        pre: Self,
        post: Self,
        input: Matrix<T>,
        out: Matrix<T>,
    ) -> bool {
        exists|mids: Seq<Matrix<T>>| Self::chain_links(pre, post, mids, input, out)
    }

    /// One backward data flow: `mids` threads the output gradient through
    /// every layer in reverse declaration order — the last entry is the
    /// gradient handed in, each layer `i` maps `mids[i + 1]` to `mids[i]`
    /// while stepping from its state in `pre` to its state in `post`, and
    /// `mids[0]` is the returned input gradient.
    pub open spec fn back_links(
        pre: Self,
        post: Self,
        mids: Seq<Matrix<T>>,
        grads: Matrix<T>,
        out: Matrix<T>,
    ) -> bool {
        &&& mids.len() == pre.layers_seq().len() + 1
        &&& mids[pre.layers_seq().len() as int] == grads
        &&& mids[0] == out
        &&& forall|i: int|
            0 <= i < pre.layers_seq().len() ==> pre.layers_seq()[i].backward_rel(
                mids[i + 1],
                #[trigger] post.layers_seq()[i],
                mids[i],
            )
    }

    /// A backward pass is exactly the composition of the layers' `backward`
    /// effects in reverse declaration order, each produced gradient fed to
    /// the layer before.
    pub open spec fn backward_chain(
        pre: Self,
        post: Self,
        grads: Matrix<T>,
        out: Matrix<T>,
    ) -> bool {
        exists|mids: Seq<Matrix<T>>| Self::back_links(pre, post, mids, grads, out)
    }

    /// One training step's data flow, with every intermediate named: some
    /// copy `x2` of the input (equal entry for entry) is threaded forward
    /// through the layers into the prediction `pred` (states `pre` to `m1`);
    /// the loss scores `pred` against the target `y`, accepting it with the
    /// value `lv` (`m1` to `m2`, layers untouched); the loss's gradient `g`
    /// is produced (`m2` to `m3`, layers untouched) and threaded backward
    /// through the layers into the discarded input gradient `gin` (`m3` to
    /// `m4`, loss untouched); every layer takes one `update` step at `rate`
    /// (`m4` to `m5`, loss untouched); and every layer is cleared (`m5` to
    /// `post`, loss untouched).
    pub open spec fn step_links(
        pre: Self,
        post: Self,
        x: Matrix<T>,
        y: Matrix<T>,
        rate: T,
        lv: T,
        x2: Matrix<T>,
        pred: Matrix<T>,
        g: Matrix<T>,
        gin: Matrix<T>,
        m1: Self,
        m2: Self,
        m3: Self,
        m4: Self,
        m5: Self,
    ) -> bool {
        &&& x2@ == x@
        &&& x2.nrows() == x.nrows()
        &&& x2.ncols() == x.ncols()
        &&& Self::forward_chain(pre, m1, x2, pred)
        &&& m1.loss_of().forward_rel(pred, y, m2.loss_of(), Ok(lv))
        &&& m2.layers_seq() == m1.layers_seq()
        &&& m2.loss_of().backward_rel(m3.loss_of(), g)
        &&& m3.layers_seq() == m2.layers_seq()
        &&& Self::backward_chain(m3, m4, g, gin)
        &&& m4.loss_of() == m3.loss_of()
        &&& forall|k: int|
            0 <= k < m4.layers_seq().len() ==> m4.layers_seq()[k].update_rel(
                rate,
                #[trigger] m5.layers_seq()[k],
            )
        &&& m5.layers_seq().len() == m4.layers_seq().len()
        &&& m5.loss_of() == m4.loss_of()
        &&& forall|k: int|
            0 <= k < m5.layers_seq().len() ==> m5.layers_seq()[k].clear_rel(
                #[trigger] post.layers_seq()[k],
            )
        &&& post.layers_seq().len() == m5.layers_seq().len()
        &&& post.loss_of() == m5.loss_of()
    }

    /// One accepted training step is exactly the composition of a forward
    /// pass, one loss evaluation returning `lv`, the loss's gradient, a
    /// reverse-order backward pass, one `update` of every layer at `rate`
    /// and a `clear` of every layer, in that order.
    pub open spec fn step_rel(
        pre: Self,
        post: Self,
        x: Matrix<T>,
        y: Matrix<T>,
        rate: T,
        lv: T,
    ) -> bool {
        exists|
            x2: Matrix<T>,
            pred: Matrix<T>,
            g: Matrix<T>,
            gin: Matrix<T>,
            m1: Self,
            m2: Self,
            m3: Self,
            m4: Self,
            m5: Self,
        |
            Self::step_links(pre, post, x, y, rate, lv, x2, pred, g, gin, m1, m2, m3, m4, m5)
    }

    /// The trace of a training run: `states` threads the pipeline through
    /// one training step per recorded loss, cycling through the dataset in
    /// the order supplied.
    pub open spec fn run_links(
        pre: Self,
        post: Self,
        states: Seq<Self>,
        inputs: Seq<Matrix<T>>,
        targets: Seq<Matrix<T>>,
        rate: T,
        losses: Seq<T>,
    ) -> bool {
        &&& states.len() == losses.len() + 1
        &&& states[0] == pre
        &&& states[states.len() - 1] == post
        &&& forall|k: int|
            0 <= k < losses.len() ==> #[trigger] Self::step_rel(
                states[k],
                states[k + 1],
                inputs[k % (inputs.len() as int)],
                targets[k % (inputs.len() as int)],
                rate,
                losses[k],
            )
    }

    /// A successful training run is exactly a sequence of training steps
    /// (see `step_rel`), one per recorded loss, walking the dataset in order
    /// epoch after epoch.
    pub open spec fn run_rel(
        pre: Self,
        post: Self,
        inputs: Seq<Matrix<T>>,
        targets: Seq<Matrix<T>>,
        rate: T,
        losses: Seq<T>,
    ) -> bool {
        exists|states: Seq<Self>|
            Self::run_links(pre, post, states, inputs, targets, rate, losses)
    }

    /// An empty pipeline around the given loss.
    pub fn new(loss: L) -> (m: Model<T, K, L>)
        requires
            loss.wf(),
        ensures
            m.wf(),
            m.num_layers() == 0,
            m.loss_of() == loss,
    {
        Model { layers: Vec::new(), loss, marker: PhantomData }
    }

    /// The number of layers.
    pub fn layer_count(&self) -> (r: usize)
        ensures
            r == self.num_layers(),
    {
        self.layers.len()
    }

    /// The layer at position `i` of the pipeline.
    pub fn layer_at(&self, i: usize) -> (r: &K)
        requires
            i < self.num_layers(),
        ensures
            *r == self.layers_seq()[i as int],
    {
        &self.layers[i]
    }

    /// The declared number of rows of the pipeline's input.
    pub fn input_rows(&self) -> (r: usize)
        requires
            self.wf(),
            self.num_layers() > 0,
        ensures
            r == self.in_rows(),
    {
        self.layers[0].input_rows()
    }

    /// The declared number of columns of the pipeline's input.
    pub fn input_cols(&self) -> (r: usize)
        requires
            self.wf(),
            self.num_layers() > 0,
        ensures
            r == self.in_cols(),
    {
        self.layers[0].input_cols()
    }

    /// The declared number of rows of the pipeline's output.
    pub fn output_rows(&self) -> (r: usize)
        requires
            self.wf(),
            self.num_layers() > 0,
        ensures
            r == self.out_rows(),
    {
        self.layers[self.layers.len() - 1].output_rows()
    }

    /// The declared number of columns of the pipeline's output.
    pub fn output_cols(&self) -> (r: usize)
        requires
            self.wf(),
            self.num_layers() > 0,
        ensures
            r == self.out_cols(),
    {
        self.layers[self.layers.len() - 1].output_cols()
    }

    /// Appends a layer to the pipeline.  The first layer is always accepted;
    /// a later layer is accepted exactly when its declared input shape
    /// equals the declared output shape of the current last layer.  On
    /// rejection the pipeline is left untouched.
    pub fn add(&mut self, layer: K) -> (r: Result<(), BuildError>)
        requires
            old(self).wf(),
            layer.wf(),
        ensures
            final(self).wf(),
            r is Ok <==> (old(self).num_layers() == 0 || (layer.in_rows() == old(self).out_rows()
                && layer.in_cols() == old(self).out_cols())),
            r is Ok ==> final(self).layers_seq() == old(self).layers_seq().push(layer),
            r is Err ==> *final(self) == *old(self),
            final(self).loss_of() == old(self).loss_of(),
    {
        let n = self.layers.len();
        if n == 0 {
            self.layers.push(layer);
            return Ok(());
        }
        proof {
            assert(self.layers_seq()[n - 1].wf());
        }
        let ok = {
            let last = &self.layers[n - 1];
            layer.input_rows() == last.output_rows() && layer.input_cols() == last.output_cols()
        };
        if ok {
            self.layers.push(layer);
            Ok(())
        } else {
            Err(BuildError::ShapeMismatch)
        }
    }

    /// Runs the input through every layer in forward order.  The input must
    /// have the pipeline's declared input shape; the output has its declared
    /// output shape.  Parameters and declared shapes are untouched, and
    /// afterwards every layer holds the cache its `backward` needs.
    pub fn forward(&mut self, input: Matrix<T>, training: bool) -> (out: Matrix<T>)
        requires
            old(self).wf(),
            old(self).num_layers() > 0,
            input.wf(),
            input.nrows() == old(self).in_rows(),
            input.ncols() == old(self).in_cols(),
        ensures
            final(self).wf(),
            final(self).dims_eq(*old(self)),
            final(self).params_eq(*old(self)),
            final(self).all_cached(),
            final(self).loss_of() == old(self).loss_of(),
            Self::forward_chain(*old(self), *final(self), input, out),
            out.wf(),
            out.nrows() == old(self).out_rows(),
            out.ncols() == old(self).out_cols(),
    {
        let n = self.layers.len();
        proof {
            assert forall|k: int| 0 <= k < n implies (#[trigger] self.layers_seq()[k]).params_eq(
                old(self).layers_seq()[k],
            ) by {
                self.layers_seq()[k].params_eq_refl();
            }
        }
        let ghost input0 = input;
        let ghost mut mids: Seq<Matrix<T>> = seq![input];
        let mut x = input;
        let mut i: usize = 0;
        while i < n
            invariant
                n == self.layers_seq().len(),
                n > 0,
                i <= n,
                self.wf(),
                self.dims_eq(*old(self)),
                self.params_eq(*old(self)),
                self.loss_of() == old(self).loss_of(),
                forall|k: int| 0 <= k < i ==> (#[trigger] self.layers_seq()[k]).has_cache(),
                x.wf(),
                i < n ==> x.nrows() == self.layers_seq()[i as int].in_rows() && x.ncols()
                    == self.layers_seq()[i as int].in_cols(),
                i == n ==> x.nrows() == self.layers_seq()[n - 1].out_rows() && x.ncols()
                    == self.layers_seq()[n - 1].out_cols(),
                mids.len() == i + 1,
                mids[0] == input0,
                mids[i as int] == x,
                forall|k: int|
                    0 <= k < i ==> old(self).layers_seq()[k].forward_rel(
                        mids[k],
                        #[trigger] self.layers_seq()[k],
                        mids[k + 1],
                    ),
                forall|k: int|
                    0 <= k < i ==> (#[trigger] mids[k + 1]).wf() && mids[k + 1].nrows() == old(
                        self,
                    ).layers_seq()[k].out_rows() && mids[k + 1].ncols() == old(
                        self,
                    ).layers_seq()[k].out_cols(),
                forall|k: int|
                    i <= k < n ==> #[trigger] self.layers_seq()[k] == old(self).layers_seq()[k],
            decreases n - i,
        {
            let ghost pre = *self;
            x = self.layers[i].forward(x, training);
            proof {
                mids = mids.push(x);
                assert forall|k: int|
                    0 <= k < n implies (#[trigger] self.layers_seq()[k]).params_eq(
                    old(self).layers_seq()[k],
                ) by {
                    if k == i as int {
                        self.layers_seq()[k].params_eq_trans(
                            pre.layers_seq()[k],
                            old(self).layers_seq()[k],
                        );
                    } else {
                        assert(self.layers_seq()[k] == pre.layers_seq()[k]);
                    }
                }
            }
            i += 1;
        }
        proof {
            assert(Self::chain_links(*old(self), *self, mids, input0, x));
            assert(Self::forward_chain(*old(self), *self, input0, x));
        }
        x
    }

    /// A forward pass outside training: runs the input through the pipeline
    /// with the training flag off.
    pub fn predict(&mut self, input: Matrix<T>) -> (out: Matrix<T>)
        requires
            old(self).wf(),
            old(self).num_layers() > 0,
            input.wf(),
            input.nrows() == old(self).in_rows(),
            input.ncols() == old(self).in_cols(),
        ensures
            final(self).wf(),
            final(self).dims_eq(*old(self)),
            final(self).params_eq(*old(self)),
            final(self).all_cached(),
            final(self).loss_of() == old(self).loss_of(),
            Self::forward_chain(*old(self), *final(self), input, out),
            out.wf(),
            out.nrows() == old(self).out_rows(),
            out.ncols() == old(self).out_cols(),
    {
        self.forward(input, false)
    }

    /// Propagates a gradient of the pipeline's output through every layer in
    /// reverse order, filling each layer's gradient buffers, and returns the
    /// gradient with respect to the pipeline's input (conventionally
    /// discarded).  Parameters are untouched.
    pub fn backward(&mut self, grads: Matrix<T>) -> (out: Matrix<T>)
        requires
            old(self).wf(),
            old(self).num_layers() > 0,
            old(self).all_cached(),
            grads.wf(),
            grads.nrows() == old(self).out_rows(),
            grads.ncols() == old(self).out_cols(),
        ensures
            final(self).wf(),
            final(self).dims_eq(*old(self)),
            final(self).params_eq(*old(self)),
            final(self).all_cached(),
            final(self).loss_of() == old(self).loss_of(),
            Self::backward_chain(*old(self), *final(self), grads, out),
            out.wf(),
            out.nrows() == old(self).in_rows(),
            out.ncols() == old(self).in_cols(),
    {
        let n = self.layers.len();
        proof {
            assert forall|k: int| 0 <= k < n implies (#[trigger] self.layers_seq()[k]).params_eq(
                old(self).layers_seq()[k],
            ) by {
                self.layers_seq()[k].params_eq_refl();
            }
        }
        let ghost grads0 = grads;
        let ghost mut mids: Seq<Matrix<T>> = Seq::new((n + 1) as nat, |q: int| grads);
        let mut g = grads;
        let mut i: usize = n;
        while i > 0
            invariant
                n == self.layers_seq().len(),
                n > 0,
                i <= n,
                self.wf(),
                self.dims_eq(*old(self)),
                self.params_eq(*old(self)),
                self.loss_of() == old(self).loss_of(),
                forall|k: int| 0 <= k < n ==> (#[trigger] self.layers_seq()[k]).has_cache(),
                g.wf(),
                i > 0 ==> g.nrows() == self.layers_seq()[i - 1].out_rows() && g.ncols()
                    == self.layers_seq()[i - 1].out_cols(),
                i == 0 ==> g.nrows() == self.layers_seq()[0].in_rows() && g.ncols()
                    == self.layers_seq()[0].in_cols(),
                mids.len() == n + 1,
                mids[n as int] == grads0,
                mids[i as int] == g,
                forall|k: int|
                    i <= k < n ==> old(self).layers_seq()[k].backward_rel(
                        mids[k + 1],
                        #[trigger] self.layers_seq()[k],
                        mids[k],
                    ),
                forall|k: int|
                    0 <= k < i ==> #[trigger] self.layers_seq()[k] == old(self).layers_seq()[k],
            decreases i,
        {
            i -= 1;
            let ghost pre = *self;
            g = self.layers[i].backward(g);
            proof {
                mids = mids.update(i as int, g);
                assert forall|k: int|
                    0 <= k < n implies (#[trigger] self.layers_seq()[k]).params_eq(
                    old(self).layers_seq()[k],
                ) by {
                    if k == i as int {
                        self.layers_seq()[k].params_eq_trans(
                            pre.layers_seq()[k],
                            old(self).layers_seq()[k],
                        );
                    } else {
                        assert(self.layers_seq()[k] == pre.layers_seq()[k]);
                    }
                }
            }
        }
        proof {
            assert(Self::back_links(*old(self), *self, mids, grads0, g));
            assert(Self::backward_chain(*old(self), *self, grads0, g));
        }
        g
    }

    /// Applies one gradient-descent step, scaled by `rate`, to every layer.
    /// Updates are independent across layers, so the order does not matter.
    /// A pipeline whose gradient buffers are all cleared keeps every
    /// parameter unchanged: an update without a preceding `backward` is a
    /// no-op.
    pub fn update(&mut self, rate: T)
        requires
            old(self).wf(),
        ensures
            final(self).wf(),
            final(self).dims_eq(*old(self)),
            final(self).loss_of() == old(self).loss_of(),
            forall|k: int|
                0 <= k < final(self).layers_seq().len() ==> (#[trigger] final(self).layers_seq()[k]).has_cache() == old(self).layers_seq()[k].has_cache(),
            forall|k: int|
                0 <= k < final(self).layers_seq().len() ==> (#[trigger] final(self).layers_seq()[k]).is_cleared() == old(self).layers_seq()[k].is_cleared(),
            old(self).all_cleared() ==> final(self).params_eq(*old(self)),
            forall|k: int|
                0 <= k < final(self).layers_seq().len() ==> old(self).layers_seq()[k].update_rel(
                    rate,
                    #[trigger] final(self).layers_seq()[k],
                ),
    {
        let n = self.layers.len();
        proof {
            if old(self).all_cleared() {
                assert forall|k: int|
                    0 <= k < n implies (#[trigger] self.layers_seq()[k]).params_eq(
                    old(self).layers_seq()[k],
                ) by {
                    self.layers_seq()[k].params_eq_refl();
                }
            }
        }
        let mut i: usize = 0;
        while i < n
            invariant
                n == self.layers_seq().len(),
                i <= n,
                self.wf(),
                self.dims_eq(*old(self)),
                self.loss_of() == old(self).loss_of(),
                forall|k: int|
                    0 <= k < n ==> (#[trigger] self.layers_seq()[k]).has_cache() == old(self).layers_seq()[k].has_cache(),
                forall|k: int|
                    0 <= k < n ==> (#[trigger] self.layers_seq()[k]).is_cleared() == old(self).layers_seq()[k].is_cleared(),
                old(self).all_cleared() ==> self.params_eq(*old(self)),
                forall|k: int|
                    0 <= k < i ==> old(self).layers_seq()[k].update_rel(
                        rate,
                        #[trigger] self.layers_seq()[k],
                    ),
                forall|k: int|
                    i <= k < n ==> #[trigger] self.layers_seq()[k] == old(self).layers_seq()[k],
            decreases n - i,
        {
            let ghost pre = *self;
            self.layers[i].update(rate);
            proof {
                if old(self).all_cleared() {
                    assert forall|k: int|
                        0 <= k < n implies (#[trigger] self.layers_seq()[k]).params_eq(
                        old(self).layers_seq()[k],
                    ) by {
                        if k == i as int {
                            assert(pre.layers_seq()[k].is_cleared());
                            self.layers_seq()[k].params_eq_trans(
                                pre.layers_seq()[k],
                                old(self).layers_seq()[k],
                            );
                        } else {
                            assert(self.layers_seq()[k] == pre.layers_seq()[k]);
                        }
                    }
                }
            }
            i += 1;
        }
    }

    /// Resets every layer's gradient buffers; parameters and forward caches
    /// are untouched.  Each layer's exact clear relation is exposed, so that
    /// clearing twice is provably the same as clearing once (see
    /// [`lemma_clear_twice_changes_nothing`]).
    pub fn clear(&mut self)
        requires
            old(self).wf(),
        ensures
            final(self).wf(),
            final(self).dims_eq(*old(self)),
            final(self).params_eq(*old(self)),
            final(self).all_cleared(),
            final(self).loss_of() == old(self).loss_of(),
            forall|k: int|
                0 <= k < final(self).layers_seq().len() ==> (#[trigger] final(self).layers_seq()[k]).has_cache() == old(self).layers_seq()[k].has_cache(),
            forall|k: int|
                0 <= k < final(self).layers_seq().len() ==> old(self).layers_seq()[k].clear_rel(
                    #[trigger] final(self).layers_seq()[k],
                ),
    {
        let n = self.layers.len();
        proof {
            assert forall|k: int| 0 <= k < n implies (#[trigger] self.layers_seq()[k]).params_eq(
                old(self).layers_seq()[k],
            ) by {
                self.layers_seq()[k].params_eq_refl();
            }
        }
        let mut i: usize = 0;
        while i < n
            invariant
                n == self.layers_seq().len(),
                i <= n,
                self.wf(),
                self.dims_eq(*old(self)),
                self.params_eq(*old(self)),
                self.loss_of() == old(self).loss_of(),
                forall|k: int| 0 <= k < i ==> (#[trigger] self.layers_seq()[k]).is_cleared(),
                forall|k: int|
                    0 <= k < n ==> (#[trigger] self.layers_seq()[k]).has_cache() == old(self).layers_seq()[k].has_cache(),
                forall|k: int|
                    0 <= k < i ==> old(self).layers_seq()[k].clear_rel(
                        #[trigger] self.layers_seq()[k],
                    ),
                forall|k: int|
                    i <= k < n ==> #[trigger] self.layers_seq()[k] == old(self).layers_seq()[k],
            decreases n - i,
        {
            let ghost pre = *self;
            self.layers[i].clear();
            proof {
                assert forall|k: int|
                    0 <= k < n implies (#[trigger] self.layers_seq()[k]).params_eq(
                    old(self).layers_seq()[k],
                ) by {
                    if k == i as int {
                        self.layers_seq()[k].params_eq_trans(
                            pre.layers_seq()[k],
                            old(self).layers_seq()[k],
                        );
                    } else {
                        assert(self.layers_seq()[k] == pre.layers_seq()[k]);
                    }
                }
            }
            i += 1;
        }
    }

    /// One online training step on a single (input, target) pair: a forward
    /// pass, one loss evaluation, the loss's gradient propagated backward in
    /// reverse layer order, one gradient-descent `update` of every layer and
    /// a `clear` of every layer — exactly in that order, as `step_rel`
    /// states.  A rejected prediction stops the step after the forward pass,
    /// with nothing propagated, updated or cleared.
    pub fn train_step(&mut self, x: &Matrix<T>, y: &Matrix<T>, rate: T) -> (r: Result<
        T,
        LossError,
    >)
        requires
            old(self).wf(),
            old(self).num_layers() > 0,
            old(self).out_rows() >= 1,
            old(self).out_cols() >= 1,
            x.wf(),
            x.nrows() == old(self).in_rows(),
            x.ncols() == old(self).in_cols(),
            y.wf(),
            y.nrows() == old(self).out_rows(),
            y.ncols() == old(self).out_cols(),
        ensures
            final(self).wf(),
            final(self).dims_eq(*old(self)),
            final(self).num_layers() > 0,
            r is Ok ==> Self::step_rel(*old(self), *final(self), *x, *y, rate, r->Ok_0),
    {
        let x2 = x.duplicate();
        let ghost x2g = x2;
        let pred = self.forward(x2, true);
        let ghost m1 = *self;
        let step_loss = match self.loss.forward(&pred, y) {
            Ok(v) => v,
            Err(err) => {
                return Err(err);
            },
        };
        let ghost m2 = *self;
        let g = self.loss.backward();
        let ghost m3 = *self;
        let ghost gg = g;
        let gin = self.backward(g);
        let ghost m4 = *self;
        self.update(rate);
        let ghost m5 = *self;
        self.clear();
        proof {
            assert(Self::step_links(
                *old(self),
                *self,
                *x,
                *y,
                rate,
                step_loss,
                x2g,
                pred,
                gg,
                gin,
                m1,
                m2,
                m3,
                m4,
                m5,
            ));
            assert(Self::step_rel(*old(self), *self, *x, *y, rate, step_loss));
        }
        Ok(step_loss)
    }

    /// Trains the pipeline: for every epoch and every (input, target) pair in
    /// the order supplied, runs one forward pass, scores it, propagates the
    /// loss gradient backward, applies one gradient-descent step and clears
    /// the gradient buffers.  No shuffling, batching or early stopping.
    /// Returns one loss value per step — `epochs` times the dataset size of
    /// them — for observation only; training stops at the first rejected
    /// prediction, with the error and the pipeline as the failing step left
    /// it.
    pub fn fit(
        &mut self,
        epochs: usize,
        inputs: &Vec<Matrix<T>>,
        targets: &Vec<Matrix<T>>,
        rate: T,
    ) -> (r: Result<Vec<T>, LossError>)
        requires
            old(self).wf(),
            old(self).num_layers() > 0,
            old(self).out_rows() >= 1,
            old(self).out_cols() >= 1,
            inputs@.len() == targets@.len(),
            forall|k: int|
                0 <= k < inputs@.len() ==> ((#[trigger] inputs@[k]).wf() && inputs@[k].nrows()
                    == old(self).in_rows() && inputs@[k].ncols() == old(self).in_cols()),
            forall|k: int|
                0 <= k < targets@.len() ==> ((#[trigger] targets@[k]).wf() && targets@[k].nrows()
                    == old(self).out_rows() && targets@[k].ncols() == old(self).out_cols()),
        ensures
            final(self).wf(),
            final(self).dims_eq(*old(self)),
            r is Ok ==> r->Ok_0@.len() == epochs * inputs@.len(),
            r is Ok ==> Self::run_rel(*old(self), *final(self), inputs@, targets@, rate, r->Ok_0@),
            epochs == 0 || inputs@.len() == 0 ==> r is Ok,
    {
        let count = inputs.len();
        let mut losses: Vec<T> = Vec::new();
        let ghost mut states: Seq<Model<T, K, L>> = seq![*self];
        let mut e: usize = 0;
        while e < epochs
            invariant
                self.wf(),
                self.dims_eq(*old(self)),
                old(self).num_layers() > 0,
                old(self).out_rows() >= 1,
                old(self).out_cols() >= 1,
                count == inputs@.len(),
                inputs@.len() == targets@.len(),
                forall|k: int|
                    0 <= k < inputs@.len() ==> ((#[trigger] inputs@[k]).wf() && inputs@[k].nrows()
                        == old(self).in_rows() && inputs@[k].ncols() == old(self).in_cols()),
                forall|k: int|
                    0 <= k < targets@.len() ==> ((#[trigger] targets@[k]).wf()
                        && targets@[k].nrows() == old(self).out_rows() && targets@[k].ncols()
                        == old(self).out_cols()),
                e <= epochs,
                losses@.len() == e * inputs@.len(),
                states.len() == losses@.len() + 1,
                states[0] == *old(self),
                states[states.len() - 1] == *self,
                forall|k: int|
                    0 <= k < losses@.len() ==> #[trigger] Self::step_rel(
                        states[k],
                        states[k + 1],
                        inputs@[k % (inputs@.len() as int)],
                        targets@[k % (inputs@.len() as int)],
                        rate,
                        losses@[k],
                    ),
            decreases epochs - e,
        {
            let mut i: usize = 0;
            while i < count
                invariant
                    self.wf(),
                    self.dims_eq(*old(self)),
                    old(self).num_layers() > 0,
                    old(self).out_rows() >= 1,
                    old(self).out_cols() >= 1,
                    count == inputs@.len(),
                    inputs@.len() == targets@.len(),
                    forall|k: int|
                        0 <= k < inputs@.len() ==> ((#[trigger] inputs@[k]).wf()
                            && inputs@[k].nrows() == old(self).in_rows() && inputs@[k].ncols()
                            == old(self).in_cols()),
                    forall|k: int|
                        0 <= k < targets@.len() ==> ((#[trigger] targets@[k]).wf()
                            && targets@[k].nrows() == old(self).out_rows() && targets@[k].ncols()
                            == old(self).out_cols()),
                    e < epochs,
                    i <= count,
                    losses@.len() == e * inputs@.len() + i,
                    states.len() == losses@.len() + 1,
                    states[0] == *old(self),
                    states[states.len() - 1] == *self,
                    forall|k: int|
                        0 <= k < losses@.len() ==> #[trigger] Self::step_rel(
                            states[k],
                            states[k + 1],
                            inputs@[k % (inputs@.len() as int)],
                            targets@[k % (inputs@.len() as int)],
                            rate,
                            losses@[k],
                        ),
                decreases count - i,
            {
                let step_loss = match self.train_step(&inputs[i], &targets[i], rate) {
                    Ok(v) => v,
                    Err(err) => {
                        return Err(err);
                    },
                };
                losses.push(step_loss);
                proof {
                    states = states.push(*self);
                    let k = e as int * inputs@.len() as int + i as int;
                    vstd::arithmetic::div_mod::lemma_fundamental_div_mod_converse(
                        k,
                        inputs@.len() as int,
                        e as int,
                        i as int,
                    );
                }
                i += 1;
            }
            proof {
                let ghost el = e as int;
                let ghost cl = inputs@.len() as int;
                assert((el + 1) * cl == el * cl + cl) by (nonlinear_arith);
            }
            e += 1;
        }
        proof {
            assert(Self::run_links(
                *old(self),
                *self,
                states,
                inputs@,
                targets@,
                rate,
                losses@,
            ));
            assert(Self::run_rel(*old(self), *self, inputs@, targets@, rate, losses@));
        }
        Ok(losses)
    }
}

/// The prefix of two forward data flows, link by link: pipelines holding
/// equal parameters and declared shapes thread inputs holding equal entries
/// into intermediates holding equal entries.
proof fn lemma_chain_congruent<T: Num, K: Layer<T>, L: Loss<T>>(
    pre1: Model<T, K, L>,
    post1: Model<T, K, L>,
    mids1: Seq<Matrix<T>>,
    input1: Matrix<T>,
    out1: Matrix<T>,
    pre2: Model<T, K, L>,
    post2: Model<T, K, L>,
    mids2: Seq<Matrix<T>>,
    input2: Matrix<T>,
    out2: Matrix<T>,
    i: int,
)
    requires
        pre1.wf(),
        pre2.wf(),
        pre1.dims_eq(pre2),
        pre1.params_eq(pre2),
        Model::chain_links(pre1, post1, mids1, input1, out1),
        Model::chain_links(pre2, post2, mids2, input2, out2),
        input1@ == input2@,
        0 <= i <= pre1.layers_seq().len(),
    ensures
        mids1[i]@ == mids2[i]@,
    decreases i,
{
    if i > 0 {
        lemma_chain_congruent(
            pre1,
            post1,
            mids1,
            input1,
            out1,
            pre2,
            post2,
            mids2,
            input2,
            out2,
            i - 1,
        );
        pre1.layers_seq()[i - 1].forward_rel_deterministic(
            pre2.layers_seq()[i - 1],
            mids1[i - 1],
            post1.layers_seq()[i - 1],
            mids1[i],
            mids2[i - 1],
            post2.layers_seq()[i - 1],
            mids2[i],
        );
    }
}

/// A forward pass is deterministic given fixed parameters: two forward data
/// flows of pipelines holding equal parameters and declared shapes — for
/// instance the same pipeline before and after a forward pass, with no
/// update in between, and whatever the training flags, which no layer kind
/// of this crate reads — map inputs holding equal entries to outputs
/// holding equal entries.
pub proof fn lemma_forward_deterministic<T: Num, K: Layer<T>, L: Loss<T>>(
    pre1: Model<T, K, L>,
    post1: Model<T, K, L>,
    input1: Matrix<T>,
    out1: Matrix<T>,
    pre2: Model<T, K, L>,
    post2: Model<T, K, L>,
    input2: Matrix<T>,
    out2: Matrix<T>,
)
    requires
        pre1.wf(),
        pre2.wf(),
        pre1.dims_eq(pre2),
        pre1.params_eq(pre2),
        Model::forward_chain(pre1, post1, input1, out1),
        Model::forward_chain(pre2, post2, input2, out2),
        input1@ == input2@,
    ensures
        out1@ == out2@,
{
    let mids1 = choose|m: Seq<Matrix<T>>|
        Model::<T, K, L>::chain_links(pre1, post1, m, input1, out1);
    let mids2 = choose|m: Seq<Matrix<T>>|
        Model::<T, K, L>::chain_links(pre2, post2, m, input2, out2);
    lemma_chain_congruent(
        pre1,
        post1,
        mids1,
        input1,
        out1,
        pre2,
        post2,
        mids2,
        input2,
        out2,
        pre1.layers_seq().len() as int,
    );
}

/// Clearing a pipeline twice in a row is the same as clearing it once: given
/// the clear relations of two consecutive `clear` calls (first from `m0` to
/// `m1`, then from `m1` to `m2`), the second call changes no layer at all.
/// Together with `clear`'s own postcondition that every gradient buffer is
/// cleared, the buffers are therefore cleared after both calls.
pub proof fn lemma_clear_twice_changes_nothing<T: Num, K: Layer<T>, L: Loss<T>>(
    m0: Model<T, K, L>,
    m1: Model<T, K, L>,
    m2: Model<T, K, L>,
)
    requires
        m0.layers_seq().len() == m1.layers_seq().len(),
        m1.layers_seq().len() == m2.layers_seq().len(),
        forall|k: int|
            0 <= k < m1.layers_seq().len() ==> m0.layers_seq()[k].clear_rel(
                #[trigger] m1.layers_seq()[k],
            ),
        forall|k: int|
            0 <= k < m2.layers_seq().len() ==> m1.layers_seq()[k].clear_rel(
                #[trigger] m2.layers_seq()[k],
            ),
    ensures
        m2.layers_seq() == m1.layers_seq(),
{
    assert forall|k: int| 0 <= k < m1.layers_seq().len() implies (#[trigger] m2.layers_seq()[k])
        == m1.layers_seq()[k] by {
        m0.layers_seq()[k].clear_rel_idempotent(m1.layers_seq()[k], m2.layers_seq()[k]);
    }
    assert(m2.layers_seq() =~= m1.layers_seq());
}

} // verus!
