//! Behavioural tests of the matrix type, the layers, the loss and the model
//! composer, on a concrete double-precision scalar.

use network::func::Func;
use network::layer::{Activation, Dense, Layer, LayerKind};
use network::loss::{Logistics, Loss, LossError};
use network::matrix::Matrix;
use network::model::{BuildError, Model};
use network::num::Num;

/// Double-precision scalar for the pipeline.
#[derive(Clone, Copy, Debug, PartialEq)]
struct F(f64);

// The spec_* methods are the trait's specification-level counterparts; they
// are never called at run time and mirror the executable operations.
impl Num for F {
    fn spec_zero() -> F {
        F(0.0)
    }
    fn spec_one() -> F {
        F(1.0)
    }
    fn spec_log2_e() -> F {
        F(std::f64::consts::LOG2_E)
    }
    fn spec_add(self, other: F) -> F {
        F(self.0 + other.0)
    }
    fn spec_sub(self, other: F) -> F {
        F(self.0 - other.0)
    }
    fn spec_mul(self, other: F) -> F {
        F(self.0 * other.0)
    }
    fn spec_div(self, other: F) -> F {
        F(self.0 / other.0)
    }
    fn spec_neg(self) -> F {
        F(-self.0)
    }
    fn spec_log2(self) -> F {
        F(self.0.log2())
    }
    fn spec_is_zero(self) -> bool {
        self.0 == 0.0
    }
    fn spec_is_one(self) -> bool {
        self.0 == 1.0
    }
    fn zero() -> F {
        F(0.0)
    }
    fn one() -> F {
        F(1.0)
    }
    fn log2_e() -> F {
        F(std::f64::consts::LOG2_E)
    }
    fn add_val(self, other: F) -> F {
        F(self.0 + other.0)
    }
    fn sub_val(self, other: F) -> F {
        F(self.0 - other.0)
    }
    fn mul_val(self, other: F) -> F {
        F(self.0 * other.0)
    }
    fn div_val(self, other: F) -> F {
        F(self.0 / other.0)
    }
    fn neg_val(self) -> F {
        F(-self.0)
    }
    fn log2_val(self) -> F {
        F(self.0.log2())
    }
    fn is_zero(self) -> bool {
        self.0 == 0.0
    }
    fn is_one(self) -> bool {
        self.0 == 1.0
    }
}

/// The logistic sigmoid as an element-wise activation.
struct Sig;

impl Func<F> for Sig {
    fn spec_forward(&self, x: F) -> F {
        F(1.0 / (1.0 + (-x.0).exp()))
    }
    fn spec_backward(&self, y: F) -> F {
        F(y.0 * (1.0 - y.0))
    }
    fn forward(&self, x: F) -> F {
        F(1.0 / (1.0 + (-x.0).exp()))
    }
    fn backward(&self, y: F) -> F {
        F(y.0 * (1.0 - y.0))
    }
}

fn mat(rows: Vec<Vec<f64>>) -> Matrix<F> {
    let wrapped: Vec<Vec<F>> = rows.into_iter().map(|r| r.into_iter().map(F).collect()).collect();
    Matrix::from_rows(wrapped)
}

fn small_model() -> Model<F, LayerKind<F, Sig>, Logistics<F>> {
    let mut model: Model<F, LayerKind<F, Sig>, Logistics<F>> = Model::new(Logistics::new());
    let d1 = Dense::new(mat(vec![vec![0.2, -0.4, 0.1], vec![0.5, 0.3, -0.2]]), mat(vec![vec![
        0.05, -0.1, 0.2,
    ]]));
    assert!(model.add(LayerKind::Dense(d1)).is_ok());
    assert!(model.add(LayerKind::Activation(Activation::new(1, 3, Sig))).is_ok());
    let d2 = Dense::new(mat(vec![vec![0.7], vec![-0.6], vec![0.4]]), mat(vec![vec![-0.3]]));
    assert!(model.add(LayerKind::Dense(d2)).is_ok());
    assert!(model.add(LayerKind::Activation(Activation::new(1, 1, Sig))).is_ok());
    model
}

#[test]
fn build_accepts_chained_shapes() {
    let model = small_model();
    assert_eq!(model.layer_count(), 4);
    assert_eq!(model.input_rows(), 1);
    assert_eq!(model.input_cols(), 2);
    assert_eq!(model.output_rows(), 1);
    assert_eq!(model.output_cols(), 1);
}

#[test]
fn build_rejects_shape_mismatch() {
    let mut model: Model<F, LayerKind<F, Sig>, Logistics<F>> = Model::new(Logistics::new());
    let d1 = Dense::new(mat(vec![vec![0.1, 0.2], vec![0.3, 0.4]]), mat(vec![vec![0.0, 0.0]]));
    assert_eq!(model.add(LayerKind::Dense(d1)), Ok(()));
    // A layer expecting three columns cannot follow one producing two.
    let bad = Dense::new(mat(vec![vec![0.1], vec![0.2], vec![0.3]]), mat(vec![vec![0.0]]));
    assert_eq!(model.add(LayerKind::Dense(bad)), Err(BuildError::ShapeMismatch));
    // The pipeline is untouched and still accepts a matching layer.
    assert_eq!(model.layer_count(), 1);
    let good = Dense::new(mat(vec![vec![0.1], vec![0.2]]), mat(vec![vec![0.0]]));
    assert_eq!(model.add(LayerKind::Dense(good)), Ok(()));
    assert_eq!(model.layer_count(), 2);
    // An activation layer of the wrong width is rejected just the same.
    assert_eq!(
        model.add(LayerKind::Activation(Activation::new(1, 7, Sig))),
        Err(BuildError::ShapeMismatch)
    );
    assert_eq!(model.add(LayerKind::Activation(Activation::new(1, 1, Sig))), Ok(()));
}

#[test]
fn forward_output_has_declared_shape() {
    let mut model = small_model();
    let out = model.forward(mat(vec![vec![0.3, -0.7]]), true);
    assert_eq!(out.num_rows(), 1);
    assert_eq!(out.num_cols(), 1);
    let out = model.predict(mat(vec![vec![-1.0, 2.0]]));
    assert_eq!(out.num_rows(), 1);
    assert_eq!(out.num_cols(), 1);
}

#[test]
fn forward_is_deterministic_without_update() {
    let mut model = small_model();
    let a = model.forward(mat(vec![vec![0.3, -0.7]]), true);
    let b = model.forward(mat(vec![vec![0.3, -0.7]]), true);
    assert!(a.get(0, 0) == b.get(0, 0));
    let c = model.predict(mat(vec![vec![0.3, -0.7]]));
    assert!(a.get(0, 0) == c.get(0, 0));
}

#[test]
fn clear_twice_leaves_buffers_empty() {
    let mut dense = Dense::new(mat(vec![vec![0.2, -0.4], vec![0.5, 0.3]]), mat(vec![vec![
        0.05, -0.1,
    ]]));
    let _ = dense.forward(mat(vec![vec![1.0, -1.0]]), true);
    let _ = dense.backward(mat(vec![vec![0.3, 0.6]]));
    assert!(dense.w_grads_ref().is_some());
    assert!(dense.b_grads_ref().is_some());
    dense.clear();
    assert!(dense.w_grads_ref().is_none());
    assert!(dense.b_grads_ref().is_none());
    dense.clear();
    assert!(dense.w_grads_ref().is_none());
    assert!(dense.b_grads_ref().is_none());
}

#[test]
fn update_with_zero_rate_keeps_parameters() {
    let mut dense = Dense::new(mat(vec![vec![0.2, -0.4], vec![0.5, 0.3]]), mat(vec![vec![
        0.05, -0.1,
    ]]));
    let _ = dense.forward(mat(vec![vec![1.0, -1.0]]), true);
    let _ = dense.backward(mat(vec![vec![0.3, 0.6]]));
    let before_w = dense.weights_ref().duplicate();
    let before_b = dense.bias_ref().duplicate();
    dense.update(F(0.0));
    for i in 0..2 {
        for j in 0..2 {
            assert!(dense.weights_ref().get(i, j) == before_w.get(i, j));
        }
        assert!(dense.bias_ref().get(0, i) == before_b.get(0, i));
    }
}

#[test]
fn dense_forward_computes_affine_map() {
    let mut dense = Dense::new(mat(vec![vec![1.0, 2.0], vec![3.0, 4.0]]), mat(vec![vec![
        0.5, -0.5,
    ]]));
    let out = dense.forward(mat(vec![vec![1.0, -1.0]]), true);
    // out_j = sum_i input_i * w[i][j] + bias_j
    assert_eq!(out.get(0, 0).0, 1.0 * 1.0 + (-1.0) * 3.0 + 0.5);
    assert_eq!(out.get(0, 1).0, 1.0 * 2.0 + (-1.0) * 4.0 - 0.5);
}

#[test]
fn activation_applies_function_elementwise() {
    let mut act: Activation<F, Sig> = Activation::new(1, 2, Sig);
    let out = act.forward(mat(vec![vec![0.0, 0.0]]), true);
    assert_eq!(out.get(0, 0).0, 0.5);
    assert_eq!(out.get(0, 1).0, 0.5);
    // backward multiplies the incoming gradient by y * (1 - y) of the cached
    // output: 0.5 * 0.5 = 0.25.
    let g = act.backward(mat(vec![vec![1.0, -2.0]]));
    assert_eq!(g.get(0, 0).0, 0.25);
    assert_eq!(g.get(0, 1).0, -0.5);
}

#[test]
fn backward_and_update_apply_the_descent_step() {
    let mut dense = Dense::new(mat(vec![vec![1.0, 2.0], vec![3.0, 4.0]]), mat(vec![vec![
        0.0, 0.0,
    ]]));
    let _ = dense.forward(mat(vec![vec![1.0, 2.0]]), true);
    let g_in = dense.backward(mat(vec![vec![0.5, -1.0]]));
    // Input gradient: output gradient times the transposed weights.
    assert_eq!(g_in.get(0, 0).0, 0.5 * 1.0 + (-1.0) * 2.0);
    assert_eq!(g_in.get(0, 1).0, 0.5 * 3.0 + (-1.0) * 4.0);
    // Weight gradient: transposed input times the output gradient.
    let wg = dense.w_grads_ref().as_ref().unwrap().duplicate();
    assert_eq!(wg.get(0, 0).0, 0.5);
    assert_eq!(wg.get(0, 1).0, -1.0);
    assert_eq!(wg.get(1, 0).0, 1.0);
    assert_eq!(wg.get(1, 1).0, -2.0);
    let bg = dense.b_grads_ref().as_ref().unwrap().duplicate();
    assert_eq!(bg.get(0, 0).0, 0.5);
    assert_eq!(bg.get(0, 1).0, -1.0);
    // One descent step: parameter minus learning rate times gradient.
    dense.update(F(0.1));
    assert_eq!(dense.weights_ref().get(0, 0).0, 1.0 - 0.1 * 0.5);
    assert_eq!(dense.weights_ref().get(0, 1).0, 2.0 + 0.1 * 1.0);
    assert_eq!(dense.weights_ref().get(1, 0).0, 3.0 - 0.1 * 1.0);
    assert_eq!(dense.weights_ref().get(1, 1).0, 4.0 + 0.1 * 2.0);
    assert_eq!(dense.bias_ref().get(0, 0).0, 0.0 - 0.1 * 0.5);
    assert_eq!(dense.bias_ref().get(0, 1).0, 0.0 + 0.1 * 1.0);
}

#[test]
fn logistic_loss_matches_hand_computation() {
    let mut loss: Logistics<F> = Logistics::new();
    let v = loss.forward(&mat(vec![vec![0.5]]), &mat(vec![vec![1.0]])).unwrap();
    // -(1 * log2(0.5) + 0 * log2(0.5)) = 1.
    assert!((v.0 - 1.0).abs() < 1e-12);
    let v = loss.forward(&mat(vec![vec![0.25]]), &mat(vec![vec![0.0]])).unwrap();
    // -log2(0.75)
    assert!((v.0 - -(0.75f64.log2())).abs() < 1e-12);
}

#[test]
fn logistic_loss_rejects_boundary_predictions() {
    let mut loss: Logistics<F> = Logistics::new();
    assert_eq!(
        loss.forward(&mat(vec![vec![0.0]]), &mat(vec![vec![1.0]])),
        Err(LossError::InvalidPrediction)
    );
    assert_eq!(
        loss.forward(&mat(vec![vec![1.0]]), &mat(vec![vec![1.0]])),
        Err(LossError::InvalidPrediction)
    );
    assert_eq!(
        loss.forward(&mat(vec![vec![0.6, 1.0]]), &mat(vec![vec![1.0, 0.0]])),
        Err(LossError::InvalidPrediction)
    );
}

#[test]
fn loss_backward_matches_hand_computation() {
    let mut loss: Logistics<F> = Logistics::new();
    let _ = loss.forward(&mat(vec![vec![0.5]]), &mat(vec![vec![1.0]])).unwrap();
    let g = loss.backward();
    // log2(e) * ((1 - 1) / (1 - 0.5) - 1 / 0.5) = -2 * log2(e)
    assert!((g.get(0, 0).0 - -2.0 * std::f64::consts::LOG2_E).abs() < 1e-12);
}

#[test]
fn transpose_swaps_rows_and_columns() {
    let m = mat(vec![vec![1.0, 2.0, 3.0], vec![4.0, 5.0, 6.0]]);
    let t = m.transpose();
    assert_eq!(t.num_rows(), 3);
    assert_eq!(t.num_cols(), 2);
    for i in 0..2 {
        for j in 0..3 {
            assert!(t.get(j, i) == m.get(i, j));
        }
    }
}

#[test]
fn matrix_duplicate_copies_all_entries() {
    let m = mat(vec![vec![1.5, -2.5], vec![0.0, 7.25]]);
    let c = m.duplicate();
    assert_eq!(c.num_rows(), 2);
    assert_eq!(c.num_cols(), 2);
    for i in 0..2 {
        for j in 0..2 {
            assert!(c.get(i, j) == m.get(i, j));
        }
    }
}

#[test]
fn filled_matrix_holds_the_constant() {
    let m: Matrix<F> = Matrix::filled(2, 3, F(0.75));
    assert_eq!(m.num_rows(), 2);
    assert_eq!(m.num_cols(), 3);
    for i in 0..2 {
        for j in 0..3 {
            assert_eq!(m.get(i, j).0, 0.75);
        }
    }
}

#[test]
fn fit_returns_one_loss_per_step() {
    let mut model = small_model();
    let inputs = vec![mat(vec![vec![2.0, 2.0]]), mat(vec![vec![-1.0, 2.0]])];
    let targets = vec![mat(vec![vec![1.0]]), mat(vec![vec![0.0]])];
    let losses = model.fit(3, &inputs, &targets, F(0.1)).unwrap();
    assert_eq!(losses.len(), 6);
    // The pipeline keeps its stages: a dense layer still leads it, and its
    // shape is untouched by training.
    assert!(matches!(model.layer_at(0), LayerKind::Dense(_)));
    if let LayerKind::Dense(d) = model.layer_at(0) {
        assert_eq!(d.weights_ref().num_rows(), 2);
        assert_eq!(d.weights_ref().num_cols(), 3);
    }
}
