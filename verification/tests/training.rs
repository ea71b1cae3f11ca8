//! End-to-end training behaviour: gradient correctness against a
//! finite-difference estimate, loss decrease over training, and a small
//! separability scenario.

use network::func::Func;
use network::layer::{Activation, Dense, Layer, LayerKind};
use network::loss::{Logistics, Loss};
use network::matrix::Matrix;
use network::model::Model;
use network::num::Num;

/// Double-precision scalar for the pipeline.
#[derive(Clone, Copy, Debug, PartialEq)]
struct F(f64);

// The spec_* methods are the trait's specification-level counterparts; they
// are never called at run time and mirror the executable operations.
impl Num for F {
    fn spec_zero() -> F {
        F(0.0)
    }
    fn spec_one() -> F {
        F(1.0)
    }
    fn spec_log2_e() -> F {
        F(std::f64::consts::LOG2_E)
    }
    fn spec_add(self, other: F) -> F {
        F(self.0 + other.0)
    }
    fn spec_sub(self, other: F) -> F {
        F(self.0 - other.0)
    }
    fn spec_mul(self, other: F) -> F {
        F(self.0 * other.0)
    }
    fn spec_div(self, other: F) -> F {
        F(self.0 / other.0)
    }
    fn spec_neg(self) -> F {
        F(-self.0)
    }
    fn spec_log2(self) -> F {
        F(self.0.log2())
    }
    fn spec_is_zero(self) -> bool {
        self.0 == 0.0
    }
    fn spec_is_one(self) -> bool {
        self.0 == 1.0
    }
    fn zero() -> F {
        F(0.0)
    }
    fn one() -> F {
        F(1.0)
    }
    fn log2_e() -> F {
        F(std::f64::consts::LOG2_E)
    }
    fn add_val(self, other: F) -> F {
        F(self.0 + other.0)
    }
    fn sub_val(self, other: F) -> F {
        F(self.0 - other.0)
    }
    fn mul_val(self, other: F) -> F {
        F(self.0 * other.0)
    }
    fn div_val(self, other: F) -> F {
        F(self.0 / other.0)
    }
    fn neg_val(self) -> F {
        F(-self.0)
    }
    fn log2_val(self) -> F {
        F(self.0.log2())
    }
    fn is_zero(self) -> bool {
        self.0 == 0.0
    }
    fn is_one(self) -> bool {
        self.0 == 1.0
    }
}

/// The logistic sigmoid as an element-wise activation.
struct Sig;

impl Func<F> for Sig {
    fn spec_forward(&self, x: F) -> F {
        F(1.0 / (1.0 + (-x.0).exp()))
    }
    fn spec_backward(&self, y: F) -> F {
        F(y.0 * (1.0 - y.0))
    }
    fn forward(&self, x: F) -> F {
        F(1.0 / (1.0 + (-x.0).exp()))
    }
    fn backward(&self, y: F) -> F {
        F(y.0 * (1.0 - y.0))
    }
}

fn mat(rows: Vec<Vec<f64>>) -> Matrix<F> {
    let wrapped: Vec<Vec<F>> = rows.into_iter().map(|r| r.into_iter().map(F).collect()).collect();
    Matrix::from_rows(wrapped)
}

/// A small reproducible pseudo-random source for weight initialization,
/// uniform over [-1, 1).
fn draw(seed: &mut u64) -> f64 {
    *seed = seed.wrapping_mul(6364136223846793005).wrapping_add(1442695040888963407);
    ((*seed >> 33) as f64) / ((1u64 << 31) as f64) - 1.0
}

fn random_dense(seed: &mut u64, input: usize, output: usize) -> Dense<F> {
    let mut w: Vec<Vec<F>> = Vec::new();
    for _ in 0..input {
        let mut row: Vec<F> = Vec::new();
        for _ in 0..output {
            row.push(F(draw(seed)));
        }
        w.push(row);
    }
    let mut b: Vec<F> = Vec::new();
    for _ in 0..output {
        b.push(F(draw(seed)));
    }
    Dense::new(Matrix::from_rows(w), Matrix::from_rows(vec![b]))
}

fn two_five_one_model(seed: u64) -> Model<F, LayerKind<F, Sig>, Logistics<F>> {
    let mut s = seed;
    let mut model: Model<F, LayerKind<F, Sig>, Logistics<F>> = Model::new(Logistics::new());
    assert!(model.add(LayerKind::Dense(random_dense(&mut s, 2, 5))).is_ok());
    assert!(model.add(LayerKind::Activation(Activation::new(1, 5, Sig))).is_ok());
    assert!(model.add(LayerKind::Dense(random_dense(&mut s, 5, 1))).is_ok());
    assert!(model.add(LayerKind::Activation(Activation::new(1, 1, Sig))).is_ok());
    model
}

fn dataset() -> (Vec<Matrix<F>>, Vec<Matrix<F>>) {
    let inputs = vec![
        mat(vec![vec![2.0, 2.0]]),
        mat(vec![vec![-1.0, 2.0]]),
        mat(vec![vec![1.0, -2.2]]),
        mat(vec![vec![-2.3, -1.0]]),
    ];
    let targets = vec![
        mat(vec![vec![1.0]]),
        mat(vec![vec![0.0]]),
        mat(vec![vec![0.0]]),
        mat(vec![vec![1.0]]),
    ];
    (inputs, targets)
}

fn fixed_weights() -> Vec<Vec<f64>> {
    vec![vec![0.2, -0.4, 0.1], vec![0.5, 0.3, -0.2]]
}

fn fixed_bias() -> Vec<Vec<f64>> {
    vec![vec![0.05, -0.1, 0.2]]
}

fn fixed_input() -> Vec<Vec<f64>> {
    vec![vec![0.3, -0.7]]
}

fn fixed_target() -> Vec<Vec<f64>> {
    vec![vec![1.0, 0.0, 1.0]]
}

/// The loss of the Dense + Sigmoid pipeline above for a given weight matrix.
fn pipeline_loss(weights: Vec<Vec<f64>>) -> f64 {
    let mut dense = Dense::new(mat(weights), mat(fixed_bias()));
    let mut act: Activation<F, Sig> = Activation::new(1, 3, Sig);
    let mut loss: Logistics<F> = Logistics::new();
    let h = dense.forward(mat(fixed_input()), true);
    let p = act.forward(h, true);
    loss.forward(&p, &mat(fixed_target())).unwrap().0
}

#[test]
fn gradient_matches_finite_difference() {
    // Analytic weight gradient from one backward pass.
    let mut dense = Dense::new(mat(fixed_weights()), mat(fixed_bias()));
    let mut act: Activation<F, Sig> = Activation::new(1, 3, Sig);
    let mut loss: Logistics<F> = Logistics::new();
    let h = dense.forward(mat(fixed_input()), true);
    let p = act.forward(h, true);
    let _ = loss.forward(&p, &mat(fixed_target())).unwrap();
    let g = loss.backward();
    let g = act.backward(g);
    let _ = dense.backward(g);
    let analytic = dense.w_grads_ref().as_ref().unwrap().duplicate();

    // Centered finite differences of the loss, weight by weight.
    let h_step = 1e-5;
    for i in 0..2 {
        for j in 0..3 {
            let mut plus = fixed_weights();
            plus[i][j] += h_step;
            let mut minus = fixed_weights();
            minus[i][j] -= h_step;
            let estimate = (pipeline_loss(plus) - pipeline_loss(minus)) / (2.0 * h_step);
            let exact = analytic.get(i, j).0;
            assert!(
                (estimate - exact).abs() < 1e-4,
                "weight ({}, {}): finite difference {} vs analytic {}",
                i,
                j,
                estimate,
                exact
            );
        }
    }
}

#[test]
fn training_reduces_mean_loss() {
    let mut model = two_five_one_model(42);
    let (inputs, targets) = dataset();
    let losses = model.fit(1000, &inputs, &targets, F(0.5)).unwrap();
    assert_eq!(losses.len(), 4000);
    let first: f64 = losses[..4].iter().map(|l| l.0).sum::<f64>() / 4.0;
    let last: f64 = losses[3996..].iter().map(|l| l.0).sum::<f64>() / 4.0;
    assert!(
        last < first,
        "mean loss of the last epoch ({}) should be below the first ({})",
        last,
        first
    );
}

#[test]
fn trained_pipeline_separates_the_examples() {
    let mut model = two_five_one_model(42);
    let (inputs, targets) = dataset();
    model.fit(1000, &inputs, &targets, F(0.5)).unwrap();
    let mut correct = 0;
    for k in 0..4 {
        let out = model.predict(inputs[k].duplicate());
        let v = out.get(0, 0).0;
        assert!(0.0 < v && v < 1.0, "prediction {} out of (0, 1)", v);
        let rounded = if v >= 0.5 { 1.0 } else { 0.0 };
        if rounded == targets[k].get(0, 0).0 {
            correct += 1;
        }
    }
    assert!(correct >= 3, "only {} of 4 examples classified correctly", correct);
}
