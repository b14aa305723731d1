use crate::tensor::{linear_forward, make_linear, tensor_relu};
use candle_core::{Device, Tensor};
use candle_nn::{Linear, VarMap};
use vstd::prelude::*;

verus! {

/// A three-layer fully connected value network. Its numerical behaviour
/// is delegated entirely to the differentiable-computation library; this
/// module only fixes which layers exist and in which order they are
/// applied, with one rectifier between consecutive layers.
pub struct QNet {
    fc1: Linear,
    fc2: Linear,
    fc3: Linear,
}

impl QNet {
    /// Creates the three layers inside `vm`, under the names `fc1`,
    /// `fc2` and `fc3`.
    pub fn new(in_dim: usize, hidden_dim: usize, out_dim: usize, vm: &VarMap, dev: &Device) -> (r:
        Result<QNet, candle_core::Error>) {
        let fc1 = make_linear(vm, dev, in_dim, hidden_dim, "fc1")?;
        let fc2 = make_linear(vm, dev, hidden_dim, hidden_dim, "fc2")?;
        let fc3 = make_linear(vm, dev, hidden_dim, out_dim, "fc3")?;
        Ok(QNet { fc1, fc2, fc3 })
    }

    /// The forward pass: affine, rectify, affine, rectify, affine.
    pub fn forward(&self, xs: &Tensor) -> (r: Result<Tensor, candle_core::Error>) {
        let xs = linear_forward(&self.fc1, xs)?;
        let xs = tensor_relu(&xs)?;
        let xs = linear_forward(&self.fc2, &xs)?;
        let xs = tensor_relu(&xs)?;
        linear_forward(&self.fc3, &xs)
    }
}

} // verus!
