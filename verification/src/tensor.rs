use candle_core::{DType, Device, Module, Tensor};
use candle_nn::{AdamW, Linear, Optimizer, ParamsAdamW, VarBuilder, VarMap};
use vstd::prelude::*;

verus! {

// The differentiable-computation library's values are opaque here: the
// library's own logic never depends on what a tensor holds, only on the
// protocol around the calls. Each wrapper makes exactly one bundle of
// calls and converts values; nothing about tensor contents is assumed.
#[verifier::external_type_specification]
#[verifier::external_body]
pub struct ExTensor(Tensor);

#[verifier::external_type_specification]
#[verifier::external_body]
pub struct ExDevice(Device);

#[verifier::external_type_specification]
#[verifier::external_body]
pub struct ExError(candle_core::Error);

#[verifier::external_type_specification]
#[verifier::external_body]
pub struct ExVarMap(VarMap);

#[verifier::external_type_specification]
#[verifier::external_body]
pub struct ExAdamW(AdamW);

#[verifier::external_type_specification]
#[verifier::external_body]
pub struct ExLinear(Linear);

/// Relies on candle's `Device::Cpu`: the in-process compute device.
#[verifier::external_body]
pub(crate) fn cpu_device() -> Device {
    Device::Cpu
}

/// Relies on candle's `VarMap::new`: an empty, growable parameter set.
#[verifier::external_body]
pub(crate) fn new_varmap() -> VarMap {
    VarMap::new()
}

/// Relies on candle's `VarBuilder::from_varmap`, `VarBuilder::pp` and
/// `candle_nn::linear`: creates (or reuses) the weight and bias of one
/// fully connected layer under `name` inside the given parameter set.
#[verifier::external_body]
pub(crate) fn make_linear(vm: &VarMap, dev: &Device, in_dim: usize, out_dim: usize, name: &str)
    -> Result<Linear, candle_core::Error> {
    let vb = VarBuilder::from_varmap(vm, DType::F64, dev);
    candle_nn::linear(in_dim, out_dim, vb.pp(name))
}

/// Relies on candle's `AdamW::new` over `VarMap::all_vars`, with
/// `ParamsAdamW::default()` (its default learning rate is 0.001).
#[verifier::external_body]
pub(crate) fn new_adamw(vm: &VarMap) -> Result<AdamW, candle_core::Error> {
    AdamW::new(vm.all_vars(), ParamsAdamW::default())
}

/// Relies on candle's `Module::forward` for `Linear`: one affine layer.
#[verifier::external_body]
pub(crate) fn linear_forward(l: &Linear, x: &Tensor) -> Result<Tensor, candle_core::Error> {
    l.forward(x)
}

/// Relies on candle's `Tensor::relu`.
#[verifier::external_body]
pub(crate) fn tensor_relu(x: &Tensor) -> Result<Tensor, candle_core::Error> {
    x.relu()
}

/// Relies on candle's `Tensor::from_vec` and `Tensor::to_dtype`: a
/// `rows` by `cols` matrix of real values taken one for one from the
/// given integers.
#[verifier::external_body]
pub(crate) fn real_matrix(vals: Vec<i64>, rows: usize, cols: usize, dev: &Device) -> Result<
    Tensor,
    candle_core::Error,
> {
    Tensor::from_vec(vals, (rows, cols), dev)?.to_dtype(DType::F64)
}

/// Relies on candle's `Tensor::from_vec`: a `rows` by `cols` matrix of
/// integer indices, kept in an integer element type for gathering.
#[verifier::external_body]
pub(crate) fn index_matrix(vals: Vec<u32>, rows: usize, cols: usize, dev: &Device) -> Result<
    Tensor,
    candle_core::Error,
> {
    Tensor::from_vec(vals, (rows, cols), dev)
}

/// Relies on candle's `Tensor::new` and `Tensor::to_dtype`: a scalar
/// real tensor with the given value.
#[verifier::external_body]
pub(crate) fn scalar_real(v: u32, dev: &Device) -> Result<Tensor, candle_core::Error> {
    Tensor::new(v, dev)?.to_dtype(DType::F64)
}

/// Relies on candle's `Tensor::broadcast_div`.
#[verifier::external_body]
pub(crate) fn tensor_div(a: &Tensor, b: &Tensor) -> Result<Tensor, candle_core::Error> {
    a.broadcast_div(b)
}

/// Relies on candle's `Tensor::broadcast_mul`.
#[verifier::external_body]
pub(crate) fn tensor_mul_broadcast(a: &Tensor, b: &Tensor) -> Result<Tensor, candle_core::Error> {
    a.broadcast_mul(b)
}

/// Relies on candle's elementwise multiplication of same-shape tensors.
#[verifier::external_body]
pub(crate) fn tensor_mul(a: &Tensor, b: &Tensor) -> Result<Tensor, candle_core::Error> {
    a * b
}

/// Relies on candle's elementwise addition of same-shape tensors.
#[verifier::external_body]
pub(crate) fn tensor_add(a: &Tensor, b: &Tensor) -> Result<Tensor, candle_core::Error> {
    a + b
}

/// Relies on candle's elementwise subtraction of same-shape tensors.
#[verifier::external_body]
pub(crate) fn tensor_sub(a: &Tensor, b: &Tensor) -> Result<Tensor, candle_core::Error> {
    a - b
}

/// Relies on candle's `Tensor::sqr`.
#[verifier::external_body]
pub(crate) fn tensor_sqr(a: &Tensor) -> Result<Tensor, candle_core::Error> {
    a.sqr()
}

/// Relies on candle's `Tensor::mean_all`.
#[verifier::external_body]
pub(crate) fn tensor_mean_all(a: &Tensor) -> Result<Tensor, candle_core::Error> {
    a.mean_all()
}

/// Relies on candle's `Tensor::detach`: the same values, cut off from
/// gradient computation so no gradient flows through them.
#[verifier::external_body]
pub(crate) fn tensor_detach(a: &Tensor) -> Tensor {
    a.detach()
}

/// Relies on candle's `Tensor::max` over one row dimension and
/// `Tensor::reshape`: the per-row maximum as a `rows` by 1 column.
#[verifier::external_body]
pub(crate) fn row_max(t: &Tensor, rows: usize) -> Result<Tensor, candle_core::Error> {
    t.max(1)?.reshape((rows, 1))
}

/// Relies on candle's `Tensor::gather` along the column dimension: the
/// per-row entry selected by the index column.
#[verifier::external_body]
pub(crate) fn gather_actions(q: &Tensor, idx: &Tensor) -> Result<Tensor, candle_core::Error> {
    q.gather(idx, 1)
}

/// Relies on candle's `Tensor::argmax` over the column dimension and
/// `Tensor::to_vec1`: the per-row index of the first maximum (candle's
/// reduction keeps the earliest index on ties).
#[verifier::external_body]
pub(crate) fn argmax_rows(t: &Tensor) -> Result<Vec<u32>, candle_core::Error> {
    t.argmax(1)?.to_vec1::<u32>()
}

/// Relies on candle's `Optimizer::backward_step` for `AdamW`: computes
/// gradients of the loss and applies one update to the variables the
/// optimizer was built over — and to nothing else.
#[verifier::external_body]
pub(crate) fn opt_backward_step(opt: &mut AdamW, loss: &Tensor) -> Result<
    (),
    candle_core::Error,
> {
    opt.backward_step(loss)
}

/// Relies on candle's `VarMap::data` and `Var::set`: copies every
/// parameter of `src` into the equally named parameter of `dst` — a
/// hard, full snapshot.
#[verifier::external_body]
pub(crate) fn copy_vars(src: &VarMap, dst: &mut VarMap) -> Result<(), candle_core::Error> {
    let src_lock = src.data().lock().unwrap();
    let mut dst_lock = dst.data().lock().unwrap();
    for (name, src_var) in src_lock.iter() {
        if let Some(dst_var) = dst_lock.get_mut(name) {
            dst_var.set(src_var.as_tensor())?;
        }
    }
    Ok(())
}

/// Relies on std's formatting of candle's error type.
#[verifier::external_body]
pub(crate) fn error_text(e: &candle_core::Error) -> String {
    format!("{}", e)
}

} // verus!
