//! The kernel families, their registered variants, and the marshalled
//! arguments of a call to one of them.

use vstd::prelude::*;
use crate::error::HarnessError;
use crate::marshal::device_int;
use crate::shape::WorkloadShape;

verus! {

/// The registered variants of the linear-forward family.
#[derive(Clone, Copy, Debug, PartialEq, Eq, Structural)]
pub enum LinearKernel {
    /// Identifier 1: the naive variant.
    Naive,
    /// Identifier 2: the tiled variant.
    Tiled,
    /// Identifier 3: the variant backed by the vendor's matrix library.
    Library,
}

impl LinearKernel {
    /// The identifier that selects this variant.
    pub open spec fn spec_id(self) -> i32 {
        match self {
            LinearKernel::Naive => 1,
            LinearKernel::Tiled => 2,
            LinearKernel::Library => 3,
        }
    }

    /// The variant that an identifier selects.
    pub open spec fn spec_from_id(id: i32) -> Result<LinearKernel, HarnessError> {
        if id == 1 {
            Ok(LinearKernel::Naive)
        } else if id == 2 {
            Ok(LinearKernel::Tiled)
        } else if id == 3 {
            Ok(LinearKernel::Library)
        } else {
            Err(HarnessError::UnsupportedKernel)
        }
    }

    /// The identifier that selects this variant.
    pub fn id(&self) -> (r: i32)
        ensures
            r == self.spec_id(),
    {
        match self {
            LinearKernel::Naive => 1,
            LinearKernel::Tiled => 2,
            LinearKernel::Library => 3,
        }
    }

    /// Looks an identifier up; one outside `1..=3` is unsupported.
    pub fn from_id(id: i32) -> (r: Result<LinearKernel, HarnessError>)
        ensures
            r == Self::spec_from_id(id),
            r is Ok <==> 1 <= id <= 3,
    {
        if id == 1 {
            Ok(LinearKernel::Naive)
        } else if id == 2 {
            Ok(LinearKernel::Tiled)
        } else if id == 3 {
            Ok(LinearKernel::Library)
        } else {
            Err(HarnessError::UnsupportedKernel)
        }
    }
}

/// Looking up a variant's own identifier gives that variant, and a lookup
/// that succeeds gives a variant with the identifier asked for.
pub proof fn lemma_linear_kernel_ids(kernel: LinearKernel, id: i32)
    ensures
        LinearKernel::spec_from_id(kernel.spec_id()) == Ok::<LinearKernel, HarnessError>(kernel),
        LinearKernel::spec_from_id(id) is Ok ==> LinearKernel::spec_from_id(id)->Ok_0.spec_id()
            == id,
{
}

/// The marshalled arguments of one linear-forward call.
#[derive(Clone, Copy, Debug, PartialEq, Eq, Structural)]
pub struct LinearCall {
    pub kernel: LinearKernel,
    pub batch: i32,
    pub seq_len: i32,
    pub channels: i32,
    pub out_channels: i32,
    pub tuning: i32,
}

/// The call that `plan_linear_forward` prepares, or the reason it prepares
/// none. The identifier is looked up first, then the buffers are held
/// against the shape, then the sizes are converted.
pub open spec fn spec_plan_linear_forward(
    kernel_id: i32,
    out_len: int,
    inp_len: int,
    weight_len: int,
    bias_len: int,
    shape: WorkloadShape,
    tuning: usize,
) -> Result<LinearCall, HarnessError> {
    if LinearKernel::spec_from_id(kernel_id) is Err {
        Err(HarnessError::UnsupportedKernel)
    } else if shape.spec_check_buffers(out_len, inp_len, weight_len, bias_len) is Err {
        Err(shape.spec_check_buffers(out_len, inp_len, weight_len, bias_len)->Err_0)
    } else if shape.batch() > i32::MAX || shape.seq_len() > i32::MAX || shape.channels()
        > i32::MAX || shape.out_channels() > i32::MAX || tuning > i32::MAX {
        Err(HarnessError::DimensionTooLarge)
    } else {
        Ok(
            LinearCall {
                kernel: LinearKernel::spec_from_id(kernel_id)->Ok_0,
                batch: shape.batch() as i32,
                seq_len: shape.seq_len() as i32,
                channels: shape.channels() as i32,
                out_channels: shape.out_channels() as i32,
                tuning: tuning as i32,
            },
        )
    }
}

/// An identifier outside the family is refused whatever the other arguments
/// are.
pub proof fn lemma_unregistered_linear_kernel_is_refused(
    kernel_id: i32,
    out_len: int,
    inp_len: int,
    weight_len: int,
    bias_len: int,
    shape: WorkloadShape,
    tuning: usize,
)
    requires
        !(1 <= kernel_id <= 3),
    ensures
        spec_plan_linear_forward(kernel_id, out_len, inp_len, weight_len, bias_len, shape, tuning)
            == Err::<LinearCall, HarnessError>(HarnessError::UnsupportedKernel),
{
}

/// Prepares a linear-forward call: selects the variant and converts the
/// shape and the tuning value to the integers that the device takes.
/// Nothing is written and no device code runs.
pub fn plan_linear_forward(
    kernel_id: i32,
    out_len: usize,
    inp_len: usize,
    weight_len: usize,
    bias_len: usize,
    shape: &WorkloadShape,
    tuning: usize,
) -> (r: Result<LinearCall, HarnessError>)
    ensures
        r == spec_plan_linear_forward(
            kernel_id,
            out_len as int,
            inp_len as int,
            weight_len as int,
            bias_len as int,
            *shape,
            tuning,
        ),
{
    let kernel = match LinearKernel::from_id(kernel_id) {
        Ok(kernel) => kernel,
        Err(e) => { return Err(e); },
    };
    match shape.check_buffers(out_len, inp_len, weight_len, bias_len) {
        Ok(()) => {},
        Err(e) => { return Err(e); },
    }
    let batch = match device_int(shape.batch()) {
        Ok(v) => v,
        Err(e) => { return Err(e); },
    };
    let seq_len = match device_int(shape.seq_len()) {
        Ok(v) => v,
        Err(e) => { return Err(e); },
    };
    let channels = match device_int(shape.channels()) {
        Ok(v) => v,
        Err(e) => { return Err(e); },
    };
    let out_channels = match device_int(shape.out_channels()) {
        Ok(v) => v,
        Err(e) => { return Err(e); },
    };
    let tuning = match device_int(tuning) {
        Ok(v) => v,
        Err(e) => { return Err(e); },
    };
    Ok(LinearCall { kernel, batch, seq_len, channels, out_channels, tuning })
}

} // verus!
