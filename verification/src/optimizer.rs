//! The optimizer-step family: its variants, the marshalled arguments of a
//! call, and the step counter that successive calls advance.

use vstd::prelude::*;
use crate::error::{Buffer, HarnessError};
use crate::marshal::{device_long, spec_device_long};

verus! {

/// The registered variants of the optimizer-step family.
#[derive(Clone, Copy, Debug, PartialEq, Eq, Structural)]
pub enum OptimizerKernel {
    /// Identifier 1: the straightforward variant.
    Naive,
    /// Identifier 2: the variant with fused moment updates.
    Fused,
}

impl OptimizerKernel {
    /// The identifier that selects this variant.
    pub open spec fn spec_id(self) -> i32 {
        match self {
            OptimizerKernel::Naive => 1,
            OptimizerKernel::Fused => 2,
        }
    }

    /// The variant that an identifier selects.
    pub open spec fn spec_from_id(id: i32) -> Result<OptimizerKernel, HarnessError> {
        if id == 1 {
            Ok(OptimizerKernel::Naive)
        } else if id == 2 {
            Ok(OptimizerKernel::Fused)
        } else {
            Err(HarnessError::UnsupportedKernel)
        }
    }

    /// The identifier that selects this variant.
    pub fn id(&self) -> (r: i32)
        ensures
            r == self.spec_id(),
    {
        match self {
            OptimizerKernel::Naive => 1,
            OptimizerKernel::Fused => 2,
        }
    }

    /// Looks an identifier up; one outside `1..=2` is unsupported.
    pub fn from_id(id: i32) -> (r: Result<OptimizerKernel, HarnessError>)
        ensures
            r == Self::spec_from_id(id),
            r is Ok <==> 1 <= id <= 2,
    {
        if id == 1 {
            Ok(OptimizerKernel::Naive)
        } else if id == 2 {
            Ok(OptimizerKernel::Fused)
        } else {
            Err(HarnessError::UnsupportedKernel)
        }
    }
}

/// Looking up a variant's own identifier gives that variant, and a lookup
/// that succeeds gives a variant with the identifier asked for.
pub proof fn lemma_optimizer_kernel_ids(kernel: OptimizerKernel, id: i32)
    ensures
        OptimizerKernel::spec_from_id(kernel.spec_id()) == Ok::<OptimizerKernel, HarnessError>(
            kernel,
        ),
        OptimizerKernel::spec_from_id(id) is Ok ==> OptimizerKernel::spec_from_id(
            id,
        )->Ok_0.spec_id() == id,
{
}

/// The marshalled integer arguments of one optimizer-step call.
#[derive(Clone, Copy, Debug, PartialEq, Eq, Structural)]
pub struct OptimizerCall {
    pub kernel: OptimizerKernel,
    /// The time step `t`, counted from one.
    pub step: i32,
    pub num_parameters: i64,
}

/// The first of the four buffers, in the order parameters, gradients, first
/// moment, second moment, whose length is not the parameter count. A count
/// of zero is rejected before any buffer is looked at.
pub open spec fn spec_check_optimizer_buffers(
    num_parameters: usize,
    params_len: int,
    grads_len: int,
    m_len: int,
    v_len: int,
) -> Result<(), HarnessError> {
    if num_parameters == 0 {
        Err(HarnessError::EmptyDimension)
    } else if params_len != num_parameters {
        Err(HarnessError::LengthMismatch(Buffer::Params))
    } else if grads_len != num_parameters {
        Err(HarnessError::LengthMismatch(Buffer::Grads))
    } else if m_len != num_parameters {
        Err(HarnessError::LengthMismatch(Buffer::FirstMoment))
    } else if v_len != num_parameters {
        Err(HarnessError::LengthMismatch(Buffer::SecondMoment))
    } else {
        Ok(())
    }
}

/// Holds the four buffer lengths of an optimizer call against the parameter
/// count.
pub fn check_optimizer_buffers(
    num_parameters: usize,
    params_len: usize,
    grads_len: usize,
    m_len: usize,
    v_len: usize,
) -> (r: Result<(), HarnessError>)
    ensures
        r == spec_check_optimizer_buffers(
            num_parameters,
            params_len as int,
            grads_len as int,
            m_len as int,
            v_len as int,
        ),
{
    if num_parameters == 0 {
        Err(HarnessError::EmptyDimension)
    } else if params_len != num_parameters {
        Err(HarnessError::LengthMismatch(Buffer::Params))
    } else if grads_len != num_parameters {
        Err(HarnessError::LengthMismatch(Buffer::Grads))
    } else if m_len != num_parameters {
        Err(HarnessError::LengthMismatch(Buffer::FirstMoment))
    } else if v_len != num_parameters {
        Err(HarnessError::LengthMismatch(Buffer::SecondMoment))
    } else {
        Ok(())
    }
}

/// The call that `plan_optimizer_step` prepares, or the reason it prepares
/// none. The identifier is looked up first, then the buffers are held
/// against the parameter count, then the step is checked, then the count is
/// converted.
pub open spec fn spec_plan_optimizer_step(
    kernel_id: i32,
    params_len: int,
    grads_len: int,
    m_len: int,
    v_len: int,
    step: i32,
    num_parameters: usize,
) -> Result<OptimizerCall, HarnessError> {
    let buffers = spec_check_optimizer_buffers(
        num_parameters,
        params_len,
        grads_len,
        m_len,
        v_len,
    );
    if OptimizerKernel::spec_from_id(kernel_id) is Err {
        Err(HarnessError::UnsupportedKernel)
    } else if buffers is Err {
        Err(buffers->Err_0)
    } else if step < 1 {
        Err(HarnessError::InvalidStep)
    } else if spec_device_long(num_parameters) is Err {
        Err(HarnessError::DimensionTooLarge)
    } else {
        Ok(
            OptimizerCall {
                kernel: OptimizerKernel::spec_from_id(kernel_id)->Ok_0,
                step,
                num_parameters: num_parameters as i64,
            },
        )
    }
}

/// An identifier outside the family is refused whatever the other arguments
/// are.
pub proof fn lemma_unregistered_optimizer_kernel_is_refused(
    kernel_id: i32,
    params_len: int,
    grads_len: int,
    m_len: int,
    v_len: int,
    step: i32,
    num_parameters: usize,
)
    requires
        !(1 <= kernel_id <= 2),
    ensures
        spec_plan_optimizer_step(
            kernel_id,
            params_len,
            grads_len,
            m_len,
            v_len,
            step,
            num_parameters,
        ) == Err::<OptimizerCall, HarnessError>(HarnessError::UnsupportedKernel),
{
}

/// Prepares an optimizer-step call: selects the variant, holds the buffers
/// against the parameter count and converts the count to the integer that
/// the device takes. Nothing is written and no device code runs.
pub fn plan_optimizer_step(
    kernel_id: i32,
    params_len: usize,
    grads_len: usize,
    m_len: usize,
    v_len: usize,
    step: i32,
    num_parameters: usize,
) -> (r: Result<OptimizerCall, HarnessError>)
    ensures
        r == spec_plan_optimizer_step(
            kernel_id,
            params_len as int,
            grads_len as int,
            m_len as int,
            v_len as int,
            step,
            num_parameters,
        ),
{
    let kernel = match OptimizerKernel::from_id(kernel_id) {
        Ok(kernel) => kernel,
        Err(e) => { return Err(e); },
    };
    match check_optimizer_buffers(num_parameters, params_len, grads_len, m_len, v_len) {
        Ok(()) => {},
        Err(e) => { return Err(e); },
    }
    if step < 1 {
        return Err(HarnessError::InvalidStep);
    }
    let count = match device_long(num_parameters) {
        Ok(v) => v,
        Err(e) => { return Err(e); },
    };
    Ok(OptimizerCall { kernel, step, num_parameters: count })
}

/// The step counter of one optimizer state across repeated calls: the calls
/// it hands out carry the steps 1, 2, 3, and so on.
#[derive(Clone, Copy, Debug)]
pub struct OptimizerSession {
    num_parameters: usize,
    issued: i32,
}

impl OptimizerSession {
    #[verifier::type_invariant]
    spec fn inv(self) -> bool {
        self.issued >= 0
    }

    /// The parameter count of the state.
    pub closed spec fn spec_num_parameters(&self) -> usize {
        self.num_parameters
    }

    /// How many calls have been handed out.
    pub closed spec fn spec_issued(&self) -> i32 {
        self.issued
    }

    /// A session on `num_parameters` parameters from which no call has been
    /// handed out.
    pub fn new(num_parameters: usize) -> (session: OptimizerSession)
        ensures
            session.issued() == 0,
            session.num_parameters() == num_parameters,
    {
        OptimizerSession { num_parameters, issued: 0 }
    }

    /// The parameter count of the state.
    #[verifier::when_used_as_spec(spec_num_parameters)]
    pub fn num_parameters(&self) -> (r: usize)
        ensures
            r == self.spec_num_parameters(),
    {
        self.num_parameters
    }

    /// How many calls have been handed out.
    #[verifier::when_used_as_spec(spec_issued)]
    pub fn issued(&self) -> (r: i32)
        ensures
            r == self.spec_issued(),
            r >= 0,
    {
        proof {
            use_type_invariant(self);
        }
        self.issued
    }

    /// What `next_call` returns in a session that has handed out `issued`
    /// calls: the plan for step `issued + 1`, or `InvalidStep` once the
    /// counter is exhausted.
    pub open spec fn spec_next_call(
        issued: i32,
        num_parameters: usize,
        kernel_id: i32,
        params_len: int,
        grads_len: int,
        m_len: int,
        v_len: int,
    ) -> Result<OptimizerCall, HarnessError> {
        if issued == i32::MAX {
            Err(HarnessError::InvalidStep)
        } else {
            spec_plan_optimizer_step(
                kernel_id,
                params_len,
                grads_len,
                m_len,
                v_len,
                (issued + 1) as i32,
                num_parameters,
            )
        }
    }

    /// Prepares the next call on this state. A call that is prepared carries
    /// the step after the last one and advances the counter by one; a call
    /// that is refused leaves the counter as it was.
    pub fn next_call(
        &mut self,
        kernel_id: i32,
        params_len: usize,
        grads_len: usize,
        m_len: usize,
        v_len: usize,
    ) -> (r: Result<OptimizerCall, HarnessError>)
        ensures
            r == Self::spec_next_call(
                old(self).issued(),
                old(self).num_parameters(),
                kernel_id,
                params_len as int,
                grads_len as int,
                m_len as int,
                v_len as int,
            ),
            final(self).num_parameters() == old(self).num_parameters(),
            r is Ok ==> final(self).issued() == old(self).issued() + 1,
            r is Ok ==> r->Ok_0.step == old(self).issued() + 1,
            r is Err ==> final(self).issued() == old(self).issued(),
    {
        proof {
            use_type_invariant(&*self);
        }
        if self.issued == i32::MAX {
            return Err(HarnessError::InvalidStep);
        }
        let step: i32 = self.issued + 1;
        match plan_optimizer_step(
            kernel_id,
            params_len,
            grads_len,
            m_len,
            v_len,
            step,
            self.num_parameters,
        ) {
            Ok(call) => {
                self.issued = step;
                Ok(call)
            },
            Err(e) => Err(e),
        }
    }
}

} // verus!
