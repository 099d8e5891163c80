use vstd::prelude::*;
use crate::hook::{HookFn, InputHandleOp, ParamKind};
use crate::plan::WireItem;

verus! {

/// The declaration of the driver's kernel launch (`cuLaunchKernel`, call
/// 918): asynchronous; the function and the stream are handles it uses,
/// the grid and block sizes and the shared memory size are plain values,
/// the kernel's parameters do not travel as such, and the extra options
/// must be null.
pub fn cu_launch_kernel_hook() -> (h: HookFn)
    ensures
        h.proc_id == 918,
        h.is_async_api == Some(true),
        h.min_cuda_version == 0,
        h.max_cuda_version == 0,
        h.params@ == seq![
            ParamKind::InputHandle(InputHandleOp::Use),
            ParamKind::InputValue,
            ParamKind::InputValue,
            ParamKind::InputValue,
            ParamKind::InputValue,
            ParamKind::InputValue,
            ParamKind::InputValue,
            ParamKind::InputValue,
            ParamKind::InputHandle(InputHandleOp::Use),
            ParamKind::Skip,
            ParamKind::Const,
        ],
{
    let params = vec![
        ParamKind::InputHandle(InputHandleOp::Use),
        ParamKind::InputValue,
        ParamKind::InputValue,
        ParamKind::InputValue,
        ParamKind::InputValue,
        ParamKind::InputValue,
        ParamKind::InputValue,
        ParamKind::InputValue,
        ParamKind::InputHandle(InputHandleOp::Use),
        ParamKind::Skip,
        ParamKind::Const,
    ];
    HookFn { proc_id: 918, is_async_api: Some(true), min_cuda_version: 0, max_cuda_version: 0, params }
}

/// What the kernel launch sends beyond its parameters: the kernel's
/// arguments, packed by `pack_kernel_args`, as one array; the server's
/// stub receives the same.
pub fn cu_launch_kernel_extra() -> (e: Vec<WireItem>)
    ensures
        e@ == seq![WireItem::Slice],
{
    vec![WireItem::Slice]
}

} // verus!
