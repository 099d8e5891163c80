use phos_remoting::hook::{HookFn, InputHandleOp, ParamKind, ReturnShape};
use phos_remoting::plan::{ClientRecv, ClientSend, ServerRecv, ServerSend};
use phos_remoting::cuda::{cu_launch_kernel_extra, cu_launch_kernel_hook};
use phos_remoting::plan::WireItem;
use phos_remoting::stub::{
    call_args, client_linkage, client_stub, output_alloc_len, output_reply, saves_args,
    server_callee, server_stub, CallArg, Callee, ClientStep, Linkage, ServerAlloc, ServerStep,
};

fn cuda_result() -> ReturnShape {
    ReturnShape::Type { last_seg: Some("CUresult".to_string()) }
}

#[test]
fn output_array_with_cap_is_allocated_by_cap_and_sent_by_len() {
    let kind = ParamKind::OutputArrayPtr { is_void_ptr: false, has_cap: true };
    assert_eq!(output_alloc_len(kind, 3, 8), 8);
    let buf = [1, 2, 3, 4, 5, 6, 7, 8];
    assert_eq!(output_reply(kind, &buf, 3), vec![1, 2, 3]);
    let plain = ParamKind::OutputArrayPtr { is_void_ptr: false, has_cap: false };
    assert_eq!(output_alloc_len(plain, 3, 8), 3);
    assert_eq!(output_reply(plain, &buf[..3], 3), vec![1, 2, 3]);
}

#[test]
fn call_arguments_follow_parameters() {
    let params = [
        ParamKind::InputHandle(InputHandleOp::Use),
        ParamKind::Skip,
        ParamKind::InputArrayPtr { is_void_ptr: true },
        ParamKind::Const,
        ParamKind::InputSinglePtr,
        ParamKind::OutputSinglePtr,
    ];
    let hacked = [false, false, false, false, true, false];
    assert_eq!(
        call_args(&params, &hacked),
        vec![CallArg::Value, CallArg::CastPointer, CallArg::DeclaredValue, CallArg::CastPointer, CallArg::Pointer]
    );
}

#[test]
fn arguments_are_saved_only_when_checkpointing_shadowed_handle_changes() {
    assert!(saves_args(true, true, true, false));
    assert!(saves_args(true, true, false, true));
    assert!(!saves_args(true, true, false, false));
    assert!(!saves_args(false, true, true, true));
    assert!(!saves_args(true, false, true, true));
}

#[test]
fn stubs_of_a_call_with_an_output_array() {
    let params = vec![
        ParamKind::OutputArrayPtr { is_void_ptr: false, has_cap: true },
        ParamKind::InputValue,
        ParamKind::InputValue,
    ];
    let hook = HookFn::new(7, None, 0, 0, params, &cuda_result(), false).unwrap();
    let client = client_stub(&hook, &[false, false, false], &[], true, true);
    assert_eq!(
        client,
        vec![
            ClientStep::BeforeCall,
            ClientStep::SendProcId,
            ClientStep::Send(ClientSend::Nothing),
            ClientStep::Send(ClientSend::Send),
            ClientStep::Send(ClientSend::Send),
            ClientStep::FinishSend,
            ClientStep::Recv(ClientRecv::RecvMutSlice),
            ClientStep::RecvResult,
            ClientStep::FinishRecv,
            ClientStep::AfterCall,
        ]
    );
    let server = server_stub(&hook, &[], true, true, true);
    assert_eq!(
        server,
        vec![
            ServerStep::BeforeCall,
            ServerStep::BeginRecv { save: false },
            ServerStep::Recv(ServerRecv::Nothing),
            ServerStep::Recv(ServerRecv::Recv),
            ServerStep::Recv(ServerRecv::Recv),
            ServerStep::FinishRecv,
            ServerStep::Alloc(ServerAlloc::Array { by_cap: true }),
            ServerStep::Call,
            ServerStep::BeginSend,
            ServerStep::Send(ServerSend::SendSlicePrefix),
            ServerStep::SendResult,
            ServerStep::FinishSend,
        ]
    );
}

#[test]
fn stubs_of_a_shadowed_create() {
    let params = vec![ParamKind::OutputHandle, ParamKind::InputValue];
    let hook = HookFn::new(9, None, 0, 0, params, &cuda_result(), false).unwrap();
    let client = client_stub(&hook, &[false, false], &[], true, false);
    assert_eq!(
        client,
        vec![
            ClientStep::BeforeCall,
            ClientStep::SendProcId,
            ClientStep::Send(ClientSend::SendHandle),
            ClientStep::Send(ClientSend::Send),
            ClientStep::FinishSend,
            ClientStep::ReturnDefault,
            ClientStep::AfterCall,
        ]
    );
    let server = server_stub(&hook, &[], true, true, false);
    assert_eq!(
        server,
        vec![
            ServerStep::BeforeCall,
            ServerStep::BeginRecv { save: true },
            ServerStep::Recv(ServerRecv::RecvProxy),
            ServerStep::Recv(ServerRecv::Recv),
            ServerStep::FinishRecv,
            ServerStep::Alloc(ServerAlloc::Single),
            ServerStep::Call,
            ServerStep::RecordHandle,
            ServerStep::RecordArgs,
        ]
    );
    let unshadowed = client_stub(&hook, &[false, false], &[], false, false);
    assert_eq!(unshadowed[5], ClientStep::Recv(ClientRecv::RecvMut));
}

#[test]
fn async_calls_skip_the_reply_only_when_the_option_is_on() {
    let hook = HookFn::new(918, Some(true), 0, 0, vec![ParamKind::InputValue], &cuda_result(), false).unwrap();
    assert_eq!(client_stub(&hook, &[false], &[], false, true).len(), 6);
    assert_eq!(server_stub(&hook, &[], false, false, true).len(), 5);
    assert_eq!(client_stub(&hook, &[false], &[], false, false).len(), 7);
    assert_eq!(server_stub(&hook, &[], false, false, false).len(), 8);
}

#[test]
fn kernel_launch_stubs_carry_the_packed_arguments() {
    let hook = cu_launch_kernel_hook();
    assert_eq!(hook.proc_id, 918);
    assert!(hook.is_async_api());
    let checked = HookFn::new(918, Some(true), 0, 0, hook.params.clone(), &cuda_result(), false);
    assert!(checked.is_ok());
    let extra = cu_launch_kernel_extra();
    let hacked = vec![false; hook.params.len()];
    let client = client_stub(&hook, &hacked, &extra, false, true);
    assert_eq!(client.len(), 2 + 11 + 1 + 1 + 1 + 1);
    assert_eq!(client[10], ClientStep::Send(ClientSend::Send));
    assert_eq!(client[11], ClientStep::Send(ClientSend::Nothing));
    assert_eq!(client[12], ClientStep::Send(ClientSend::AssertConst));
    assert_eq!(client[13], ClientStep::SendExtra(WireItem::Slice));
    assert_eq!(client[14], ClientStep::FinishSend);
    assert_eq!(client[15], ClientStep::ReturnDefault);
    let server = server_stub(&hook, &extra, false, false, true);
    assert_eq!(server[13], ServerStep::RecvExtra(WireItem::Slice));
    assert_eq!(server[14], ServerStep::FinishRecv);
    assert_eq!(server[15], ServerStep::Call);
    assert_eq!(server.len(), 16);
}

#[test]
fn linkage_and_callee() {
    assert_eq!(client_linkage(false), Linkage::ExportedC);
    assert_eq!(client_linkage(true), Linkage::Public);
    assert_eq!(server_callee(true, true), Callee::Injected);
    assert_eq!(server_callee(false, true), Callee::Parent);
    assert_eq!(server_callee(false, false), Callee::Own);
}
