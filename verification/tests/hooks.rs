use phos_remoting::hook::{
    check_async_api, is_async_return_type, is_const_cstr, is_handle_type, is_handle_type_with_op_key,
    is_void_ptr,
    parse_ptr_attr, AttrMeta, HookError, HookFn, HostProp, InputHandleOp, ParamAttr, ParamKind,
    ReturnShape, TypeShape,
};
use phos_remoting::plan::{
    client_awaits_reply, client_recv_step, client_send_plan, server_recv_plan, server_send_step,
    server_sends_reply, ClientRecv, ClientSend, ServerRecv, ServerSend,
};

fn attr(ident: &str, meta: AttrMeta) -> ParamAttr {
    ParamAttr { ident: Some(ident.to_string()), meta }
}

fn ptr(is_const: bool, elem: &str) -> TypeShape {
    TypeShape::Ptr { is_const, elem: Some(elem.to_string()) }
}

fn named(name: &str) -> TypeShape {
    TypeShape::Other { last_seg: Some(name.to_string()) }
}

#[test]
fn handle_op_names() {
    assert_eq!(InputHandleOp::parse("use"), Some(InputHandleOp::Use));
    assert_eq!(InputHandleOp::parse("modify"), Some(InputHandleOp::Modify));
    assert_eq!(InputHandleOp::parse("destroy"), Some(InputHandleOp::Destroy));
    assert_eq!(InputHandleOp::parse("create"), None);
    assert_eq!(InputHandleOp::parse("Use"), None);
}

#[test]
fn handle_and_status_type_names() {
    assert!(is_handle_type(Some("CUstream")));
    assert!(is_handle_type(Some("cublasLtMatmulPreference_t")));
    assert!(!is_handle_type(Some("CUcontext")));
    assert!(!is_handle_type(None));
    assert!(is_handle_type_with_op_key(Some("cudaEvent_t")));
    assert!(!is_handle_type_with_op_key(Some("CUstream")));
    assert!(is_async_return_type(Some("cudaError_t")));
    assert!(!is_async_return_type(Some("c_int")));
}

#[test]
fn pointer_pointee_names() {
    assert!(is_void_ptr(&Some("c_void".to_string())));
    assert!(!is_void_ptr(&Some("c_char".to_string())));
    assert!(!is_void_ptr(&None));
    assert!(is_const_cstr(true, &Some("c_char".to_string())));
    assert!(!is_const_cstr(false, &Some("c_char".to_string())));
    assert!(!is_const_cstr(true, &Some("c_void".to_string())));
}

#[test]
fn params_without_attributes() {
    assert_eq!(ParamKind::parse(None, &named("c_int")), Ok(ParamKind::InputValue));
    assert_eq!(ParamKind::parse(None, &ptr(true, "c_char")), Ok(ParamKind::InputCStr));
    assert_eq!(ParamKind::parse(None, &ptr(false, "c_int")), Ok(ParamKind::OutputSinglePtr));
    assert_eq!(ParamKind::parse(None, &ptr(true, "c_int")), Err(HookError::RequiresDeviceOrHost));
    assert_eq!(ParamKind::parse(None, &ptr(false, "c_void")), Err(HookError::RequiresDeviceOrHost));
    assert_eq!(ParamKind::parse(None, &named("CUstream")), Err(HookError::RequiresHandleOp));
    assert_eq!(ParamKind::parse(None, &ptr(false, "CUstream")), Err(HookError::RequiresCreate));
}

#[test]
fn params_with_attributes() {
    let skip = attr("skip", AttrMeta::Path);
    assert_eq!(ParamKind::parse(Some(&skip), &ptr(false, "c_void")), Ok(ParamKind::Skip));
    let value = attr("value", AttrMeta::NameValue(None));
    assert_eq!(ParamKind::parse(Some(&value), &named("c_int")), Ok(ParamKind::Const));
    let bad_skip = attr("skip", AttrMeta::List(vec![]));
    assert_eq!(ParamKind::parse(Some(&bad_skip), &named("c_int")), Err(HookError::ExpectedSkipOrValue));
    let use_ = attr("handle", AttrMeta::NameValue(Some("use".to_string())));
    assert_eq!(
        ParamKind::parse(Some(&use_), &named("cudaStream_t")),
        Ok(ParamKind::InputHandle(InputHandleOp::Use))
    );
    let create = attr("handle", AttrMeta::NameValue(Some("create".to_string())));
    assert_eq!(ParamKind::parse(Some(&create), &ptr(false, "cublasHandle_t")), Ok(ParamKind::OutputHandle));
    assert_eq!(
        ParamKind::parse(Some(&create), &ptr(true, "cublasHandle_t")),
        Err(HookError::UnexpectedConstHandle)
    );
    assert_eq!(ParamKind::parse(Some(&create), &named("cublasHandle_t")), Err(HookError::RequiresHandleOp));
    let device = attr("device", AttrMeta::Path);
    assert_eq!(ParamKind::parse(Some(&device), &ptr(true, "c_void")), Ok(ParamKind::DeviceInputPtr));
    let other = attr("weird", AttrMeta::Path);
    assert_eq!(ParamKind::parse(Some(&other), &named("c_int")), Err(HookError::ExpectedSkipOrValue));
    assert_eq!(ParamKind::parse(Some(&other), &ptr(true, "c_int")), Err(HookError::ExpectedDeviceOrHost));
}

#[test]
fn host_attribute_table() {
    let host = attr("host", AttrMeta::Path);
    assert_eq!(parse_ptr_attr(&host, true, &Some("f64".to_string())), Ok(ParamKind::InputSinglePtr));
    assert_eq!(parse_ptr_attr(&host, false, &Some("f64".to_string())), Err(HookError::ModeRequiredForMut));
    assert_eq!(parse_ptr_attr(&host, true, &Some("c_void".to_string())), Err(HookError::LenRequiredForVoid));
    let len = attr("host", AttrMeta::List(vec![HostProp::Len]));
    assert_eq!(
        parse_ptr_attr(&len, true, &Some("c_void".to_string())),
        Ok(ParamKind::InputArrayPtr { is_void_ptr: true })
    );
    let out_len = attr("host", AttrMeta::List(vec![HostProp::Output, HostProp::Len]));
    assert_eq!(
        parse_ptr_attr(&out_len, false, &Some("c_int".to_string())),
        Ok(ParamKind::OutputArrayPtr { is_void_ptr: false, has_cap: false })
    );
    let out_len_cap = attr("host", AttrMeta::List(vec![HostProp::Output, HostProp::Len, HostProp::Cap]));
    assert_eq!(
        parse_ptr_attr(&out_len_cap, false, &Some("c_int".to_string())),
        Ok(ParamKind::OutputArrayPtr { is_void_ptr: false, has_cap: true })
    );
    let out_cap = attr("host", AttrMeta::List(vec![HostProp::Output, HostProp::Cap]));
    assert_eq!(parse_ptr_attr(&out_cap, false, &Some("c_int".to_string())), Err(HookError::OnlyCap));
    let in_cap = attr("host", AttrMeta::List(vec![HostProp::Input, HostProp::Len, HostProp::Cap]));
    assert_eq!(parse_ptr_attr(&in_cap, false, &Some("c_int".to_string())), Err(HookError::InputArrayWithCap));
    let const_out = attr("host", AttrMeta::List(vec![HostProp::Output]));
    assert_eq!(parse_ptr_attr(&const_out, true, &Some("c_int".to_string())), Err(HookError::InputOutputOnConst));
    let last_wins = attr("host", AttrMeta::List(vec![HostProp::Output, HostProp::Input]));
    assert_eq!(parse_ptr_attr(&last_wins, false, &Some("c_int".to_string())), Ok(ParamKind::InputSinglePtr));
    let unsupported = attr("host", AttrMeta::List(vec![HostProp::Unsupported, HostProp::Malformed]));
    assert_eq!(
        parse_ptr_attr(&unsupported, false, &Some("c_int".to_string())),
        Err(HookError::UnsupportedProperty)
    );
    assert_eq!(HookError::OnlyCap.message(), "only cap is specified");
}

#[test]
fn hook_validation() {
    let ret = ReturnShape::Type { last_seg: Some("CUresult".to_string()) };
    let ok = HookFn::new(918, Some(true), 0, 0, vec![ParamKind::InputValue], &ret, false).unwrap();
    assert!(ok.is_async_api());
    assert!(!ok.is_create_handle());
    assert!(!ok.is_modify_handle());
    let two = vec![ParamKind::OutputHandle, ParamKind::InputHandle(InputHandleOp::Destroy)];
    assert_eq!(HookFn::new(1, None, 0, 0, two, &ret, false).err(), Some(HookError::MultipleHandleChanges));
    let create_out = vec![ParamKind::OutputHandle, ParamKind::OutputSinglePtr];
    assert_eq!(
        HookFn::new(1, None, 0, 0, create_out, &ret, false).err(),
        Some(HookError::CreateHandleWithHostOutputs)
    );
    assert_eq!(
        HookFn::new(1, None, 0, 0, vec![ParamKind::OutputHandle], &ret, true).err(),
        Some(HookError::CreateHandleWithAfter)
    );
    assert_eq!(
        HookFn::new(1, Some(true), 0, 0, vec![ParamKind::OutputSinglePtr], &ret, false).err(),
        Some(HookError::AsyncApiWithHostOutput)
    );
    let modify = HookFn::new(1, None, 0, 0, vec![ParamKind::InputHandle(InputHandleOp::Modify)], &ret, false)
        .unwrap();
    assert!(modify.is_modify_handle());
    let bad_ret = ReturnShape::Type { last_seg: Some("c_int".to_string()) };
    assert_eq!(check_async_api(&[], &bad_ret, false), Err(HookError::UnsupportedAsyncReturn));
    assert_eq!(check_async_api(&[], &ReturnShape::Unit, false), Ok(()));
    assert_eq!(check_async_api(&[], &ReturnShape::Unit, true), Err(HookError::AsyncApiWithAfter));
}

#[test]
fn plans_line_up() {
    let params = [
        ParamKind::InputValue,
        ParamKind::InputSinglePtr,
        ParamKind::InputArrayPtr { is_void_ptr: true },
        ParamKind::InputCStr,
        ParamKind::OutputHandle,
        ParamKind::Skip,
        ParamKind::InputHandle(InputHandleOp::Destroy),
    ];
    let hacked = [false, true, false, false, false, false, false];
    let client = client_send_plan(&params, &hacked);
    assert_eq!(
        client,
        vec![
            ClientSend::Send,
            ClientSend::SendUnaligned,
            ClientSend::SendSlice,
            ClientSend::SendCStr,
            ClientSend::SendHandle,
            ClientSend::Nothing,
            ClientSend::Send,
        ]
    );
    let server = server_recv_plan(&params);
    assert_eq!(
        server,
        vec![
            ServerRecv::Recv,
            ServerRecv::RecvPointee,
            ServerRecv::RecvSlice,
            ServerRecv::RecvCStr,
            ServerRecv::RecvProxy,
            ServerRecv::Nothing,
            ServerRecv::RecvHandle { destroy: true, record: false },
        ]
    );
    assert_eq!(client_recv_step(ParamKind::OutputArrayPtr { is_void_ptr: false, has_cap: true }), ClientRecv::RecvMutSlice);
    assert_eq!(server_send_step(ParamKind::OutputArrayPtr { is_void_ptr: false, has_cap: true }), ServerSend::SendSlicePrefix);
    assert_eq!(server_send_step(ParamKind::OutputSinglePtr), ServerSend::Send);
    assert!(!client_awaits_reply(true, false, true, false));
    assert!(client_awaits_reply(true, false, false, false));
    assert!(!server_sends_reply(false, true, false, true));
    assert!(server_sends_reply(false, true, false, false));
}
