use vstd::prelude::*;
use crate::hook::{HookFn, ParamKind, creates_handle, modifies_handle};
use crate::plan::{
    ClientRecv, ClientSend, ServerRecv, ServerSend, WireItem, client_awaits_reply, client_recv_step,
    client_recv_wire, client_send_step, client_send_wire, server_recv_step, server_recv_wire,
    server_send_step, server_send_wire, server_sends_reply, spec_client_recv, spec_client_send,
    spec_has_reply, spec_server_recv, spec_server_send,
};

verus! {

/// One step of the client's stub for a forwarded call, in the order the
/// stub takes them.
#[derive(Debug, Clone, Copy, PartialEq, Eq)]
pub enum ClientStep {
    /// Marks the client thread as being inside a call.
    BeforeCall,
    /// Sends the call's procedure id.
    SendProcId,
    /// The step for one parameter, in parameter order.
    Send(ClientSend),
    /// Sends one item of the hook's own extra sending code, after the
    /// parameters.
    SendExtra(WireItem),
    /// Flushes what was sent.
    FinishSend,
    /// Receives one host output, in parameter order.
    Recv(ClientRecv),
    /// Receives the call's result.
    RecvResult,
    /// Ends the reply: receives the server's timestamp.
    FinishRecv,
    /// Returns the result type's default value without waiting for a reply.
    ReturnDefault,
    /// Marks the client thread as out of the call.
    AfterCall,
}

/// How the server makes room for one host output before the call.
#[derive(Debug, Clone, Copy, PartialEq, Eq)]
pub enum ServerAlloc {
    /// Room for one value.
    Single,
    /// Room for an array: `cap` values where a capacity is declared, else
    /// `len` values.
    Array { by_cap: bool },
}

/// One step of the server's stub for a forwarded call, in the order the
/// stub takes them.
#[derive(Debug, Clone, Copy, PartialEq, Eq)]
pub enum ServerStep {
    /// Marks the worker as being inside a call.
    BeforeCall,
    /// Starts receiving; `save` where the received arguments are kept for
    /// replay.
    BeginRecv { save: bool },
    /// The step for one parameter, in parameter order.
    Recv(ServerRecv),
    /// Receives one item of the hook's own extra receiving code, after the
    /// parameters.
    RecvExtra(WireItem),
    /// Ends receiving: receives the client's timestamp and takes what was
    /// saved.
    FinishRecv,
    /// Makes room for one host output, in parameter order.
    Alloc(ServerAlloc),
    /// Runs the call.
    Call,
    /// Records the pair of the client's proxy and the handle the call made.
    RecordHandle,
    /// Records the saved arguments under the proxy of the handle.
    RecordArgs,
    /// Starts the reply.
    BeginSend,
    /// Sends one host output, in parameter order.
    Send(ServerSend),
    /// Sends the call's result.
    SendResult,
    /// Flushes the reply.
    FinishSend,
}

/// What the server passes to the call for one parameter.
#[derive(Debug, Clone, Copy, PartialEq, Eq)]
pub enum CallArg {
    /// The received value itself.
    Value,
    /// A pointer to where the received data, or the room for the output,
    /// lies.
    Pointer,
    /// That pointer, cast to the parameter's own pointer type (a `void`
    /// pointer, or a pointee read without alignment).
    CastPointer,
    /// The value the declaration fixes.
    DeclaredValue,
}

/// The host outputs among `params`, in order.
pub open spec fn output_kinds(params: Seq<ParamKind>) -> Seq<ParamKind>
    decreases params.len(),
{
    if params.len() == 0 {
        Seq::empty()
    } else {
        output_kinds(params.drop_last()) + (if params.last().host_output() {
            seq![params.last()]
        } else {
            Seq::empty()
        })
    }
}

/// How the server makes room for a host output of `kind`.
pub open spec fn spec_server_alloc(kind: ParamKind) -> ServerAlloc {
    match kind {
        ParamKind::OutputArrayPtr { has_cap, .. } => ServerAlloc::Array { by_cap: has_cap },
        _ => ServerAlloc::Single,
    }
}

/// What the server passes to the call for a parameter of `kind`, where it
/// passes anything; `hacked` where the pointee is read without alignment.
pub open spec fn spec_call_arg(kind: ParamKind, hacked: bool) -> Option<CallArg> {
    match kind {
        ParamKind::InputValue | ParamKind::InputHandle(_) | ParamKind::DeviceInputPtr
        | ParamKind::DeviceOutputPtr => Some(CallArg::Value),
        ParamKind::InputSinglePtr => if hacked {
            Some(CallArg::CastPointer)
        } else {
            Some(CallArg::Pointer)
        },
        ParamKind::InputCStr | ParamKind::OutputHandle | ParamKind::OutputSinglePtr => Some(CallArg::Pointer),
        ParamKind::InputArrayPtr { is_void_ptr } | ParamKind::OutputArrayPtr { is_void_ptr, .. } => if is_void_ptr {
            Some(CallArg::CastPointer)
        } else {
            Some(CallArg::Pointer)
        },
        ParamKind::Skip => None,
        ParamKind::Const => Some(CallArg::DeclaredValue),
    }
}

/// The arguments the server passes to the call, in parameter order, with
/// skipped parameters left out.
pub open spec fn spec_call_args(params: Seq<ParamKind>, hacked: Seq<bool>) -> Seq<CallArg>
    decreases params.len(),
{
    if params.len() == 0 || hacked.len() == 0 {
        Seq::empty()
    } else {
        spec_call_args(params.drop_last(), hacked.drop_last()) + match spec_call_arg(params.last(), hacked.last()) {
            Some(a) => seq![a],
            None => Seq::empty(),
        }
    }
}

/// Whether the server keeps a call's arguments for replay: where the
/// server checkpoints (`phos`), shadows handles, and the call creates or
/// modifies a handle.
pub open spec fn spec_saves_args(phos: bool, shadow: bool, creates: bool, modifies: bool) -> bool {
    phos && shadow && (creates || modifies)
}

/// The client's stub for a call with `params`, whose own extra sending
/// code sends `extra`; `shadow` and `async_opt` are the client's options
/// for shadowed handles and asynchronous calls.
pub open spec fn spec_client_stub(
    params: Seq<ParamKind>,
    hacked: Seq<bool>,
    extra: Seq<WireItem>,
    is_async: bool,
    shadow: bool,
    async_opt: bool,
) -> Seq<ClientStep> {
    let outs = output_kinds(params);
    seq![ClientStep::BeforeCall, ClientStep::SendProcId] + Seq::new(
        params.len(),
        |i: int| ClientStep::Send(spec_client_send(params[i], hacked[i])),
    ) + Seq::new(extra.len(), |i: int| ClientStep::SendExtra(extra[i])) + seq![ClientStep::FinishSend] + (if spec_has_reply(creates_handle(params), is_async, shadow, async_opt) {
        Seq::new(outs.len(), |i: int| ClientStep::Recv(spec_client_recv(outs[i]))) + seq![
            ClientStep::RecvResult,
            ClientStep::FinishRecv,
        ]
    } else {
        seq![ClientStep::ReturnDefault]
    }) + seq![ClientStep::AfterCall]
}

/// The server's stub for a call with `params`, whose own extra receiving
/// code receives `extra`; `phos`, `shadow` and `async_opt` are the server's
/// options.
pub open spec fn spec_server_stub(
    params: Seq<ParamKind>,
    extra: Seq<WireItem>,
    is_async: bool,
    phos: bool,
    shadow: bool,
    async_opt: bool,
) -> Seq<ServerStep> {
    let outs = output_kinds(params);
    let creates = creates_handle(params);
    let save = spec_saves_args(phos, shadow, creates, modifies_handle(params));
    seq![ServerStep::BeforeCall, ServerStep::BeginRecv { save }] + Seq::new(
        params.len(),
        |i: int| ServerStep::Recv(spec_server_recv(params[i])),
    ) + Seq::new(extra.len(), |i: int| ServerStep::RecvExtra(extra[i])) + seq![ServerStep::FinishRecv] + Seq::new(
        outs.len(),
        |i: int| ServerStep::Alloc(spec_server_alloc(outs[i])),
    ) + seq![ServerStep::Call] + (if creates && shadow {
        seq![ServerStep::RecordHandle]
    } else {
        Seq::empty()
    }) + (if save {
        seq![ServerStep::RecordArgs]
    } else {
        Seq::empty()
    }) + (if spec_has_reply(creates, is_async, shadow, async_opt) {
        seq![ServerStep::BeginSend] + Seq::new(outs.len(), |i: int| ServerStep::Send(spec_server_send(outs[i])))
            + seq![ServerStep::SendResult, ServerStep::FinishSend]
    } else {
        Seq::empty()
    })
}

/// The server passes a parameter to the call as the value itself exactly
/// where it received that parameter as one plain value or a handle; every
/// such parameter is put on the wire by the client as one value and taken
/// off by the server as one value, whatever the options.
pub proof fn lemma_passed_values_travel(kind: ParamKind, hacked: bool, shadow: bool)
    ensures
        (spec_call_arg(kind, hacked) == Some(CallArg::Value)) <==> (spec_server_recv(kind) == ServerRecv::Recv
            || spec_server_recv(kind) is RecvHandle),
        spec_call_arg(kind, hacked) == Some(CallArg::Value) ==> {
            &&& client_send_wire(spec_client_send(kind, hacked), shadow) == seq![WireItem::Value]
            &&& server_recv_wire(spec_server_recv(kind), shadow) == seq![WireItem::Value]
        },
{
}

/// A parameter the server passes to the call as a pointer to received
/// data is one whose data the client puts on the wire: one value or one
/// array; a parameter left out of the call travels not at all.
pub proof fn lemma_pointed_inputs_travel(kind: ParamKind, hacked: bool, shadow: bool)
    ensures
        (spec_call_arg(kind, hacked) matches Some(a) && (a == CallArg::Pointer || a == CallArg::CastPointer))
            && !kind.host_output() ==> client_send_wire(spec_client_send(kind, hacked), shadow).len() == 1,
        spec_call_arg(kind, hacked) is None ==> client_send_wire(spec_client_send(kind, hacked), shadow).len() == 0
            && server_recv_wire(spec_server_recv(kind), shadow).len() == 0,
{
}

/// Arrays and C strings the call reads travel count first, as one array,
/// both ways of the wire agreeing; single values and pointees travel as
/// one value.
pub proof fn lemma_inputs_travel_by_shape(kind: ParamKind, hacked: bool, shadow: bool)
    ensures
        (kind is InputArrayPtr || kind is InputCStr) ==> {
            &&& client_send_wire(spec_client_send(kind, hacked), shadow) == seq![WireItem::Slice]
            &&& server_recv_wire(spec_server_recv(kind), shadow) == seq![WireItem::Slice]
        },
        (kind is InputValue || kind is InputSinglePtr || kind is InputHandle || kind is DeviceInputPtr
            || kind is DeviceOutputPtr) ==> {
            &&& client_send_wire(spec_client_send(kind, hacked), shadow) == seq![WireItem::Value]
            &&& server_recv_wire(spec_server_recv(kind), shadow) == seq![WireItem::Value]
        },
{
}

/// The call's host outputs come back from the server: an array as one
/// array, anything else as one value; the server makes room for an array
/// by its capacity exactly where one is declared, and sends back only the
/// written prefix then; a created handle's proxy goes to the server
/// exactly where handles are shadowed, and no other output is sent by the
/// client.
pub proof fn lemma_outputs_come_back(kind: ParamKind, hacked: bool, shadow: bool)
    requires
        kind.host_output(),
    ensures
        server_send_wire(spec_server_send(kind)) == (if kind is OutputArrayPtr {
            WireItem::Slice
        } else {
            WireItem::Value
        }),
        client_recv_wire(spec_client_recv(kind)) == server_send_wire(spec_server_send(kind)),
        kind matches ParamKind::OutputArrayPtr { has_cap, .. } ==> {
            &&& spec_server_alloc(kind) == ServerAlloc::Array { by_cap: has_cap }
            &&& (spec_server_send(kind) == ServerSend::SendSlicePrefix) == has_cap
        },
        !(kind is OutputArrayPtr) ==> spec_server_alloc(kind) == ServerAlloc::Single,
        client_send_wire(spec_client_send(kind, hacked), shadow) == (if kind is OutputHandle && shadow {
            seq![WireItem::Value]
        } else {
            Seq::<WireItem>::empty()
        }),
        server_recv_wire(spec_server_recv(kind), shadow) == client_send_wire(spec_client_send(kind, hacked), shadow),
{
}

/// How many values the server makes room for, for an output array of
/// `kind` whose length expression gave `len` and whose capacity expression,
/// where declared, gave `cap`.
pub fn output_alloc_len(kind: ParamKind, len: usize, cap: usize) -> (n: usize)
    requires
        kind is OutputArrayPtr,
    ensures
        n == (if kind->has_cap { cap } else { len }),
{
    match kind {
        ParamKind::OutputArrayPtr { has_cap, .. } => if has_cap {
            cap
        } else {
            len
        },
        _ => len,
    }
}

/// The values the server sends back for an output array of `kind` held in
/// `buf`: the first `len` of them where a capacity is declared, else all of
/// `buf`.
pub fn output_reply<T: Copy>(kind: ParamKind, buf: &[T], len: usize) -> (v: Vec<T>)
    requires
        kind is OutputArrayPtr,
        kind->has_cap ==> len <= buf@.len(),
    ensures
        v@ == (if kind->has_cap { buf@.take(len as int) } else { buf@ }),
{
    let n = match kind {
        ParamKind::OutputArrayPtr { has_cap, .. } => if has_cap {
            len
        } else {
            buf.len()
        },
        _ => buf.len(),
    };
    let mut v: Vec<T> = Vec::new();
    let mut i: usize = 0;
    while i < n
        invariant
            n <= buf@.len(),
            i <= n,
            v@ == buf@.take(i as int),
        decreases n - i,
    {
        v.push(buf[i]);
        i = i + 1;
        assert(v@ =~= buf@.take(i as int));
    }
    assert(buf@.take(buf@.len() as int) =~= buf@);
    v
}

/// An output array allocated as the server allocates it, with `len` no
/// more than the room made, is sent back with exactly `len` values.
pub proof fn lemma_reply_has_len<T>(kind: ParamKind, len: usize, cap: usize, buf: Seq<T>, reply: Seq<T>)
    requires
        kind is OutputArrayPtr,
        buf.len() == (if kind->has_cap { cap } else { len }),
        len <= buf.len(),
        reply == (if kind->has_cap { buf.take(len as int) } else { buf }),
    ensures
        reply.len() == len,
{
}

/// What the server passes to the call for a parameter.
pub fn call_arg(kind: ParamKind, hacked: bool) -> (a: Option<CallArg>)
    ensures
        a == spec_call_arg(kind, hacked),
{
    match kind {
        ParamKind::InputValue | ParamKind::InputHandle(_) | ParamKind::DeviceInputPtr
        | ParamKind::DeviceOutputPtr => Some(CallArg::Value),
        ParamKind::InputSinglePtr => if hacked {
            Some(CallArg::CastPointer)
        } else {
            Some(CallArg::Pointer)
        },
        ParamKind::InputCStr | ParamKind::OutputHandle | ParamKind::OutputSinglePtr => Some(CallArg::Pointer),
        ParamKind::InputArrayPtr { is_void_ptr } | ParamKind::OutputArrayPtr { is_void_ptr, .. } => if is_void_ptr {
            Some(CallArg::CastPointer)
        } else {
            Some(CallArg::Pointer)
        },
        ParamKind::Skip => None,
        ParamKind::Const => Some(CallArg::DeclaredValue),
    }
}

/// The arguments the server passes to the call where the hook declares no
/// execution of its own.
pub fn call_args(params: &[ParamKind], hacked: &[bool]) -> (args: Vec<CallArg>)
    requires
        hacked@.len() == params@.len(),
    ensures
        args@ == spec_call_args(params@, hacked@),
{
    let mut args: Vec<CallArg> = Vec::new();
    let mut i: usize = 0;
    while i < params.len()
        invariant
            hacked@.len() == params@.len(),
            i <= params@.len(),
            args@ == spec_call_args(params@.take(i as int), hacked@.take(i as int)),
        decreases params@.len() - i,
    {
        proof {
            assert(params@.take(i + 1).drop_last() =~= params@.take(i as int));
            assert(hacked@.take(i + 1).drop_last() =~= hacked@.take(i as int));
        }
        match call_arg(params[i], hacked[i]) {
            Some(a) => args.push(a),
            None => {},
        }
        i = i + 1;
        assert(args@ =~= spec_call_args(params@.take(i as int), hacked@.take(i as int)));
    }
    assert(params@.take(params@.len() as int) =~= params@);
    assert(hacked@.take(hacked@.len() as int) =~= hacked@);
    args
}

/// Whether the server keeps the arguments of the call for replay.
pub fn saves_args(phos: bool, shadow: bool, creates: bool, modifies: bool) -> (b: bool)
    ensures
        b == spec_saves_args(phos, shadow, creates, modifies),
{
    phos && shadow && (creates || modifies)
}

proof fn lemma_output_kinds_step(params: Seq<ParamKind>, i: int)
    requires
        0 <= i < params.len(),
    ensures
        output_kinds(params.take(i + 1)) == output_kinds(params.take(i)) + (if params[i].host_output() {
            seq![params[i]]
        } else {
            Seq::empty()
        }),
{
    assert(params.take(i + 1).drop_last() =~= params.take(i));
}

/// The client's step for each host output among `params`, in order.
fn client_output_steps(params: &[ParamKind]) -> (v: Vec<ClientStep>)
    ensures
        v@ == Seq::new(
            output_kinds(params@).len(),
            |i: int| ClientStep::Recv(spec_client_recv(output_kinds(params@)[i])),
        ),
{
    let mut v: Vec<ClientStep> = Vec::new();
    let mut i: usize = 0;
    while i < params.len()
        invariant
            i <= params@.len(),
            v@ == Seq::new(
                output_kinds(params@.take(i as int)).len(),
                |j: int| ClientStep::Recv(spec_client_recv(output_kinds(params@.take(i as int))[j])),
            ),
        decreases params@.len() - i,
    {
        proof {
            lemma_output_kinds_step(params@, i as int);
        }
        if params[i].is_host_output() {
            v.push(ClientStep::Recv(client_recv_step(params[i])));
        }
        i = i + 1;
        assert(v@ =~= Seq::new(
            output_kinds(params@.take(i as int)).len(),
            |j: int| ClientStep::Recv(spec_client_recv(output_kinds(params@.take(i as int))[j])),
        ));
    }
    assert(params@.take(params@.len() as int) =~= params@);
    v
}

/// How the server makes room for a host output.
fn server_alloc(kind: ParamKind) -> (a: ServerAlloc)
    ensures
        a == spec_server_alloc(kind),
{
    match kind {
        ParamKind::OutputArrayPtr { has_cap, .. } => ServerAlloc::Array { by_cap: has_cap },
        _ => ServerAlloc::Single,
    }
}

/// The server's room-making step for each host output among `params`, in
/// order.
fn server_alloc_steps(params: &[ParamKind]) -> (v: Vec<ServerStep>)
    ensures
        v@ == Seq::new(
            output_kinds(params@).len(),
            |i: int| ServerStep::Alloc(spec_server_alloc(output_kinds(params@)[i])),
        ),
{
    let mut v: Vec<ServerStep> = Vec::new();
    let mut i: usize = 0;
    while i < params.len()
        invariant
            i <= params@.len(),
            v@ == Seq::new(
                output_kinds(params@.take(i as int)).len(),
                |j: int| ServerStep::Alloc(spec_server_alloc(output_kinds(params@.take(i as int))[j])),
            ),
        decreases params@.len() - i,
    {
        proof {
            lemma_output_kinds_step(params@, i as int);
        }
        if params[i].is_host_output() {
            v.push(ServerStep::Alloc(server_alloc(params[i])));
        }
        i = i + 1;
        assert(v@ =~= Seq::new(
            output_kinds(params@.take(i as int)).len(),
            |j: int| ServerStep::Alloc(spec_server_alloc(output_kinds(params@.take(i as int))[j])),
        ));
    }
    assert(params@.take(params@.len() as int) =~= params@);
    v
}

/// The server's sending step for each host output among `params`, in
/// order.
fn server_send_steps(params: &[ParamKind]) -> (v: Vec<ServerStep>)
    ensures
        v@ == Seq::new(
            output_kinds(params@).len(),
            |i: int| ServerStep::Send(spec_server_send(output_kinds(params@)[i])),
        ),
{
    let mut v: Vec<ServerStep> = Vec::new();
    let mut i: usize = 0;
    while i < params.len()
        invariant
            i <= params@.len(),
            v@ == Seq::new(
                output_kinds(params@.take(i as int)).len(),
                |j: int| ServerStep::Send(spec_server_send(output_kinds(params@.take(i as int))[j])),
            ),
        decreases params@.len() - i,
    {
        proof {
            lemma_output_kinds_step(params@, i as int);
        }
        if params[i].is_host_output() {
            v.push(ServerStep::Send(server_send_step(params[i])));
        }
        i = i + 1;
        assert(v@ =~= Seq::new(
            output_kinds(params@.take(i as int)).len(),
            |j: int| ServerStep::Send(spec_server_send(output_kinds(params@.take(i as int))[j])),
        ));
    }
    assert(params@.take(params@.len() as int) =~= params@);
    v
}

/// The client's stub for `hook`: the steps it takes, in order, given the
/// client's options for shadowed handles and asynchronous calls.
pub fn client_stub(hook: &HookFn, hacked: &[bool], extra: &[WireItem], shadow: bool, async_opt: bool) -> (steps: Vec<ClientStep>)
    requires
        hacked@.len() == hook.params@.len(),
    ensures
        steps@ == spec_client_stub(hook.params@, hacked@, extra@, hook.is_async_api == Some(true), shadow, async_opt),
{
    let params = hook.params.as_slice();
    let mut steps: Vec<ClientStep> = Vec::new();
    steps.push(ClientStep::BeforeCall);
    steps.push(ClientStep::SendProcId);
    let mut i: usize = 0;
    while i < params.len()
        invariant
            hacked@.len() == params@.len(),
            i <= params@.len(),
            steps@ == seq![ClientStep::BeforeCall, ClientStep::SendProcId] + Seq::new(
                i as nat,
                |j: int| ClientStep::Send(spec_client_send(params@[j], hacked@[j])),
            ),
        decreases params@.len() - i,
    {
        steps.push(ClientStep::Send(client_send_step(params[i], hacked[i])));
        i = i + 1;
        assert(steps@ =~= seq![ClientStep::BeforeCall, ClientStep::SendProcId] + Seq::new(
            i as nat,
            |j: int| ClientStep::Send(spec_client_send(params@[j], hacked@[j])),
        ));
    }
    let ghost body = steps@;
    let mut k: usize = 0;
    while k < extra.len()
        invariant
            k <= extra@.len(),
            steps@ == body + Seq::new(k as nat, |j: int| ClientStep::SendExtra(extra@[j])),
        decreases extra@.len() - k,
    {
        steps.push(ClientStep::SendExtra(extra[k]));
        k = k + 1;
        assert(steps@ =~= body + Seq::new(k as nat, |j: int| ClientStep::SendExtra(extra@[j])));
    }
    steps.push(ClientStep::FinishSend);
    if client_awaits_reply(hook.is_create_handle(), hook.is_async_api(), shadow, async_opt) {
        let mut outs = client_output_steps(params);
        steps.append(&mut outs);
        steps.push(ClientStep::RecvResult);
        steps.push(ClientStep::FinishRecv);
    } else {
        steps.push(ClientStep::ReturnDefault);
    }
    steps.push(ClientStep::AfterCall);
    assert(steps@ =~= spec_client_stub(hook.params@, hacked@, extra@, hook.is_async_api == Some(true), shadow, async_opt));
    steps
}

/// The server's stub for `hook`: the steps it takes, in order, given the
/// server's options for checkpointing, shadowed handles and asynchronous
/// calls.
pub fn server_stub(hook: &HookFn, extra: &[WireItem], phos: bool, shadow: bool, async_opt: bool) -> (steps: Vec<ServerStep>)
    ensures
        steps@ == spec_server_stub(hook.params@, extra@, hook.is_async_api == Some(true), phos, shadow, async_opt),
{
    let params = hook.params.as_slice();
    let creates = hook.is_create_handle();
    let save = saves_args(phos, shadow, creates, hook.is_modify_handle());
    let mut steps: Vec<ServerStep> = Vec::new();
    steps.push(ServerStep::BeforeCall);
    steps.push(ServerStep::BeginRecv { save });
    let mut i: usize = 0;
    while i < params.len()
        invariant
            i <= params@.len(),
            steps@ == seq![ServerStep::BeforeCall, ServerStep::BeginRecv { save }] + Seq::new(
                i as nat,
                |j: int| ServerStep::Recv(spec_server_recv(params@[j])),
            ),
        decreases params@.len() - i,
    {
        steps.push(ServerStep::Recv(server_recv_step(params[i])));
        i = i + 1;
        assert(steps@ =~= seq![ServerStep::BeforeCall, ServerStep::BeginRecv { save }] + Seq::new(
            i as nat,
            |j: int| ServerStep::Recv(spec_server_recv(params@[j])),
        ));
    }
    let ghost body = steps@;
    let mut k: usize = 0;
    while k < extra.len()
        invariant
            k <= extra@.len(),
            steps@ == body + Seq::new(k as nat, |j: int| ServerStep::RecvExtra(extra@[j])),
        decreases extra@.len() - k,
    {
        steps.push(ServerStep::RecvExtra(extra[k]));
        k = k + 1;
        assert(steps@ =~= body + Seq::new(k as nat, |j: int| ServerStep::RecvExtra(extra@[j])));
    }
    steps.push(ServerStep::FinishRecv);
    let mut allocs = server_alloc_steps(params);
    steps.append(&mut allocs);
    steps.push(ServerStep::Call);
    if creates && shadow {
        steps.push(ServerStep::RecordHandle);
    }
    if save {
        steps.push(ServerStep::RecordArgs);
    }
    if server_sends_reply(creates, hook.is_async_api(), shadow, async_opt) {
        steps.push(ServerStep::BeginSend);
        let mut sends = server_send_steps(params);
        steps.append(&mut sends);
        steps.push(ServerStep::SendResult);
        steps.push(ServerStep::FinishSend);
    }
    assert(steps@ =~= spec_server_stub(hook.params@, extra@, hook.is_async_api == Some(true), phos, shadow, async_opt));
    steps
}

/// How the client's stub function is declared.
#[derive(Debug, Clone, Copy, PartialEq, Eq)]
pub enum Linkage {
    /// Exported under its own name with the C calling convention, in place
    /// of the library's function.
    ExportedC,
    /// An ordinary public function, for a hook that stands in for a call
    /// made from another hook.
    Public,
}

/// How the client's stub is declared: exported with the C calling
/// convention unless the hook names a parent function it serves.
pub fn client_linkage(has_parent: bool) -> (l: Linkage)
    ensures
        l == (if has_parent { Linkage::Public } else { Linkage::ExportedC }),
{
    if has_parent {
        Linkage::Public
    } else {
        Linkage::ExportedC
    }
}

/// What the server's stub runs for the call.
#[derive(Debug, Clone, Copy, PartialEq, Eq)]
pub enum Callee {
    /// The hook's own execution code.
    Injected,
    /// The parent function the hook serves, with the call's arguments.
    Parent,
    /// The hooked function itself, with the call's arguments.
    Own,
}

/// What the server's stub runs: the hook's own execution code where it has
/// some, else its parent function where it names one, else the hooked
/// function.
pub fn server_callee(custom_exec: bool, has_parent: bool) -> (c: Callee)
    ensures
        c == (if custom_exec {
            Callee::Injected
        } else if has_parent {
            Callee::Parent
        } else {
            Callee::Own
        }),
{
    if custom_exec {
        Callee::Injected
    } else if has_parent {
        Callee::Parent
    } else {
        Callee::Own
    }
}

/// The wire items a run of steps moves, each step moving `f` of itself,
/// in order.
pub open spec fn wire_of<A>(steps: Seq<A>, f: spec_fn(A) -> Seq<WireItem>) -> Seq<WireItem>
    decreases steps.len(),
{
    if steps.len() == 0 {
        Seq::empty()
    } else {
        wire_of(steps.drop_last(), f) + f(steps.last())
    }
}

/// What a client step puts on the wire; `shadow` where handles are shadowed.
pub open spec fn client_step_out(step: ClientStep, shadow: bool) -> Seq<WireItem> {
    match step {
        ClientStep::SendProcId => seq![WireItem::Value],
        ClientStep::Send(s) => client_send_wire(s, shadow),
        ClientStep::SendExtra(w) => seq![w],
        _ => Seq::empty(),
    }
}

/// What a client step takes off the wire of the reply.
pub open spec fn client_step_in(step: ClientStep) -> Seq<WireItem> {
    match step {
        ClientStep::Recv(r) => seq![client_recv_wire(r)],
        ClientStep::RecvResult => seq![WireItem::Value],
        _ => Seq::empty(),
    }
}

/// What a server step takes off the wire; `shadow` where handles are
/// shadowed.
pub open spec fn server_step_in(step: ServerStep, shadow: bool) -> Seq<WireItem> {
    match step {
        ServerStep::Recv(r) => server_recv_wire(r, shadow),
        ServerStep::RecvExtra(w) => seq![w],
        _ => Seq::empty(),
    }
}

/// What a server step puts on the wire of the reply.
pub open spec fn server_step_out(step: ServerStep) -> Seq<WireItem> {
    match step {
        ServerStep::Send(s) => seq![server_send_wire(s)],
        ServerStep::SendResult => seq![WireItem::Value],
        _ => Seq::empty(),
    }
}

proof fn lemma_wire_of_concat<A>(a: Seq<A>, b: Seq<A>, f: spec_fn(A) -> Seq<WireItem>)
    ensures
        wire_of(a + b, f) == wire_of(a, f) + wire_of(b, f),
    decreases b.len(),
{
    if b.len() == 0 {
        assert(a + b =~= a);
        assert(wire_of(a, f) + wire_of(b, f) =~= wire_of(a, f));
    } else {
        lemma_wire_of_concat(a, b.drop_last(), f);
        assert((a + b).drop_last() =~= a + b.drop_last());
        assert(wire_of(a + b, f) =~= wire_of(a, f) + wire_of(b, f));
    }
}

proof fn lemma_wire_of_one<A>(x: A, f: spec_fn(A) -> Seq<WireItem>)
    ensures
        wire_of(seq![x], f) == f(x),
{
    let one = seq![x];
    assert(one.drop_last() =~= Seq::<A>::empty());
    assert(one.last() == x);
    assert(wire_of(Seq::<A>::empty(), f) == Seq::<WireItem>::empty());
    assert(wire_of(one, f) == wire_of(one.drop_last(), f) + f(one.last()));
    assert(wire_of(one, f) =~= f(x));
}

proof fn lemma_wire_of_two<A>(x: A, y: A, f: spec_fn(A) -> Seq<WireItem>)
    ensures
        wire_of(seq![x, y], f) == f(x) + f(y),
{
    assert(seq![x, y] =~= seq![x] + seq![y]);
    lemma_wire_of_concat(seq![x], seq![y], f);
    lemma_wire_of_one(x, f);
    lemma_wire_of_one(y, f);
}

proof fn lemma_param_steps_agree(params: Seq<ParamKind>, hacked: Seq<bool>, shadow: bool, n: nat)
    requires
        n <= params.len(),
        hacked.len() == params.len(),
    ensures
        wire_of(
            Seq::new(n, |i: int| ClientStep::Send(spec_client_send(params[i], hacked[i]))),
            |s: ClientStep| client_step_out(s, shadow),
        ) == wire_of(
            Seq::new(n, |i: int| ServerStep::Recv(spec_server_recv(params[i]))),
            |s: ServerStep| server_step_in(s, shadow),
        ),
    decreases n,
{
    if n > 0 {
        let m = (n - 1) as nat;
        lemma_param_steps_agree(params, hacked, shadow, m);
        assert(Seq::new(n, |i: int| ClientStep::Send(spec_client_send(params[i], hacked[i]))).drop_last()
            =~= Seq::new(m, |i: int| ClientStep::Send(spec_client_send(params[i], hacked[i]))));
        assert(Seq::new(n, |i: int| ServerStep::Recv(spec_server_recv(params[i]))).drop_last()
            =~= Seq::new(m, |i: int| ServerStep::Recv(spec_server_recv(params[i]))));
        crate::plan::lemma_param_wire_agrees(params[m as int], hacked[m as int], shadow);
    }
}

proof fn lemma_extra_steps_agree(extra: Seq<WireItem>, shadow: bool, n: nat)
    requires
        n <= extra.len(),
    ensures
        wire_of(Seq::new(n, |i: int| ClientStep::SendExtra(extra[i])), |s: ClientStep| client_step_out(s, shadow))
            == wire_of(Seq::new(n, |i: int| ServerStep::RecvExtra(extra[i])), |s: ServerStep| server_step_in(s, shadow)),
    decreases n,
{
    if n > 0 {
        let m = (n - 1) as nat;
        lemma_extra_steps_agree(extra, shadow, m);
        assert(Seq::new(n, |i: int| ClientStep::SendExtra(extra[i])).drop_last()
            =~= Seq::new(m, |i: int| ClientStep::SendExtra(extra[i])));
        assert(Seq::new(n, |i: int| ServerStep::RecvExtra(extra[i])).drop_last()
            =~= Seq::new(m, |i: int| ServerStep::RecvExtra(extra[i])));
    }
}

proof fn lemma_output_steps_agree(outs: Seq<ParamKind>, n: nat)
    requires
        n <= outs.len(),
    ensures
        wire_of(
            Seq::new(n, |i: int| ServerStep::Send(spec_server_send(outs[i]))),
            |s: ServerStep| server_step_out(s),
        ) == wire_of(
            Seq::new(n, |i: int| ClientStep::Recv(spec_client_recv(outs[i]))),
            |s: ClientStep| client_step_in(s),
        ),
    decreases n,
{
    if n > 0 {
        let m = (n - 1) as nat;
        lemma_output_steps_agree(outs, m);
        assert(Seq::new(n, |i: int| ServerStep::Send(spec_server_send(outs[i]))).drop_last()
            =~= Seq::new(m, |i: int| ServerStep::Send(spec_server_send(outs[i]))));
        assert(Seq::new(n, |i: int| ClientStep::Recv(spec_client_recv(outs[i]))).drop_last()
            =~= Seq::new(m, |i: int| ClientStep::Recv(spec_client_recv(outs[i]))));
    }
}

proof fn lemma_wire_of_silent<A>(steps: Seq<A>, f: spec_fn(A) -> Seq<WireItem>)
    requires
        forall|i: int| 0 <= i < steps.len() ==> f(#[trigger] steps[i]).len() == 0,
    ensures
        wire_of(steps, f) == Seq::<WireItem>::empty(),
    decreases steps.len(),
{
    if steps.len() > 0 {
        lemma_wire_of_silent(steps.drop_last(), f);
        assert(f(steps[steps.len() - 1]).len() == 0);
        assert(wire_of(steps, f) =~= Seq::<WireItem>::empty());
    }
}

/// The two stubs of a call agree on the wire: given the same extra items
/// on both sides, the client sends the procedure id and then exactly the
/// items the server's stub receives, in order, and the server replies with
/// exactly the items the client's stub receives, in order; where one side
/// skips the reply, so does the other.
pub proof fn lemma_stubs_agree(
    params: Seq<ParamKind>,
    hacked: Seq<bool>,
    extra: Seq<WireItem>,
    is_async: bool,
    phos: bool,
    shadow: bool,
    async_opt: bool,
)
    requires
        hacked.len() == params.len(),
    ensures
        wire_of(
            spec_client_stub(params, hacked, extra, is_async, shadow, async_opt),
            |s: ClientStep| client_step_out(s, shadow),
        ) == seq![WireItem::Value] + wire_of(
            spec_server_stub(params, extra, is_async, phos, shadow, async_opt),
            |s: ServerStep| server_step_in(s, shadow),
        ),
        wire_of(spec_server_stub(params, extra, is_async, phos, shadow, async_opt), |s: ServerStep| server_step_out(s))
            == wire_of(spec_client_stub(params, hacked, extra, is_async, shadow, async_opt), |s: ClientStep| client_step_in(s)),
{
    let cout = |s: ClientStep| client_step_out(s, shadow);
    let cin = |s: ClientStep| client_step_in(s);
    let sin = |s: ServerStep| server_step_in(s, shadow);
    let sout = |s: ServerStep| server_step_out(s);
    let outs = output_kinds(params);
    let creates = creates_handle(params);
    let save = spec_saves_args(phos, shadow, creates, modifies_handle(params));
    let reply = spec_has_reply(creates, is_async, shadow, async_opt);
    let c_head = seq![ClientStep::BeforeCall, ClientStep::SendProcId];
    let c_params0 = Seq::new(params.len(), |i: int| ClientStep::Send(spec_client_send(params[i], hacked[i])));
    let c_extra = Seq::new(extra.len(), |i: int| ClientStep::SendExtra(extra[i]));
    let c_params = c_params0 + c_extra;
    let c_fin = seq![ClientStep::FinishSend];
    let c_recvs = Seq::new(outs.len(), |i: int| ClientStep::Recv(spec_client_recv(outs[i])));
    let c_tail_reply = seq![ClientStep::RecvResult, ClientStep::FinishRecv];
    let c_reply = if reply { c_recvs + c_tail_reply } else { seq![ClientStep::ReturnDefault] };
    let c_end = seq![ClientStep::AfterCall];
    let c = spec_client_stub(params, hacked, extra, is_async, shadow, async_opt);
    assert(c == c_head + c_params + c_fin + c_reply + c_end);

    let s_head = seq![ServerStep::BeforeCall, ServerStep::BeginRecv { save }];
    let s_params0 = Seq::new(params.len(), |i: int| ServerStep::Recv(spec_server_recv(params[i])));
    let s_extra = Seq::new(extra.len(), |i: int| ServerStep::RecvExtra(extra[i]));
    let s_params = s_params0 + s_extra;
    let s_fin = seq![ServerStep::FinishRecv];
    let s_allocs = Seq::new(outs.len(), |i: int| ServerStep::Alloc(spec_server_alloc(outs[i])));
    let s_call = seq![ServerStep::Call];
    let s_rec_h = if creates && shadow { seq![ServerStep::RecordHandle] } else { Seq::empty() };
    let s_rec_a = if save { seq![ServerStep::RecordArgs] } else { Seq::empty() };
    let s_sends = Seq::new(outs.len(), |i: int| ServerStep::Send(spec_server_send(outs[i])));
    let s_tail_reply = seq![ServerStep::SendResult, ServerStep::FinishSend];
    let s_reply = if reply { seq![ServerStep::BeginSend] + s_sends + s_tail_reply } else { Seq::empty() };
    let srv = spec_server_stub(params, extra, is_async, phos, shadow, async_opt);
    let s_pre = s_fin + s_allocs + s_call + s_rec_h + s_rec_a;
    assert(srv =~= s_head + s_params + s_pre + s_reply);

    // the client's parts, piece by piece
    lemma_wire_of_concat(c_head + c_params + c_fin + c_reply, c_end, cout);
    lemma_wire_of_concat(c_head + c_params + c_fin, c_reply, cout);
    lemma_wire_of_concat(c_head + c_params, c_fin, cout);
    lemma_wire_of_concat(c_head, c_params, cout);
    lemma_wire_of_concat(c_head + c_params + c_fin + c_reply, c_end, cin);
    lemma_wire_of_concat(c_head + c_params + c_fin, c_reply, cin);
    lemma_wire_of_concat(c_head + c_params, c_fin, cin);
    lemma_wire_of_concat(c_head, c_params, cin);
    lemma_wire_of_two(ClientStep::BeforeCall, ClientStep::SendProcId, cout);
    lemma_wire_of_two(ClientStep::BeforeCall, ClientStep::SendProcId, cin);
    lemma_wire_of_one(ClientStep::FinishSend, cout);
    lemma_wire_of_one(ClientStep::FinishSend, cin);
    lemma_wire_of_one(ClientStep::AfterCall, cout);
    lemma_wire_of_one(ClientStep::AfterCall, cin);
    lemma_wire_of_silent(c_params, cin);
    lemma_wire_of_silent(c_reply, cout);
    if reply {
        lemma_wire_of_concat(c_recvs, c_tail_reply, cin);
        lemma_wire_of_two(ClientStep::RecvResult, ClientStep::FinishRecv, cin);
    } else {
        lemma_wire_of_one(ClientStep::ReturnDefault, cin);
    }

    // the server's parts
    lemma_wire_of_concat(s_head + s_params, s_pre, sin);
    lemma_wire_of_concat(s_head + s_params + s_pre, s_reply, sin);
    lemma_wire_of_concat(s_head, s_params, sin);
    lemma_wire_of_concat(s_head + s_params, s_pre, sout);
    lemma_wire_of_concat(s_head + s_params + s_pre, s_reply, sout);
    lemma_wire_of_concat(s_head, s_params, sout);
    lemma_wire_of_silent(s_head, sin);
    lemma_wire_of_silent(s_head, sout);
    lemma_wire_of_silent(s_params, sout);
    lemma_wire_of_silent(s_pre, sin);
    lemma_wire_of_silent(s_pre, sout);
    lemma_wire_of_silent(s_reply, sin);
    if reply {
        lemma_wire_of_concat(seq![ServerStep::BeginSend] + s_sends, s_tail_reply, sout);
        lemma_wire_of_concat(seq![ServerStep::BeginSend], s_sends, sout);
        lemma_wire_of_one(ServerStep::BeginSend, sout);
        lemma_wire_of_two(ServerStep::SendResult, ServerStep::FinishSend, sout);
    } else {
        lemma_wire_of_silent(s_reply, sout);
    }

    lemma_param_steps_agree(params, hacked, shadow, params.len());
    lemma_extra_steps_agree(extra, shadow, extra.len());
    lemma_wire_of_concat(c_params0, c_extra, cout);
    lemma_wire_of_concat(s_params0, s_extra, sin);
    lemma_output_steps_agree(outs, outs.len());
    assert(wire_of(c, cout) =~= seq![WireItem::Value] + wire_of(srv, sin));
    assert(wire_of(srv, sout) =~= wire_of(c, cin));
}

} // verus!
