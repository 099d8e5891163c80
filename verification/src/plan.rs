use vstd::prelude::*;
use crate::hook::{InputHandleOp, ParamKind};

verus! {

/// What goes over the wire for one parameter: a single value, or a length
/// followed by that many values.
#[derive(Debug, Clone, Copy, PartialEq, Eq)]
pub enum WireItem {
    Value,
    Slice,
}

/// What the client does with a parameter before the call goes out.
#[derive(Debug, Clone, Copy, PartialEq, Eq)]
pub enum ClientSend {
    /// Sends the value.
    Send,
    /// Reads the pointee without alignment and sends it.
    SendUnaligned,
    /// Checks the pointer is not null, then sends the pointee.
    SendPointee,
    /// Sends the array the pointer points to.
    SendSlice,
    /// Sends the C string, closing nul included.
    SendCStr,
    /// Where handles are shadowed, sends a fresh proxy handle.
    SendHandle,
    /// Checks the argument has its fixed value.
    AssertConst,
    /// Sends nothing.
    Nothing,
}

/// What the server does with a parameter before running the call.
#[derive(Debug, Clone, Copy, PartialEq, Eq)]
pub enum ServerRecv {
    /// Receives the value.
    Recv,
    /// Receives a handle and, where handles are shadowed, looks up the real
    /// one; `destroy` where the lookup drops it, `record` where the call
    /// modifies it.
    RecvHandle { destroy: bool, record: bool },
    /// Receives the pointee and passes a pointer to it.
    RecvPointee,
    /// Receives an array and passes a pointer to it.
    RecvSlice,
    /// Receives a C string and passes a pointer to it.
    RecvCStr,
    /// Where handles are shadowed, receives the client's proxy handle.
    RecvProxy,
    /// Receives nothing.
    Nothing,
}

/// What the client does with an output once the reply comes.
#[derive(Debug, Clone, Copy, PartialEq, Eq)]
pub enum ClientRecv {
    /// Receives one value into the output.
    RecvMut,
    /// Receives an array into the output.
    RecvMutSlice,
}

/// What the server sends back for an output.
#[derive(Debug, Clone, Copy, PartialEq, Eq)]
pub enum ServerSend {
    /// Sends the value.
    Send,
    /// Sends the whole array.
    SendSlice,
    /// Sends the first `len` values of a larger array.
    SendSlicePrefix,
}

/// The client's step for a parameter of `kind`; `hacked` where its type is
/// one whose pointee is read without alignment.
pub open spec fn spec_client_send(kind: ParamKind, hacked: bool) -> ClientSend {
    match kind {
        ParamKind::InputValue | ParamKind::InputHandle(_) | ParamKind::DeviceInputPtr
        | ParamKind::DeviceOutputPtr => ClientSend::Send,
        ParamKind::InputSinglePtr => if hacked {
            ClientSend::SendUnaligned
        } else {
            ClientSend::SendPointee
        },
        ParamKind::InputArrayPtr { .. } => ClientSend::SendSlice,
        ParamKind::InputCStr => ClientSend::SendCStr,
        ParamKind::OutputHandle => ClientSend::SendHandle,
        ParamKind::OutputSinglePtr | ParamKind::OutputArrayPtr { .. } | ParamKind::Skip => ClientSend::Nothing,
        ParamKind::Const => ClientSend::AssertConst,
    }
}

/// The server's step for a parameter of `kind`.
pub open spec fn spec_server_recv(kind: ParamKind) -> ServerRecv {
    match kind {
        ParamKind::InputValue => ServerRecv::Recv,
        ParamKind::InputHandle(op) => ServerRecv::RecvHandle {
            destroy: op == InputHandleOp::Destroy,
            record: op == InputHandleOp::Modify,
        },
        ParamKind::InputSinglePtr => ServerRecv::RecvPointee,
        ParamKind::InputArrayPtr { .. } => ServerRecv::RecvSlice,
        ParamKind::InputCStr => ServerRecv::RecvCStr,
        ParamKind::OutputHandle => ServerRecv::RecvProxy,
        ParamKind::OutputSinglePtr | ParamKind::OutputArrayPtr { .. } => ServerRecv::Nothing,
        ParamKind::DeviceInputPtr | ParamKind::DeviceOutputPtr => ServerRecv::Recv,
        ParamKind::Skip | ParamKind::Const => ServerRecv::Nothing,
    }
}

/// What the client's step puts on the wire; `shadow` where handles are
/// shadowed.
pub open spec fn client_send_wire(step: ClientSend, shadow: bool) -> Seq<WireItem> {
    match step {
        ClientSend::Send | ClientSend::SendUnaligned | ClientSend::SendPointee => seq![WireItem::Value],
        ClientSend::SendSlice | ClientSend::SendCStr => seq![WireItem::Slice],
        ClientSend::SendHandle => if shadow {
            seq![WireItem::Value]
        } else {
            Seq::empty()
        },
        ClientSend::AssertConst | ClientSend::Nothing => Seq::empty(),
    }
}

/// What the server's step takes off the wire.
pub open spec fn server_recv_wire(step: ServerRecv, shadow: bool) -> Seq<WireItem> {
    match step {
        ServerRecv::Recv | ServerRecv::RecvHandle { .. } | ServerRecv::RecvPointee => seq![WireItem::Value],
        ServerRecv::RecvSlice | ServerRecv::RecvCStr => seq![WireItem::Slice],
        ServerRecv::RecvProxy => if shadow {
            seq![WireItem::Value]
        } else {
            Seq::empty()
        },
        ServerRecv::Nothing => Seq::empty(),
    }
}

/// The client's step for an output.
pub open spec fn spec_client_recv(kind: ParamKind) -> ClientRecv {
    match kind {
        ParamKind::OutputArrayPtr { .. } => ClientRecv::RecvMutSlice,
        _ => ClientRecv::RecvMut,
    }
}

/// The server's step for an output.
pub open spec fn spec_server_send(kind: ParamKind) -> ServerSend {
    match kind {
        ParamKind::OutputArrayPtr { has_cap, .. } => if has_cap {
            ServerSend::SendSlicePrefix
        } else {
            ServerSend::SendSlice
        },
        _ => ServerSend::Send,
    }
}

pub open spec fn client_recv_wire(step: ClientRecv) -> WireItem {
    match step {
        ClientRecv::RecvMut => WireItem::Value,
        ClientRecv::RecvMutSlice => WireItem::Slice,
    }
}

pub open spec fn server_send_wire(step: ServerSend) -> WireItem {
    match step {
        ServerSend::Send => WireItem::Value,
        ServerSend::SendSlice | ServerSend::SendSlicePrefix => WireItem::Slice,
    }
}

/// The client's step for a parameter.
pub fn client_send_step(kind: ParamKind, hacked: bool) -> (step: ClientSend)
    ensures
        step == spec_client_send(kind, hacked),
{
    match kind {
        ParamKind::InputValue | ParamKind::InputHandle(_) | ParamKind::DeviceInputPtr
        | ParamKind::DeviceOutputPtr => ClientSend::Send,
        ParamKind::InputSinglePtr => if hacked {
            ClientSend::SendUnaligned
        } else {
            ClientSend::SendPointee
        },
        ParamKind::InputArrayPtr { .. } => ClientSend::SendSlice,
        ParamKind::InputCStr => ClientSend::SendCStr,
        ParamKind::OutputHandle => ClientSend::SendHandle,
        ParamKind::OutputSinglePtr | ParamKind::OutputArrayPtr { .. } | ParamKind::Skip => ClientSend::Nothing,
        ParamKind::Const => ClientSend::AssertConst,
    }
}

/// The server's step for a parameter.
pub fn server_recv_step(kind: ParamKind) -> (step: ServerRecv)
    ensures
        step == spec_server_recv(kind),
{
    match kind {
        ParamKind::InputValue => ServerRecv::Recv,
        ParamKind::InputHandle(op) => {
            let destroy = match op {
                InputHandleOp::Destroy => true,
                _ => false,
            };
            let record = match op {
                InputHandleOp::Modify => true,
                _ => false,
            };
            ServerRecv::RecvHandle { destroy, record }
        },
        ParamKind::InputSinglePtr => ServerRecv::RecvPointee,
        ParamKind::InputArrayPtr { .. } => ServerRecv::RecvSlice,
        ParamKind::InputCStr => ServerRecv::RecvCStr,
        ParamKind::OutputHandle => ServerRecv::RecvProxy,
        ParamKind::OutputSinglePtr | ParamKind::OutputArrayPtr { .. } => ServerRecv::Nothing,
        ParamKind::DeviceInputPtr | ParamKind::DeviceOutputPtr => ServerRecv::Recv,
        ParamKind::Skip | ParamKind::Const => ServerRecv::Nothing,
    }
}

/// The client's step for an output of the call.
pub fn client_recv_step(kind: ParamKind) -> (step: ClientRecv)
    requires
        kind.host_output(),
    ensures
        step == spec_client_recv(kind),
{
    match kind {
        ParamKind::OutputArrayPtr { .. } => ClientRecv::RecvMutSlice,
        _ => ClientRecv::RecvMut,
    }
}

/// The server's step for an output of the call.
pub fn server_send_step(kind: ParamKind) -> (step: ServerSend)
    requires
        kind.host_output(),
    ensures
        step == spec_server_send(kind),
{
    match kind {
        ParamKind::OutputArrayPtr { has_cap, .. } => if has_cap {
            ServerSend::SendSlicePrefix
        } else {
            ServerSend::SendSlice
        },
        _ => ServerSend::Send,
    }
}

/// Whether the side that sent the call waits for a reply: not where the
/// call creates a shadowed handle, nor where it runs asynchronously.
pub open spec fn spec_has_reply(creates: bool, is_async: bool, shadow: bool, async_opt: bool) -> bool {
    !(creates && shadow) && !(is_async && async_opt)
}

/// Whether the client waits for the reply.
pub fn client_awaits_reply(creates: bool, is_async: bool, shadow: bool, async_opt: bool) -> (b: bool)
    ensures
        b == spec_has_reply(creates, is_async, shadow, async_opt),
{
    if creates && shadow {
        return false;
    }
    if is_async && async_opt {
        return false;
    }
    true
}

/// Whether the server sends a reply.
pub fn server_sends_reply(creates: bool, is_async: bool, shadow: bool, async_opt: bool) -> (b: bool)
    ensures
        b == spec_has_reply(creates, is_async, shadow, async_opt),
{
    !(creates && shadow) && !(is_async && async_opt)
}

/// The items the client's steps put on the wire, in order.
pub open spec fn client_plan_wire(plan: Seq<ClientSend>, shadow: bool) -> Seq<WireItem>
    decreases plan.len(),
{
    if plan.len() == 0 {
        Seq::empty()
    } else {
        client_plan_wire(plan.drop_last(), shadow) + client_send_wire(plan.last(), shadow)
    }
}

/// The items the server's steps take off the wire, in order.
pub open spec fn server_plan_wire(plan: Seq<ServerRecv>, shadow: bool) -> Seq<WireItem>
    decreases plan.len(),
{
    if plan.len() == 0 {
        Seq::empty()
    } else {
        server_plan_wire(plan.drop_last(), shadow) + server_recv_wire(plan.last(), shadow)
    }
}

/// The client's steps for all parameters, in order.
pub fn client_send_plan(params: &[ParamKind], hacked: &[bool]) -> (plan: Vec<ClientSend>)
    requires
        hacked@.len() == params@.len(),
    ensures
        plan@.len() == params@.len(),
        forall|i: int| 0 <= i < params@.len() ==> plan@[i] == spec_client_send(params@[i], hacked@[i]),
{
    let mut plan: Vec<ClientSend> = Vec::new();
    let mut i: usize = 0;
    while i < params.len()
        invariant
            hacked@.len() == params@.len(),
            i <= params@.len(),
            plan@.len() == i,
            forall|j: int| 0 <= j < i ==> plan@[j] == spec_client_send(params@[j], hacked@[j]),
        decreases params@.len() - i,
    {
        plan.push(client_send_step(params[i], hacked[i]));
        i = i + 1;
    }
    plan
}

/// The server's steps for all parameters, in order.
pub fn server_recv_plan(params: &[ParamKind]) -> (plan: Vec<ServerRecv>)
    ensures
        plan@.len() == params@.len(),
        forall|i: int| 0 <= i < params@.len() ==> plan@[i] == spec_server_recv(params@[i]),
{
    let mut plan: Vec<ServerRecv> = Vec::new();
    let mut i: usize = 0;
    while i < params.len()
        invariant
            i <= params@.len(),
            plan@.len() == i,
            forall|j: int| 0 <= j < i ==> plan@[j] == spec_server_recv(params@[j]),
        decreases params@.len() - i,
    {
        plan.push(server_recv_step(params[i]));
        i = i + 1;
    }
    plan
}

/// Each parameter's client step puts on the wire exactly what the server's
/// step for it takes off, whichever way handles are shadowed.
pub proof fn lemma_param_wire_agrees(kind: ParamKind, hacked: bool, shadow: bool)
    ensures
        client_send_wire(spec_client_send(kind, hacked), shadow) == server_recv_wire(
            spec_server_recv(kind),
            shadow,
        ),
{
}

/// For a whole hook, the client's plan puts on the wire exactly the items
/// the server's plan takes off, in the same order.
pub proof fn lemma_plans_agree(
    params: Seq<ParamKind>,
    hacked: Seq<bool>,
    client: Seq<ClientSend>,
    server: Seq<ServerRecv>,
    shadow: bool,
)
    requires
        hacked.len() == params.len(),
        client.len() == params.len(),
        server.len() == params.len(),
        forall|i: int| 0 <= i < params.len() ==> client[i] == spec_client_send(params[i], hacked[i]),
        forall|i: int| 0 <= i < params.len() ==> server[i] == spec_server_recv(params[i]),
    ensures
        client_plan_wire(client, shadow) == server_plan_wire(server, shadow),
    decreases params.len(),
{
    if params.len() > 0 {
        let n = params.len() - 1;
        lemma_plans_agree(
            params.drop_last(),
            hacked.drop_last(),
            client.drop_last(),
            server.drop_last(),
            shadow,
        );
        lemma_param_wire_agrees(params[n], hacked[n], shadow);
    }
}

/// Each output's reply item is the one the client expects.
pub proof fn lemma_output_wire_agrees(kind: ParamKind)
    requires
        kind.host_output(),
    ensures
        client_recv_wire(spec_client_recv(kind)) == server_send_wire(spec_server_send(kind)),
{
}

} // verus!
