use vstd::prelude::*;
use std::collections::BTreeMap;
use crate::fatbin::{FatBinaryHandle, handle_value};
use crate::wire::Transportable;
use vstd::slice::slice_subrange;

verus! {

broadcast use {vstd::std_specs::btree::group_btree_axioms, vstd::laws_cmp::group_laws_cmp};

/// A grid or block size.
#[derive(Debug, Clone, Copy, PartialEq, Eq)]
pub struct Dim3 {
    pub x: u32,
    pub y: u32,
    pub z: u32,
}

/// A size travels as its three components, `x` first, each as a `u32`.
impl Transportable for Dim3 {
    open spec fn wire_size() -> nat {
        12
    }

    open spec fn encode(self) -> Seq<u8> {
        self.x.encode() + self.y.encode() + self.z.encode()
    }

    open spec fn decode(bytes: Seq<u8>) -> Dim3 {
        Dim3 {
            x: u32::decode(bytes.subrange(0, 4)),
            y: u32::decode(bytes.subrange(4, 8)),
            z: u32::decode(bytes.subrange(8, 12)),
        }
    }

    proof fn lemma_round_trip(v: Dim3) {
        u32::lemma_round_trip(v.x);
        u32::lemma_round_trip(v.y);
        u32::lemma_round_trip(v.z);
        let b = v.encode();
        assert(b.subrange(0, 4) =~= v.x.encode());
        assert(b.subrange(4, 8) =~= v.y.encode());
        assert(b.subrange(8, 12) =~= v.z.encode());
    }

    fn size() -> (n: usize) {
        12
    }

    fn to_bytes(&self) -> (v: Vec<u8>) {
        let mut v = self.x.to_bytes();
        let mut y = self.y.to_bytes();
        let mut z = self.z.to_bytes();
        v.append(&mut y);
        v.append(&mut z);
        v
    }

    fn from_bytes(bytes: &[u8]) -> (v: Dim3) {
        let x = u32::from_bytes(slice_subrange(bytes, 0, 4));
        let y = u32::from_bytes(slice_subrange(bytes, 4, 8));
        let z = u32::from_bytes(slice_subrange(bytes, 8, 12));
        Dim3 { x, y, z }
    }
}

/// The launch configuration pushed before a kernel call.
#[derive(Debug, Clone, Copy, PartialEq, Eq)]
pub struct CallConfiguration {
    pub grid_dim: Dim3,
    pub block_dim: Dim3,
    pub shared_mem: usize,
    pub stream: usize,
}

/// The launch configurations pushed and not yet popped, latest last.
pub struct CallConfigurations {
    stack: Vec<CallConfiguration>,
}

impl CallConfigurations {
    pub closed spec fn view(&self) -> Seq<CallConfiguration> {
        self.stack@
    }

    /// No configuration pushed.
    pub fn new() -> (c: Self)
        ensures
            c@ == Seq::<CallConfiguration>::empty(),
    {
        CallConfigurations { stack: Vec::new() }
    }

    /// Pushes the configuration of the next launch.
    pub fn push_call_configuration(&mut self, grid_dim: Dim3, block_dim: Dim3, shared_mem: usize, stream: usize)
        ensures
            final(self)@ == old(self)@.push(CallConfiguration { grid_dim, block_dim, shared_mem, stream }),
    {
        self.stack.push(CallConfiguration { grid_dim, block_dim, shared_mem, stream });
    }

    /// Pops the latest configuration; `None` where none is left, which the
    /// runtime reports as a missing configuration.
    pub fn pop_call_configuration(&mut self) -> (c: Option<CallConfiguration>)
        ensures
            old(self)@.len() == 0 ==> c is None && final(self)@ == old(self)@,
            old(self)@.len() > 0 ==> c == Some(old(self)@.last()) && final(self)@ == old(self)@.drop_last(),
    {
        self.stack.pop()
    }
}

/// Popping right after a push gives back what was pushed and leaves the
/// configurations as they were before the push.
pub proof fn lemma_pop_after_push(s: Seq<CallConfiguration>, c: CallConfiguration)
    ensures
        s.push(c).len() > 0,
        s.push(c).last() == c,
        s.push(c).drop_last() == s,
{
    assert(s.push(c).drop_last() =~= s);
}

/// The direction of a memory copy.
#[derive(Debug, Clone, Copy, PartialEq, Eq)]
pub enum MemcpyKind {
    HostToHost,
    HostToDevice,
    DeviceToHost,
    DeviceToDevice,
    Default,
}

/// Where the driver says a pointer's memory lives.
#[derive(Debug, Clone, Copy, PartialEq, Eq)]
pub enum MemoryType {
    Unregistered,
    Host,
    Device,
    Managed,
}

/// Whether memory of this type is device memory; managed memory is not
/// handled.
pub fn is_device_memory(t: MemoryType) -> (b: bool)
    requires
        t != MemoryType::Managed,
    ensures
        b == (t == MemoryType::Device),
{
    match t {
        MemoryType::Unregistered | MemoryType::Host => false,
        MemoryType::Device => true,
        MemoryType::Managed => false,
    }
}

/// The direction of a copy between the given kinds of memory.
pub open spec fn spec_memcpy_kind(dst_is_device: bool, src_is_device: bool) -> MemcpyKind {
    match (dst_is_device, src_is_device) {
        (false, false) => MemcpyKind::HostToHost,
        (true, false) => MemcpyKind::HostToDevice,
        (false, true) => MemcpyKind::DeviceToHost,
        (true, true) => MemcpyKind::DeviceToDevice,
    }
}

/// The direction of a copy, from where its destination and source live.
pub fn infer_memcpy_kind(dst_is_device: bool, src_is_device: bool) -> (k: MemcpyKind)
    ensures
        k == spec_memcpy_kind(dst_is_device, src_is_device),
        k != MemcpyKind::Default,
{
    match (dst_is_device, src_is_device) {
        (false, false) => MemcpyKind::HostToHost,
        (true, false) => MemcpyKind::HostToDevice,
        (false, true) => MemcpyKind::DeviceToHost,
        (true, true) => MemcpyKind::DeviceToDevice,
    }
}

/// The direction a copy takes: the one asked for, or, where the default was
/// asked for, the one inferred from where the memory lives.
pub fn resolve_memcpy_kind(kind: MemcpyKind, dst_is_device: bool, src_is_device: bool) -> (k: MemcpyKind)
    ensures
        kind == MemcpyKind::Default ==> k == spec_memcpy_kind(dst_is_device, src_is_device),
        kind != MemcpyKind::Default ==> k == kind,
        k != MemcpyKind::Default,
{
    match kind {
        MemcpyKind::Default => infer_memcpy_kind(dst_is_device, src_is_device),
        _ => kind,
    }
}

/// What the runtime side of the client records as the program registers
/// its fat binaries, kernels and variables, and as they get loaded.
pub struct RuntimeCache {
    cuda_device: Option<i32>,
    lazy_fatbins: Vec<u64>,
    lazy_functions: BTreeMap<u64, (FatBinaryHandle, u64)>,
    lazy_variables: BTreeMap<u64, (FatBinaryHandle, u64)>,
    loaded_modules: BTreeMap<usize, u64>,
    loaded_functions: BTreeMap<u64, u64>,
}

impl RuntimeCache {
    /// The device the runtime's kernels were loaded for, once known.
    pub closed spec fn device(&self) -> Option<i32> {
        self.cuda_device
    }

    /// The device the runtime's kernels were loaded for, once known.
    pub fn cuda_device(&self) -> (d: Option<i32>)
        ensures
            d == self.device(),
    {
        self.cuda_device
    }

    /// Records the device the runtime's kernels are loaded for.
    pub fn set_cuda_device(&mut self, device: i32)
        ensures
            final(self).device() == Some(device),
            final(self).fatbins() == old(self).fatbins(),
            final(self).functions() == old(self).functions(),
            final(self).variables() == old(self).variables(),
            final(self).modules() == old(self).modules(),
            final(self).loaded() == old(self).loaded(),
    {
        self.cuda_device = Some(device);
    }

    /// The registered fat binaries, in order.
    pub closed spec fn fatbins(&self) -> Seq<u64> {
        self.lazy_fatbins@
    }

    /// The fat binary and device name each host function was registered with.
    pub closed spec fn functions(&self) -> Map<u64, (FatBinaryHandle, u64)> {
        self.lazy_functions@
    }

    /// The fat binary and device name each host variable was registered with.
    pub closed spec fn variables(&self) -> Map<u64, (FatBinaryHandle, u64)> {
        self.lazy_variables@
    }

    /// The module loaded for each fat binary handle's value.
    pub closed spec fn modules(&self) -> Map<usize, u64> {
        self.loaded_modules@
    }

    /// The driver function found for each host function.
    pub closed spec fn loaded(&self) -> Map<u64, u64> {
        self.loaded_functions@
    }

    /// Nothing registered.
    pub fn new() -> (c: Self)
        ensures
            c.device() is None,
            c.fatbins() == Seq::<u64>::empty(),
            c.functions() == Map::<u64, (FatBinaryHandle, u64)>::empty(),
            c.variables() == Map::<u64, (FatBinaryHandle, u64)>::empty(),
            c.modules() == Map::<usize, u64>::empty(),
            c.loaded() == Map::<u64, u64>::empty(),
    {
        RuntimeCache {
            cuda_device: None,
            lazy_fatbins: Vec::new(),
            lazy_functions: BTreeMap::new(),
            lazy_variables: BTreeMap::new(),
            loaded_modules: BTreeMap::new(),
            loaded_functions: BTreeMap::new(),
        }
    }

    /// Registers a fat binary and returns its handle, which encodes its
    /// place in the table.
    pub fn register_fat_binary(&mut self, fatbin: u64) -> (h: FatBinaryHandle)
        requires
            handle_value(old(self).fatbins().len()) <= usize::MAX,
        ensures
            final(self).fatbins() == old(self).fatbins().push(fatbin),
            h.0 == handle_value(old(self).fatbins().len()),
            final(self).functions() == old(self).functions(),
            final(self).variables() == old(self).variables(),
            final(self).modules() == old(self).modules(),
            final(self).loaded() == old(self).loaded(),
            final(self).device() == old(self).device(),
    {
        self.lazy_fatbins.push(fatbin);
        FatBinaryHandle::from_index(self.lazy_fatbins.len() - 1)
    }

    /// Registers a kernel's host function; the first registration of a
    /// host function stands.
    pub fn register_function(&mut self, handle: FatBinaryHandle, host_fun: u64, device_name: u64)
        ensures
            old(self).functions().contains_key(host_fun) ==> final(self).functions() == old(self).functions(),
            !old(self).functions().contains_key(host_fun) ==> final(self).functions()
                == old(self).functions().insert(host_fun, (handle, device_name)),
            final(self).fatbins() == old(self).fatbins(),
            final(self).variables() == old(self).variables(),
            final(self).modules() == old(self).modules(),
            final(self).loaded() == old(self).loaded(),
            final(self).device() == old(self).device(),
    {
        if !self.lazy_functions.contains_key(&host_fun) {
            let _ = self.lazy_functions.insert(host_fun, (handle, device_name));
        }
    }

    /// Registers a host variable; the first registration stands.
    pub fn register_var(&mut self, handle: FatBinaryHandle, host_var: u64, device_name: u64)
        ensures
            old(self).variables().contains_key(host_var) ==> final(self).variables() == old(self).variables(),
            !old(self).variables().contains_key(host_var) ==> final(self).variables()
                == old(self).variables().insert(host_var, (handle, device_name)),
            final(self).fatbins() == old(self).fatbins(),
            final(self).functions() == old(self).functions(),
            final(self).modules() == old(self).modules(),
            final(self).loaded() == old(self).loaded(),
            final(self).device() == old(self).device(),
    {
        if !self.lazy_variables.contains_key(&host_var) {
            let _ = self.lazy_variables.insert(host_var, (handle, device_name));
        }
    }

    /// The driver function already found for host function `func`, if any.
    pub fn cached_function(&self, func: u64) -> (r: Option<u64>)
        ensures
            match r {
                Some(f) => self.loaded().contains_key(func) && self.loaded()[func] == f,
                None => !self.loaded().contains_key(func),
            },
    {
        match self.loaded_functions.get(&func) {
            Some(f) => Some(*f),
            None => None,
        }
    }

    /// The fat binary and device name host function `func` was registered
    /// with, if it was.
    pub fn registration(&self, func: u64) -> (r: Option<(FatBinaryHandle, u64)>)
        ensures
            match r {
                Some(v) => self.functions().contains_key(func) && self.functions()[func] == v,
                None => !self.functions().contains_key(func),
            },
    {
        match self.lazy_functions.get(&func) {
            Some(v) => Some(*v),
            None => None,
        }
    }

    /// The registered fat binary that `handle` stands for.
    pub fn fatbin(&self, handle: FatBinaryHandle) -> (r: u64)
        requires
            handle.0 >= 16,
            handle.0 as nat / 16 - 1 < self.fatbins().len(),
        ensures
            r == self.fatbins()[handle.0 as nat / 16 - 1],
    {
        let index = handle.to_index();
        self.lazy_fatbins[index]
    }

    /// The module loaded for the fat binary `handle`, if it was loaded.
    pub fn loaded_module(&self, handle: FatBinaryHandle) -> (r: Option<u64>)
        ensures
            match r {
                Some(m) => self.modules().contains_key(handle.0) && self.modules()[handle.0] == m,
                None => !self.modules().contains_key(handle.0),
            },
    {
        match self.loaded_modules.get(&handle.0) {
            Some(m) => Some(*m),
            None => None,
        }
    }

    /// Records the module loaded for the fat binary `handle`.
    pub fn record_module(&mut self, handle: FatBinaryHandle, module: u64)
        ensures
            final(self).modules() == old(self).modules().insert(handle.0, module),
            final(self).fatbins() == old(self).fatbins(),
            final(self).functions() == old(self).functions(),
            final(self).variables() == old(self).variables(),
            final(self).loaded() == old(self).loaded(),
            final(self).device() == old(self).device(),
    {
        let _ = self.loaded_modules.insert(handle.0, module);
    }

    /// Records the driver function found for host function `func`.
    pub fn record_function(&mut self, func: u64, cufunc: u64)
        ensures
            final(self).loaded() == old(self).loaded().insert(func, cufunc),
            final(self).fatbins() == old(self).fatbins(),
            final(self).functions() == old(self).functions(),
            final(self).variables() == old(self).variables(),
            final(self).modules() == old(self).modules(),
            final(self).device() == old(self).device(),
    {
        let _ = self.loaded_functions.insert(func, cufunc);
    }
}


/// What finding the driver function of a kernel's host function asks for
/// next.
#[derive(Debug, Clone, Copy, PartialEq, Eq)]
pub enum LookupStep {
    /// The runtime has not touched the device on this thread yet: do so
    /// (the runtime does it with a free of the null pointer) and mark the
    /// thread's device as initialised.
    InitDevice,
    /// The device the kernels are to be loaded for is not known yet: ask
    /// which device is current and record it with `set_cuda_device`.
    QueryDevice,
    /// Load the registered fat binary `image` as a module and record it
    /// with `record_module` under `handle`.
    LoadModule { handle: FatBinaryHandle, image: u64 },
    /// Look the kernel `device_name` up in `module` and record what is
    /// found with `record_function`.
    GetFunction { module: u64, device_name: u64 },
    /// The driver function.
    Found(u64),
}

impl RuntimeCache {
    /// The step that comes next in finding the driver function of host
    /// function `func`, where `device_init` says whether the thread's
    /// device was initialised.
    pub open spec fn spec_lookup_step(&self, func: u64, device_init: bool) -> LookupStep {
        if !device_init {
            LookupStep::InitDevice
        } else if self.loaded().contains_key(func) {
            LookupStep::Found(self.loaded()[func])
        } else if self.device() is None {
            LookupStep::QueryDevice
        } else {
            let (handle, device_name) = self.functions()[func];
            if self.modules().contains_key(handle.0) {
                LookupStep::GetFunction { module: self.modules()[handle.0], device_name }
            } else {
                LookupStep::LoadModule { handle, image: self.fatbins()[handle.0 as nat / 16 - 1] }
            }
        }
    }

    /// The inputs on which the lookup goes on: where it must read the
    /// registration, `func` was registered; where the device is known, it
    /// is the current one; where a module must be loaded, the handle stands
    /// for a registered fat binary.
    pub open spec fn lookup_defined(&self, func: u64, device_init: bool, current: Option<i32>) -> bool {
        device_init && !self.loaded().contains_key(func) && self.device() is Some ==> {
            &&& current == self.device()
            &&& self.functions().contains_key(func)
            &&& {
                let handle = self.functions()[func].0;
                !self.modules().contains_key(handle.0) ==> handle.0 >= 16 && handle.0 as nat / 16 - 1
                    < self.fatbins().len()
            }
        }
    }

    /// Decides the next step in finding the driver function of host
    /// function `func`.
    pub fn lookup_step(&self, func: u64, device_init: bool, current: Option<i32>) -> (step: LookupStep)
        requires
            self.lookup_defined(func, device_init, current),
        ensures
            step == self.spec_lookup_step(func, device_init),
            step matches LookupStep::LoadModule { handle, image } ==> {
                &&& handle == self.functions()[func].0
                &&& image == self.fatbins()[self.functions()[func].0.0 as nat / 16 - 1]
                &&& !self.modules().contains_key(handle.0)
            },
            step matches LookupStep::GetFunction { module, device_name } ==> {
                &&& device_name == self.functions()[func].1
                &&& module == self.modules()[self.functions()[func].0.0]
            },
            step matches LookupStep::Found(f) ==> self.loaded().contains_key(func) && f == self.loaded()[func],
            (step is InitDevice) <==> !device_init,
            (step is Found) <==> (device_init && self.loaded().contains_key(func)),
            (step is QueryDevice) <==> (device_init && !self.loaded().contains_key(func) && self.device() is None),
            (step is GetFunction) <==> (device_init && !self.loaded().contains_key(func) && self.device() is Some
                && self.modules().contains_key(self.functions()[func].0.0)),
    {
        if !device_init {
            return LookupStep::InitDevice;
        }
        if let Some(f) = self.cached_function(func) {
            return LookupStep::Found(f);
        }
        if self.cuda_device.is_none() {
            return LookupStep::QueryDevice;
        }
        let (handle, device_name) = match self.registration(func) {
            Some(r) => r,
            None => {
                return LookupStep::QueryDevice;
            },
        };
        match self.loaded_module(handle) {
            Some(module) => LookupStep::GetFunction { module, device_name },
            None => LookupStep::LoadModule { handle, image: self.fatbin(handle) },
        }
    }
}

/// The module a lookup asks to load is the fat binary that the kernel was
/// registered with: registering fat binaries hands out handles, and the
/// image named for a kernel registered under the `i`-th handle is the
/// `i`-th fat binary registered.
pub proof fn lemma_lookup_loads_registered_image(c: RuntimeCache, func: u64, i: int)
    requires
        c.spec_lookup_step(func, true) is LoadModule,
        0 <= i < c.fatbins().len(),
        c.functions()[func].0.0 == handle_value(i as nat),
    ensures
        c.spec_lookup_step(func, true)->image == c.fatbins()[i],
        c.spec_lookup_step(func, true)->handle == c.functions()[func].0,
{
    assert(handle_value(i as nat) as nat / 16 - 1 == i) by (nonlinear_arith)
        requires
            handle_value(i as nat) == (i + 1) * 16,
            0 <= i;
}

/// Recording the module that a lookup asked to load moves the lookup on
/// to finding the kernel in that module, under the registered name.
pub proof fn lemma_lookup_after_load(c: RuntimeCache, d: RuntimeCache, func: u64, module: u64)
    requires
        c.spec_lookup_step(func, true) is LoadModule,
        d.modules() == c.modules().insert(c.spec_lookup_step(func, true)->handle.0, module),
        d.loaded() == c.loaded(),
        d.functions() == c.functions(),
        d.device() == c.device(),
    ensures
        d.spec_lookup_step(func, true) == (LookupStep::GetFunction { module, device_name: c.functions()[func].1 }),
{
}

/// Once the driver function of a host function is recorded, the lookup
/// gives it back at once, and recording it again with the same value
/// changes nothing that a lookup sees.
pub proof fn lemma_lookup_after_record(c: RuntimeCache, d: RuntimeCache, func: u64, cufunc: u64)
    requires
        d.loaded() == c.loaded().insert(func, cufunc),
    ensures
        d.spec_lookup_step(func, true) == LookupStep::Found(cufunc),
        d.lookup_defined(func, true, None),
{
}

} // verus!
