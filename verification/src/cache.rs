use vstd::prelude::*;
use std::collections::BTreeMap;
use crate::fatbin::FatBinaryHandle;

verus! {

broadcast use {vstd::std_specs::btree::group_btree_axioms, vstd::laws_cmp::group_laws_cmp};

/// Where one kernel parameter lies in the packed argument buffer.
#[derive(Debug, Clone, Copy, PartialEq, Eq)]
pub struct KernelParamInfo {
    pub offset: u32,
    pub size: u32,
}

impl KernelParamInfo {
    /// The parameter's size in bytes.
    pub open spec fn spec_size(&self) -> u32 {
        self.size
    }

    /// A parameter of `size` bytes at `offset`.
    pub fn new(offset: u32, size: u32) -> (p: Self)
        ensures
            p.offset == offset,
            p.spec_size() == size,
    {
        KernelParamInfo { offset, size }
    }

    /// The parameter's size in bytes.
    pub fn size(&self) -> (n: u32)
        ensures
            n == self.spec_size(),
    {
        self.size
    }
}

/// A module's image: the runtime's own, which lives as long as the
/// process and is only borrowed, or a copy of one the program handed in.
pub enum ModuleImage {
    Borrowed(&'static [u8]),
    Owned(Vec<u8>),
}

impl ModuleImage {
    /// The image's bytes.
    pub open spec fn bytes(&self) -> Seq<u8> {
        match self {
            ModuleImage::Borrowed(b) => b@,
            ModuleImage::Owned(v) => v@,
        }
    }

    /// The image's bytes.
    pub fn as_slice(&self) -> (s: &[u8])
        ensures
            s@ == self.bytes(),
    {
        match self {
            ModuleImage::Borrowed(b) => b,
            ModuleImage::Owned(v) => v.as_slice(),
        }
    }
}

/// What the client remembers of the driver's modules and functions.
pub struct DriverCache {
    images: BTreeMap<u64, ModuleImage>,
    function_params: BTreeMap<u64, Vec<KernelParamInfo>>,
}

impl DriverCache {
    /// The image loaded for each module handle.
    pub closed spec fn images(&self) -> Map<u64, Seq<u8>> {
        self.images@.map_values(|v: ModuleImage| v.bytes())
    }

    /// The modules whose image is the runtime's own, borrowed rather than
    /// copied.
    pub closed spec fn borrowed(&self) -> Set<u64> {
        Set::new(|m: u64| self.images@.contains_key(m) && self.images@[m] is Borrowed)
    }

    /// The parameters of each function handle.
    pub closed spec fn params(&self) -> Map<u64, Seq<KernelParamInfo>> {
        self.function_params@.map_values(|v: Vec<KernelParamInfo>| v@)
    }

    /// An empty cache.
    pub fn new() -> (c: Self)
        ensures
            c.images() == Map::<u64, Seq<u8>>::empty(),
            c.borrowed() == Set::<u64>::empty(),
            c.params() == Map::<u64, Seq<KernelParamInfo>>::empty(),
    {
        let c = DriverCache { images: BTreeMap::new(), function_params: BTreeMap::new() };
        assert(c.images() =~= Map::<u64, Seq<u8>>::empty());
        assert(c.borrowed() =~= Set::<u64>::empty());
        assert(c.params() =~= Map::<u64, Seq<KernelParamInfo>>::empty());
        c
    }

    /// Remembers `image` as the module `module`'s, replacing what was there:
    /// the runtime's images (`is_runtime`) live as long as the process and
    /// are borrowed, others are copied.
    pub fn insert_image(&mut self, module: u64, image: &'static [u8], is_runtime: bool)
        ensures
            final(self).images() == old(self).images().insert(module, image@),
            final(self).borrowed() == (if is_runtime {
                old(self).borrowed().insert(module)
            } else {
                old(self).borrowed().remove(module)
            }),
            final(self).params() == old(self).params(),
    {
        let entry = if is_runtime {
            ModuleImage::Borrowed(image)
        } else {
            ModuleImage::Owned(vstd::slice::slice_to_vec(image))
        };
        let _ = self.images.insert(module, entry);
        proof {
            assert(self.images() =~= old(self).images().insert(module, image@));
            if is_runtime {
                assert(self.borrowed() =~= old(self).borrowed().insert(module));
            } else {
                assert(self.borrowed() =~= old(self).borrowed().remove(module));
            }
        }
    }

    /// The image of module `module`, if it was loaded.
    pub fn image(&self, module: u64) -> (r: Option<&[u8]>)
        ensures
            match r {
                Some(v) => self.images().contains_key(module) && v@ == self.images()[module],
                None => !self.images().contains_key(module),
            },
    {
        match self.images.get(&module) {
            Some(img) => Some(img.as_slice()),
            None => None,
        }
    }

    /// Remembers `params`, found in the image of module `hmod`, as the
    /// parameters of function `hfunc`, which must be new.
    pub fn insert_function(&mut self, hfunc: u64, hmod: u64, params: Vec<KernelParamInfo>)
        requires
            old(self).images().contains_key(hmod),
            !old(self).params().contains_key(hfunc),
        ensures
            final(self).params() == old(self).params().insert(hfunc, params@),
            final(self).images() == old(self).images(),
            final(self).borrowed() == old(self).borrowed(),
    {
        let ghost p = params@;
        let _ = self.function_params.insert(hfunc, params);
        proof {
            assert(self.params() =~= old(self).params().insert(hfunc, p));
        }
    }

    /// The parameters of function `f`, which must be known.
    pub fn get_params(&self, f: u64) -> (r: &[KernelParamInfo])
        requires
            self.params().contains_key(f),
        ensures
            r@ == self.params()[f],
    {
        let v = self.function_params.get(&f);
        v.unwrap().as_slice()
    }
}

/// Whether parameter `p` covers byte `pos` of the buffer.
pub open spec fn covers(p: KernelParamInfo, pos: int) -> bool {
    p.offset <= pos < p.offset + p.size
}

/// The last of the first `n` parameters that covers byte `pos`, or -1.
pub open spec fn last_cover(info: Seq<KernelParamInfo>, pos: int, n: int) -> int
    decreases n,
{
    if n <= 0 {
        -1
    } else if covers(info[n - 1], pos) {
        n - 1
    } else {
        last_cover(info, pos, n - 1)
    }
}

/// Byte `pos` of the packed buffer once the first `n` arguments are in:
/// the byte of the last argument that covers it, or zero.
pub open spec fn packed_byte(info: Seq<KernelParamInfo>, args: Seq<Vec<u8>>, pos: int, n: int) -> u8 {
    let i = last_cover(info, pos, n);
    if i < 0 {
        0
    } else {
        args[i]@[pos - info[i].offset]
    }
}

/// The size of the packed buffer: up to the end of the last parameter.
pub open spec fn packed_len(info: Seq<KernelParamInfo>) -> int {
    if info.len() == 0 {
        0
    } else {
        info.last().offset + info.last().size
    }
}

/// Lays the arguments' bytes out at their parameters' offsets, in
/// parameter order, in a zeroed buffer that ends where the last parameter
/// ends.
pub fn pack_args(info: &[KernelParamInfo], args: &[Vec<u8>]) -> (r: Vec<u8>)
    requires
        args@.len() == info@.len(),
        forall|i: int| 0 <= i < info@.len() ==> #[trigger] args@[i]@.len() == info@[i].size,
        info@.len() > 0 ==> info@.last().offset + info@.last().size <= u32::MAX,
        forall|i: int| 0 <= i < info@.len() ==> #[trigger] info@[i].offset + info@[i].size <= packed_len(info@),
    ensures
        r@.len() == packed_len(info@),
        forall|pos: int| 0 <= pos < r@.len() ==> #[trigger] r@[pos] == packed_byte(info@, args@, pos, info@.len() as int),
{
    let n = info.len();
    if n == 0 {
        return Vec::new();
    }
    let last = info[n - 1];
    let total: usize = (last.offset + last.size()) as usize;
    let mut result = vec![0u8; total];
    let mut i: usize = 0;
    while i < n
        invariant
            n == info@.len(),
            args@.len() == n,
            total == packed_len(info@),
            result@.len() == total,
            i <= n,
            forall|k: int| 0 <= k < n ==> #[trigger] args@[k]@.len() == info@[k].size,
            forall|k: int| 0 <= k < n ==> #[trigger] info@[k].offset + info@[k].size <= packed_len(info@),
            forall|pos: int| 0 <= pos < total ==> #[trigger] result@[pos] == packed_byte(info@, args@, pos, i as int),
        decreases n - i,
    {
        let p = info[i];
        let arg = &args[i];
        let off = p.offset as usize;
        let size = p.size() as usize;
        assert(arg@.len() == size);
        let ghost before = result@;
        let mut j: usize = 0;
        while j < size
            invariant
                size == arg@.len(),
                off + size <= total,
                result@.len() == total,
                j <= size,
                forall|pos: int| 0 <= pos < total && !(off <= pos < off + j) ==> #[trigger] result@[pos] == before[pos],
                forall|pos: int| off <= pos < off + j ==> #[trigger] result@[pos] == arg@[pos - off],
            decreases size - j,
        {
            result.set(off + j, arg[j]);
            j = j + 1;
        }
        assert forall|pos: int| 0 <= pos < total implies #[trigger] result@[pos] == packed_byte(
            info@,
            args@,
            pos,
            i + 1,
        ) by {
            if off <= pos < off + size {
                assert(last_cover(info@, pos, i + 1) == i);
            } else {
                assert(last_cover(info@, pos, i + 1) == last_cover(info@, pos, i as int));
                assert(result@[pos] == before[pos]);
            }
        }
        i = i + 1;
    }
    result
}

/// Packs the arguments of a launch of function `f`, whose parameters the
/// cache knows; `args` holds each argument's bytes.
pub fn pack_kernel_args(driver: &DriverCache, f: u64, args: &[Vec<u8>]) -> (r: Vec<u8>)
    requires
        driver.params().contains_key(f),
        args@.len() == driver.params()[f].len(),
        forall|i: int| 0 <= i < args@.len() ==> #[trigger] args@[i]@.len() == driver.params()[f][i].size,
        driver.params()[f].len() > 0 ==> driver.params()[f].last().offset + driver.params()[f].last().size <= u32::MAX,
        forall|i: int| 0 <= i < args@.len() ==> #[trigger] driver.params()[f][i].offset + driver.params()[f][i].size
            <= packed_len(driver.params()[f]),
    ensures
        r@.len() == packed_len(driver.params()[f]),
        forall|pos: int| 0 <= pos < r@.len() ==> #[trigger] r@[pos] == packed_byte(
            driver.params()[f],
            args@,
            pos,
            args@.len() as int,
        ),
{
    let info = driver.get_params(f);
    pack_args(info, args)
}

/// Whether `after`'s parameter map is `before`'s, or `before`'s with the
/// parameters of some function other than `h` recorded: what an image
/// insertion, or a function insertion for another handle, leaves of `h`.
pub open spec fn keeps_params_of(before: Map<u64, Seq<KernelParamInfo>>, after: Map<u64, Seq<KernelParamInfo>>, h: u64) -> bool {
    after == before || exists|g: u64, qs: Seq<KernelParamInfo>| g != h && after == before.insert(g, qs)
}

/// Once the parameters `ps` of function `h` are recorded, they stay what
/// `get_params(h)` gives through any later run of image insertions and of
/// function insertions for other handles.
pub proof fn lemma_params_stay(caches: Seq<DriverCache>, h: u64, ps: Seq<KernelParamInfo>)
    requires
        caches.len() > 0,
        caches[0].params().contains_key(h),
        caches[0].params()[h] == ps,
        forall|i: int| 0 <= i < caches.len() - 1 ==> keeps_params_of(caches[i].params(), #[trigger] caches[i + 1].params(), h),
    ensures
        caches.last().params().contains_key(h),
        caches.last().params()[h] == ps,
    decreases caches.len(),
{
    if caches.len() > 1 {
        let n = caches.len() - 1;
        let head = caches.drop_last();
        assert forall|i: int| 0 <= i < head.len() - 1 implies keeps_params_of(head[i].params(), #[trigger] head[i + 1].params(), h) by {
            assert(keeps_params_of(caches[i].params(), caches[i + 1].params(), h));
        }
        lemma_params_stay(head, h, ps);
        let m = n - 1;
        assert(keeps_params_of(caches[m].params(), caches[m + 1].params(), h));
        assert(head.last() == caches[m]);
    }
}

} // verus!
