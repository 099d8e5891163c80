use phos_remoting::cache::{pack_args, pack_kernel_args, DriverCache, KernelParamInfo};
use phos_remoting::fatbin::FatBinaryHandle;
use phos_remoting::handle::{next_handle, HandleCounter};
use phos_remoting::runtime::{
    infer_memcpy_kind, is_device_memory, resolve_memcpy_kind, CallConfigurations, Dim3, MemcpyKind,
    LookupStep, MemoryType, RuntimeCache,
};

#[test]
fn fat_binary_handles() {
    assert_eq!(FatBinaryHandle::from_index(0).0, 16);
    assert_eq!(FatBinaryHandle::from_index(3).0, 64);
    assert_eq!(FatBinaryHandle(64).to_index(), 3);
    assert_eq!(FatBinaryHandle::from_index(41).to_index(), 41);
}

#[test]
fn proxy_handles_count_up() {
    let mut counter = HandleCounter::new();
    assert_eq!(next_handle(&mut counter), 1);
    assert_eq!(next_handle(&mut counter), 2);
    assert_eq!(next_handle(&mut counter), 3);
}

#[test]
fn driver_cache_images_and_params() {
    let mut cache = DriverCache::new();
    assert!(cache.image(7).is_none());
    cache.insert_image(7, &[1, 2, 3], false);
    assert_eq!(cache.image(7).unwrap(), &[1u8, 2, 3][..]);
    cache.insert_image(7, &[9], true);
    assert_eq!(cache.image(7).unwrap(), &[9u8][..]);
    let params = vec![KernelParamInfo::new(0, 8), KernelParamInfo::new(8, 4)];
    cache.insert_function(100, 7, params.clone());
    assert_eq!(cache.get_params(100), params.as_slice());
    assert_eq!(cache.get_params(100)[1].size(), 4);
}

#[test]
fn kernel_args_packed_at_offsets() {
    let info = [KernelParamInfo::new(0, 2), KernelParamInfo::new(4, 4)];
    let args = vec![vec![1u8, 2], vec![3u8, 4, 5, 6]];
    assert_eq!(pack_args(&info, &args), vec![1, 2, 0, 0, 3, 4, 5, 6]);
    assert_eq!(pack_args(&[], &[]), Vec::<u8>::new());
    let overlap = [KernelParamInfo::new(0, 4), KernelParamInfo::new(2, 2)];
    let args = vec![vec![1u8, 1, 1, 1], vec![7u8, 8]];
    assert_eq!(pack_args(&overlap, &args), vec![1, 1, 7, 8]);
    let mut cache = DriverCache::new();
    cache.insert_image(1, &[0], false);
    cache.insert_function(5, 1, vec![KernelParamInfo::new(0, 1), KernelParamInfo::new(3, 1)]);
    assert_eq!(pack_kernel_args(&cache, 5, &[vec![9], vec![8]]), vec![9, 0, 0, 8]);
}

#[test]
fn call_configurations_stack() {
    let mut configs = CallConfigurations::new();
    assert!(configs.pop_call_configuration().is_none());
    let g = Dim3 { x: 1, y: 2, z: 3 };
    let b = Dim3 { x: 32, y: 1, z: 1 };
    configs.push_call_configuration(g, b, 0, 0);
    configs.push_call_configuration(b, g, 128, 9);
    let last = configs.pop_call_configuration().unwrap();
    assert_eq!(last.grid_dim, b);
    assert_eq!(last.shared_mem, 128);
    assert_eq!(last.stream, 9);
    let first = configs.pop_call_configuration().unwrap();
    assert_eq!(first.grid_dim, g);
    assert!(configs.pop_call_configuration().is_none());
}

#[test]
fn memcpy_directions() {
    assert_eq!(infer_memcpy_kind(false, false), MemcpyKind::HostToHost);
    assert_eq!(infer_memcpy_kind(true, false), MemcpyKind::HostToDevice);
    assert_eq!(infer_memcpy_kind(false, true), MemcpyKind::DeviceToHost);
    assert_eq!(infer_memcpy_kind(true, true), MemcpyKind::DeviceToDevice);
    assert_eq!(resolve_memcpy_kind(MemcpyKind::Default, true, false), MemcpyKind::HostToDevice);
    assert_eq!(resolve_memcpy_kind(MemcpyKind::DeviceToHost, true, false), MemcpyKind::DeviceToHost);
    assert!(is_device_memory(MemoryType::Device));
    assert!(!is_device_memory(MemoryType::Host));
    assert!(!is_device_memory(MemoryType::Unregistered));
}

#[test]
fn runtime_registration() {
    let mut rt = RuntimeCache::new();
    let h0 = rt.register_fat_binary(0x1000);
    let h1 = rt.register_fat_binary(0x2000);
    assert_eq!(h0.0, 16);
    assert_eq!(h1.0, 32);
    assert_eq!(rt.fatbin(h1), 0x2000);
    rt.register_function(h0, 0xaa, 0x10);
    rt.register_function(h1, 0xaa, 0x20);
    let (h, name) = rt.registration(0xaa).unwrap();
    assert_eq!(h.0, 16);
    assert_eq!(name, 0x10);
    assert!(rt.registration(0xbb).is_none());
    rt.register_var(h1, 0xcc, 0x30);
    assert!(rt.loaded_module(h0).is_none());
    rt.record_module(h0, 77);
    assert_eq!(rt.loaded_module(h0), Some(77));
    assert!(rt.cached_function(0xaa).is_none());
    rt.record_function(0xaa, 88);
    assert_eq!(rt.cached_function(0xaa), Some(88));
    assert_eq!(rt.cuda_device(), None);
    rt.set_cuda_device(2);
    assert_eq!(rt.cuda_device(), Some(2));
}

#[test]
fn kernel_lookup_steps() {
    let mut rt = RuntimeCache::new();
    let h = rt.register_fat_binary(0x5000);
    rt.register_function(h, 0xf0, 0x70);
    assert_eq!(rt.lookup_step(0xf0, false, None), LookupStep::InitDevice);
    assert_eq!(rt.lookup_step(0xf0, true, Some(1)), LookupStep::QueryDevice);
    rt.set_cuda_device(1);
    assert_eq!(rt.lookup_step(0xf0, true, Some(1)), LookupStep::LoadModule { handle: h, image: 0x5000 });
    rt.record_module(h, 0x900);
    assert_eq!(
        rt.lookup_step(0xf0, true, Some(1)),
        LookupStep::GetFunction { module: 0x900, device_name: 0x70 }
    );
    rt.record_function(0xf0, 0xabc);
    assert_eq!(rt.lookup_step(0xf0, true, Some(1)), LookupStep::Found(0xabc));
    assert_eq!(rt.lookup_step(0xf0, false, Some(1)), LookupStep::InitDevice);
}
