use std::sync::Arc;

use matmul_jit::CUresult;
use matmul_jit::GpuKernelCache;
use matmul_jit::MatmulError;
use matmul_jit::ShapeKey;
use matmul_jit::check_cuda_error;
use matmul_jit::gpu::device_buffer_bytes;
use matmul_jit::gpu::launch_geometry;

#[test]
fn test_check_cuda_error_success_passes_through() {
    assert!(check_cuda_error(CUresult::CUDA_SUCCESS, "cuInit").is_ok());
}

#[test]
fn test_check_cuda_error_failure_is_device_error() {
    let r = check_cuda_error(CUresult::CUDA_ERROR_NOT_INITIALIZED, "cuCtxSetCurrent");
    match r {
        Err(MatmulError::DeviceError(msg)) => assert_eq!(msg, "cuCtxSetCurrent"),
        other => panic!("expected a DeviceError, got {:?}", other),
    }
}

#[test]
fn test_launch_geometry_exact_tile() {
    let key = ShapeKey { m: 16, n: 16, k: 4 };
    let g = launch_geometry(&key);
    assert_eq!((g.grid_x, g.grid_y, g.block_x, g.block_y), (1, 1, 16, 16));
}

#[test]
fn test_launch_geometry_small_shape_still_launches() {
    let key = ShapeKey { m: 4, n: 4, k: 4 };
    let g = launch_geometry(&key);
    assert_eq!((g.grid_x, g.grid_y), (1, 1));
}

#[test]
fn test_launch_geometry_rounds_up() {
    let key = ShapeKey { m: 17, n: 33, k: 1 };
    let g = launch_geometry(&key);
    assert_eq!((g.grid_x, g.grid_y), (3, 2));
    assert!(g.grid_x * g.block_x >= 33);
    assert!(g.grid_y * g.block_y >= 17);
}

#[test]
fn test_device_buffer_bytes() {
    assert_eq!(device_buffer_bytes(6), 24);
    assert_eq!(device_buffer_bytes(1), 4);
}

#[test]
fn test_gpu_kernel_cache_keyed_by_shape_and_name() {
    let mut cache: GpuKernelCache<Arc<u32>> = GpuKernelCache::new();
    let shape = ShapeKey { m: 4, n: 4, k: 4 };
    let name = b"ll_matmul_gpu".to_vec();

    assert!(cache.get(shape, &name).is_none());
    let entry = Arc::new(7u32);
    assert!(cache.insert_if_absent(shape, name.clone(), entry.clone()));
    let hit = cache.get(shape, &name).expect("entry should be cached");
    assert!(Arc::ptr_eq(hit, &entry));

    let other_name = b"ll_matmul_gpu_tiled".to_vec();
    assert!(
        cache.get(shape, &other_name).is_none(),
        "a different kernel name is a different cache entry"
    );
    let other_shape = ShapeKey { m: 8, n: 8, k: 8 };
    assert!(cache.get(other_shape, &name).is_none());
}

#[test]
fn test_gpu_kernel_cache_first_insert_wins() {
    let mut cache: GpuKernelCache<u32> = GpuKernelCache::new();
    let shape = ShapeKey { m: 2, n: 2, k: 2 };
    let name = b"ll_matmul_gpu".to_vec();
    assert!(cache.insert_if_absent(shape, name.clone(), 1));
    assert!(!cache.insert_if_absent(shape, name.clone(), 2));
    assert_eq!(*cache.get(shape, &name).unwrap(), 1);
}
