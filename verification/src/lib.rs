//! Shape-specialized, JIT-compiled dense matrix-multiplication kernels,
//! kept in a cache so repeated multiplications of the same dimensions reuse
//! a previously generated native routine.
//!
//! This crate holds the verified core: shape validation, row-/column-major
//! layout conversion, IR-template instantiation, the kernel caches' lookup
//! and insertion policy, the reference multiply, and the GPU launch-geometry
//! and driver-status bookkeeping. The unverified surroundings (the LLVM
//! JIT backend, the device driver, file and environment access) live outside
//! this library and exchange plain values with it.

pub mod cache;
pub mod error;
pub mod gpu;
pub mod layout;
pub mod matmul;
pub mod shape;
pub mod template;
pub mod text;

pub use cache::JitCache;
pub use error::MatmulError;
pub use gpu::CUresult;
pub use gpu::GpuKernelCache;
pub use gpu::check_cuda_error;
pub use layout::col_major_to_row_major;
pub use layout::row_major_to_col_major;
pub use matmul::native_matmul;
pub use shape::ShapeKey;
pub use shape::validate_shapes;
pub use template::instantiate_template;
