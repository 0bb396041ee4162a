//! Integration tests of the JIT compile path against the real LLVM
//! backend: the library instantiates the IR template and keeps the kernel
//! cache; LLVM parses the instantiated text, lowers the matrix intrinsics,
//! builds a JIT engine and resolves the kernel's entry point. (Calling
//! through the resolved function pointer needs unsafe code and stays
//! outside the test suite.)

use std::sync::{Arc, Mutex, OnceLock};

use inkwell::OptimizationLevel;
use inkwell::context::Context;
use inkwell::memory_buffer::MemoryBuffer;
use inkwell::module::Module;
use inkwell::passes::PassBuilderOptions;
use inkwell::targets::{CodeModel, InitializationConfig, RelocMode, Target, TargetMachine};

use matmul_jit::instantiate_template;
use matmul_jit::{JitCache, MatmulError, ShapeKey};

const TEST_IR_TEMPLATE: &str = r#"
define void @ll_matmul_cpu_jit(float* %a, float* %b, float* %c) {
entry:
  %a.vecptr = bitcast float* %a to <{VEC_A_SIZE} x float>*
  %b.vecptr = bitcast float* %b to <{VEC_B_SIZE} x float>*
  %c.vecptr = bitcast float* %c to <{VEC_C_SIZE} x float>*
  %a.vec = load <{VEC_A_SIZE} x float>, <{VEC_A_SIZE} x float>* %a.vecptr, align 4
  %b.vec = load <{VEC_B_SIZE} x float>, <{VEC_B_SIZE} x float>* %b.vecptr, align 4
  %c.vec = call <{VEC_C_SIZE} x float> @llvm.matrix.multiply.v{VEC_C_SIZE}f32.v{VEC_A_SIZE}f32.v{VEC_B_SIZE}f32(<{VEC_A_SIZE} x float> %a.vec, <{VEC_B_SIZE} x float> %b.vec, i32 {M}, i32 {K}, i32 {N})
  store <{VEC_C_SIZE} x float> %c.vec, <{VEC_C_SIZE} x float>* %c.vecptr, align 4
  ret void
}

declare <{VEC_C_SIZE} x float> @llvm.matrix.multiply.v{VEC_C_SIZE}f32.v{VEC_A_SIZE}f32.v{VEC_B_SIZE}f32(<{VEC_A_SIZE} x float>, <{VEC_B_SIZE} x float>, i32, i32, i32)
"#;

/// A compiled kernel: the address the JIT resolved for the entry point.
struct JitEntry {
    addr: usize,
}

static JIT_CACHE: OnceLock<Mutex<JitCache<Arc<JitEntry>>>> = OnceLock::new();

/// Compiles a kernel for one shape: the library instantiates the
/// template, then LLVM parses the IR, lowers the matrix intrinsics, runs
/// the optimization options through the pass pipeline, and resolves the
/// entry point in a fresh JIT engine.
fn compile_kernel(m: usize, n: usize, k: usize, template: &str) -> Result<JitEntry, MatmulError> {
    let ir = instantiate_template(&template.as_bytes().to_vec(), m, n, k)?;

    let context = Box::leak(Box::new(Context::create()));
    let buffer = MemoryBuffer::create_from_memory_range_copy(&ir, "matmul_ir");
    let module: Module<'static> = context
        .create_module_from_ir(buffer)
        .map_err(|e| MatmulError::CompilationError(format!("Failed to parse LLVM IR: {}", e)))?;

    Target::initialize_all(&InitializationConfig::default());
    let triple = TargetMachine::get_default_triple();
    let target = Target::from_triple(&triple)
        .map_err(|e| MatmulError::CompilationError(format!("target from triple: {}", e)))?;
    let machine = target
        .create_target_machine(
            &triple,
            TargetMachine::get_host_cpu_name().to_str().unwrap(),
            TargetMachine::get_host_cpu_features().to_str().unwrap(),
            OptimizationLevel::Aggressive,
            RelocMode::PIC,
            CodeModel::JITDefault,
        )
        .ok_or_else(|| {
            MatmulError::CompilationError("couldn't create target machine".to_string())
        })?;

    let pass_options = PassBuilderOptions::create();
    pass_options.set_verify_each(false);
    pass_options.set_loop_interleaving(true);
    pass_options.set_loop_vectorization(true);
    pass_options.set_loop_slp_vectorization(true);
    pass_options.set_loop_unrolling(true);
    module
        .run_passes("lower-matrix-intrinsics", &machine, pass_options)
        .map_err(|e| MatmulError::CompilationError(format!("pass pipeline failed: {}", e)))?;

    let engine = module
        .create_jit_execution_engine(OptimizationLevel::Aggressive)
        .map_err(|e| {
            MatmulError::CompilationError(format!("Failed to create JIT execution engine: {}", e))
        })?;
    let addr = engine.get_function_address("ll_matmul_cpu_jit").map_err(|e| {
        MatmulError::CompilationError(format!("Failed to find JIT function: {}", e))
    })?;
    std::mem::forget(engine);
    Ok(JitEntry { addr })
}

/// The lookup-compile-insert flow: return the cached kernel on a hit; on
/// a miss compile outside the lock, offer the entry, and return whatever
/// entry survived the insertion race.
fn get_or_compile(shape: ShapeKey, template: &str) -> Result<Arc<JitEntry>, MatmulError> {
    let cache = JIT_CACHE.get_or_init(|| Mutex::new(JitCache::new()));
    {
        let guard = cache.lock().unwrap();
        if let Some(entry) = guard.get(shape) {
            return Ok(entry.clone());
        }
    }
    let entry = Arc::new(compile_kernel(shape.m, shape.n, shape.k, template)?);
    let mut guard = cache.lock().unwrap();
    guard.insert_if_absent(shape, entry);
    Ok(guard.get(shape).expect("just inserted").clone())
}

#[test]
fn test_jit_caching() {
    let shape1 = ShapeKey { m: 2, n: 2, k: 2 };
    let shape2 = ShapeKey { m: 3, n: 3, k: 3 };

    let entry1_a = get_or_compile(shape1, TEST_IR_TEMPLATE).expect("Failed to compile shape1");

    let entry1_b =
        get_or_compile(shape1, TEST_IR_TEMPLATE).expect("Failed to compile shape1 again");
    assert!(
        Arc::ptr_eq(&entry1_a, &entry1_b),
        "Cache should return the same Arc for the same shape"
    );

    let entry2 = get_or_compile(shape2, TEST_IR_TEMPLATE).expect("Failed to compile shape2");
    assert!(
        !Arc::ptr_eq(&entry1_a, &entry2),
        "Cache should return different Arcs for different shapes"
    );

    let entry1_c = get_or_compile(shape1, TEST_IR_TEMPLATE).expect("Failed to retrieve shape1");
    assert!(
        Arc::ptr_eq(&entry1_a, &entry1_c),
        "Original entry should still be in cache"
    );
}

#[test]
fn test_instantiated_template_compiles_and_resolves() {
    let entry = compile_kernel(2, 4, 3, TEST_IR_TEMPLATE).expect("compilation should succeed");
    assert!(entry.addr != 0, "the resolved kernel address should be real");
}

#[test]
fn test_each_shape_gets_its_own_kernel() {
    let one = compile_kernel(1, 1, 1, TEST_IR_TEMPLATE).expect("1x1x1 should compile");
    let big = compile_kernel(4, 5, 6, TEST_IR_TEMPLATE).expect("4x5x6 should compile");
    assert!(one.addr != 0 && big.addr != 0);
}

#[test]
fn test_fixed_shape_template_is_rejected_before_the_backend() {
    let fixed = "define void @ll_matmul_4x4() { ret void }";
    let result = compile_kernel(5, 5, 5, fixed);
    assert!(matches!(result, Err(MatmulError::TemplateError(_))));
}

#[test]
fn test_parse_failure_is_a_compilation_error() {
    let broken = "this is not LLVM IR at all, but it does mention {M}";
    let result = compile_kernel(2, 2, 2, broken);
    match result {
        Err(MatmulError::CompilationError(msg)) => {
            assert!(msg.contains("Failed to parse LLVM IR"));
        }
        other => panic!("expected a CompilationError, got {:?}", other.map(|e| e.addr)),
    }
}

#[test]
fn test_missing_entry_point_is_a_compilation_error() {
    let renamed = TEST_IR_TEMPLATE.replace("ll_matmul_cpu_jit", "some_other_symbol");
    let result = compile_kernel(2, 2, 2, &renamed);
    match result {
        Err(MatmulError::CompilationError(msg)) => {
            assert!(msg.contains("Failed to find JIT function"));
        }
        other => panic!("expected a CompilationError, got {:?}", other.map(|e| e.addr)),
    }
}
