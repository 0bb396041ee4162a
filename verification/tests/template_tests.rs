use matmul_jit::MatmulError;
use matmul_jit::instantiate_template;
use matmul_jit::template::select_template;
use matmul_jit::template::template_is_parameterized;
use matmul_jit::text::contains_pattern;
use matmul_jit::text::format_usize;
use matmul_jit::text::replace_all;

#[test]
fn test_instantiate_substitutes_all_placeholders() {
    let template =
        b"dims {M}x{N}x{K} a={VEC_A_SIZE} b={VEC_B_SIZE} c={VEC_C_SIZE} sa={A_STRIDE} sb={B_STRIDE} sc={C_STRIDE}"
            .to_vec();
    let out = instantiate_template(&template, 2, 3, 4).unwrap();
    assert_eq!(
        String::from_utf8(out).unwrap(),
        "dims 2x3x4 a=8 b=12 c=6 sa=2 sb=4 sc=2"
    );
}

#[test]
fn test_instantiate_repeated_placeholder() {
    let template = b"{M}+{M}+{N}".to_vec();
    let out = instantiate_template(&template, 12, 7, 1).unwrap();
    assert_eq!(String::from_utf8(out).unwrap(), "12+12+7");
}

#[test]
fn test_instantiate_rejects_fixed_shape_template() {
    let template = b"define void @ll_matmul_4x4() { ret void }".to_vec();
    let result = instantiate_template(&template, 2, 2, 2);
    assert!(matches!(result, Err(MatmulError::TemplateError(_))));
}

#[test]
fn test_instantiate_stride_placeholders_alone_are_not_enough() {
    let template = b"strides {A_STRIDE} {B_STRIDE} {C_STRIDE}".to_vec();
    let result = instantiate_template(&template, 2, 2, 2);
    assert!(matches!(result, Err(MatmulError::TemplateError(_))));
}

#[test]
fn test_template_is_parameterized() {
    assert!(template_is_parameterized(&b"only {K} here".to_vec()));
    assert!(template_is_parameterized(&b"{M}".to_vec()));
    assert!(!template_is_parameterized(&b"{m} {VEC_A_SIZE}".to_vec()));
    assert!(!template_is_parameterized(&Vec::new()));
}

#[test]
fn test_select_template_priority() {
    let supplied = b"supplied".to_vec();
    let configured = b"configured".to_vec();
    let fallback = b"fallback".to_vec();
    assert_eq!(
        select_template(Some(supplied.clone()), Some(configured.clone()), fallback.clone()),
        supplied
    );
    assert_eq!(
        select_template(None, Some(configured.clone()), fallback.clone()),
        configured
    );
    assert_eq!(select_template(None, None, fallback.clone()), fallback);
}

#[test]
fn test_replace_all_leftmost_non_overlapping() {
    let text = b"aaa".to_vec();
    let pat = b"aa".to_vec();
    let rep = b"b".to_vec();
    assert_eq!(replace_all(&text, &pat, &rep), b"ba".to_vec());
}

#[test]
fn test_replace_all_no_occurrence() {
    let text = b"hello".to_vec();
    assert_eq!(replace_all(&text, &b"xyz".to_vec(), &b"!".to_vec()), text);
}

#[test]
fn test_replace_all_empty_pattern_changes_nothing() {
    let text = b"hello".to_vec();
    assert_eq!(replace_all(&text, &Vec::new(), &b"!".to_vec()), text);
}

#[test]
fn test_replace_all_grows_and_shrinks() {
    let text = b"a{M}b{M}".to_vec();
    assert_eq!(
        replace_all(&text, &b"{M}".to_vec(), &b"1024".to_vec()),
        b"a1024b1024".to_vec()
    );
    assert_eq!(replace_all(&text, &b"{M}".to_vec(), &Vec::new()), b"ab".to_vec());
}

#[test]
fn test_contains_pattern() {
    assert!(contains_pattern(&b"abcdef".to_vec(), &b"cde".to_vec()));
    assert!(contains_pattern(&b"abc".to_vec(), &b"abc".to_vec()));
    assert!(!contains_pattern(&b"abc".to_vec(), &b"abcd".to_vec()));
    assert!(!contains_pattern(&b"abcdef".to_vec(), &b"ce".to_vec()));
    assert!(contains_pattern(&b"abc".to_vec(), &Vec::new()));
    assert!(contains_pattern(&Vec::new(), &Vec::new()));
}

#[test]
fn test_format_usize() {
    assert_eq!(format_usize(0), b"0".to_vec());
    assert_eq!(format_usize(7), b"7".to_vec());
    assert_eq!(format_usize(10), b"10".to_vec());
    assert_eq!(format_usize(90210), b"90210".to_vec());
}

#[test]
fn test_error_message_accessor() {
    let e = MatmulError::CompilationError("pass pipeline rejected the module".to_string());
    assert_eq!(e.message().as_str(), "pass pipeline rejected the module");
    let e = MatmulError::TemplateError("no placeholders".to_string());
    assert_eq!(e.message().as_str(), "no placeholders");
}
