//! Instantiation of a shape-parameterized IR template.
//!
//! A template is a text blob carrying named placeholders for the matrix
//! dimensions ({M}, {N}, {K}), the element counts of the three buffers
//! ({VEC_A_SIZE}, {VEC_B_SIZE}, {VEC_C_SIZE}) and the column-major strides
//! ({A_STRIDE}, {B_STRIDE}, {C_STRIDE}). Substitution is purely textual;
//! the result is validated only when the codegen backend parses it.
//!
//! A template carrying none of the three dimension placeholders is
//! rejected: it is a fixed-shape file, not a parameterized template, and
//! instantiating it for a different shape would silently produce a kernel
//! of the wrong size.

use vstd::prelude::*;

use crate::error::MatmulError;
use crate::text::contains_pattern;
use crate::text::contains_seq;
use crate::text::dec_digits;
use crate::text::format_usize;
use crate::text::replace_all;
use crate::text::replace_all_spec;

verus! {

/// The placeholder "{M}".
pub open spec fn ph_m() -> Seq<u8> {
    seq![123u8, 77u8, 125u8]
}

/// The placeholder "{N}".
pub open spec fn ph_n() -> Seq<u8> {
    seq![123u8, 78u8, 125u8]
}

/// The placeholder "{K}".
pub open spec fn ph_k() -> Seq<u8> {
    seq![123u8, 75u8, 125u8]
}

/// The placeholder "{VEC_A_SIZE}".
pub open spec fn ph_vec_a_size() -> Seq<u8> {
    seq![123u8, 86u8, 69u8, 67u8, 95u8, 65u8, 95u8, 83u8, 73u8, 90u8, 69u8, 125u8]
}

/// The placeholder "{VEC_B_SIZE}".
pub open spec fn ph_vec_b_size() -> Seq<u8> {
    seq![123u8, 86u8, 69u8, 67u8, 95u8, 66u8, 95u8, 83u8, 73u8, 90u8, 69u8, 125u8]
}

/// The placeholder "{VEC_C_SIZE}".
pub open spec fn ph_vec_c_size() -> Seq<u8> {
    seq![123u8, 86u8, 69u8, 67u8, 95u8, 67u8, 95u8, 83u8, 73u8, 90u8, 69u8, 125u8]
}

/// The placeholder "{A_STRIDE}".
pub open spec fn ph_a_stride() -> Seq<u8> {
    seq![123u8, 65u8, 95u8, 83u8, 84u8, 82u8, 73u8, 68u8, 69u8, 125u8]
}

/// The placeholder "{B_STRIDE}".
pub open spec fn ph_b_stride() -> Seq<u8> {
    seq![123u8, 66u8, 95u8, 83u8, 84u8, 82u8, 73u8, 68u8, 69u8, 125u8]
}

/// The placeholder "{C_STRIDE}".
pub open spec fn ph_c_stride() -> Seq<u8> {
    seq![123u8, 67u8, 95u8, 83u8, 84u8, 82u8, 73u8, 68u8, 69u8, 125u8]
}

/// The template carries at least one of the dimension placeholders
/// {M}, {N}, {K}, so it can be instantiated for a shape.
pub open spec fn has_dimension_placeholder(t: Seq<u8>) -> bool {
    contains_seq(t, ph_m()) || contains_seq(t, ph_n()) || contains_seq(t, ph_k())
}

/// The instantiated template: each placeholder replaced, in a fixed order,
/// by the decimal rendering of its value for the shape (m, n, k). The
/// strides are those of column-major storage: A and C advance by m per
/// column, B by k.
pub open spec fn instantiate_spec(t: Seq<u8>, m: nat, n: nat, k: nat) -> Seq<u8> {
    let s1 = replace_all_spec(t, ph_m(), dec_digits(m));
    let s2 = replace_all_spec(s1, ph_n(), dec_digits(n));
    let s3 = replace_all_spec(s2, ph_k(), dec_digits(k));
    let s4 = replace_all_spec(s3, ph_vec_a_size(), dec_digits(m * k));
    let s5 = replace_all_spec(s4, ph_vec_b_size(), dec_digits(k * n));
    let s6 = replace_all_spec(s5, ph_vec_c_size(), dec_digits(m * n));
    let s7 = replace_all_spec(s6, ph_a_stride(), dec_digits(m));
    let s8 = replace_all_spec(s7, ph_b_stride(), dec_digits(k));
    replace_all_spec(s8, ph_c_stride(), dec_digits(m))
}

/// Builds "{M}" at run time.
fn ph_m_bytes() -> (r: Vec<u8>)
    ensures
        r@ == ph_m(),
{
    let mut v: Vec<u8> = Vec::new();
    v.push(123u8);
    v.push(77u8);
    v.push(125u8);
    proof {
        assert(v@ =~= ph_m());
    }
    v
}

/// Builds "{N}" at run time.
fn ph_n_bytes() -> (r: Vec<u8>)
    ensures
        r@ == ph_n(),
{
    let mut v: Vec<u8> = Vec::new();
    v.push(123u8);
    v.push(78u8);
    v.push(125u8);
    proof {
        assert(v@ =~= ph_n());
    }
    v
}

/// Builds "{K}" at run time.
fn ph_k_bytes() -> (r: Vec<u8>)
    ensures
        r@ == ph_k(),
{
    let mut v: Vec<u8> = Vec::new();
    v.push(123u8);
    v.push(75u8);
    v.push(125u8);
    proof {
        assert(v@ =~= ph_k());
    }
    v
}

/// Builds "{x_SIZE}" for the size placeholders; `mid` is the varying
/// letter A, B or C.
fn ph_size_bytes(mid: u8) -> (r: Vec<u8>)
    ensures
        mid == 65u8 ==> r@ == ph_vec_a_size(),
        mid == 66u8 ==> r@ == ph_vec_b_size(),
        mid == 67u8 ==> r@ == ph_vec_c_size(),
{
    let mut v: Vec<u8> = Vec::new();
    v.push(123u8);
    v.push(86u8);
    v.push(69u8);
    v.push(67u8);
    v.push(95u8);
    v.push(mid);
    v.push(95u8);
    v.push(83u8);
    v.push(73u8);
    v.push(90u8);
    v.push(69u8);
    v.push(125u8);
    proof {
        if mid == 65u8 {
            assert(v@ =~= ph_vec_a_size());
        }
        if mid == 66u8 {
            assert(v@ =~= ph_vec_b_size());
        }
        if mid == 67u8 {
            assert(v@ =~= ph_vec_c_size());
        }
    }
    v
}

/// Builds "{x_STRIDE}" for the stride placeholders; `lead` is the varying
/// letter A, B or C.
fn ph_stride_bytes(lead: u8) -> (r: Vec<u8>)
    ensures
        lead == 65u8 ==> r@ == ph_a_stride(),
        lead == 66u8 ==> r@ == ph_b_stride(),
        lead == 67u8 ==> r@ == ph_c_stride(),
{
    let mut v: Vec<u8> = Vec::new();
    v.push(123u8);
    v.push(lead);
    v.push(95u8);
    v.push(83u8);
    v.push(84u8);
    v.push(82u8);
    v.push(73u8);
    v.push(68u8);
    v.push(69u8);
    v.push(125u8);
    proof {
        if lead == 65u8 {
            assert(v@ =~= ph_a_stride());
        }
        if lead == 66u8 {
            assert(v@ =~= ph_b_stride());
        }
        if lead == 67u8 {
            assert(v@ =~= ph_c_stride());
        }
    }
    v
}

/// Whether the template carries at least one of the dimension
/// placeholders {M}, {N}, {K}.
pub fn template_is_parameterized(template: &Vec<u8>) -> (r: bool)
    ensures
        r == has_dimension_placeholder(template@),
{
    let m = ph_m_bytes();
    let n = ph_n_bytes();
    let k = ph_k_bytes();
    contains_pattern(template, &m) || contains_pattern(template, &n) || contains_pattern(
        template,
        &k,
    )
}

/// Substitutes the recognized placeholders of a shape-parameterized
/// template with their values for the shape (m, n, k).
///
/// Fails with `TemplateError` — and exactly then — when the template
/// carries none of the dimension placeholders {M}, {N}, {K}; a template
/// that passes that guard but whose result-buffer element count m·n does
/// not fit the machine fails with `InvalidInput`. The operand element
/// counts m·k and k·n are known to fit by precondition, as the operands
/// were validated against their buffers' lengths.
pub fn instantiate_template(template: &Vec<u8>, m: usize, n: usize, k: usize) -> (r: Result<
    Vec<u8>,
    MatmulError,
>)
    requires
        m >= 1,
        n >= 1,
        k >= 1,
        m * k <= usize::MAX,
        k * n <= usize::MAX,
    ensures
        match r {
            Ok(out) => {
                &&& has_dimension_placeholder(template@)
                &&& m * n <= usize::MAX
                &&& out@ == instantiate_spec(template@, m as nat, n as nat, k as nat)
            },
            Err(e) => {
                ||| (e is TemplateError && !has_dimension_placeholder(template@))
                ||| (e is InvalidInput && has_dimension_placeholder(template@) && m * n
                    > usize::MAX)
            },
        },
{
    if !template_is_parameterized(template) {
        return Err(
            MatmulError::TemplateError(
                "template carries none of the dimension placeholders {M}, {N}, {K}; a fixed-shape IR file cannot be instantiated for other shapes".to_owned(),
            ),
        );
    }
    let mn = match m.checked_mul(n) {
        Some(p) => p,
        None => {
            return Err(
                MatmulError::InvalidInput(
                    "result element count m*n does not fit the machine".to_owned(),
                ),
            );
        },
    };
    let mk = m * k;
    let kn = k * n;
    let val_m = format_usize(m);
    let val_n = format_usize(n);
    let val_k = format_usize(k);
    let val_mk = format_usize(mk);
    let val_kn = format_usize(kn);
    let val_mn = format_usize(mn);
    let p_m = ph_m_bytes();
    let p_n = ph_n_bytes();
    let p_k = ph_k_bytes();
    let p_va = ph_size_bytes(65u8);
    let p_vb = ph_size_bytes(66u8);
    let p_vc = ph_size_bytes(67u8);
    let p_sa = ph_stride_bytes(65u8);
    let p_sb = ph_stride_bytes(66u8);
    let p_sc = ph_stride_bytes(67u8);
    let s1 = replace_all(template, &p_m, &val_m);
    let s2 = replace_all(&s1, &p_n, &val_n);
    let s3 = replace_all(&s2, &p_k, &val_k);
    let s4 = replace_all(&s3, &p_va, &val_mk);
    let s5 = replace_all(&s4, &p_vb, &val_kn);
    let s6 = replace_all(&s5, &p_vc, &val_mn);
    let s7 = replace_all(&s6, &p_sa, &val_m);
    let s8 = replace_all(&s7, &p_sb, &val_k);
    let s9 = replace_all(&s8, &p_sc, &val_m);
    Ok(s9)
}

/// Picks the template a compilation uses: a caller-supplied override wins,
/// then an externally configured one, then the built-in fallback.
pub fn select_template(
    supplied: Option<Vec<u8>>,
    configured: Option<Vec<u8>>,
    fallback: Vec<u8>,
) -> (r: Vec<u8>)
    ensures
        supplied is Some ==> r@ == supplied->0@,
        supplied is None && configured is Some ==> r@ == configured->0@,
        supplied is None && configured is None ==> r@ == fallback@,
{
    match supplied {
        Some(t) => t,
        None => match configured {
            Some(t) => t,
            None => fallback,
        },
    }
}

} // verus!
