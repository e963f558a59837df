//! Result rendering: each returned typed value becomes one
//! human-readable line. Integers print in decimal; reference kinds
//! print a fixed placeholder; the float kinds hand their bit pattern to
//! the embedder, which reinterprets it as the corresponding IEEE value
//! when printing.

use vstd::prelude::*;
use crate::values::TypedValue;
use crate::numtext::{dec_seq_of, dec_seq_of_int, i32_to_dec, i64_to_dec, u128_to_dec};

verus! {

/// One rendered result: a finished text line, or a float bit pattern
/// the embedder must reinterpret as an IEEE value before printing.
#[derive(Clone, Debug, PartialEq, Eq)]
pub enum RenderedValue {
    Line(String),
    F32Bits(u32),
    F64Bits(u64),
}

/// What rendering a typed value must yield: the decimal line for the
/// integer kinds, the fixed placeholder line for the reference kinds,
/// and the untouched bit pattern for the float kinds.
pub open spec fn spec_rendered(v: TypedValue, r: RenderedValue) -> bool {
    match v {
        TypedValue::I32(n) => r matches RenderedValue::Line(s) && s@ == dec_seq_of_int(n as int),
        TypedValue::I64(n) => r matches RenderedValue::Line(s) && s@ == dec_seq_of_int(n as int),
        TypedValue::F32(b) => r == RenderedValue::F32Bits(b),
        TypedValue::F64(b) => r == RenderedValue::F64Bits(b),
        TypedValue::ExternRef => r matches RenderedValue::Line(s) && s@ == "<externref>"@,
        TypedValue::FuncRef => r matches RenderedValue::Line(s) && s@ == "<funcref>"@,
        TypedValue::V128(n) => r matches RenderedValue::Line(s) && s@ == dec_seq_of(n as nat),
    }
}

/// Renders one typed result value.
pub fn render_value(v: &TypedValue) -> (r: RenderedValue)
    ensures
        spec_rendered(*v, r),
{
    match v {
        TypedValue::I32(n) => RenderedValue::Line(i32_to_dec(*n)),
        TypedValue::I64(n) => RenderedValue::Line(i64_to_dec(*n)),
        TypedValue::F32(b) => RenderedValue::F32Bits(*b),
        TypedValue::F64(b) => RenderedValue::F64Bits(*b),
        TypedValue::ExternRef => RenderedValue::Line(String::from_str("<externref>")),
        TypedValue::FuncRef => RenderedValue::Line(String::from_str("<funcref>")),
        TypedValue::V128(n) => RenderedValue::Line(u128_to_dec(*n)),
    }
}

/// Renders a whole result list in order.
pub fn render_values(vs: &Vec<TypedValue>) -> (rs: Vec<RenderedValue>)
    ensures
        rs@.len() == vs@.len(),
        forall|i: int| 0 <= i < vs@.len() ==> spec_rendered(vs@[i], #[trigger] rs@[i]),
{
    let mut rs: Vec<RenderedValue> = Vec::new();
    let mut i: usize = 0;
    while i < vs.len()
        invariant
            i <= vs@.len(),
            rs@.len() == i,
            forall|j: int| 0 <= j < i ==> spec_rendered(vs@[j], #[trigger] rs@[j]),
        decreases vs@.len() - i,
    {
        rs.push(render_value(&vs[i]));
        i = i + 1;
    }
    rs
}

} // verus!
