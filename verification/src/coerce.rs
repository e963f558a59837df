//! Type-directed argument coercion: an ordered parameter kind list and
//! an ordered token list yield typed values of matching arity and kind,
//! or the error of the first offending position.

use vstd::prelude::*;
use crate::values::{ValKind, TypedValue, spec_kind_of, spec_cli_supported};
use crate::errors::HostError;
use crate::numtext::{
    spec_parse_i32, spec_parse_i64, spec_parse_u32, spec_parse_u64, parse_i32_token,
    parse_i64_token, parse_u32_token, parse_u64_token, dec_seq_of, dec_seq_of_int,
    lemma_i32_round_trip, lemma_i64_round_trip, lemma_u32_round_trip, lemma_u64_round_trip,
};

verus! {

/// What coercing one token for the parameter of kind `k` at position
/// `pos` yields: the typed value, a parse error naming the position and
/// kind, or a rejection of a kind unsupported for textual invocation.
pub open spec fn spec_coerce_one(k: ValKind, t: Seq<char>, pos: usize) -> Result<
    TypedValue,
    HostError,
> {
    match k {
        ValKind::I32 => match spec_parse_i32(t) {
            Some(v) => Ok(TypedValue::I32(v)),
            None => Err(HostError::ArgumentParseError { position: pos, expected: k }),
        },
        ValKind::I64 => match spec_parse_i64(t) {
            Some(v) => Ok(TypedValue::I64(v)),
            None => Err(HostError::ArgumentParseError { position: pos, expected: k }),
        },
        ValKind::F32 => match spec_parse_u32(t) {
            Some(v) => Ok(TypedValue::F32(v)),
            None => Err(HostError::ArgumentParseError { position: pos, expected: k }),
        },
        ValKind::F64 => match spec_parse_u64(t) {
            Some(v) => Ok(TypedValue::F64(v)),
            None => Err(HostError::ArgumentParseError { position: pos, expected: k }),
        },
        _ => Err(HostError::UnsupportedParameterType { position: pos, kind: k }),
    }
}

/// What coercing the suffixes `ks` and `ts` yields, the first position
/// being `pos`: the values in order, or the error of the least failing
/// position.
pub open spec fn spec_coerce_list(ks: Seq<ValKind>, ts: Seq<Seq<char>>, pos: usize) -> Result<
    Seq<TypedValue>,
    HostError,
>
    decreases ks.len(),
{
    if ks.len() == 0 {
        Ok(Seq::empty())
    } else {
        match spec_coerce_one(ks[0], ts[0], pos) {
            Err(e) => Err(e),
            Ok(v) => match spec_coerce_list(ks.skip(1), ts.skip(1), (pos + 1) as usize) {
                Err(e) => Err(e),
                Ok(vs) => Ok(seq![v] + vs),
            },
        }
    }
}

/// What coercing a full argument list yields: an arity mismatch when
/// the counts differ, positional coercion otherwise.
pub open spec fn spec_coerce_args(ks: Seq<ValKind>, ts: Seq<Seq<char>>) -> Result<
    Seq<TypedValue>,
    HostError,
> {
    if ks.len() != ts.len() {
        Err(
            HostError::ArgumentCountMismatch {
                provided: ts.len() as usize,
                required: ks.len() as usize,
            },
        )
    } else {
        spec_coerce_list(ks, ts, 0)
    }
}

/// Coerces the token at position `pos` for a parameter of kind `k`.
pub fn coerce_one(k: ValKind, t: &str, pos: usize) -> (r: Result<TypedValue, HostError>)
    ensures
        r == spec_coerce_one(k, t@, pos),
{
    match k {
        ValKind::I32 => match parse_i32_token(t) {
            Some(v) => Ok(TypedValue::I32(v)),
            None => Err(HostError::ArgumentParseError { position: pos, expected: k }),
        },
        ValKind::I64 => match parse_i64_token(t) {
            Some(v) => Ok(TypedValue::I64(v)),
            None => Err(HostError::ArgumentParseError { position: pos, expected: k }),
        },
        ValKind::F32 => match parse_u32_token(t) {
            Some(v) => Ok(TypedValue::F32(v)),
            None => Err(HostError::ArgumentParseError { position: pos, expected: k }),
        },
        ValKind::F64 => match parse_u64_token(t) {
            Some(v) => Ok(TypedValue::F64(v)),
            None => Err(HostError::ArgumentParseError { position: pos, expected: k }),
        },
        _ => Err(HostError::UnsupportedParameterType { position: pos, kind: k }),
    }
}

/// Coerces the suffix of the lists that starts at position `pos`.
fn coerce_from(params: &Vec<ValKind>, tokens: &Vec<String>, pos: usize) -> (r: Result<
    Vec<TypedValue>,
    HostError,
>)
    requires
        params@.len() == tokens@.len(),
        pos <= params@.len(),
    ensures
        ({
            let spec_r = spec_coerce_list(
                params@.skip(pos as int),
                tokens.deep_view().skip(pos as int),
                pos,
            );
            match r {
                Ok(vs) => spec_r == Ok::<Seq<TypedValue>, HostError>(vs@),
                Err(e) => spec_r == Err::<Seq<TypedValue>, HostError>(e),
            }
        }),
    decreases params@.len() - pos,
{
    let ghost ks = params@.skip(pos as int);
    let ghost ts = tokens.deep_view().skip(pos as int);
    if pos == params.len() {
        assert(ks.len() == 0);
        let vs: Vec<TypedValue> = Vec::new();
        assert(spec_coerce_list(ks, ts, pos) == Ok::<Seq<TypedValue>, HostError>(vs@));
        return Ok(vs);
    }
    proof {
        assert(ks[0] == params@[pos as int]);
        assert(ts[0] == tokens.deep_view()[pos as int]);
        assert(tokens.deep_view()[pos as int] == tokens@[pos as int]@);
    }
    let k = params[pos];
    let t = &tokens[pos];
    match coerce_one(k, t.as_str(), pos) {
        Err(e) => Err(e),
        Ok(v) => {
            proof {
                assert(ks.skip(1) =~= params@.skip(pos + 1));
                assert(ts.skip(1) =~= tokens.deep_view().skip(pos + 1));
            }
            match coerce_from(params, tokens, pos + 1) {
                Err(e) => Err(e),
                Ok(mut vs) => {
                    let ghost rest = vs@;
                    vs.insert(0, v);
                    proof {
                        assert(vs@ =~= seq![v] + rest);
                        assert(spec_coerce_list(ks, ts, pos) == Ok::<Seq<TypedValue>, HostError>(
                            seq![v] + rest,
                        ));
                    }
                    Ok(vs)
                },
            }
        },
    }
}

/// Coerces an ordered token list against an ordered parameter kind
/// list. Fails with an arity mismatch when the counts differ; otherwise
/// the first offending position decides the error, and on success the
/// values match the kinds position by position.
pub fn coerce_args(params: &Vec<ValKind>, tokens: &Vec<String>) -> (r: Result<
    Vec<TypedValue>,
    HostError,
>)
    ensures
        ({
            let spec_r = spec_coerce_args(params@, tokens.deep_view());
            match r {
                Ok(vs) => spec_r == Ok::<Seq<TypedValue>, HostError>(vs@),
                Err(e) => spec_r == Err::<Seq<TypedValue>, HostError>(e),
            }
        }),
{
    if params.len() != tokens.len() {
        return Err(
            HostError::ArgumentCountMismatch { provided: tokens.len(), required: params.len() },
        );
    }
    proof {
        assert(params@.skip(0) =~= params@);
        assert(tokens.deep_view().skip(0) =~= tokens.deep_view());
    }
    coerce_from(params, tokens, 0)
}

/// An argument list shorter (or longer) than the declared parameter
/// count is rejected with an arity mismatch naming both counts; no
/// token is examined.
pub proof fn lemma_arity_mismatch_rejected(ks: Seq<ValKind>, ts: Seq<Seq<char>>)
    requires
        ks.len() != ts.len(),
        ks.len() <= usize::MAX,
        ts.len() <= usize::MAX,
    ensures
        spec_coerce_args(ks, ts) == Err::<Seq<TypedValue>, HostError>(
            HostError::ArgumentCountMismatch {
                provided: ts.len() as usize,
                required: ks.len() as usize,
            },
        ),
{
}

/// The canonical token of a typed value: the decimal numeral of the
/// integer value, or of the bit pattern for the float kinds.
pub open spec fn spec_token_of(v: TypedValue) -> Seq<char> {
    match v {
        TypedValue::I32(n) => dec_seq_of_int(n as int),
        TypedValue::I64(n) => dec_seq_of_int(n as int),
        TypedValue::F32(b) => dec_seq_of(b as nat),
        TypedValue::F64(b) => dec_seq_of(b as nat),
        _ => Seq::empty(),
    }
}

/// Round trip for one position: coercing the canonical token of a
/// supported value against the value's own kind yields the value back,
/// preserving numeric identity.
pub proof fn lemma_coerce_one_round_trip(v: TypedValue, pos: usize)
    requires
        spec_cli_supported(spec_kind_of(v)),
    ensures
        spec_coerce_one(spec_kind_of(v), spec_token_of(v), pos) == Ok::<TypedValue, HostError>(v),
{
    match v {
        TypedValue::I32(n) => lemma_i32_round_trip(n),
        TypedValue::I64(n) => lemma_i64_round_trip(n),
        TypedValue::F32(b) => lemma_u32_round_trip(b),
        TypedValue::F64(b) => lemma_u64_round_trip(b),
        _ => {},
    }
}

/// Positional coercion succeeds exactly when every position coerces,
/// and then yields the positional values in order.
pub proof fn lemma_coerce_list_pointwise(ks: Seq<ValKind>, ts: Seq<Seq<char>>, pos: usize)
    requires
        ks.len() == ts.len(),
        pos + ks.len() <= usize::MAX,
    ensures
        spec_coerce_list(ks, ts, pos) is Ok <==> (forall|i: int|
            0 <= i < ks.len() ==> spec_coerce_one(#[trigger] ks[i], ts[i], (pos + i) as usize)
                is Ok),
        spec_coerce_list(ks, ts, pos) is Ok ==> {
            let vs = spec_coerce_list(ks, ts, pos)->Ok_0;
            &&& vs.len() == ks.len()
            &&& forall|i: int|
                0 <= i < ks.len() ==> #[trigger] vs[i] == spec_coerce_one(
                    ks[i],
                    ts[i],
                    (pos + i) as usize,
                )->Ok_0
        },
    decreases ks.len(),
{
    if ks.len() > 0 {
        let pos1 = (pos + 1) as usize;
        lemma_coerce_list_pointwise(ks.skip(1), ts.skip(1), pos1);
        assert forall|j: int| 0 <= j < ks.len() - 1 implies #[trigger] ks.skip(1)[j] == ks[j + 1]
            && ts.skip(1)[j] == ts[j + 1] && (pos1 + j) as usize == (pos + (j + 1)) as usize by {}
        assert((pos + 0) as usize == pos);
        let head = spec_coerce_one(ks[0], ts[0], pos);
        let rest = spec_coerce_list(ks.skip(1), ts.skip(1), pos1);
        if head is Ok && rest is Ok {
            assert forall|i: int| 0 <= i < ks.len() implies spec_coerce_one(
                #[trigger] ks[i],
                ts[i],
                (pos + i) as usize,
            ) is Ok by {
                if i > 0 {
                    assert(spec_coerce_one(ks.skip(1)[i - 1], ts.skip(1)[i - 1], (pos1 + (i - 1))
                        as usize) is Ok);
                }
            }
            let vs = spec_coerce_list(ks, ts, pos)->Ok_0;
            let rvs = rest->Ok_0;
            assert(vs == seq![head->Ok_0] + rvs);
            assert forall|i: int| 0 <= i < ks.len() implies #[trigger] vs[i] == spec_coerce_one(
                ks[i],
                ts[i],
                (pos + i) as usize,
            )->Ok_0 by {
                if i > 0 {
                    assert(vs[i] == rvs[i - 1]);
                    assert(rvs[i - 1] == spec_coerce_one(ks.skip(1)[i - 1], ts.skip(1)[i - 1], (
                    pos1 + (i - 1)) as usize)->Ok_0);
                }
            }
        } else if head is Ok {
            assert(!(spec_coerce_list(ks, ts, pos) is Ok));
            if forall|i: int|
                0 <= i < ks.len() ==> spec_coerce_one(#[trigger] ks[i], ts[i], (pos + i) as usize)
                    is Ok {
                assert forall|j: int| 0 <= j < ks.skip(1).len() implies spec_coerce_one(
                    #[trigger] ks.skip(1)[j],
                    ts.skip(1)[j],
                    (pos1 + j) as usize,
                ) is Ok by {
                    assert(spec_coerce_one(ks[j + 1], ts[j + 1], (pos + (j + 1)) as usize) is Ok);
                }
                assert(rest is Ok);
            }
        } else {
            assert(!(spec_coerce_one(ks[0], ts[0], (pos + 0) as usize) is Ok));
        }
    }
}

/// Round trip for whole argument lists: rendering each supported value
/// as its canonical token and coercing the tokens against the values'
/// own kinds yields exactly the original values.
pub proof fn lemma_coerce_args_round_trip(vals: Seq<TypedValue>)
    requires
        vals.len() <= usize::MAX,
        forall|i: int| 0 <= i < vals.len() ==> spec_cli_supported(spec_kind_of(#[trigger] vals[i])),
    ensures
        spec_coerce_args(
            vals.map_values(|v: TypedValue| spec_kind_of(v)),
            vals.map_values(|v: TypedValue| spec_token_of(v)),
        ) == Ok::<Seq<TypedValue>, HostError>(vals),
{
    let ks = vals.map_values(|v: TypedValue| spec_kind_of(v));
    let ts = vals.map_values(|v: TypedValue| spec_token_of(v));
    assert forall|i: int| 0 <= i < ks.len() implies spec_coerce_one(
        #[trigger] ks[i],
        ts[i],
        (0 + i) as usize,
    ) is Ok by {
        lemma_coerce_one_round_trip(vals[i], i as usize);
    }
    lemma_coerce_list_pointwise(ks, ts, 0);
    let vs = spec_coerce_list(ks, ts, 0)->Ok_0;
    assert forall|i: int| 0 <= i < ks.len() implies #[trigger] vs[i] == vals[i] by {
        lemma_coerce_one_round_trip(vals[i], i as usize);
        assert(vs[i] == spec_coerce_one(ks[i], ts[i], (0 + i) as usize)->Ok_0);
    }
    assert(vs =~= vals);
}

} // verus!
