//! The versioned binary encoding of claims (lists of assertions) used by the
//! export/import protocol. The format: a version byte, then a count, then
//! each assertion; integers are 64-bit little-endian, strings are
//! length-prefixed UTF-8, and every tagged union is a tag byte followed by
//! its payload. Decoding is strict: trailing bytes, an unknown tag or an
//! unknown version fail.
//!
//! Both directions are verified, and decoding inverts encoding
//! (`lemma_claim_round_trip`).

use vstd::prelude::*;
use vstd::bytes::{spec_u64_from_le_bytes, spec_u64_to_le_bytes};
use vstd::string::StrSliceExecFns;

use crate::ast::{
    AstAssertion, AstBinop, AstFact, AstFlatFact, AstPredicate, AstPrincipal, AstRValue,
    AstVerbPhrase, Sign, SpecAssertion, SpecFact, SpecFlatFact, SpecPredicate, SpecPrincipal,
    SpecRValue, SpecVerbPhrase,
};
use vstd::utf8::{decode_utf8, encode_utf8, valid_utf8};

verus! {

// ---------------------------------------------------------------------------
// Encoders
// ---------------------------------------------------------------------------

pub open spec fn spec_enc_u64(n: u64) -> Seq<u8> {
    spec_u64_to_le_bytes(n)
}

pub open spec fn spec_enc_str(s: Seq<char>) -> Seq<u8> {
    spec_enc_u64(encode_utf8(s).len() as u64) + encode_utf8(s)
}

pub open spec fn spec_enc_str_list(ss: Seq<Seq<char>>) -> Seq<u8>
    decreases ss.len(),
{
    if ss.len() == 0 {
        Seq::empty()
    } else {
        spec_enc_str(ss[0]) + spec_enc_str_list(ss.drop_first())
    }
}

pub open spec fn spec_sign_byte(s: Sign) -> u8 {
    match s {
        Sign::Negated => 0,
        Sign::Positive => 1,
    }
}

pub open spec fn spec_enc_pred(p: SpecPredicate) -> Seq<u8> {
    seq![spec_sign_byte(p.sign)] + spec_enc_str(p.name) + spec_enc_u64(p.args.len() as u64)
        + spec_enc_str_list(p.args)
}

pub open spec fn spec_enc_prin(p: SpecPrincipal) -> Seq<u8> {
    spec_enc_str(p.name)
}

pub open spec fn spec_enc_verbphrase(v: SpecVerbPhrase) -> Seq<u8> {
    match v {
        SpecVerbPhrase::PredPhrase { p } => seq![0u8] + spec_enc_pred(p),
        SpecVerbPhrase::CanActPhrase { p } => seq![1u8] + spec_enc_prin(p),
    }
}

pub open spec fn spec_enc_flat_fact(f: SpecFlatFact) -> Seq<u8> {
    match f {
        SpecFlatFact::PrinFact { p, v } => seq![0u8] + spec_enc_prin(p) + spec_enc_verbphrase(v),
        SpecFlatFact::PredFact { p } => seq![1u8] + spec_enc_pred(p),
    }
}

pub open spec fn spec_enc_fact(f: SpecFact) -> Seq<u8>
    decreases f,
{
    match f {
        SpecFact::FlatFactFact { f: flat } => seq![0u8] + spec_enc_flat_fact(flat),
        SpecFact::CanSayFact { p, f: inner } => seq![1u8] + spec_enc_prin(p) + spec_enc_fact(
            *inner,
        ),
    }
}

pub open spec fn spec_binop_byte(b: AstBinop) -> u8 {
    match b {
        AstBinop::LessThan => 0,
        AstBinop::GreaterThan => 1,
        AstBinop::Equals => 2,
        AstBinop::NotEquals => 3,
        AstBinop::LessOrEquals => 4,
        AstBinop::GreaterOrEquals => 5,
    }
}

pub open spec fn spec_enc_rvalue(r: SpecRValue) -> Seq<u8> {
    match r {
        SpecRValue::FlatFactRValue { flat_fact } => seq![0u8] + spec_enc_flat_fact(flat_fact),
        SpecRValue::BinopRValue { lnum, binop, rnum } => seq![1u8] + spec_enc_str(lnum) + seq![
            spec_binop_byte(binop),
        ] + spec_enc_str(rnum),
    }
}

pub open spec fn spec_enc_rvalue_list(rs: Seq<SpecRValue>) -> Seq<u8>
    decreases rs.len(),
{
    if rs.len() == 0 {
        Seq::empty()
    } else {
        spec_enc_rvalue(rs[0]) + spec_enc_rvalue_list(rs.drop_first())
    }
}

pub open spec fn spec_enc_assertion(a: SpecAssertion) -> Seq<u8> {
    match a {
        SpecAssertion::FactAssertion { f } => seq![0u8] + spec_enc_fact(f),
        SpecAssertion::CondAssertion { lhs, rhs } => seq![1u8] + spec_enc_fact(lhs) + spec_enc_u64(
            rhs.len() as u64,
        ) + spec_enc_rvalue_list(rhs),
    }
}

pub open spec fn spec_enc_assertion_list(asserts: Seq<SpecAssertion>) -> Seq<u8>
    decreases asserts.len(),
{
    if asserts.len() == 0 {
        Seq::empty()
    } else {
        spec_enc_assertion(asserts[0]) + spec_enc_assertion_list(asserts.drop_first())
    }
}

/// The version byte of the current claim format.
pub open spec fn spec_claim_version() -> u8 {
    1
}

/// The full encoding of a claim.
pub open spec fn spec_enc_claim(asserts: Seq<SpecAssertion>) -> Seq<u8> {
    seq![spec_claim_version()] + spec_enc_u64(asserts.len() as u64) + spec_enc_assertion_list(
        asserts,
    )
}

// ---------------------------------------------------------------------------
// Size bounds
// ---------------------------------------------------------------------------
// The length prefixes are 64-bit, so the encoding is invertible only for
// values whose strings and lists are shorter than 2^64; every value built
// from real vectors and strings is.

pub open spec fn spec_str_bounded(s: Seq<char>) -> bool {
    encode_utf8(s).len() < 0x10000000000000000
}

pub open spec fn spec_str_list_bounded(ss: Seq<Seq<char>>) -> bool {
    ss.len() < 0x10000000000000000 && (forall|i: int|
        0 <= i < ss.len() ==> spec_str_bounded(#[trigger] ss[i]))
}

pub open spec fn spec_pred_bounded(p: SpecPredicate) -> bool {
    spec_str_bounded(p.name) && spec_str_list_bounded(p.args)
}

pub open spec fn spec_verbphrase_bounded(v: SpecVerbPhrase) -> bool {
    match v {
        SpecVerbPhrase::PredPhrase { p } => spec_pred_bounded(p),
        SpecVerbPhrase::CanActPhrase { p } => spec_str_bounded(p.name),
    }
}

pub open spec fn spec_flat_fact_bounded(f: SpecFlatFact) -> bool {
    match f {
        SpecFlatFact::PrinFact { p, v } => spec_str_bounded(p.name) && spec_verbphrase_bounded(v),
        SpecFlatFact::PredFact { p } => spec_pred_bounded(p),
    }
}

pub open spec fn spec_fact_bounded(f: SpecFact) -> bool
    decreases f,
{
    match f {
        SpecFact::FlatFactFact { f: flat } => spec_flat_fact_bounded(flat),
        SpecFact::CanSayFact { p, f: inner } => spec_str_bounded(p.name) && spec_fact_bounded(
            *inner,
        ),
    }
}

pub open spec fn spec_rvalue_bounded(r: SpecRValue) -> bool {
    match r {
        SpecRValue::FlatFactRValue { flat_fact } => spec_flat_fact_bounded(flat_fact),
        SpecRValue::BinopRValue { lnum, binop, rnum } => spec_str_bounded(lnum)
            && spec_str_bounded(rnum),
    }
}

pub open spec fn spec_rvalue_list_bounded(rs: Seq<SpecRValue>) -> bool {
    rs.len() < 0x10000000000000000 && (forall|i: int|
        0 <= i < rs.len() ==> spec_rvalue_bounded(#[trigger] rs[i]))
}

pub open spec fn spec_assertion_bounded(a: SpecAssertion) -> bool {
    match a {
        SpecAssertion::FactAssertion { f } => spec_fact_bounded(f),
        SpecAssertion::CondAssertion { lhs, rhs } => spec_fact_bounded(lhs)
            && spec_rvalue_list_bounded(rhs),
    }
}

pub open spec fn spec_claim_bounded(asserts: Seq<SpecAssertion>) -> bool {
    asserts.len() < 0x10000000000000000 && (forall|i: int|
        0 <= i < asserts.len() ==> spec_assertion_bounded(#[trigger] asserts[i]))
}

// ---------------------------------------------------------------------------
// Decoders
// ---------------------------------------------------------------------------
// Each decoder takes the remaining bytes and yields the decoded value and
// the leftover bytes, or nothing on malformed input.

pub open spec fn spec_dec_u8(b: Seq<u8>) -> Option<(u8, Seq<u8>)> {
    if b.len() >= 1 {
        Some((b[0], b.drop_first()))
    } else {
        None
    }
}

pub open spec fn spec_dec_u64(b: Seq<u8>) -> Option<(u64, Seq<u8>)> {
    if b.len() >= 8 {
        Some((spec_u64_from_le_bytes(b.take(8)), b.skip(8)))
    } else {
        None
    }
}

pub open spec fn spec_dec_str(b: Seq<u8>) -> Option<(Seq<char>, Seq<u8>)> {
    match spec_dec_u64(b) {
        None => None,
        Some((n, r1)) => if r1.len() >= n {
            let sb = r1.take(n as int);
            if valid_utf8(sb) {
                Some((decode_utf8(sb), r1.skip(n as int)))
            } else {
                None
            }
        } else {
            None
        },
    }
}

pub open spec fn spec_dec_str_list(b: Seq<u8>, n: u64) -> Option<(Seq<Seq<char>>, Seq<u8>)>
    decreases n,
{
    if n == 0 {
        Some((Seq::empty(), b))
    } else {
        match spec_dec_str(b) {
            None => None,
            Some((s, r1)) => match spec_dec_str_list(r1, (n - 1) as u64) {
                None => None,
                Some((rest, r2)) => Some((seq![s] + rest, r2)),
            },
        }
    }
}

pub open spec fn spec_dec_prin(b: Seq<u8>) -> Option<(SpecPrincipal, Seq<u8>)> {
    match spec_dec_str(b) {
        None => None,
        Some((s, r)) => Some((SpecPrincipal { name: s }, r)),
    }
}

pub open spec fn spec_dec_sign(b: Seq<u8>) -> Option<(Sign, Seq<u8>)> {
    match spec_dec_u8(b) {
        None => None,
        Some((t, r)) => if t == 0 {
            Some((Sign::Negated, r))
        } else if t == 1 {
            Some((Sign::Positive, r))
        } else {
            None
        },
    }
}

pub open spec fn spec_dec_pred(b: Seq<u8>) -> Option<(SpecPredicate, Seq<u8>)> {
    match spec_dec_sign(b) {
        None => None,
        Some((sign, r1)) => match spec_dec_str(r1) {
            None => None,
            Some((name, r2)) => match spec_dec_u64(r2) {
                None => None,
                Some((n, r3)) => match spec_dec_str_list(r3, n) {
                    None => None,
                    Some((args, r4)) => Some((SpecPredicate { sign, name, args }, r4)),
                },
            },
        },
    }
}

pub open spec fn spec_dec_verbphrase(b: Seq<u8>) -> Option<(SpecVerbPhrase, Seq<u8>)> {
    match spec_dec_u8(b) {
        None => None,
        Some((t, r1)) => if t == 0 {
            match spec_dec_pred(r1) {
                None => None,
                Some((p, r2)) => Some((SpecVerbPhrase::PredPhrase { p }, r2)),
            }
        } else if t == 1 {
            match spec_dec_prin(r1) {
                None => None,
                Some((p, r2)) => Some((SpecVerbPhrase::CanActPhrase { p }, r2)),
            }
        } else {
            None
        },
    }
}

pub open spec fn spec_dec_flat_fact(b: Seq<u8>) -> Option<(SpecFlatFact, Seq<u8>)> {
    match spec_dec_u8(b) {
        None => None,
        Some((t, r1)) => if t == 0 {
            match spec_dec_prin(r1) {
                None => None,
                Some((p, r2)) => match spec_dec_verbphrase(r2) {
                    None => None,
                    Some((v, r3)) => Some((SpecFlatFact::PrinFact { p, v }, r3)),
                },
            }
        } else if t == 1 {
            match spec_dec_pred(r1) {
                None => None,
                Some((p, r2)) => Some((SpecFlatFact::PredFact { p }, r2)),
            }
        } else {
            None
        },
    }
}

pub open spec fn spec_dec_fact(b: Seq<u8>) -> Option<(SpecFact, Seq<u8>)>
    decreases b.len(),
{
    match spec_dec_u8(b) {
        None => None,
        Some((t, r1)) => if t == 0 {
            match spec_dec_flat_fact(r1) {
                None => None,
                Some((f, r2)) => Some((SpecFact::FlatFactFact { f }, r2)),
            }
        } else if t == 1 {
            match spec_dec_prin(r1) {
                None => None,
                Some((p, r2)) => if r2.len() < b.len() {
                    match spec_dec_fact(r2) {
                        None => None,
                        Some((f, r3)) => Some((SpecFact::CanSayFact { p, f: Box::new(f) }, r3)),
                    }
                } else {
                    None
                },
            }
        } else {
            None
        },
    }
}

pub open spec fn spec_dec_binop(b: Seq<u8>) -> Option<(AstBinop, Seq<u8>)> {
    match spec_dec_u8(b) {
        None => None,
        Some((t, r)) => if t == 0 {
            Some((AstBinop::LessThan, r))
        } else if t == 1 {
            Some((AstBinop::GreaterThan, r))
        } else if t == 2 {
            Some((AstBinop::Equals, r))
        } else if t == 3 {
            Some((AstBinop::NotEquals, r))
        } else if t == 4 {
            Some((AstBinop::LessOrEquals, r))
        } else if t == 5 {
            Some((AstBinop::GreaterOrEquals, r))
        } else {
            None
        },
    }
}

pub open spec fn spec_dec_rvalue(b: Seq<u8>) -> Option<(SpecRValue, Seq<u8>)> {
    match spec_dec_u8(b) {
        None => None,
        Some((t, r1)) => if t == 0 {
            match spec_dec_flat_fact(r1) {
                None => None,
                Some((f, r2)) => Some((SpecRValue::FlatFactRValue { flat_fact: f }, r2)),
            }
        } else if t == 1 {
            match spec_dec_str(r1) {
                None => None,
                Some((lnum, r2)) => match spec_dec_binop(r2) {
                    None => None,
                    Some((binop, r3)) => match spec_dec_str(r3) {
                        None => None,
                        Some((rnum, r4)) => Some((
                            SpecRValue::BinopRValue { lnum, binop, rnum },
                            r4,
                        )),
                    },
                },
            }
        } else {
            None
        },
    }
}

pub open spec fn spec_dec_rvalue_list(b: Seq<u8>, n: u64) -> Option<(Seq<SpecRValue>, Seq<u8>)>
    decreases n,
{
    if n == 0 {
        Some((Seq::empty(), b))
    } else {
        match spec_dec_rvalue(b) {
            None => None,
            Some((r, r1)) => match spec_dec_rvalue_list(r1, (n - 1) as u64) {
                None => None,
                Some((rest, r2)) => Some((seq![r] + rest, r2)),
            },
        }
    }
}

pub open spec fn spec_dec_assertion(b: Seq<u8>) -> Option<(SpecAssertion, Seq<u8>)> {
    match spec_dec_u8(b) {
        None => None,
        Some((t, r1)) => if t == 0 {
            match spec_dec_fact(r1) {
                None => None,
                Some((f, r2)) => Some((SpecAssertion::FactAssertion { f }, r2)),
            }
        } else if t == 1 {
            match spec_dec_fact(r1) {
                None => None,
                Some((lhs, r2)) => match spec_dec_u64(r2) {
                    None => None,
                    Some((n, r3)) => match spec_dec_rvalue_list(r3, n) {
                        None => None,
                        Some((rhs, r4)) => Some((SpecAssertion::CondAssertion { lhs, rhs }, r4)),
                    },
                },
            }
        } else {
            None
        },
    }
}

pub open spec fn spec_dec_assertion_list(b: Seq<u8>, n: u64) -> Option<(
    Seq<SpecAssertion>,
    Seq<u8>,
)>
    decreases n,
{
    if n == 0 {
        Some((Seq::empty(), b))
    } else {
        match spec_dec_assertion(b) {
            None => None,
            Some((a, r1)) => match spec_dec_assertion_list(r1, (n - 1) as u64) {
                None => None,
                Some((rest, r2)) => Some((seq![a] + rest, r2)),
            },
        }
    }
}

/// Decodes a whole claim; trailing bytes or a wrong version fail.
pub open spec fn spec_dec_claim(b: Seq<u8>) -> Option<Seq<SpecAssertion>> {
    match spec_dec_u8(b) {
        None => None,
        Some((v, r1)) => if v != spec_claim_version() {
            None
        } else {
            match spec_dec_u64(r1) {
                None => None,
                Some((n, r2)) => match spec_dec_assertion_list(r2, n) {
                    None => None,
                    Some((asserts, r3)) => if r3.len() == 0 {
                        Some(asserts)
                    } else {
                        None
                    },
                },
            }
        },
    }
}


// ---------------------------------------------------------------------------
// Round trip: decoding inverts encoding
// ---------------------------------------------------------------------------

proof fn lemma_dec_u8(x: u8, rest: Seq<u8>)
    ensures
        spec_dec_u8(seq![x] + rest) == Some((x, rest)),
{
    let b = seq![x] + rest;
    assert(b[0] == x);
    assert(b.drop_first() =~= rest);
}

proof fn lemma_dec_u64(n: u64, rest: Seq<u8>)
    ensures
        spec_dec_u64(spec_enc_u64(n) + rest) == Some((n, rest)),
{
    vstd::bytes::lemma_auto_spec_u64_to_from_le_bytes();
    let b = spec_enc_u64(n) + rest;
    assert(spec_enc_u64(n).len() == 8);
    assert(b.take(8) =~= spec_enc_u64(n));
    assert(b.skip(8) =~= rest);
}

proof fn lemma_dec_str(s: Seq<char>, rest: Seq<u8>)
    requires
        spec_str_bounded(s),
    ensures
        spec_dec_str(spec_enc_str(s) + rest) == Some((s, rest)),
{
    let bytes = encode_utf8(s);
    let n = bytes.len() as u64;
    let b = spec_enc_str(s) + rest;
    assert(b =~= spec_enc_u64(n) + (bytes + rest));
    lemma_dec_u64(n, bytes + rest);
    let r1 = bytes + rest;
    assert(r1.len() >= n);
    assert(r1.take(n as int) =~= bytes);
    assert(r1.skip(n as int) =~= rest);
    vstd::utf8::encode_utf8_valid_utf8(s);
    vstd::utf8::encode_utf8_decode_utf8(s);
}

proof fn lemma_dec_str_list(ss: Seq<Seq<char>>, rest: Seq<u8>)
    requires
        spec_str_list_bounded(ss),
    ensures
        spec_dec_str_list(spec_enc_str_list(ss) + rest, ss.len() as u64) == Some((ss, rest)),
    decreases ss.len(),
{
    if ss.len() == 0 {
        assert(spec_enc_str_list(ss) + rest =~= rest);
    } else {
        let tail = ss.drop_first();
        let b = spec_enc_str_list(ss) + rest;
        assert(b =~= spec_enc_str(ss[0]) + (spec_enc_str_list(tail) + rest));
        assert(spec_str_bounded(ss[0]));
        lemma_dec_str(ss[0], spec_enc_str_list(tail) + rest);
        assert(spec_str_list_bounded(tail)) by {
            assert(forall|i: int|
                0 <= i < tail.len() ==> #[trigger] tail[i] == ss[i + 1] && spec_str_bounded(
                    ss[i + 1],
                ));
        }
        lemma_dec_str_list(tail, rest);
        assert((ss.len() as u64 - 1) as u64 == tail.len() as u64);
        assert(seq![ss[0]] + tail =~= ss);
    }
}

proof fn lemma_dec_prin(p: SpecPrincipal, rest: Seq<u8>)
    requires
        spec_str_bounded(p.name),
    ensures
        spec_dec_prin(spec_enc_prin(p) + rest) == Some((p, rest)),
{
    lemma_dec_str(p.name, rest);
}

proof fn lemma_dec_sign(s: Sign, rest: Seq<u8>)
    ensures
        spec_dec_sign(seq![spec_sign_byte(s)] + rest) == Some((s, rest)),
{
    lemma_dec_u8(spec_sign_byte(s), rest);
}

proof fn lemma_dec_pred(p: SpecPredicate, rest: Seq<u8>)
    requires
        spec_pred_bounded(p),
    ensures
        spec_dec_pred(spec_enc_pred(p) + rest) == Some((p, rest)),
{
    let b = spec_enc_pred(p) + rest;
    let after_sign = spec_enc_str(p.name) + (spec_enc_u64(p.args.len() as u64) + (
    spec_enc_str_list(p.args) + rest));
    assert(b =~= seq![spec_sign_byte(p.sign)] + after_sign);
    lemma_dec_sign(p.sign, after_sign);
    lemma_dec_str(p.name, spec_enc_u64(p.args.len() as u64) + (spec_enc_str_list(p.args) + rest));
    lemma_dec_u64(p.args.len() as u64, spec_enc_str_list(p.args) + rest);
    lemma_dec_str_list(p.args, rest);
}

proof fn lemma_dec_verbphrase(v: SpecVerbPhrase, rest: Seq<u8>)
    requires
        spec_verbphrase_bounded(v),
    ensures
        spec_dec_verbphrase(spec_enc_verbphrase(v) + rest) == Some((v, rest)),
{
    match v {
        SpecVerbPhrase::PredPhrase { p } => {
            assert(spec_enc_verbphrase(v) + rest =~= seq![0u8] + (spec_enc_pred(p) + rest));
            lemma_dec_u8(0u8, spec_enc_pred(p) + rest);
            lemma_dec_pred(p, rest);
        },
        SpecVerbPhrase::CanActPhrase { p } => {
            assert(spec_enc_verbphrase(v) + rest =~= seq![1u8] + (spec_enc_prin(p) + rest));
            lemma_dec_u8(1u8, spec_enc_prin(p) + rest);
            lemma_dec_prin(p, rest);
        },
    }
}

proof fn lemma_dec_flat_fact(f: SpecFlatFact, rest: Seq<u8>)
    requires
        spec_flat_fact_bounded(f),
    ensures
        spec_dec_flat_fact(spec_enc_flat_fact(f) + rest) == Some((f, rest)),
{
    match f {
        SpecFlatFact::PrinFact { p, v } => {
            assert(spec_enc_flat_fact(f) + rest =~= seq![0u8] + (spec_enc_prin(p) + (
            spec_enc_verbphrase(v) + rest)));
            lemma_dec_u8(0u8, spec_enc_prin(p) + (spec_enc_verbphrase(v) + rest));
            lemma_dec_prin(p, spec_enc_verbphrase(v) + rest);
            lemma_dec_verbphrase(v, rest);
        },
        SpecFlatFact::PredFact { p } => {
            assert(spec_enc_flat_fact(f) + rest =~= seq![1u8] + (spec_enc_pred(p) + rest));
            lemma_dec_u8(1u8, spec_enc_pred(p) + rest);
            lemma_dec_pred(p, rest);
        },
    }
}

proof fn lemma_dec_fact(f: SpecFact, rest: Seq<u8>)
    requires
        spec_fact_bounded(f),
    ensures
        spec_dec_fact(spec_enc_fact(f) + rest) == Some((f, rest)),
    decreases f,
{
    match f {
        SpecFact::FlatFactFact { f: flat } => {
            assert(spec_enc_fact(f) + rest =~= seq![0u8] + (spec_enc_flat_fact(flat) + rest));
            lemma_dec_u8(0u8, spec_enc_flat_fact(flat) + rest);
            lemma_dec_flat_fact(flat, rest);
        },
        SpecFact::CanSayFact { p, f: inner } => {
            let b = spec_enc_fact(f) + rest;
            let r1 = spec_enc_prin(p) + (spec_enc_fact(*inner) + rest);
            assert(b =~= seq![1u8] + r1);
            lemma_dec_u8(1u8, r1);
            lemma_dec_prin(p, spec_enc_fact(*inner) + rest);
            let r2 = spec_enc_fact(*inner) + rest;
            vstd::bytes::lemma_auto_spec_u64_to_from_le_bytes();
            assert(spec_enc_prin(p).len() >= 8);
            assert(r2.len() < b.len());
            lemma_dec_fact(*inner, rest);
            assert(SpecFact::CanSayFact { p, f: Box::new(*inner) } == f);
        },
    }
}

proof fn lemma_dec_binop(op: AstBinop, rest: Seq<u8>)
    ensures
        spec_dec_binop(seq![spec_binop_byte(op)] + rest) == Some((op, rest)),
{
    lemma_dec_u8(spec_binop_byte(op), rest);
}

#[verifier::rlimit(60)]
proof fn lemma_dec_rvalue(r: SpecRValue, rest: Seq<u8>)
    requires
        spec_rvalue_bounded(r),
    ensures
        spec_dec_rvalue(spec_enc_rvalue(r) + rest) == Some((r, rest)),
{
    match r {
        SpecRValue::FlatFactRValue { flat_fact } => {
            assert(spec_enc_rvalue(r) + rest =~= seq![0u8] + (spec_enc_flat_fact(flat_fact)
                + rest));
            lemma_dec_u8(0u8, spec_enc_flat_fact(flat_fact) + rest);
            lemma_dec_flat_fact(flat_fact, rest);
        },
        SpecRValue::BinopRValue { lnum, binop, rnum } => {
            assert(spec_enc_rvalue(r) + rest =~= seq![1u8] + (spec_enc_str(lnum) + (seq![
                spec_binop_byte(binop),
            ] + (spec_enc_str(rnum) + rest))));
            lemma_dec_u8(1u8, spec_enc_str(lnum) + (seq![spec_binop_byte(binop)] + (spec_enc_str(
                rnum,
            ) + rest)));
            lemma_dec_str(lnum, seq![spec_binop_byte(binop)] + (spec_enc_str(rnum) + rest));
            lemma_dec_binop(binop, spec_enc_str(rnum) + rest);
            lemma_dec_str(rnum, rest);
        },
    }
}

#[verifier::rlimit(100)]
#[verifier::spinoff_prover]
proof fn lemma_dec_rvalue_list(rs: Seq<SpecRValue>, rest: Seq<u8>)
    requires
        spec_rvalue_list_bounded(rs),
    ensures
        spec_dec_rvalue_list(spec_enc_rvalue_list(rs) + rest, rs.len() as u64) == Some((
            rs,
            rest,
        )),
    decreases rs.len(),
{
    if rs.len() == 0 {
        assert(spec_enc_rvalue_list(rs) + rest =~= rest);
    } else {
        let tail = rs.drop_first();
        assert(spec_enc_rvalue_list(rs) + rest =~= spec_enc_rvalue(rs[0]) + (spec_enc_rvalue_list(
            tail,
        ) + rest));
        assert(spec_rvalue_bounded(rs[0]));
        lemma_dec_rvalue(rs[0], spec_enc_rvalue_list(tail) + rest);
        assert(spec_rvalue_list_bounded(tail)) by {
            assert(forall|i: int|
                0 <= i < tail.len() ==> #[trigger] tail[i] == rs[i + 1] && spec_rvalue_bounded(
                    rs[i + 1],
                ));
        }
        lemma_dec_rvalue_list(tail, rest);
        assert(seq![rs[0]] + tail =~= rs);
    }
}

#[verifier::rlimit(100)]
#[verifier::spinoff_prover]
proof fn lemma_dec_assertion(a: SpecAssertion, rest: Seq<u8>)
    requires
        spec_assertion_bounded(a),
    ensures
        spec_dec_assertion(spec_enc_assertion(a) + rest) == Some((a, rest)),
{
    match a {
        SpecAssertion::FactAssertion { f } => {
            assert(spec_enc_assertion(a) + rest =~= seq![0u8] + (spec_enc_fact(f) + rest));
            lemma_dec_u8(0u8, spec_enc_fact(f) + rest);
            lemma_dec_fact(f, rest);
        },
        SpecAssertion::CondAssertion { lhs, rhs } => {
            assert(spec_enc_assertion(a) + rest =~= seq![1u8] + (spec_enc_fact(lhs) + (
            spec_enc_u64(rhs.len() as u64) + (spec_enc_rvalue_list(rhs) + rest))));
            lemma_dec_u8(1u8, spec_enc_fact(lhs) + (spec_enc_u64(rhs.len() as u64) + (
            spec_enc_rvalue_list(rhs) + rest)));
            lemma_dec_fact(lhs, spec_enc_u64(rhs.len() as u64) + (spec_enc_rvalue_list(rhs)
                + rest));
            lemma_dec_u64(rhs.len() as u64, spec_enc_rvalue_list(rhs) + rest);
            lemma_dec_rvalue_list(rhs, rest);
        },
    }
}

#[verifier::rlimit(100)]
#[verifier::spinoff_prover]
proof fn lemma_dec_assertion_list(asserts: Seq<SpecAssertion>, rest: Seq<u8>)
    requires
        spec_claim_bounded(asserts),
    ensures
        spec_dec_assertion_list(spec_enc_assertion_list(asserts) + rest, asserts.len() as u64)
            == Some((asserts, rest)),
    decreases asserts.len(),
{
    if asserts.len() == 0 {
        assert(spec_enc_assertion_list(asserts) + rest =~= rest);
    } else {
        let tail = asserts.drop_first();
        assert(spec_enc_assertion_list(asserts) + rest =~= spec_enc_assertion(asserts[0]) + (
        spec_enc_assertion_list(tail) + rest));
        assert(spec_assertion_bounded(asserts[0]));
        lemma_dec_assertion(asserts[0], spec_enc_assertion_list(tail) + rest);
        assert(spec_claim_bounded(tail)) by {
            assert(forall|i: int|
                0 <= i < tail.len() ==> #[trigger] tail[i] == asserts[i + 1]
                    && spec_assertion_bounded(asserts[i + 1]));
        }
        lemma_dec_assertion_list(tail, rest);
        assert(seq![asserts[0]] + tail =~= asserts);
    }
}

/// Decoding inverts encoding: a claim that fits the format's length
/// prefixes decodes back to exactly itself.
pub proof fn lemma_claim_round_trip(asserts: Seq<SpecAssertion>)
    requires
        spec_claim_bounded(asserts),
    ensures
        spec_dec_claim(spec_enc_claim(asserts)) == Some(asserts),
{
    let b = spec_enc_claim(asserts);
    let r1 = spec_enc_u64(asserts.len() as u64) + (spec_enc_assertion_list(asserts)
        + Seq::empty());
    assert(b =~= seq![spec_claim_version()] + r1);
    lemma_dec_u8(spec_claim_version(), r1);
    lemma_dec_u64(asserts.len() as u64, spec_enc_assertion_list(asserts) + Seq::empty());
    lemma_dec_assertion_list(asserts, Seq::empty());
}


// ---------------------------------------------------------------------------
// Executable encoder
// ---------------------------------------------------------------------------

fn enc_u64_into(out: &mut Vec<u8>, n: u64)
    ensures
        final(out)@ == old(out)@ + spec_enc_u64(n),
{
    let mut b = vstd::bytes::u64_to_le_bytes(n);
    out.append(&mut b);
}

fn enc_str_into(out: &mut Vec<u8>, s: &String)
    ensures
        final(out)@ == old(out)@ + spec_enc_str(s@),
        spec_str_bounded(s@),
{
    let bytes = s.as_str().as_bytes_vec();
    let n: u64 = bytes.len() as u64;
    enc_u64_into(out, n);
    let mut b = bytes;
    out.append(&mut b);
    proof {
        assert(final(out)@ =~= old(out)@ + spec_enc_str(s@));
    }
}

fn enc_str_list_into(out: &mut Vec<u8>, ss: &Vec<String>, i: usize)
    requires
        i <= ss@.len(),
    ensures
        final(out)@ == old(out)@ + spec_enc_str_list(
            crate::ast::strings_view(ss@).skip(i as int),
        ),
        spec_str_list_bounded(crate::ast::strings_view(ss@).skip(i as int)),
    decreases ss@.len() - i,
{
    let ghost views = crate::ast::strings_view(ss@);
    if i == ss.len() {
        proof {
            assert(views.skip(i as int) =~= Seq::<Seq<char>>::empty());
            assert(old(out)@ + spec_enc_str_list(views.skip(i as int)) =~= old(out)@);
        }
    } else {
        proof {
            assert(views.skip(i as int)[0] == ss@[i as int]@);
            assert(views.skip(i as int).drop_first() =~= views.skip(i + 1 as int));
        }
        enc_str_into(out, &ss[i]);
        enc_str_list_into(out, ss, i + 1);
        proof {
            assert(final(out)@ =~= old(out)@ + spec_enc_str_list(views.skip(i as int)));
            assert forall|j: int| 0 <= j < views.skip(i as int).len() implies spec_str_bounded(
                #[trigger] views.skip(i as int)[j],
            ) by {
                if j == 0 {
                } else {
                    assert(views.skip(i as int)[j] == views.skip(i + 1 as int)[j - 1]);
                }
            }
        }
    }
}

fn enc_pred_into(out: &mut Vec<u8>, p: &AstPredicate)
    ensures
        final(out)@ == old(out)@ + spec_enc_pred(p@),
        spec_pred_bounded(p@),
{
    out.push(match p.sign {
        Sign::Negated => 0u8,
        Sign::Positive => 1u8,
    });
    enc_str_into(out, &p.name);
    enc_u64_into(out, p.args.len() as u64);
    enc_str_list_into(out, &p.args, 0);
    proof {
        assert(crate::ast::strings_view(p.args@).skip(0) =~= p@.args);
        assert(final(out)@ =~= old(out)@ + spec_enc_pred(p@));
    }
}

fn enc_prin_into(out: &mut Vec<u8>, p: &AstPrincipal)
    ensures
        final(out)@ == old(out)@ + spec_enc_prin(p@),
        spec_str_bounded(p@.name),
{
    enc_str_into(out, &p.name);
}

fn enc_verbphrase_into(out: &mut Vec<u8>, v: &AstVerbPhrase)
    ensures
        final(out)@ == old(out)@ + spec_enc_verbphrase(v@),
        spec_verbphrase_bounded(v@),
{
    match v {
        AstVerbPhrase::AstPredPhrase { p } => {
            out.push(0u8);
            enc_pred_into(out, p);
        },
        AstVerbPhrase::AstCanActPhrase { p } => {
            out.push(1u8);
            enc_prin_into(out, p);
        },
    }
    proof {
        assert(final(out)@ =~= old(out)@ + spec_enc_verbphrase(v@));
    }
}

fn enc_flat_fact_into(out: &mut Vec<u8>, f: &AstFlatFact)
    ensures
        final(out)@ == old(out)@ + spec_enc_flat_fact(f@),
        spec_flat_fact_bounded(f@),
{
    match f {
        AstFlatFact::AstPrinFact { p, v } => {
            out.push(0u8);
            enc_prin_into(out, p);
            enc_verbphrase_into(out, v);
        },
        AstFlatFact::AstPredFact { p } => {
            out.push(1u8);
            enc_pred_into(out, p);
        },
    }
    proof {
        assert(final(out)@ =~= old(out)@ + spec_enc_flat_fact(f@));
    }
}

fn enc_fact_into(out: &mut Vec<u8>, f: &AstFact)
    ensures
        final(out)@ == old(out)@ + spec_enc_fact(f@),
        spec_fact_bounded(f@),
    decreases f,
{
    match f {
        AstFact::AstFlatFactFact { f: flat } => {
            out.push(0u8);
            enc_flat_fact_into(out, flat);
        },
        AstFact::AstCanSayFact { p, f: inner } => {
            out.push(1u8);
            enc_prin_into(out, p);
            enc_fact_into(out, inner);
        },
    }
    proof {
        assert(final(out)@ =~= old(out)@ + spec_enc_fact(f@));
    }
}

fn enc_rvalue_into(out: &mut Vec<u8>, r: &AstRValue)
    ensures
        final(out)@ == old(out)@ + spec_enc_rvalue(r@),
        spec_rvalue_bounded(r@),
{
    match r {
        AstRValue::FlatFactRValue { flat_fact } => {
            out.push(0u8);
            enc_flat_fact_into(out, flat_fact);
        },
        AstRValue::BinopRValue { lnum, binop, rnum } => {
            out.push(1u8);
            enc_str_into(out, lnum);
            out.push(match binop {
                AstBinop::LessThan => 0u8,
                AstBinop::GreaterThan => 1u8,
                AstBinop::Equals => 2u8,
                AstBinop::NotEquals => 3u8,
                AstBinop::LessOrEquals => 4u8,
                AstBinop::GreaterOrEquals => 5u8,
            });
            enc_str_into(out, rnum);
        },
    }
    proof {
        assert(final(out)@ =~= old(out)@ + spec_enc_rvalue(r@));
    }
}

fn enc_rvalue_list_into(out: &mut Vec<u8>, rs: &Vec<AstRValue>, i: usize)
    requires
        i <= rs@.len(),
    ensures
        final(out)@ == old(out)@ + spec_enc_rvalue_list(
            crate::ast::rvalues_view(rs@).skip(i as int),
        ),
        spec_rvalue_list_bounded(crate::ast::rvalues_view(rs@).skip(i as int)),
    decreases rs@.len() - i,
{
    let ghost views = crate::ast::rvalues_view(rs@);
    if i == rs.len() {
        proof {
            assert(views.skip(i as int) =~= Seq::<SpecRValue>::empty());
            assert(old(out)@ + spec_enc_rvalue_list(views.skip(i as int)) =~= old(out)@);
        }
    } else {
        proof {
            assert(views.skip(i as int)[0] == rs@[i as int]@);
            assert(views.skip(i as int).drop_first() =~= views.skip(i + 1 as int));
        }
        enc_rvalue_into(out, &rs[i]);
        enc_rvalue_list_into(out, rs, i + 1);
        proof {
            assert(final(out)@ =~= old(out)@ + spec_enc_rvalue_list(views.skip(i as int)));
            assert forall|j: int| 0 <= j < views.skip(i as int).len() implies spec_rvalue_bounded(
                #[trigger] views.skip(i as int)[j],
            ) by {
                if j == 0 {
                } else {
                    assert(views.skip(i as int)[j] == views.skip(i + 1 as int)[j - 1]);
                }
            }
        }
    }
}

fn enc_assertion_into(out: &mut Vec<u8>, a: &AstAssertion)
    ensures
        final(out)@ == old(out)@ + spec_enc_assertion(a@),
        spec_assertion_bounded(a@),
{
    match a {
        AstAssertion::AstFactAssertion { f } => {
            out.push(0u8);
            enc_fact_into(out, f);
        },
        AstAssertion::AstCondAssertion { lhs, rhs } => {
            out.push(1u8);
            enc_fact_into(out, lhs);
            enc_u64_into(out, rhs.len() as u64);
            enc_rvalue_list_into(out, rhs, 0);
            proof {
                assert(crate::ast::rvalues_view(rhs@).skip(0) =~= a@->CondAssertion_rhs);
            }
        },
    }
    proof {
        assert(final(out)@ =~= old(out)@ + spec_enc_assertion(a@));
    }
}

fn enc_assertion_list_into(out: &mut Vec<u8>, asserts: &Vec<AstAssertion>, i: usize)
    requires
        i <= asserts@.len(),
    ensures
        final(out)@ == old(out)@ + spec_enc_assertion_list(
            crate::ast::assertions_view(asserts@).skip(i as int),
        ),
        spec_claim_bounded(crate::ast::assertions_view(asserts@).skip(i as int)),
    decreases asserts@.len() - i,
{
    let ghost views = crate::ast::assertions_view(asserts@);
    if i == asserts.len() {
        proof {
            assert(views.skip(i as int) =~= Seq::<SpecAssertion>::empty());
            assert(old(out)@ + spec_enc_assertion_list(views.skip(i as int)) =~= old(out)@);
        }
    } else {
        proof {
            assert(views.skip(i as int)[0] == asserts@[i as int]@);
            assert(views.skip(i as int).drop_first() =~= views.skip(i + 1 as int));
        }
        enc_assertion_into(out, &asserts[i]);
        enc_assertion_list_into(out, asserts, i + 1);
        proof {
            assert(final(out)@ =~= old(out)@ + spec_enc_assertion_list(views.skip(i as int)));
            assert forall|j: int|
                0 <= j < views.skip(i as int).len() implies spec_assertion_bounded(
                #[trigger] views.skip(i as int)[j],
            ) by {
                if j == 0 {
                } else {
                    assert(views.skip(i as int)[j] == views.skip(i + 1 as int)[j - 1]);
                }
            }
        }
    }
}

/// Encodes a claim with the fixed, versioned binary format.
pub fn encode_claim(claim: &Vec<AstAssertion>) -> (r: Vec<u8>)
    ensures
        r@ == spec_enc_claim(crate::ast::assertions_view(claim@)),
        spec_claim_bounded(crate::ast::assertions_view(claim@)),
{
    let mut out: Vec<u8> = Vec::new();
    out.push(1u8);
    enc_u64_into(&mut out, claim.len() as u64);
    enc_assertion_list_into(&mut out, claim, 0);
    proof {
        assert(crate::ast::assertions_view(claim@).skip(0) =~= crate::ast::assertions_view(
            claim@,
        ));
        assert(out@ =~= spec_enc_claim(crate::ast::assertions_view(claim@)));
    }
    out
}


// ---------------------------------------------------------------------------
// Executable decoder
// ---------------------------------------------------------------------------

/// Relies on String::from_utf8: succeeds exactly on valid UTF-8, and the
/// returned string's bytes are the input bytes.
#[verifier::external_body]
fn string_from_utf8(v: Vec<u8>) -> (r: Option<String>)
    ensures
        r is Some <==> valid_utf8(v@),
        match r {
            Some(s) => encode_utf8(s@) == v@,
            None => true,
        },
{
    String::from_utf8(v).ok()
}

fn dec_u8(b: &Vec<u8>, pos: usize) -> (r: Option<(u8, usize)>)
    requires
        pos <= b@.len(),
    ensures
        match r {
            Some((v, pos2)) => pos <= pos2 <= b@.len() && spec_dec_u8(b@.skip(pos as int))
                == Some((v, b@.skip(pos2 as int))),
            None => spec_dec_u8(b@.skip(pos as int)) is None,
        },
{
    if pos < b.len() {
        proof {
            assert(b@.skip(pos as int)[0] == b@[pos as int]);
            assert(b@.skip(pos as int).drop_first() =~= b@.skip(pos + 1 as int));
        }
        Some((b[pos], pos + 1))
    } else {
        None
    }
}

fn dec_u64(b: &Vec<u8>, pos: usize) -> (r: Option<(u64, usize)>)
    requires
        pos <= b@.len(),
    ensures
        match r {
            Some((v, pos2)) => pos <= pos2 <= b@.len() && spec_dec_u64(b@.skip(pos as int))
                == Some((v, b@.skip(pos2 as int))),
            None => spec_dec_u64(b@.skip(pos as int)) is None,
        },
{
    if b.len() - pos >= 8 {
        let sub = vstd::slice::slice_subrange(b.as_slice(), pos, pos + 8);
        let x = vstd::bytes::u64_from_le_bytes(sub);
        proof {
            assert(sub@ =~= b@.skip(pos as int).take(8));
            assert(b@.skip(pos as int).skip(8) =~= b@.skip(pos + 8 as int));
        }
        Some((x, pos + 8))
    } else {
        None
    }
}

fn dec_str(b: &Vec<u8>, pos: usize) -> (r: Option<(String, usize)>)
    requires
        pos <= b@.len(),
    ensures
        match r {
            Some((v, pos2)) => pos <= pos2 <= b@.len() && spec_dec_str(b@.skip(pos as int))
                == Some((v@, b@.skip(pos2 as int))),
            None => spec_dec_str(b@.skip(pos as int)) is None,
        },
{
    let (n, pos1) = match dec_u64(b, pos) {
        None => {
            return None;
        },
        Some(x) => x,
    };
    let rem = b.len() - pos1;
    if n > rem as u64 {
        proof {
            assert(b@.skip(pos1 as int).len() < n);
        }
        return None;
    }
    let n_us: usize = n as usize;
    let end = pos1 + n_us;
    let sub = vstd::slice::slice_subrange(b.as_slice(), pos1, end);
    let sub_vec = vstd::slice::slice_to_vec(sub);
    proof {
        assert(sub_vec@ =~= b@.skip(pos1 as int).take(n as int));
        assert(b@.skip(pos1 as int).skip(n as int) =~= b@.skip(end as int));
    }
    match string_from_utf8(sub_vec) {
        None => None,
        Some(s) => {
            proof {
                vstd::utf8::encode_utf8_decode_utf8(s@);
            }
            Some((s, end))
        },
    }
}

fn dec_str_list(b: &Vec<u8>, pos: usize, n: u64) -> (r: Option<(Vec<String>, usize)>)
    requires
        pos <= b@.len(),
    ensures
        match r {
            Some((v, pos2)) => pos <= pos2 <= b@.len() && spec_dec_str_list(
                b@.skip(pos as int),
                n,
            ) == Some((crate::ast::strings_view(v@), b@.skip(pos2 as int))),
            None => spec_dec_str_list(b@.skip(pos as int), n) is None,
        },
    decreases n,
{
    if n == 0 {
        let v: Vec<String> = Vec::new();
        proof {
            assert(crate::ast::strings_view(v@) =~= Seq::<Seq<char>>::empty());
        }
        Some((v, pos))
    } else {
        let (s, pos1) = match dec_str(b, pos) {
            None => {
                return None;
            },
            Some(x) => x,
        };
        let (rest, pos2) = match dec_str_list(b, pos1, n - 1) {
            None => {
                return None;
            },
            Some(x) => x,
        };
        let ghost sv = s@;
        let mut out = rest;
        let ghost restv = crate::ast::strings_view(out@);
        out.insert(0, s);
        proof {
            assert(crate::ast::strings_view(out@) =~= seq![sv] + restv);
        }
        Some((out, pos2))
    }
}

fn dec_prin(b: &Vec<u8>, pos: usize) -> (r: Option<(AstPrincipal, usize)>)
    requires
        pos <= b@.len(),
    ensures
        match r {
            Some((v, pos2)) => pos <= pos2 <= b@.len() && spec_dec_prin(b@.skip(pos as int))
                == Some((v@, b@.skip(pos2 as int))),
            None => spec_dec_prin(b@.skip(pos as int)) is None,
        },
{
    match dec_str(b, pos) {
        None => None,
        Some((s, pos1)) => Some((AstPrincipal { name: s }, pos1)),
    }
}

fn dec_pred(b: &Vec<u8>, pos: usize) -> (r: Option<(AstPredicate, usize)>)
    requires
        pos <= b@.len(),
    ensures
        match r {
            Some((v, pos2)) => pos <= pos2 <= b@.len() && spec_dec_pred(b@.skip(pos as int))
                == Some((v@, b@.skip(pos2 as int))),
            None => spec_dec_pred(b@.skip(pos as int)) is None,
        },
{
    let (tag, pos1) = match dec_u8(b, pos) {
        None => {
            return None;
        },
        Some(x) => x,
    };
    let sign = if tag == 0 {
        Sign::Negated
    } else if tag == 1 {
        Sign::Positive
    } else {
        return None;
    };
    let (name, pos2) = match dec_str(b, pos1) {
        None => {
            return None;
        },
        Some(x) => x,
    };
    let (n, pos3) = match dec_u64(b, pos2) {
        None => {
            return None;
        },
        Some(x) => x,
    };
    let (args, pos4) = match dec_str_list(b, pos3, n) {
        None => {
            return None;
        },
        Some(x) => x,
    };
    Some((AstPredicate { sign, name, args }, pos4))
}

fn dec_verbphrase(b: &Vec<u8>, pos: usize) -> (r: Option<(AstVerbPhrase, usize)>)
    requires
        pos <= b@.len(),
    ensures
        match r {
            Some((v, pos2)) => pos <= pos2 <= b@.len() && spec_dec_verbphrase(b@.skip(pos as int))
                == Some((v@, b@.skip(pos2 as int))),
            None => spec_dec_verbphrase(b@.skip(pos as int)) is None,
        },
{
    let (tag, pos1) = match dec_u8(b, pos) {
        None => {
            return None;
        },
        Some(x) => x,
    };
    if tag == 0 {
        match dec_pred(b, pos1) {
            None => None,
            Some((p, pos2)) => Some((AstVerbPhrase::AstPredPhrase { p }, pos2)),
        }
    } else if tag == 1 {
        match dec_prin(b, pos1) {
            None => None,
            Some((p, pos2)) => Some((AstVerbPhrase::AstCanActPhrase { p }, pos2)),
        }
    } else {
        None
    }
}

fn dec_flat_fact(b: &Vec<u8>, pos: usize) -> (r: Option<(AstFlatFact, usize)>)
    requires
        pos <= b@.len(),
    ensures
        match r {
            Some((v, pos2)) => pos <= pos2 <= b@.len() && spec_dec_flat_fact(b@.skip(pos as int))
                == Some((v@, b@.skip(pos2 as int))),
            None => spec_dec_flat_fact(b@.skip(pos as int)) is None,
        },
{
    let (tag, pos1) = match dec_u8(b, pos) {
        None => {
            return None;
        },
        Some(x) => x,
    };
    if tag == 0 {
        let (p, pos2) = match dec_prin(b, pos1) {
            None => {
                return None;
            },
            Some(x) => x,
        };
        match dec_verbphrase(b, pos2) {
            None => None,
            Some((v, pos3)) => Some((AstFlatFact::AstPrinFact { p, v }, pos3)),
        }
    } else if tag == 1 {
        match dec_pred(b, pos1) {
            None => None,
            Some((p, pos2)) => Some((AstFlatFact::AstPredFact { p }, pos2)),
        }
    } else {
        None
    }
}

fn dec_fact(b: &Vec<u8>, pos: usize) -> (r: Option<(AstFact, usize)>)
    requires
        pos <= b@.len(),
    ensures
        match r {
            Some((v, pos2)) => pos <= pos2 <= b@.len() && spec_dec_fact(b@.skip(pos as int))
                == Some((v@, b@.skip(pos2 as int))),
            None => spec_dec_fact(b@.skip(pos as int)) is None,
        },
    decreases b@.len() - pos,
{
    let (tag, pos1) = match dec_u8(b, pos) {
        None => {
            return None;
        },
        Some(x) => x,
    };
    if tag == 0 {
        match dec_flat_fact(b, pos1) {
            None => None,
            Some((f, pos2)) => Some((AstFact::AstFlatFactFact { f }, pos2)),
        }
    } else if tag == 1 {
        let (p, pos2) = match dec_prin(b, pos1) {
            None => {
                return None;
            },
            Some(x) => x,
        };
        if pos2 <= pos {
            return None;
        }
        proof {
            assert(b@.skip(pos2 as int).len() < b@.skip(pos as int).len());
        }
        match dec_fact(b, pos2) {
            None => None,
            Some((f, pos3)) => Some((AstFact::AstCanSayFact { p, f: Box::new(f) }, pos3)),
        }
    } else {
        None
    }
}

fn dec_rvalue(b: &Vec<u8>, pos: usize) -> (r: Option<(AstRValue, usize)>)
    requires
        pos <= b@.len(),
    ensures
        match r {
            Some((v, pos2)) => pos <= pos2 <= b@.len() && spec_dec_rvalue(b@.skip(pos as int))
                == Some((v@, b@.skip(pos2 as int))),
            None => spec_dec_rvalue(b@.skip(pos as int)) is None,
        },
{
    let (tag, pos1) = match dec_u8(b, pos) {
        None => {
            return None;
        },
        Some(x) => x,
    };
    if tag == 0 {
        match dec_flat_fact(b, pos1) {
            None => None,
            Some((f, pos2)) => Some((AstRValue::FlatFactRValue { flat_fact: f }, pos2)),
        }
    } else if tag == 1 {
        let (lnum, pos2) = match dec_str(b, pos1) {
            None => {
                return None;
            },
            Some(x) => x,
        };
        let (op_tag, pos3) = match dec_u8(b, pos2) {
            None => {
                return None;
            },
            Some(x) => x,
        };
        let binop = if op_tag == 0 {
            AstBinop::LessThan
        } else if op_tag == 1 {
            AstBinop::GreaterThan
        } else if op_tag == 2 {
            AstBinop::Equals
        } else if op_tag == 3 {
            AstBinop::NotEquals
        } else if op_tag == 4 {
            AstBinop::LessOrEquals
        } else if op_tag == 5 {
            AstBinop::GreaterOrEquals
        } else {
            return None;
        };
        match dec_str(b, pos3) {
            None => None,
            Some((rnum, pos4)) => Some((AstRValue::BinopRValue { lnum, binop, rnum }, pos4)),
        }
    } else {
        None
    }
}

fn dec_rvalue_list(b: &Vec<u8>, pos: usize, n: u64) -> (r: Option<(Vec<AstRValue>, usize)>)
    requires
        pos <= b@.len(),
    ensures
        match r {
            Some((v, pos2)) => pos <= pos2 <= b@.len() && spec_dec_rvalue_list(
                b@.skip(pos as int),
                n,
            ) == Some((crate::ast::rvalues_view(v@), b@.skip(pos2 as int))),
            None => spec_dec_rvalue_list(b@.skip(pos as int), n) is None,
        },
    decreases n,
{
    if n == 0 {
        let v: Vec<AstRValue> = Vec::new();
        proof {
            assert(crate::ast::rvalues_view(v@) =~= Seq::<SpecRValue>::empty());
        }
        Some((v, pos))
    } else {
        let (rv, pos1) = match dec_rvalue(b, pos) {
            None => {
                return None;
            },
            Some(x) => x,
        };
        let (rest, pos2) = match dec_rvalue_list(b, pos1, n - 1) {
            None => {
                return None;
            },
            Some(x) => x,
        };
        let ghost rvv = rv@;
        let mut out = rest;
        let ghost restv = crate::ast::rvalues_view(out@);
        out.insert(0, rv);
        proof {
            assert(crate::ast::rvalues_view(out@) =~= seq![rvv] + restv);
        }
        Some((out, pos2))
    }
}

fn dec_assertion(b: &Vec<u8>, pos: usize) -> (r: Option<(AstAssertion, usize)>)
    requires
        pos <= b@.len(),
    ensures
        match r {
            Some((v, pos2)) => pos <= pos2 <= b@.len() && spec_dec_assertion(b@.skip(pos as int))
                == Some((v@, b@.skip(pos2 as int))),
            None => spec_dec_assertion(b@.skip(pos as int)) is None,
        },
{
    let (tag, pos1) = match dec_u8(b, pos) {
        None => {
            return None;
        },
        Some(x) => x,
    };
    if tag == 0 {
        match dec_fact(b, pos1) {
            None => None,
            Some((f, pos2)) => Some((AstAssertion::AstFactAssertion { f }, pos2)),
        }
    } else if tag == 1 {
        let (lhs, pos2) = match dec_fact(b, pos1) {
            None => {
                return None;
            },
            Some(x) => x,
        };
        let (n, pos3) = match dec_u64(b, pos2) {
            None => {
                return None;
            },
            Some(x) => x,
        };
        match dec_rvalue_list(b, pos3, n) {
            None => None,
            Some((rhs, pos4)) => Some((AstAssertion::AstCondAssertion { lhs, rhs }, pos4)),
        }
    } else {
        None
    }
}

fn dec_assertion_list(b: &Vec<u8>, pos: usize, n: u64) -> (r: Option<(Vec<AstAssertion>, usize)>)
    requires
        pos <= b@.len(),
    ensures
        match r {
            Some((v, pos2)) => pos <= pos2 <= b@.len() && spec_dec_assertion_list(
                b@.skip(pos as int),
                n,
            ) == Some((crate::ast::assertions_view(v@), b@.skip(pos2 as int))),
            None => spec_dec_assertion_list(b@.skip(pos as int), n) is None,
        },
    decreases n,
{
    if n == 0 {
        let v: Vec<AstAssertion> = Vec::new();
        proof {
            assert(crate::ast::assertions_view(v@) =~= Seq::<SpecAssertion>::empty());
        }
        Some((v, pos))
    } else {
        let (a, pos1) = match dec_assertion(b, pos) {
            None => {
                return None;
            },
            Some(x) => x,
        };
        let (rest, pos2) = match dec_assertion_list(b, pos1, n - 1) {
            None => {
                return None;
            },
            Some(x) => x,
        };
        let ghost av = a@;
        let mut out = rest;
        let ghost restv = crate::ast::assertions_view(out@);
        out.insert(0, a);
        proof {
            assert(crate::ast::assertions_view(out@) =~= seq![av] + restv);
        }
        Some((out, pos2))
    }
}

/// Decodes a claim; fails on a wrong version, malformed contents or
/// trailing bytes.
pub fn decode_claim(b: &Vec<u8>) -> (r: Option<Vec<AstAssertion>>)
    ensures
        match r {
            Some(v) => spec_dec_claim(b@) == Some(crate::ast::assertions_view(v@)),
            None => spec_dec_claim(b@) is None,
        },
{
    proof {
        assert(b@.skip(0) =~= b@);
    }
    let (version, pos1) = match dec_u8(b, 0) {
        None => {
            return None;
        },
        Some(x) => x,
    };
    if version != 1 {
        return None;
    }
    let (n, pos2) = match dec_u64(b, pos1) {
        None => {
            return None;
        },
        Some(x) => x,
    };
    let (asserts, pos3) = match dec_assertion_list(b, pos2, n) {
        None => {
            return None;
        },
        Some(x) => x,
    };
    if pos3 == b.len() {
        proof {
            assert(b@.skip(pos3 as int).len() == 0);
        }
        Some(asserts)
    } else {
        proof {
            assert(b@.skip(pos3 as int).len() > 0);
        }
        None
    }
}

} // verus!
