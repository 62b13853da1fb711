//! Laws of the engine that span several functions: what a template
//! without macro invocations generates, that deterministic generators
//! repeat themselves, that compiling one template twice differs at
//! most in clock-derived date bounds, and that corpus lines never
//! carry a newline.

use vstd::prelude::*;

use crate::compile::{
    apply_factory, compile_from, compile_spec, first_match, lemma_first_match, macro_spec,
    match_at, CfgView,
};
use crate::corpus::{lemma_line_at, no_newline};
use crate::error::ErrView;
use crate::gens::{gen_deterministic, gen_output_ok, gens_ok, gen_wf, GenView};
use crate::num::dec_i64;
use crate::util::{is_at, lemma_scan_to};

verus! {

proof fn lemma_no_match(t: Seq<u8>, p: Seq<u8>, pos: int)
    requires
        0 <= pos,
        forall|k: int| !match_at(t, p, k),
    ensures
        first_match(t, p, pos) == -1,
    decreases t.len() - pos,
{
    if pos < t.len() {
        lemma_no_match(t, p, pos + 1);
    }
}

/// A template in which the trigger prefix never occurs compiles, under
/// any configuration with that prefix and on any day, to a single
/// literal generator holding the whole template — or to nothing when
/// the template is empty.
pub proof fn lemma_literal_template(cfg: CfgView, t: Seq<u8>, today: int)
    requires
        forall|k: int| !is_at(t, k, cfg.prefix),
    ensures
        t.len() > 0 ==> compile_spec(cfg, t, today) == Ok::<Seq<GenView>, ErrView>(
            seq![GenView::Text { text: t }],
        ),
        t.len() == 0 ==> compile_spec(cfg, t, today) == Ok::<Seq<GenView>, ErrView>(
            Seq::<GenView>::empty(),
        ),
{
    assert forall|k: int| !match_at(t, cfg.prefix, k) by {}
    lemma_no_match(t, cfg.prefix, 0);
    if t.len() > 0 {
        assert(t.subrange(0, t.len() as int) =~= t);
    } else {
        assert(compile_spec(cfg, t, today) == Ok::<Seq<GenView>, ErrView>(seq![]));
        assert(seq![] =~= Seq::<GenView>::empty());
    }
}

/// Generating any record from the compiled form of a template in which
/// the trigger prefix never occurs emits the template itself: the
/// record body is the template, byte for byte, before the terminator.
pub proof fn lemma_literal_record(
    cfg: CfgView,
    t: Seq<u8>,
    today: int,
    gens: Seq<GenView>,
    after: Seq<GenView>,
    i: int,
    body: Seq<u8>,
)
    requires
        forall|k: int| !is_at(t, k, cfg.prefix),
        compile_spec(cfg, t, today) == Ok::<Seq<GenView>, ErrView>(gens),
        gens_ok(gens, after, i, body),
    ensures
        body == t,
{
    lemma_literal_template(cfg, t, today);
    if t.len() > 0 {
        assert(gens =~= seq![GenView::Text { text: t }]);
        let (o1, o2) = choose|o1: Seq<u8>, o2: Seq<u8>|
            {
                &&& body == o1 + o2
                &&& gens_ok(gens.drop_last(), after.drop_last(), i, o1)
                &&& gen_output_ok(gens.last(), after.last(), i, o2)
            };
        assert(gens.drop_last().len() == 0);
        assert(o1 =~= Seq::<u8>::empty());
        assert(gens.last() == (GenView::Text { text: t }));
        assert(body =~= t);
    } else {
        assert(gens =~= Seq::<GenView>::empty());
        assert(body =~= t);
    }
}

/// A deterministic generator repeats itself: two calls on the same
/// state and record index emit the same bytes and reach the same
/// state.
pub proof fn lemma_gen_deterministic(
    g: GenView,
    a1: GenView,
    a2: GenView,
    i: int,
    o1: Seq<u8>,
    o2: Seq<u8>,
)
    requires
        gen_deterministic(g),
        gen_output_ok(g, a1, i, o1),
        gen_output_ok(g, a2, i, o2),
    ensures
        o1 == o2,
        a1 == a2,
{
}

/// A list of deterministic generators repeats itself: generating
/// record `i` twice from the same state emits identical bytes and
/// reaches identical states.
pub proof fn lemma_deterministic_record(
    b: Seq<GenView>,
    a1: Seq<GenView>,
    a2: Seq<GenView>,
    i: int,
    o1: Seq<u8>,
    o2: Seq<u8>,
)
    requires
        forall|j: int| 0 <= j < b.len() ==> gen_deterministic(#[trigger] b[j]),
        gens_ok(b, a1, i, o1),
        gens_ok(b, a2, i, o2),
    ensures
        o1 == o2,
        a1 == a2,
    decreases b.len(),
{
    if b.len() == 0 {
        assert(o1 =~= o2);
        assert(a1 =~= a2);
    } else {
        let (x1, y1) = choose|x1: Seq<u8>, y1: Seq<u8>|
            {
                &&& o1 == x1 + y1
                &&& gens_ok(b.drop_last(), a1.drop_last(), i, x1)
                &&& gen_output_ok(b.last(), a1.last(), i, y1)
            };
        let (x2, y2) = choose|x2: Seq<u8>, y2: Seq<u8>|
            {
                &&& o2 == x2 + y2
                &&& gens_ok(b.drop_last(), a2.drop_last(), i, x2)
                &&& gen_output_ok(b.last(), a2.last(), i, y2)
            };
        assert forall|j: int|
            0 <= j < b.drop_last().len() implies gen_deterministic(
            #[trigger] b.drop_last()[j],
        ) by {
            assert(b.drop_last()[j] == b[j]);
        }
        lemma_deterministic_record(b.drop_last(), a1.drop_last(), a2.drop_last(), i, x1, x2);
        assert(b.last() == b[b.len() - 1]);
        lemma_gen_deterministic(b.last(), a1.last(), a2.last(), i, y1, y2);
        assert forall|j: int| 0 <= j < a1.len() implies a1[j] == a2[j] by {
            if j < a1.len() - 1 {
                assert(a1.drop_last()[j] == a1[j]);
                assert(a2.drop_last()[j] == a2[j]);
            } else {
                assert(a1.last() == a1[j]);
                assert(a2.last() == a2[j]);
            }
        }
        assert(a1 =~= a2);
    }
}

/// A line sampled from a corpus never carries a newline: whatever a
/// corpus-backed generator emits, sequentially or at random, is free
/// of the record terminator.
pub proof fn lemma_corpus_no_newline(b: GenView, a: GenView, i: int, out: Seq<u8>)
    requires
        gen_wf(b),
        gen_output_ok(b, a, i, out),
        b is BytesRnd || b is BytesSeq || b is FileRnd || b is FileSeq,
    ensures
        no_newline(out),
{
    match b {
        GenView::BytesRnd { data } => {
            let off = choose|off: int| 0 <= off < data.len() && out == crate::corpus::line_at(
                data,
                off,
            );
            lemma_line_at(data, off);
        },
        GenView::BytesSeq { data, offset } => {
            lemma_scan_to(data, offset, 10);
            assert forall|k: int| 0 <= k < out.len() implies out[k] != 10 by {
                assert(out[k] == data[offset + k]);
            }
        },
        GenView::FileRnd { data, .. } => {
            let d = data.unwrap();
            let off = choose|off: int| 0 <= off < d.len() && out == crate::corpus::line_at(d, off);
            lemma_line_at(d, off);
        },
        GenView::FileSeq { data, offset, .. } => {
            let d = data.unwrap();
            lemma_scan_to(d, offset, 10);
            assert forall|k: int| 0 <= k < out.len() implies out[k] != 10 by {
                assert(out[k] == d[offset + k]);
            }
        },
        _ => {},
    }
}

/// The bounded-random-integer law: whatever a random bounded integer
/// generator emits, for any record index, is the decimal of one value
/// of its half-open range.
pub proof fn lemma_bounded_random_int(b: GenView, a: GenView, i: int, out: Seq<u8>)
    requires
        b is IntRnd,
        gen_output_ok(b, a, i, out),
    ensures
        exists|v: int| b->IntRnd_start <= v < b->IntRnd_end && out == dec_i64(v),
{
}

/// Two generators that differ at most in clock-derived date bounds.
pub open spec fn gen_same_up_to_day(a: GenView, b: GenView) -> bool {
    a == b || (a is DateRnd && b is DateRnd) || (a is DateSeq && b is DateSeq)
}

/// Two compilation results that differ at most as above, entry by
/// entry.
pub open spec fn compiles_same_up_to_day(
    r1: Result<Seq<GenView>, ErrView>,
    r2: Result<Seq<GenView>, ErrView>,
) -> bool {
    match (r1, r2) {
        (Ok(g1), Ok(g2)) => g1.len() == g2.len() && forall|j: int|
            0 <= j < g1.len() ==> gen_same_up_to_day(#[trigger] g1[j], g2[j]),
        (Err(e1), Err(e2)) => e1 == e2,
        _ => false,
    }
}

proof fn lemma_factory_day(
    name: Seq<u8>,
    args: Seq<Seq<u8>>,
    tzs: Seq<Seq<u8>>,
    d1: int,
    d2: int,
)
    ensures
        match (apply_factory(name, args, d1, tzs), apply_factory(name, args, d2, tzs)) {
            (Some(Ok(a)), Some(Ok(b))) => gen_same_up_to_day(a, b),
            (Some(Err(e1)), Some(Err(e2))) => e1 == e2,
            (Option::None, Option::None) => true,
            _ => false,
        },
{
}

proof fn lemma_macro_day(cfg: CfgView, body: Seq<u8>, span: Seq<u8>, d1: int, d2: int)
    ensures
        match (macro_spec(cfg, body, span, d1), macro_spec(cfg, body, span, d2)) {
            (Ok(a), Ok(b)) => gen_same_up_to_day(a, b),
            (Err(e1), Err(e2)) => e1 == e2,
            _ => false,
        },
{
    let (name, args) = match crate::compile::macro_parts(body) {
        Some((n, raw)) => (n, crate::compile::split_args(raw, cfg.sep)),
        None => (body, Seq::<Seq<u8>>::empty()),
    };
    lemma_factory_day(name, args, cfg.tzs, d1, d2);
}

proof fn lemma_compile_day_from(cfg: CfgView, t: Seq<u8>, d1: int, d2: int, pos: int)
    requires
        0 <= pos,
    ensures
        compiles_same_up_to_day(
            compile_from(cfg, t, d1, pos),
            compile_from(cfg, t, d2, pos),
        ),
    decreases t.len() - pos,
{
    if pos > t.len() {
    } else {
        let s = first_match(t, cfg.prefix, pos);
        if s < 0 {
        } else {
            lemma_first_match(t, cfg.prefix, pos);
            let j = s + cfg.prefix.len() + 1;
            let e = crate::util::scan_to(t, j, 125);
            let body = t.subrange(j, e);
            let span = t.subrange(s, e + 1);
            lemma_macro_day(cfg, body, span, d1, d2);
            lemma_compile_day_from(cfg, t, d1, d2, e + 1);
            let lit: Seq<GenView> = if s > pos {
                seq![GenView::Text { text: t.subrange(pos, s) }]
            } else {
                seq![]
            };
            match (macro_spec(cfg, body, span, d1), macro_spec(cfg, body, span, d2)) {
                (Ok(ga), Ok(gb)) => {
                    match (compile_from(cfg, t, d1, e + 1), compile_from(cfg, t, d2, e + 1)) {
                        (Ok(r1), Ok(r2)) => {
                            let g1 = lit + seq![ga] + r1;
                            let g2 = lit + seq![gb] + r2;
                            assert forall|k: int|
                                0 <= k < g1.len() implies gen_same_up_to_day(
                                #[trigger] g1[k],
                                g2[k],
                            ) by {
                                if k < lit.len() {
                                    assert(g1[k] == lit[k] && g2[k] == lit[k]);
                                } else if k == lit.len() {
                                    assert(g1[k] == ga && g2[k] == gb);
                                } else {
                                    assert(g1[k] == r1[k - lit.len() - 1]);
                                    assert(g2[k] == r2[k - lit.len() - 1]);
                                }
                            }
                        },
                        _ => {},
                    }
                },
                _ => {},
            }
        }
    }
}

/// The compile side of the round-trip law: compiling one template
/// twice, under one configuration, yields results that agree except
/// that clock-derived date bounds may move with the day; compiling it
/// twice on one day yields equal results outright, since compilation
/// is a function of the template, the configuration and the day.
pub proof fn lemma_compile_day_independent(cfg: CfgView, t: Seq<u8>, d1: int, d2: int)
    ensures
        compiles_same_up_to_day(compile_spec(cfg, t, d1), compile_spec(cfg, t, d2)),
{
    lemma_compile_day_from(cfg, t, d1, d2, 0);
}

/// The whole round-trip law: compile one template twice, on any two
/// days, and generate record `i` from each compiled form in its fresh
/// state. When every compiled generator is a pure function of its
/// state and the index — no randomness, no clock-derived date bounds —
/// the two forms are equal and emit identical bytes.
pub proof fn lemma_round_trip(
    cfg: CfgView,
    t: Seq<u8>,
    d1: int,
    d2: int,
    g1: Seq<GenView>,
    g2: Seq<GenView>,
    a1: Seq<GenView>,
    a2: Seq<GenView>,
    i: int,
    o1: Seq<u8>,
    o2: Seq<u8>,
)
    requires
        compile_spec(cfg, t, d1) == Ok::<Seq<GenView>, ErrView>(g1),
        compile_spec(cfg, t, d2) == Ok::<Seq<GenView>, ErrView>(g2),
        forall|j: int|
            0 <= j < g1.len() ==> gen_deterministic(#[trigger] g1[j]) && !(g1[j] is DateRnd)
                && !(g1[j] is DateSeq),
        gens_ok(g1, a1, i, o1),
        gens_ok(g2, a2, i, o2),
    ensures
        g1 == g2,
        o1 == o2,
{
    lemma_compile_day_independent(cfg, t, d1, d2);
    assert forall|j: int| 0 <= j < g1.len() implies g1[j] == g2[j] by {
        assert(gen_same_up_to_day(g1[j], g2[j]));
    }
    assert(g1 =~= g2);
    lemma_deterministic_record(g1, a1, a2, i, o1, o2);
}

} // verus!
