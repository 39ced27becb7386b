//! The protocol read in the exponent.
//!
//! Every element of a key is the generator of its group taken so many times,
//! and the prover and the verifier only add such elements and take them a
//! number of times. Where taking the generator `a` times and `b` times and
//! adding gives the generator taken `a + b` times, and the pairing of the
//! generators taken `a` and `b` times is the pairing of the generators to the
//! power `a * b`, the verifier's equation says of these numbers what this
//! module proves of them: for a witness that satisfies the circuit, the
//! number behind `A` times the number behind `B` is `alpha * beta`, plus the
//! number behind the inputs' point times `gamma`, plus the number behind `C`
//! times `delta`.

use crate::algebra::{
    congruent, lemma_add_as_int, lemma_congruent_add, lemma_congruent_mul,
    lemma_equal_by_congruence, lemma_field_add_congruent, lemma_field_mul_congruent,
    lemma_mul_as_int, lemma_sub_as_int,
};
use crate::divisibility::{
    evaluations, lemma_eval_combine, lemma_weighted_sum_agrees, lemma_weighted_sum_reduced,
    satisfaction_is_divisibility, weighted_sum,
};
use crate::evaluation::{lemma_eval_mul, lemma_eval_reduced, lemma_eval_sub};
use crate::field::{
    field_add, field_inv, field_mul, field_neg, field_pow, field_sub, is_inverse, modulus,
};
use crate::keys::quotient_len;
use crate::poly::{lemma_field_mul_zero, poly_eval, poly_mul};
use crate::prover::{combine, lemma_quotient_len, quotient_polynomial, witness_polynomial};
use crate::qap::{qap_of, vanishing, QapView};
use crate::r1cs::{satisfied, well_formed, CircuitView};
use crate::setup::{quotient_scalar, wire_combination, ToxicWasteView};
use vstd::arithmetic::div_mod::lemma_small_mod;
use vstd::prelude::*;

verus! {

/// The numbers behind the three elements of a proof.
pub struct ProofExponents {
    pub a: nat,
    pub b: nat,
    pub c: nat,
}

/// For each private wire, the number behind its element of the proving key.
pub open spec fn private_scalars(c: CircuitView, t: ToxicWasteView) -> Seq<nat> {
    Seq::new(
        (c.variable_count - c.public_input_count) as nat,
        |i: int|
            field_mul(
                wire_combination(qap_of(c), i + c.public_input_count, t),
                field_inv(t.delta),
            ),
    )
}

/// For each public input, the number behind its element of the verifying key.
pub open spec fn input_scalars(c: CircuitView, t: ToxicWasteView) -> Seq<nat> {
    Seq::new(
        c.public_input_count,
        |i: int| field_mul(wire_combination(qap_of(c), i, t), field_inv(t.gamma)),
    )
}

/// For each coefficient of the quotient, the number behind its element of the proving key.
pub open spec fn quotient_scalars(c: CircuitView, t: ToxicWasteView) -> Seq<nat> {
    Seq::new(quotient_len(c.constraints.len()), |k: int| quotient_scalar(qap_of(c), k, t))
}

/// The numbers behind the elements of the proof that the prover makes of a
/// witness `w` and blinding scalars `r` and `s`.
pub open spec fn proof_exponents(
    c: CircuitView,
    t: ToxicWasteView,
    w: Seq<nat>,
    r: nat,
    s: nat,
) -> ProofExponents {
    let q = qap_of(c);
    let m = c.variable_count;
    let public = c.public_input_count;
    let h = quotient_polynomial(c, w);
    let a = field_add(
        field_add(t.alpha, weighted_sum(evaluations(q.a, t.tau), w, m)),
        field_mul(r, t.delta),
    );
    let b = field_add(
        field_add(t.beta, weighted_sum(evaluations(q.b, t.tau), w, m)),
        field_mul(s, t.delta),
    );
    let private = weighted_sum(
        private_scalars(c, t),
        w.subrange(public as int, m as int),
        (m - public) as nat,
    );
    let quotient = weighted_sum(quotient_scalars(c, t), h, quotient_len(c.constraints.len()));
    let cc = field_add(
        field_add(
            field_add(field_add(private, quotient), field_mul(s, a)),
            field_mul(r, b),
        ),
        field_mul(field_neg(field_mul(r, s)), t.delta),
    );
    ProofExponents { a, b, c: cc }
}

/// The number behind the point that stands for the public inputs.
pub open spec fn input_exponent(c: CircuitView, t: ToxicWasteView, inputs: Seq<nat>) -> nat {
    weighted_sum(input_scalars(c, t), inputs, c.public_input_count)
}

/// The powers of a point, from the power zero on.
pub open spec fn powers(x: nat, n: nat) -> Seq<nat> {
    Seq::new(n, |k: int| field_pow(x, k as nat))
}

/// A weighted sum of values that are each `c` times another value is the
/// weighted sum of the other values, times `c` taken away again.
proof fn lemma_weighted_sum_times(scaled: Seq<nat>, vals: Seq<nat>, w: Seq<nat>, k: nat, c: nat)
    requires
        k <= scaled.len(),
        k <= vals.len(),
        forall|i: int|
            0 <= i < k ==> congruent(#[trigger] scaled[i] as int * c as int, vals[i] as int),
    ensures
        field_mul(weighted_sum(scaled, w, k), c) == weighted_sum(vals, w, k),
    decreases k,
{
    lemma_weighted_sum_reduced(vals, w, k);
    if k == 0 {
        lemma_field_mul_zero(c);
    } else {
        let before_scaled = weighted_sum(scaled, w, (k - 1) as nat);
        let before = weighted_sum(vals, w, (k - 1) as nat);
        lemma_weighted_sum_times(scaled, vals, w, (k - 1) as nat, c);
        let s = w[k - 1];
        let u = scaled[k - 1];
        let v = vals[k - 1];
        // (before_scaled + s u) c = before_scaled c + s (u c), congruent to before + s v
        lemma_mul_as_int(s, u, s as int, u as int);
        lemma_add_as_int(before_scaled, field_mul(s, u), before_scaled as int, s as int * u as int);
        lemma_mul_as_int(
            weighted_sum(scaled, w, k),
            c,
            before_scaled as int + s as int * u as int,
            c as int,
        );
        lemma_field_mul_congruent(before_scaled, c);
        lemma_congruent_mul(s as int, s as int, u as int * c as int, v as int);
        lemma_congruent_add(
            before_scaled as int * c as int,
            before as int,
            s as int * (u as int * c as int),
            s as int * v as int,
        );
        assert((before_scaled as int + s as int * u as int) * c as int == before_scaled as int
            * c as int + s as int * (u as int * c as int)) by (nonlinear_arith);
        lemma_mul_as_int(s, v, s as int, v as int);
        lemma_add_as_int(before, field_mul(s, v), before as int, s as int * v as int);
        lemma_field_mul_congruent(weighted_sum(scaled, w, k), c);
        lemma_equal_by_congruence(
            field_mul(weighted_sum(scaled, w, k), c),
            weighted_sum(vals, w, k),
            before as int + s as int * v as int,
        );
    }
}

/// A value over `d` times `d` is the value again, where `d` has an inverse.
proof fn lemma_divide_and_multiply(v: nat, d: nat, y: nat)
    requires
        is_inverse(d, y),
    ensures
        congruent(field_mul(v, y) as int * d as int, v as int),
{
    lemma_field_mul_congruent(v, y);
    lemma_congruent_mul(field_mul(v, y) as int, v as int * y as int, d as int, d as int);
    lemma_field_mul_congruent(d, y);
    lemma_congruent_mul(v as int, v as int, d as int * y as int, 1);
    assert((v as int * y as int) * d as int == v as int * (d as int * y as int))
        by (nonlinear_arith);
    assert(v as int * 1 == v as int) by (nonlinear_arith);
    lemma_small_mod(1, modulus());
}

/// The weighted sum over all wires is the sum over the public wires plus
/// the sum over the private ones.
proof fn lemma_weighted_sum_split(vals: Seq<nat>, w: Seq<nat>, split: nat, k: nat)
    requires
        split <= k <= vals.len(),
        vals.len() == w.len(),
    ensures
        weighted_sum(vals, w, k) == field_add(
            weighted_sum(vals.subrange(0, split as int), w.subrange(0, split as int), split),
            weighted_sum(
                vals.subrange(split as int, vals.len() as int),
                w.subrange(split as int, w.len() as int),
                (k - split) as nat,
            ),
        ),
    decreases k,
{
    let low_vals = vals.subrange(0, split as int);
    let low_w = w.subrange(0, split as int);
    let high_vals = vals.subrange(split as int, vals.len() as int);
    let high_w = w.subrange(split as int, w.len() as int);
    lemma_weighted_sum_reduced(vals, w, k);
    if k == split {
        lemma_weighted_sum_prefix(vals, w, split, split);
        lemma_small_mod(weighted_sum(vals, w, k), modulus());
    } else {
        lemma_weighted_sum_split(vals, w, split, (k - 1) as nat);
        let low = weighted_sum(low_vals, low_w, split);
        let high_before = weighted_sum(high_vals, high_w, (k - 1 - split) as nat);
        let term = field_mul(w[k - 1], vals[k - 1]);
        assert(high_w[k - 1 - split] == w[k - 1]);
        assert(high_vals[k - 1 - split] == vals[k - 1]);
        // (low + high_before) + term = low + (high_before + term)
        lemma_add_as_int(low, high_before, low as int, high_before as int);
        lemma_add_as_int(
            field_add(low, high_before),
            term,
            low as int + high_before as int,
            term as int,
        );
        lemma_add_as_int(high_before, term, high_before as int, term as int);
        lemma_add_as_int(
            low,
            field_add(high_before, term),
            low as int,
            high_before as int + term as int,
        );
        lemma_field_add_congruent(low, field_add(high_before, term));
        lemma_equal_by_congruence(
            weighted_sum(vals, w, k),
            field_add(low, field_add(high_before, term)),
            low as int + high_before as int + term as int,
        );
    }
}

/// The weighted sum over the first places only looks at the first places.
proof fn lemma_weighted_sum_prefix(vals: Seq<nat>, w: Seq<nat>, split: nat, k: nat)
    requires
        k <= split <= vals.len(),
        split <= w.len(),
    ensures
        weighted_sum(vals, w, k) == weighted_sum(
            vals.subrange(0, split as int),
            w.subrange(0, split as int),
            k,
        ),
    decreases k,
{
    if k > 0 {
        lemma_weighted_sum_prefix(vals, w, split, (k - 1) as nat);
    }
}

/// The sum over the wires of the value of the wire times the wire's
/// combination is `beta` times the sum for `a`, plus `alpha` times the sum
/// for `b`, plus the sum for `c`.
proof fn lemma_weighted_combination(q: QapView, t: ToxicWasteView, w: Seq<nat>, k: nat)
    requires
        k <= q.a.len(),
        k <= q.b.len(),
        k <= q.c.len(),
    ensures
        weighted_sum(Seq::new(k, |i: int| wire_combination(q, i, t)), w, k) == field_add(
            field_add(
                field_mul(t.beta, weighted_sum(evaluations(q.a, t.tau), w, k)),
                field_mul(t.alpha, weighted_sum(evaluations(q.b, t.tau), w, k)),
            ),
            weighted_sum(evaluations(q.c, t.tau), w, k),
        ),
    decreases k,
{
    let all = Seq::new(k, |i: int| wire_combination(q, i, t));
    let va = evaluations(q.a, t.tau);
    let vb = evaluations(q.b, t.tau);
    let vc = evaluations(q.c, t.tau);
    lemma_weighted_sum_reduced(all, w, k);
    if k == 0 {
        lemma_field_mul_zero(t.beta);
        lemma_field_mul_zero(t.alpha);
        lemma_small_mod(0, modulus());
    } else {
        let fewer = Seq::new((k - 1) as nat, |i: int| wire_combination(q, i, t));
        lemma_weighted_combination(q, t, w, (k - 1) as nat);
        lemma_weighted_sum_agrees(all, fewer, w, (k - 1) as nat);
        let sa = weighted_sum(va, w, (k - 1) as nat);
        let sb = weighted_sum(vb, w, (k - 1) as nat);
        let sc = weighted_sum(vc, w, (k - 1) as nat);
        let x = w[k - 1];
        let a = va[k - 1];
        let b = vb[k - 1];
        let c = vc[k - 1];
        let (al, be) = (t.alpha, t.beta);
        // before: be sa + al sb + sc
        lemma_mul_as_int(be, sa, be as int, sa as int);
        lemma_mul_as_int(al, sb, al as int, sb as int);
        lemma_add_as_int(
            field_mul(be, sa),
            field_mul(al, sb),
            be as int * sa as int,
            al as int * sb as int,
        );
        lemma_add_as_int(
            field_add(field_mul(be, sa), field_mul(al, sb)),
            sc,
            be as int * sa as int + al as int * sb as int,
            sc as int,
        );
        // the new term: x (be a + al b + c)
        lemma_mul_as_int(be, a, be as int, a as int);
        lemma_mul_as_int(al, b, al as int, b as int);
        lemma_add_as_int(
            field_mul(be, a),
            field_mul(al, b),
            be as int * a as int,
            al as int * b as int,
        );
        lemma_add_as_int(
            field_add(field_mul(be, a), field_mul(al, b)),
            c,
            be as int * a as int + al as int * b as int,
            c as int,
        );
        lemma_mul_as_int(
            x,
            all[k - 1],
            x as int,
            be as int * a as int + al as int * b as int + c as int,
        );
        lemma_add_as_int(
            weighted_sum(all, w, (k - 1) as nat),
            field_mul(x, all[k - 1]),
            be as int * sa as int + al as int * sb as int + sc as int,
            x as int * (be as int * a as int + al as int * b as int + c as int),
        );
        // after: be (sa + x a) + al (sb + x b) + (sc + x c)
        lemma_mul_as_int(x, a, x as int, a as int);
        lemma_mul_as_int(x, b, x as int, b as int);
        lemma_mul_as_int(x, c, x as int, c as int);
        lemma_add_as_int(sa, field_mul(x, a), sa as int, x as int * a as int);
        lemma_add_as_int(sb, field_mul(x, b), sb as int, x as int * b as int);
        lemma_add_as_int(sc, field_mul(x, c), sc as int, x as int * c as int);
        let (ta, tb, tc) = (weighted_sum(va, w, k), weighted_sum(vb, w, k), weighted_sum(vc, w, k));
        lemma_mul_as_int(be, ta, be as int, sa as int + x as int * a as int);
        lemma_mul_as_int(al, tb, al as int, sb as int + x as int * b as int);
        lemma_add_as_int(
            field_mul(be, ta),
            field_mul(al, tb),
            be as int * (sa as int + x as int * a as int),
            al as int * (sb as int + x as int * b as int),
        );
        lemma_add_as_int(
            field_add(field_mul(be, ta), field_mul(al, tb)),
            tc,
            be as int * (sa as int + x as int * a as int) + al as int * (sb as int + x as int
                * b as int),
            sc as int + x as int * c as int,
        );
        assert(be as int * sa as int + al as int * sb as int + sc as int + x as int * (be as int
            * a as int + al as int * b as int + c as int) == be as int * (sa as int + x as int
            * a as int) + al as int * (sb as int + x as int * b as int) + (sc as int + x as int
            * c as int)) by (nonlinear_arith);
        lemma_field_add_congruent(field_add(field_mul(be, ta), field_mul(al, tb)), tc);
        lemma_equal_by_congruence(
            weighted_sum(all, w, k),
            field_add(field_add(field_mul(be, ta), field_mul(al, tb)), tc),
            be as int * sa as int + al as int * sb as int + sc as int + x as int * (be as int
                * a as int + al as int * b as int + c as int),
        );
    }
}

/// The value of a polynomial is the sum of its coefficients, each times the
/// power of the point at its place.
proof fn lemma_eval_as_power_sum(p: Seq<nat>, x: nat, k: nat)
    requires
        k <= p.len(),
    ensures
        poly_eval(p.take(k as int), x) == weighted_sum(powers(x, p.len()), p, k),
    decreases k,
{
    if k > 0 {
        lemma_eval_as_power_sum(p, x, (k - 1) as nat);
        lemma_eval_append(p.take(k - 1), p[k - 1], x);
        assert(p.take(k as int) =~= p.take(k - 1).push(p[k - 1]));
    }
}

/// Appending a coefficient adds the coefficient times the power of the
/// point at its place to the value.
proof fn lemma_eval_append(p: Seq<nat>, c: nat, x: nat)
    ensures
        poly_eval(p.push(c), x) == field_add(poly_eval(p, x), field_mul(c, field_pow(x, p.len()))),
    decreases p.len(),
{
    let longer = p.push(c);
    lemma_eval_reduced(longer, x);
    if p.len() == 0 {
        assert(longer.drop_first() =~= Seq::<nat>::empty());
        assert(poly_eval(longer.drop_first(), x) == 0);
        lemma_field_mul_zero(x);
        // c + 0 and 0 + c * 1
        lemma_add_as_int(c, 0, c as int, 0);
        lemma_mul_as_int(c, 1, c as int, 1);
        assert(c as int * 1 == c as int) by (nonlinear_arith);
        lemma_add_as_int(0, field_mul(c, 1), 0, c as int);
        lemma_field_add_congruent(0, field_mul(c, 1));
        lemma_equal_by_congruence(poly_eval(longer, x), field_add(0, field_mul(c, 1)), c as int);
    } else {
        let rest = p.drop_first();
        assert(longer.drop_first() =~= rest.push(c));
        lemma_eval_append(rest, c, x);
        let a = p[0];
        let e = poly_eval(rest, x);
        let pw = field_pow(x, rest.len());
        // a + x (e + c pw) = (a + x e) + c (x pw)
        lemma_mul_as_int(c, pw, c as int, pw as int);
        lemma_add_as_int(e, field_mul(c, pw), e as int, c as int * pw as int);
        lemma_mul_as_int(x, poly_eval(rest.push(c), x), x as int, e as int + c as int * pw as int);
        lemma_add_as_int(
            a,
            field_mul(x, poly_eval(rest.push(c), x)),
            a as int,
            x as int * (e as int + c as int * pw as int),
        );
        lemma_mul_as_int(x, e, x as int, e as int);
        lemma_add_as_int(a, field_mul(x, e), a as int, x as int * e as int);
        lemma_mul_as_int(x, pw, x as int, pw as int);
        lemma_mul_as_int(c, field_pow(x, p.len()), c as int, x as int * pw as int);
        lemma_add_as_int(
            poly_eval(p, x),
            field_mul(c, field_pow(x, p.len())),
            a as int + x as int * e as int,
            c as int * (x as int * pw as int),
        );
        assert(a as int + x as int * (e as int + c as int * pw as int) == a as int + x as int
            * e as int + c as int * (x as int * pw as int)) by (nonlinear_arith);
        lemma_field_add_congruent(poly_eval(p, x), field_mul(c, field_pow(x, p.len())));
        lemma_equal_by_congruence(
            poly_eval(longer, x),
            field_add(poly_eval(p, x), field_mul(c, field_pow(x, p.len()))),
            a as int + x as int * (e as int + c as int * pw as int),
        );
    }
}

/// The product of the numbers behind `A` and `B`, and the sum of
/// `alpha * beta`, the inputs' number times `gamma` and the number behind `C`
/// times `delta`, are the same polynomial in the secret scalars, the blinding
/// scalars and the sums for `a`, `b` and `c`.
proof fn lemma_verifier_identity(
    al: int,
    be: int,
    de: int,
    a: int,
    b: int,
    c: int,
    r: int,
    s: int,
)
    ensures
        (al + a + r * de) * (be + b + s * de) == al * be + (be * a + al * b + c) + (a * b - c) + (s
            * (al + a + r * de) + r * (be + b + s * de) + (0 - r * s) * de) * de,
{
    let ea = al + a + r * de;
    let eb = be + b + s * de;
    let x = s * de;
    let y = r * de;
    // the left side, term by term
    assert(ea * eb == al * eb + a * eb + y * eb) by (nonlinear_arith)
        requires
            ea == al + a + y,
    ;
    assert(al * eb == al * be + al * b + al * x) by (nonlinear_arith)
        requires
            eb == be + b + x,
    ;
    assert(a * eb == a * be + a * b + a * x) by (nonlinear_arith)
        requires
            eb == be + b + x,
    ;
    assert(y * eb == y * be + y * b + y * x) by (nonlinear_arith)
        requires
            eb == be + b + x,
    ;
    // the blinding part of the right side, term by term
    let blind = s * ea + r * eb + (0 - r * s) * de;
    assert(blind * de == (s * ea) * de + (r * eb) * de + ((0 - r * s) * de) * de)
        by (nonlinear_arith)
        requires
            blind == s * ea + r * eb + (0 - r * s) * de,
    ;
    assert((s * ea) * de == ea * x) by (nonlinear_arith)
        requires
            x == s * de,
    ;
    assert(ea * x == al * x + a * x + y * x) by (nonlinear_arith)
        requires
            ea == al + a + y,
    ;
    assert((r * eb) * de == eb * y) by (nonlinear_arith)
        requires
            y == r * de,
    ;
    assert(eb * y == y * be + y * b + y * x) by (nonlinear_arith)
        requires
            eb == be + b + x,
    ;
    assert(((0 - r * s) * de) * de == 0 - y * x) by (nonlinear_arith)
        requires
            x == s * de,
            y == r * de,
    ;
    assert(be * a == a * be) by (nonlinear_arith);
}

/// Completeness in the exponent: for a witness that satisfies the circuit,
/// the number behind `A` times the number behind `B` is `alpha` times `beta`,
/// plus the number behind the inputs' point times `gamma`, plus the number
/// behind `C` times `delta`. This is the verifier's equation, with each
/// group element replaced by the number of times it holds its generator.
pub proof fn completeness_in_the_exponent(
    c: CircuitView,
    t: ToxicWasteView,
    w: Seq<nat>,
    r: nat,
    s: nat,
)
    requires
        well_formed(c),
        satisfied(c, w),
        is_inverse(t.gamma, field_inv(t.gamma)),
        is_inverse(t.delta, field_inv(t.delta)),
    ensures
        field_mul(proof_exponents(c, t, w, r, s).a, proof_exponents(c, t, w, r, s).b) == field_add(
            field_add(
                field_mul(t.alpha, t.beta),
                field_mul(
                    input_exponent(c, t, w.subrange(0, c.public_input_count as int)),
                    t.gamma,
                ),
            ),
            field_mul(proof_exponents(c, t, w, r, s).c, t.delta),
        ),
{
    let q = qap_of(c);
    let m = c.variable_count;
    let public = c.public_input_count;
    let n = c.constraints.len();
    let h = quotient_polynomial(c, w);
    let hl = quotient_len(n);
    let e = proof_exponents(c, t, w, r, s);
    let (al, be, ga, de, tau) = (t.alpha, t.beta, t.gamma, t.delta, t.tau);
    let sa = weighted_sum(evaluations(q.a, tau), w, m);
    let sb = weighted_sum(evaluations(q.b, tau), w, m);
    let sc = weighted_sum(evaluations(q.c, tau), w, m);
    let low_w = w.subrange(0, public as int);
    let high_w = w.subrange(public as int, m as int);

    // the sums over the wires' combinations
    let all = Seq::new(m, |i: int| wire_combination(q, i, t));
    lemma_weighted_combination(q, t, w, m);
    lemma_weighted_sum_split(all, w, public, m);
    let low = all.subrange(0, public as int);
    let high = all.subrange(public as int, m as int);
    let s_public = weighted_sum(low, low_w, public);
    let s_private = weighted_sum(high, high_w, (m - public) as nat);

    // the inputs' number times gamma, and the private sum times delta
    let ic = input_exponent(c, t, low_w);
    assert forall|i: int| 0 <= i < public implies congruent(
        #[trigger] input_scalars(c, t)[i] as int * ga as int,
        low[i] as int,
    ) by {
        lemma_divide_and_multiply(wire_combination(q, i, t), ga, field_inv(ga));
    }
    lemma_weighted_sum_times(input_scalars(c, t), low, low_w, public, ga);
    let private = weighted_sum(private_scalars(c, t), high_w, (m - public) as nat);
    assert forall|i: int| 0 <= i < m - public implies congruent(
        #[trigger] private_scalars(c, t)[i] as int * de as int,
        high[i] as int,
    ) by {
        lemma_divide_and_multiply(wire_combination(q, i + public, t), de, field_inv(de));
    }
    lemma_weighted_sum_times(private_scalars(c, t), high, high_w, (m - public) as nat, de);

    // the quotient's sum times delta is the witness polynomial at tau
    let target = poly_eval(q.target, tau);
    let quotient = weighted_sum(quotient_scalars(c, t), h, hl);
    let scaled_powers = Seq::new(hl, |k: int| field_mul(field_pow(tau, k as nat), target));
    lemma_quotient_len(c, w);
    assert forall|k: int| 0 <= k < hl implies congruent(
        #[trigger] quotient_scalars(c, t)[k] as int * de as int,
        scaled_powers[k] as int,
    ) by {
        lemma_divide_and_multiply(field_mul(field_pow(tau, k as nat), target), de, field_inv(de));
    }
    lemma_weighted_sum_times(quotient_scalars(c, t), scaled_powers, h, hl, de);
    assert forall|k: int| 0 <= k < hl implies congruent(
        #[trigger] powers(tau, hl)[k] as int * target as int,
        scaled_powers[k] as int,
    ) by {
        lemma_field_mul_congruent(field_pow(tau, k as nat), target);
    }
    lemma_weighted_sum_times(powers(tau, hl), scaled_powers, h, hl, target);
    lemma_eval_as_power_sum(h, tau, hl);
    assert(h.take(hl as int) =~= h);
    satisfaction_is_divisibility(c, w);
    let p = witness_polynomial(c, w);
    assert(poly_eval(p, tau) == field_mul(poly_eval(h, tau), poly_eval(vanishing(n), tau)));
    let pa = combine(q.a, w, n);
    let pb = combine(q.b, w, n);
    let pc = combine(q.c, w, n);
    lemma_eval_sub(poly_mul(pa, pb), pc, tau);
    lemma_eval_mul(pa, pb, tau);
    lemma_eval_combine(q.a, w, n, m, tau);
    lemma_eval_combine(q.b, w, n, m, tau);
    lemma_eval_combine(q.c, w, n, m, tau);
    assert(field_mul(quotient, de) == field_sub(field_mul(sa, sb), sc));

    // both sides as integers
    let (ali, bei, gai, dei) = (al as int, be as int, ga as int, de as int);
    let (ai, bi, ci, ri, si) = (sa as int, sb as int, sc as int, r as int, s as int);
    let ea = ali + ai + ri * dei;
    let eb = bei + bi + si * dei;
    lemma_mul_as_int(r, de, ri, dei);
    lemma_add_as_int(al, sa, ali, ai);
    lemma_add_as_int(field_add(al, sa), field_mul(r, de), ali + ai, ri * dei);
    lemma_mul_as_int(s, de, si, dei);
    lemma_add_as_int(be, sb, bei, bi);
    lemma_add_as_int(field_add(be, sb), field_mul(s, de), bei + bi, si * dei);
    lemma_mul_as_int(e.a, e.b, ea, eb);
    // the number behind C
    lemma_add_as_int(private, quotient, private as int, quotient as int);
    lemma_mul_as_int(s, e.a, si, ea);
    lemma_add_as_int(
        field_add(private, quotient),
        field_mul(s, e.a),
        private as int + quotient as int,
        si * ea,
    );
    lemma_mul_as_int(r, e.b, ri, eb);
    lemma_add_as_int(
        field_add(field_add(private, quotient), field_mul(s, e.a)),
        field_mul(r, e.b),
        private as int + quotient as int + si * ea,
        ri * eb,
    );
    lemma_mul_as_int(r, s, ri, si);
    lemma_sub_as_int(0, field_mul(r, s), 0, ri * si);
    lemma_mul_as_int(field_neg(field_mul(r, s)), de, 0 - ri * si, dei);
    lemma_add_as_int(
        field_add(
            field_add(field_add(private, quotient), field_mul(s, e.a)),
            field_mul(r, e.b),
        ),
        field_mul(field_neg(field_mul(r, s)), de),
        private as int + quotient as int + si * ea + ri * eb,
        (0 - ri * si) * dei,
    );
    let ec = private as int + quotient as int + si * ea + ri * eb + (0 - ri * si) * dei;
    lemma_mul_as_int(e.c, de, ec, dei);
    let blind = (si * ea + ri * eb + (0 - ri * si) * dei) * dei;
    assert(ec * dei == private as int * dei + quotient as int * dei + blind) by (nonlinear_arith)
        requires
            ec == private as int + quotient as int + si * ea + ri * eb + (0 - ri * si) * dei,
            blind == (si * ea + ri * eb + (0 - ri * si) * dei) * dei,
    ;
    // what is known of the three products
    lemma_field_mul_congruent(private, de);
    lemma_field_mul_congruent(quotient, de);
    lemma_field_mul_congruent(ic, ga);
    lemma_mul_as_int(sa, sb, ai, bi);
    lemma_sub_as_int(field_mul(sa, sb), sc, ai * bi, ci);
    lemma_field_add_congruent(s_public, s_private);
    lemma_mul_as_int(be, sa, bei, ai);
    lemma_mul_as_int(al, sb, ali, bi);
    lemma_add_as_int(field_mul(be, sa), field_mul(al, sb), bei * ai, ali * bi);
    lemma_add_as_int(
        field_add(field_mul(be, sa), field_mul(al, sb)),
        sc,
        bei * ai + ali * bi,
        ci,
    );
    // the right side
    lemma_mul_as_int(al, be, ali, bei);
    lemma_add_as_int(field_mul(al, be), field_mul(ic, ga), ali * bei, ic as int * gai);
    lemma_add_as_int(
        field_add(field_mul(al, be), field_mul(ic, ga)),
        field_mul(e.c, de),
        ali * bei + ic as int * gai,
        ec * dei,
    );
    lemma_congruent_add(ic as int * gai, s_public as int, private as int * dei, s_private as int);
    lemma_congruent_add(
        ic as int * gai + private as int * dei,
        bei * ai + ali * bi + ci,
        quotient as int * dei,
        ai * bi - ci,
    );
    lemma_congruent_add(
        ic as int * gai + private as int * dei + quotient as int * dei,
        bei * ai + ali * bi + ci + (ai * bi - ci),
        ali * bei + blind,
        ali * bei + blind,
    );
    lemma_verifier_identity(ali, bei, dei, ai, bi, ci, ri, si);
    let right = field_add(
        field_add(field_mul(al, be), field_mul(ic, ga)),
        field_mul(e.c, de),
    );
    lemma_field_mul_congruent(e.a, e.b);
    lemma_field_add_congruent(field_add(field_mul(al, be), field_mul(ic, ga)), field_mul(e.c, de));
    lemma_equal_by_congruence(field_mul(e.a, e.b), right, ea * eb);
}

} // verus!
