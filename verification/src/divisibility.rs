//! A witness satisfies a circuit exactly when its polynomial `a * b - c` is
//! divisible by the target polynomial; the quotient is then the one that the
//! prover computes.

use crate::algebra::{
    lemma_add_as_int, lemma_equal_by_congruence, lemma_field_add_congruent,
    lemma_field_mul_congruent, lemma_mul_as_int,
};
use crate::evaluation::{
    lemma_eval_add, lemma_eval_div_linear, lemma_eval_mul, lemma_eval_reduced, lemma_eval_scale,
    lemma_eval_sub, lemma_eval_zero,
};
use crate::field::{field_add, field_inv, field_mul, field_sub, lemma_field_mul_commutes, modulus};
use crate::interpolation::{
    column_entry, lemma_cancel, lemma_difference_invertible, lemma_eval_basis_numerator,
    point_product, target_vanishes_on_domain, wire_polynomial_interpolates,
};
use crate::poly::{lemma_field_mul_zero, poly_eval, poly_mul, poly_scale};
use crate::prover::{
    combine, combine_upto, divide_by_domain, quotient_polynomial, witness_polynomial,
};
use crate::qap::{a_rows, b_rows, c_rows, domain_point, qap_of, vanishing, wire_polys};
use crate::r1cs::{
    constraint_holds, constraint_in_range, row_in_range, row_value, satisfied, well_formed,
    CircuitView, MAX_DOMAIN_SIZE,
};
use vstd::arithmetic::div_mod::lemma_small_mod;
use vstd::prelude::*;

verus! {

/// The sum of the first `k` values, each times the scalar at its place.
pub open spec fn weighted_sum(vals: Seq<nat>, w: Seq<nat>, k: nat) -> nat
    decreases k,
{
    if k == 0 {
        0
    } else {
        field_add(weighted_sum(vals, w, (k - 1) as nat), field_mul(w[k - 1], vals[k - 1]))
    }
}

/// The values of a list of polynomials at a point.
pub open spec fn evaluations(polys: Seq<Seq<nat>>, x: nat) -> Seq<nat> {
    Seq::new(polys.len(), |i: int| poly_eval(polys[i], x))
}

/// For each of `m` variables, its entry in a row as far as the first `t`
/// entries of the row go.
pub open spec fn columns(row: Seq<(nat, nat)>, m: nat, t: nat) -> Seq<nat> {
    Seq::new(m, |i: int| column_entry(row, i as nat, t))
}

/// Whether a polynomial is zero at each of the first `n` points of the domain.
pub open spec fn vanishes_on_domain(p: Seq<nat>, n: nat) -> bool {
    forall|r: nat| r < n ==> poly_eval(p, #[trigger] domain_point(r)) == 0
}

/// Whether a polynomial is `h` times the target polynomial of a domain of
/// `n` points, at every point of the field.
pub open spec fn is_quotient_by_target(p: Seq<nat>, h: Seq<nat>, n: nat) -> bool {
    forall|x: nat| #[trigger]
        poly_eval(p, x) == field_mul(poly_eval(h, x), poly_eval(vanishing(n), x))
}

/// The weighted sum is reduced.
pub proof fn lemma_weighted_sum_reduced(vals: Seq<nat>, w: Seq<nat>, k: nat)
    ensures
        weighted_sum(vals, w, k) < modulus(),
    decreases k,
{
    if k > 0 {
        lemma_field_add_congruent(
            weighted_sum(vals, w, (k - 1) as nat),
            field_mul(w[k - 1], vals[k - 1]),
        );
    }
}

/// The value of a row is reduced.
pub proof fn lemma_row_value_reduced(row: Seq<(nat, nat)>, w: Seq<nat>)
    ensures
        row_value(row, w) < modulus(),
{
    if row.len() > 0 {
        lemma_field_add_congruent(
            row_value(row.drop_last(), w),
            field_mul(row.last().1, w[row.last().0 as int]),
        );
    }
}

/// The value of a sum of polynomials, each times a scalar, is the sum of
/// their values, each times the scalar.
pub proof fn lemma_eval_combine(polys: Seq<Seq<nat>>, w: Seq<nat>, n: nat, k: nat, x: nat)
    requires
        k <= polys.len(),
    ensures
        poly_eval(combine_upto(polys, w, n, k), x) == weighted_sum(evaluations(polys, x), w, k),
    decreases k,
{
    if k == 0 {
        lemma_eval_zero(n, x);
    } else {
        lemma_eval_combine(polys, w, n, (k - 1) as nat, x);
        lemma_eval_add(
            combine_upto(polys, w, n, (k - 1) as nat),
            poly_scale(w[k - 1], polys[k - 1]),
            x,
        );
        lemma_eval_scale(w[k - 1], polys[k - 1], x);
    }
}

/// Values that agree on the first `k` places have the same weighted sum.
pub proof fn lemma_weighted_sum_agrees(a: Seq<nat>, b: Seq<nat>, w: Seq<nat>, k: nat)
    requires
        k <= a.len(),
        k <= b.len(),
        forall|i: int| 0 <= i < k ==> a[i] == b[i],
    ensures
        weighted_sum(a, w, k) == weighted_sum(b, w, k),
    decreases k,
{
    if k > 0 {
        lemma_weighted_sum_agrees(a, b, w, (k - 1) as nat);
    }
}

/// Adding `c` to the value at place `v` adds the scalar at `v` times `c` to
/// the weighted sum, where the sum reaches that place.
proof fn lemma_weighted_sum_update(a: Seq<nat>, b: Seq<nat>, w: Seq<nat>, k: nat, v: nat, c: nat)
    requires
        k <= a.len(),
        a.len() == b.len(),
        v < a.len(),
        b[v as int] == field_add(a[v as int], c),
        forall|i: int| 0 <= i < a.len() && i != v ==> a[i] == b[i],
    ensures
        weighted_sum(b, w, k) == if v < k {
            field_add(weighted_sum(a, w, k), field_mul(w[v as int], c))
        } else {
            weighted_sum(a, w, k)
        },
    decreases k,
{
    if k > 0 {
        let before_a = weighted_sum(a, w, (k - 1) as nat);
        let before_b = weighted_sum(b, w, (k - 1) as nat);
        lemma_weighted_sum_update(a, b, w, (k - 1) as nat, v, c);
        lemma_weighted_sum_reduced(a, w, k);
        lemma_weighted_sum_reduced(b, w, k);
        let s = w[k - 1];
        let t = field_mul(w[v as int], c);
        if v == k - 1 {
            // before + s (a_v + c) = (before + s a_v) + s c
            let av = a[v as int];
            lemma_add_as_int(av, c, av as int, c as int);
            lemma_mul_as_int(s, field_add(av, c), s as int, av as int + c as int);
            lemma_add_as_int(
                before_a,
                field_mul(s, field_add(av, c)),
                before_a as int,
                s as int * (av as int + c as int),
            );
            lemma_mul_as_int(s, av, s as int, av as int);
            lemma_add_as_int(before_a, field_mul(s, av), before_a as int, s as int * av as int);
            lemma_mul_as_int(s, c, s as int, c as int);
            lemma_add_as_int(
                weighted_sum(a, w, k),
                t,
                before_a as int + s as int * av as int,
                s as int * c as int,
            );
            assert(before_a as int + s as int * (av as int + c as int) == before_a as int
                + s as int * av as int + s as int * c as int) by (nonlinear_arith);
            lemma_field_add_congruent(weighted_sum(a, w, k), t);
            lemma_equal_by_congruence(
                weighted_sum(b, w, k),
                field_add(weighted_sum(a, w, k), t),
                before_a as int + s as int * (av as int + c as int),
            );
        } else if v < k - 1 {
            // (before + t) + s a_k = (before + s a_k) + t
            let ak = a[k - 1];
            lemma_add_as_int(before_a, t, before_a as int, t as int);
            lemma_mul_as_int(s, ak, s as int, ak as int);
            lemma_add_as_int(
                field_add(before_a, t),
                field_mul(s, ak),
                before_a as int + t as int,
                s as int * ak as int,
            );
            lemma_add_as_int(before_a, field_mul(s, ak), before_a as int, s as int * ak as int);
            lemma_add_as_int(
                weighted_sum(a, w, k),
                t,
                before_a as int + s as int * ak as int,
                t as int,
            );
            lemma_field_add_congruent(weighted_sum(a, w, k), t);
            lemma_equal_by_congruence(
                weighted_sum(b, w, k),
                field_add(weighted_sum(a, w, k), t),
                before_a as int + t as int + s as int * ak as int,
            );
        }
    }
}

/// The weighted sum of zeros is zero.
proof fn lemma_weighted_sum_zero(vals: Seq<nat>, w: Seq<nat>, k: nat)
    requires
        k <= vals.len(),
        forall|i: int| 0 <= i < vals.len() ==> vals[i] == 0,
    ensures
        weighted_sum(vals, w, k) == 0,
    decreases k,
{
    if k > 0 {
        lemma_weighted_sum_zero(vals, w, (k - 1) as nat);
        lemma_field_mul_zero(w[k - 1]);
        lemma_small_mod(0, modulus());
    }
}

/// The entries of a row, each times the value of its variable, sum up to the
/// value of the row.
pub proof fn lemma_columns_give_row_value(row: Seq<(nat, nat)>, w: Seq<nat>, t: nat)
    requires
        row_in_range(row, w.len()),
        t <= row.len(),
    ensures
        weighted_sum(columns(row, w.len(), t), w, w.len()) == row_value(row.take(t as int), w),
    decreases t,
{
    let m = w.len();
    if t == 0 {
        lemma_weighted_sum_zero(columns(row, m, 0), w, m);
    } else {
        let before = columns(row, m, (t - 1) as nat);
        let after = columns(row, m, t);
        let entry = row[t - 1];
        lemma_columns_give_row_value(row, w, (t - 1) as nat);
        assert(row.take(t as int).drop_last() =~= row.take(t - 1));
        assert(row.take(t as int).last() == entry);
        assert(entry.0 < m);
        lemma_weighted_sum_update(before, after, w, m, entry.0, entry.1);
        lemma_field_mul_commutes(w[entry.0 as int], entry.1);
    }
}

/// At the point of a constraint, the sum of the wire polynomials of one
/// matrix, each times the value of its wire, has the value of the
/// constraint's row of that matrix.
pub proof fn lemma_eval_combined_wires(rows: Seq<Seq<(nat, nat)>>, w: Seq<nat>, r: nat)
    requires
        rows.len() <= MAX_DOMAIN_SIZE,
        r < rows.len(),
        row_in_range(rows[r as int], w.len()),
    ensures
        poly_eval(
            combine(wire_polys(rows, w.len()), w, rows.len()),
            domain_point(r),
        ) == row_value(rows[r as int], w),
{
    let m = w.len();
    let polys = wire_polys(rows, m);
    let x = domain_point(r);
    let row = rows[r as int];
    lemma_eval_combine(polys, w, rows.len(), m, x);
    assert forall|i: int| 0 <= i < m implies evaluations(polys, x)[i] == columns(
        row,
        m,
        row.len(),
    )[i] by {
        wire_polynomial_interpolates(rows, i as nat, r);
    }
    lemma_weighted_sum_agrees(evaluations(polys, x), columns(row, m, row.len()), w, m);
    lemma_columns_give_row_value(row, w, row.len());
    assert(row.take(row.len() as int) =~= row);
}

/// At the point of a constraint, the polynomial of a witness has the value
/// of the constraint's `a` row times that of its `b` row, less that of its
/// `c` row.
pub proof fn lemma_eval_witness_polynomial(c: CircuitView, w: Seq<nat>, r: nat)
    requires
        well_formed(c),
        w.len() == c.variable_count,
        r < c.constraints.len(),
    ensures
        poly_eval(witness_polynomial(c, w), domain_point(r)) == field_sub(
            field_mul(
                row_value(c.constraints[r as int].a, w),
                row_value(c.constraints[r as int].b, w),
            ),
            row_value(c.constraints[r as int].c, w),
        ),
{
    let q = qap_of(c);
    let n = c.constraints.len();
    let x = domain_point(r);
    assert(constraint_in_range(c.constraints[r as int], c.variable_count));
    lemma_eval_combined_wires(a_rows(c.constraints), w, r);
    lemma_eval_combined_wires(b_rows(c.constraints), w, r);
    lemma_eval_combined_wires(c_rows(c.constraints), w, r);
    let a = combine(q.a, w, n);
    let b = combine(q.b, w, n);
    let cc = combine(q.c, w, n);
    lemma_eval_sub(poly_mul(a, b), cc, x);
    lemma_eval_mul(a, b, x);
}

/// A difference of reduced elements is zero exactly when they are equal.
pub proof fn lemma_field_sub_zero(u: nat, v: nat)
    requires
        u < modulus(),
        v < modulus(),
    ensures
        field_sub(u, v) == 0 <==> u == v,
{
    if u == v {
        lemma_small_mod(0, modulus());
    } else if u > v {
        lemma_small_mod((u - v) as nat, modulus());
    } else {
        vstd::arithmetic::div_mod::lemma_mod_add_multiples_vanish(u - v, modulus() as int);
        lemma_small_mod((modulus() + u - v) as nat, modulus());
    }
}

/// A witness of the right length satisfies a circuit exactly when its
/// polynomial is zero at every point of the domain.
pub proof fn satisfied_iff_vanishing(c: CircuitView, w: Seq<nat>)
    requires
        well_formed(c),
        w.len() == c.variable_count,
    ensures
        satisfied(c, w) <==> vanishes_on_domain(witness_polynomial(c, w), c.constraints.len()),
{
    let p = witness_polynomial(c, w);
    let n = c.constraints.len();
    assert forall|r: nat| r < n implies (poly_eval(p, #[trigger] domain_point(r)) == 0
        <==> constraint_holds(c.constraints[r as int], w)) by {
        let k = c.constraints[r as int];
        lemma_eval_witness_polynomial(c, w, r);
        lemma_field_mul_congruent(row_value(k.a, w), row_value(k.b, w));
        lemma_row_value_reduced(k.c, w);
        lemma_field_sub_zero(field_mul(row_value(k.a, w), row_value(k.b, w)), row_value(k.c, w));
    }
    if satisfied(c, w) {
        assert forall|r: nat| r < n implies poly_eval(p, #[trigger] domain_point(r)) == 0 by {
            assert(constraint_holds(c.constraints[r as int], w));
        }
    }
    if vanishes_on_domain(p, n) {
        assert forall|j: int| 0 <= j < n implies constraint_holds(
            #[trigger] c.constraints[j],
            w,
        ) by {
            assert(poly_eval(p, domain_point(j as nat)) == 0);
        }
    }
}

/// After division by `x - point` for the first `k` points, a polynomial that
/// is zero on the domain is still zero at the points that are left.
pub proof fn lemma_quotient_vanishes(p: Seq<nat>, n: nat, k: nat, i: nat)
    requires
        n <= MAX_DOMAIN_SIZE,
        vanishes_on_domain(p, n),
        k <= i < n,
    ensures
        poly_eval(divide_by_domain(p, k), domain_point(i)) == 0,
    decreases k,
{
    if k == 0 {
        assert(poly_eval(p, domain_point(i)) == 0);
    } else {
        let before = divide_by_domain(p, (k - 1) as nat);
        let root = domain_point((k - 1) as nat);
        let x = domain_point(i);
        let after = divide_by_domain(p, k);
        lemma_quotient_vanishes(p, n, (k - 1) as nat, i);
        lemma_quotient_vanishes(p, n, (k - 1) as nat, (k - 1) as nat);
        lemma_eval_div_linear(before, root, x);
        // 0 = after(x) (x - root) + 0
        let e = poly_eval(after, x);
        let d = field_sub(x, root);
        lemma_field_mul_congruent(e, d);
        lemma_small_mod(field_mul(e, d), modulus());
        lemma_difference_invertible(i, (k - 1) as nat);
        lemma_eval_reduced(after, x);
        lemma_cancel(e, d, field_inv(d));
    }
}

/// A polynomial that is zero on the domain is its quotient by the first `k`
/// linear factors times the product of those factors, at every point.
pub proof fn lemma_quotient_times_product(p: Seq<nat>, n: nat, k: nat, x: nat)
    requires
        n <= MAX_DOMAIN_SIZE,
        vanishes_on_domain(p, n),
        k <= n,
    ensures
        poly_eval(p, x) == field_mul(poly_eval(divide_by_domain(p, k), x), point_product(n, k, x)),
    decreases k,
{
    lemma_eval_reduced(p, x);
    if k == 0 {
        let e = poly_eval(p, x);
        assert(e as int * 1 == e as int) by (nonlinear_arith);
        lemma_small_mod(e, modulus());
    } else {
        let before = divide_by_domain(p, (k - 1) as nat);
        let after = divide_by_domain(p, k);
        let root = domain_point((k - 1) as nat);
        lemma_quotient_times_product(p, n, (k - 1) as nat, x);
        lemma_quotient_vanishes(p, n, (k - 1) as nat, (k - 1) as nat);
        lemma_eval_div_linear(before, root, x);
        let e = poly_eval(after, x);
        let d = field_sub(x, root);
        let t = point_product(n, (k - 1) as nat, x);
        // before(x) = e d, and p(x) = (e d) t = e (t d)
        lemma_field_mul_congruent(e, d);
        lemma_small_mod(field_mul(e, d), modulus());
        lemma_mul_as_int(field_mul(e, d), t, e as int * d as int, t as int);
        lemma_field_mul_congruent(t, d);
        lemma_mul_as_int(e, field_mul(t, d), e as int, t as int * d as int);
        assert((e as int * d as int) * t as int == e as int * (t as int * d as int))
            by (nonlinear_arith);
        lemma_field_mul_congruent(e, field_mul(t, d));
        lemma_equal_by_congruence(
            poly_eval(p, x),
            field_mul(e, field_mul(t, d)),
            (e as int * d as int) * t as int,
        );
    }
}

/// A polynomial that is zero at every point of the domain is divisible by
/// the target polynomial, and the quotient is what division by `x - point`
/// for each point in turn gives.
pub proof fn vanishing_gives_quotient(p: Seq<nat>, n: nat)
    requires
        n <= MAX_DOMAIN_SIZE,
        vanishes_on_domain(p, n),
    ensures
        is_quotient_by_target(p, divide_by_domain(p, n), n),
{
    assert forall|x: nat| #[trigger]
        poly_eval(p, x) == field_mul(
            poly_eval(divide_by_domain(p, n), x),
            poly_eval(vanishing(n), x),
        ) by {
        lemma_quotient_times_product(p, n, n, x);
        lemma_eval_basis_numerator(n, n, x);
    }
}

/// A polynomial that is a multiple of the target polynomial is zero at
/// every point of the domain.
pub proof fn quotient_gives_vanishing(p: Seq<nat>, h: Seq<nat>, n: nat)
    requires
        is_quotient_by_target(p, h, n),
    ensures
        vanishes_on_domain(p, n),
{
    assert forall|r: nat| r < n implies poly_eval(p, #[trigger] domain_point(r)) == 0 by {
        target_vanishes_on_domain(n, r);
        lemma_field_mul_zero(poly_eval(h, domain_point(r)));
    }
}

/// A witness satisfies every constraint of a circuit exactly when its
/// polynomial `a * b - c` is a multiple of the target polynomial; and the
/// polynomial of a witness that satisfies the circuit is the prover's
/// quotient times the target polynomial.
pub proof fn satisfaction_is_divisibility(c: CircuitView, w: Seq<nat>)
    requires
        well_formed(c),
        w.len() == c.variable_count,
    ensures
        satisfied(c, w) <==> exists|h: Seq<nat>|
            is_quotient_by_target(witness_polynomial(c, w), h, c.constraints.len()),
        satisfied(c, w) ==> is_quotient_by_target(
            witness_polynomial(c, w),
            quotient_polynomial(c, w),
            c.constraints.len(),
        ),
{
    let p = witness_polynomial(c, w);
    let n = c.constraints.len();
    satisfied_iff_vanishing(c, w);
    if satisfied(c, w) {
        vanishing_gives_quotient(p, n);
    }
    if exists|h: Seq<nat>| is_quotient_by_target(p, h, n) {
        let h = choose|h: Seq<nat>| is_quotient_by_target(p, h, n);
        quotient_gives_vanishing(p, h, n);
    }
}

} // verus!
