//! Evaluation respects the operations on polynomials: the value of a sum is
//! the sum of the values, and so on; and a polynomial is its quotient by
//! `x - root` times `x - root`, plus its value at `root`.

use crate::algebra::{
    lemma_add_as_int, lemma_equal_by_congruence, lemma_field_add_congruent,
    lemma_field_mul_congruent, lemma_field_sub_congruent, lemma_mul_as_int, lemma_sub_as_int,
};
use crate::field::{field_add, field_mul, field_sub, modulus};
use crate::poly::{
    coeff, lemma_field_mul_zero, longer, poly_add, poly_div_linear, poly_eval, poly_mul,
    poly_mul_linear, poly_rest, poly_scale, poly_shift, poly_sub, poly_zero,
};
use vstd::arithmetic::div_mod::lemma_small_mod;
use vstd::prelude::*;

verus! {

/// The value of a polynomial is reduced.
pub proof fn lemma_eval_reduced(p: Seq<nat>, x: nat)
    ensures
        poly_eval(p, x) < modulus(),
{
    if p.len() > 0 {
        lemma_field_add_congruent(p[0], field_mul(x, poly_eval(p.drop_first(), x)));
    }
}

/// The value of a polynomial is its constant term plus the point times the
/// value of the rest, also for the polynomial without coefficients.
pub proof fn lemma_eval_unfold(p: Seq<nat>, x: nat)
    ensures
        poly_eval(p, x) == field_add(coeff(p, 0), field_mul(x, poly_eval(poly_rest(p), x))),
{
    if p.len() == 0 {
        lemma_field_mul_zero(x);
        lemma_small_mod(0, modulus());
    }
}

/// The zero polynomial has the value zero everywhere.
pub proof fn lemma_eval_zero(n: nat, x: nat)
    ensures
        poly_eval(poly_zero(n), x) == 0,
    decreases n,
{
    if n > 0 {
        assert(poly_zero(n).drop_first() =~= poly_zero((n - 1) as nat));
        lemma_eval_zero((n - 1) as nat, x);
        lemma_field_mul_zero(x);
        lemma_small_mod(0, modulus());
    }
}

/// The value of a sum is the sum of the values.
pub proof fn lemma_eval_add(p: Seq<nat>, q: Seq<nat>, x: nat)
    ensures
        poly_eval(poly_add(p, q), x) == field_add(poly_eval(p, x), poly_eval(q, x)),
    decreases longer(p.len(), q.len()),
{
    let s = poly_add(p, q);
    if s.len() == 0 {
        lemma_small_mod(0, modulus());
    } else {
        let rp = poly_rest(p);
        let rq = poly_rest(q);
        assert(s.drop_first() =~= poly_add(rp, rq));
        lemma_eval_add(rp, rq, x);
        lemma_eval_unfold(p, x);
        lemma_eval_unfold(q, x);
        let a = coeff(p, 0);
        let b = coeff(q, 0);
        let ea = poly_eval(rp, x);
        let eb = poly_eval(rq, x);
        // left: (a + b) + x (ea + eb)
        lemma_add_as_int(a, b, a as int, b as int);
        lemma_add_as_int(ea, eb, ea as int, eb as int);
        lemma_mul_as_int(x, field_add(ea, eb), x as int, ea as int + eb as int);
        lemma_add_as_int(
            field_add(a, b),
            field_mul(x, field_add(ea, eb)),
            a as int + b as int,
            x as int * (ea as int + eb as int),
        );
        // right: (a + x ea) + (b + x eb)
        lemma_mul_as_int(x, ea, x as int, ea as int);
        lemma_mul_as_int(x, eb, x as int, eb as int);
        lemma_add_as_int(a, field_mul(x, ea), a as int, x as int * ea as int);
        lemma_add_as_int(b, field_mul(x, eb), b as int, x as int * eb as int);
        lemma_add_as_int(
            poly_eval(p, x),
            poly_eval(q, x),
            a as int + x as int * ea as int,
            b as int + x as int * eb as int,
        );
        assert(a as int + b as int + x as int * (ea as int + eb as int) == (a as int + x as int
            * ea as int) + (b as int + x as int * eb as int)) by (nonlinear_arith);
        lemma_eval_reduced(s, x);
        lemma_field_add_congruent(poly_eval(p, x), poly_eval(q, x));
        lemma_equal_by_congruence(
            poly_eval(s, x),
            field_add(poly_eval(p, x), poly_eval(q, x)),
            a as int + b as int + x as int * (ea as int + eb as int),
        );
    }
}

/// The value of a difference is the difference of the values.
pub proof fn lemma_eval_sub(p: Seq<nat>, q: Seq<nat>, x: nat)
    ensures
        poly_eval(poly_sub(p, q), x) == field_sub(poly_eval(p, x), poly_eval(q, x)),
    decreases longer(p.len(), q.len()),
{
    let s = poly_sub(p, q);
    if s.len() == 0 {
        lemma_small_mod(0, modulus());
    } else {
        let rp = poly_rest(p);
        let rq = poly_rest(q);
        assert(s.drop_first() =~= poly_sub(rp, rq));
        lemma_eval_sub(rp, rq, x);
        lemma_eval_unfold(p, x);
        lemma_eval_unfold(q, x);
        let a = coeff(p, 0);
        let b = coeff(q, 0);
        let ea = poly_eval(rp, x);
        let eb = poly_eval(rq, x);
        // left: (a - b) + x (ea - eb)
        lemma_sub_as_int(a, b, a as int, b as int);
        lemma_sub_as_int(ea, eb, ea as int, eb as int);
        lemma_mul_as_int(x, field_sub(ea, eb), x as int, ea as int - eb as int);
        lemma_add_as_int(
            field_sub(a, b),
            field_mul(x, field_sub(ea, eb)),
            a as int - b as int,
            x as int * (ea as int - eb as int),
        );
        // right: (a + x ea) - (b + x eb)
        lemma_mul_as_int(x, ea, x as int, ea as int);
        lemma_mul_as_int(x, eb, x as int, eb as int);
        lemma_add_as_int(a, field_mul(x, ea), a as int, x as int * ea as int);
        lemma_add_as_int(b, field_mul(x, eb), b as int, x as int * eb as int);
        lemma_sub_as_int(
            poly_eval(p, x),
            poly_eval(q, x),
            a as int + x as int * ea as int,
            b as int + x as int * eb as int,
        );
        assert(a as int - b as int + x as int * (ea as int - eb as int) == (a as int + x as int
            * ea as int) - (b as int + x as int * eb as int)) by (nonlinear_arith);
        lemma_eval_reduced(s, x);
        lemma_field_sub_congruent(poly_eval(p, x), poly_eval(q, x));
        lemma_equal_by_congruence(
            poly_eval(s, x),
            field_sub(poly_eval(p, x), poly_eval(q, x)),
            a as int - b as int + x as int * (ea as int - eb as int),
        );
    }
}

/// The value of a polynomial times a constant is the constant times the value.
pub proof fn lemma_eval_scale(c: nat, p: Seq<nat>, x: nat)
    ensures
        poly_eval(poly_scale(c, p), x) == field_mul(c, poly_eval(p, x)),
    decreases p.len(),
{
    let s = poly_scale(c, p);
    if p.len() == 0 {
        lemma_field_mul_zero(c);
    } else {
        let rp = p.drop_first();
        assert(s.drop_first() =~= poly_scale(c, rp));
        lemma_eval_scale(c, rp, x);
        let a = p[0];
        let e = poly_eval(rp, x);
        // left: c a + x (c e)
        lemma_mul_as_int(c, a, c as int, a as int);
        lemma_mul_as_int(c, e, c as int, e as int);
        lemma_mul_as_int(x, field_mul(c, e), x as int, c as int * e as int);
        lemma_add_as_int(
            field_mul(c, a),
            field_mul(x, field_mul(c, e)),
            c as int * a as int,
            x as int * (c as int * e as int),
        );
        // right: c (a + x e)
        lemma_mul_as_int(x, e, x as int, e as int);
        lemma_add_as_int(a, field_mul(x, e), a as int, x as int * e as int);
        lemma_mul_as_int(c, poly_eval(p, x), c as int, a as int + x as int * e as int);
        assert(c as int * a as int + x as int * (c as int * e as int) == c as int * (a as int
            + x as int * e as int)) by (nonlinear_arith);
        lemma_eval_reduced(s, x);
        lemma_field_mul_congruent(c, poly_eval(p, x));
        lemma_equal_by_congruence(
            poly_eval(s, x),
            field_mul(c, poly_eval(p, x)),
            c as int * a as int + x as int * (c as int * e as int),
        );
    }
}

/// The value of `x` times a polynomial is the point times the value.
pub proof fn lemma_eval_shift(p: Seq<nat>, x: nat)
    ensures
        poly_eval(poly_shift(p), x) == field_mul(x, poly_eval(p, x)),
{
    let s = poly_shift(p);
    assert(s.drop_first() =~= p);
    let e = poly_eval(p, x);
    lemma_mul_as_int(x, e, x as int, e as int);
    lemma_add_as_int(0, field_mul(x, e), 0, x as int * e as int);
    lemma_eval_reduced(s, x);
    lemma_field_mul_congruent(x, e);
    lemma_equal_by_congruence(poly_eval(s, x), field_mul(x, e), x as int * e as int);
}

/// The value of a polynomial times `x - root` is the value times the point less the root.
pub proof fn lemma_eval_mul_linear(p: Seq<nat>, root: nat, x: nat)
    ensures
        poly_eval(poly_mul_linear(p, root), x) == field_mul(poly_eval(p, x), field_sub(x, root)),
{
    let s = poly_mul_linear(p, root);
    let shifted = poly_shift(p);
    let scaled = poly_scale(root, p);
    assert(s =~= poly_sub(shifted, scaled)) by {
        lemma_field_mul_zero(root);
    }
    lemma_eval_sub(shifted, scaled, x);
    lemma_eval_shift(p, x);
    lemma_eval_scale(root, p, x);
    let e = poly_eval(p, x);
    // left: x e - root e; right: e (x - root)
    lemma_mul_as_int(x, e, x as int, e as int);
    lemma_mul_as_int(root, e, root as int, e as int);
    lemma_sub_as_int(
        field_mul(x, e),
        field_mul(root, e),
        x as int * e as int,
        root as int * e as int,
    );
    lemma_sub_as_int(x, root, x as int, root as int);
    lemma_mul_as_int(e, field_sub(x, root), e as int, x as int - root as int);
    assert(x as int * e as int - root as int * e as int == e as int * (x as int - root as int))
        by (nonlinear_arith);
    lemma_eval_reduced(s, x);
    lemma_field_mul_congruent(e, field_sub(x, root));
    lemma_equal_by_congruence(
        poly_eval(s, x),
        field_mul(e, field_sub(x, root)),
        x as int * e as int - root as int * e as int,
    );
}

/// The value of a product is the product of the values.
pub proof fn lemma_eval_mul(p: Seq<nat>, q: Seq<nat>, x: nat)
    ensures
        poly_eval(poly_mul(p, q), x) == field_mul(poly_eval(p, x), poly_eval(q, x)),
    decreases p.len(),
{
    let eq = poly_eval(q, x);
    if p.len() == 0 {
        lemma_field_mul_zero(eq);
    } else {
        let rp = p.drop_first();
        let rest = poly_mul(rp, q);
        lemma_eval_mul(rp, q, x);
        lemma_eval_add(poly_scale(p[0], q), poly_shift(rest), x);
        lemma_eval_scale(p[0], q, x);
        lemma_eval_shift(rest, x);
        let a = p[0];
        let e = poly_eval(rp, x);
        // left: a eq + x (e eq); right: (a + x e) eq
        lemma_mul_as_int(a, eq, a as int, eq as int);
        lemma_mul_as_int(e, eq, e as int, eq as int);
        lemma_mul_as_int(x, field_mul(e, eq), x as int, e as int * eq as int);
        lemma_add_as_int(
            field_mul(a, eq),
            field_mul(x, field_mul(e, eq)),
            a as int * eq as int,
            x as int * (e as int * eq as int),
        );
        lemma_mul_as_int(x, e, x as int, e as int);
        lemma_add_as_int(a, field_mul(x, e), a as int, x as int * e as int);
        lemma_mul_as_int(poly_eval(p, x), eq, a as int + x as int * e as int, eq as int);
        assert(a as int * eq as int + x as int * (e as int * eq as int) == (a as int + x as int
            * e as int) * eq as int) by (nonlinear_arith);
        lemma_eval_reduced(poly_mul(p, q), x);
        lemma_field_mul_congruent(poly_eval(p, x), eq);
        lemma_equal_by_congruence(
            poly_eval(poly_mul(p, q), x),
            field_mul(poly_eval(p, x), eq),
            a as int * eq as int + x as int * (e as int * eq as int),
        );
    }
}

/// A polynomial is its quotient by `x - root` times `x - root`, plus its
/// value at `root`.
pub proof fn lemma_eval_div_linear(p: Seq<nat>, root: nat, x: nat)
    ensures
        poly_eval(p, x) == field_add(
            field_mul(poly_eval(poly_div_linear(p, root), x), field_sub(x, root)),
            poly_eval(p, root),
        ),
    decreases p.len(),
{
    let quotient = poly_div_linear(p, root);
    let d = field_sub(x, root);
    lemma_sub_as_int(x, root, x as int, root as int);
    lemma_eval_reduced(p, x);
    lemma_eval_reduced(p, root);
    if p.len() == 0 {
        lemma_field_mul_zero(d);
        lemma_small_mod(0, modulus());
    } else {
        let rp = p.drop_first();
        if rp.len() == 0 {
            // a constant: the quotient is empty and the value is the constant everywhere
            lemma_field_mul_zero(x);
            lemma_field_mul_zero(root);
            lemma_field_mul_zero(d);
            assert(quotient.len() == 0);
            assert(poly_eval(rp, x) == 0 && poly_eval(rp, root) == 0);
            assert(poly_eval(p, x) == field_add(p[0], 0));
            assert(poly_eval(p, root) == field_add(p[0], 0));
            lemma_field_add_congruent(p[0], 0);
            lemma_add_as_int(0, poly_eval(p, root), 0, p[0] as int);
            lemma_field_add_congruent(0, poly_eval(p, root));
            lemma_equal_by_congruence(
                poly_eval(p, x),
                field_add(0, poly_eval(p, root)),
                p[0] as int,
            );
        } else {
            lemma_eval_div_linear(rp, root, x);
            lemma_eval_div_linear_step(p, root, x);
        }
    }
}

/// The step of the induction for a polynomial of two coefficients or more.
proof fn lemma_eval_div_linear_step(p: Seq<nat>, root: nat, x: nat)
    requires
        p.len() >= 2,
        poly_eval(p.drop_first(), x) == field_add(
            field_mul(poly_eval(poly_div_linear(p.drop_first(), root), x), field_sub(x, root)),
            poly_eval(p.drop_first(), root),
        ),
    ensures
        poly_eval(p, x) == field_add(
            field_mul(poly_eval(poly_div_linear(p, root), x), field_sub(x, root)),
            poly_eval(p, root),
        ),
{
    let quotient = poly_div_linear(p, root);
    let d = field_sub(x, root);
    lemma_sub_as_int(x, root, x as int, root as int);
    lemma_eval_reduced(p, x);
    lemma_eval_reduced(p, root);
    {
        let rp = p.drop_first();
        let a = p[0];
        let s = poly_eval(rp, root);
        let rest_quotient = poly_div_linear(rp, root);
        let qx = poly_eval(rest_quotient, x);
        // the quotient starts with the value of the rest at the root, and goes on
        // with the quotient of the rest
        assert(rp == p.subrange(1, p.len() as int)) by {
            assert(rp =~= p.subrange(1, p.len() as int));
        }
        let joined = seq![s] + rest_quotient;
        assert(quotient.len() == joined.len());
        assert forall|i: int| 0 <= i < quotient.len() implies quotient[i] == joined[i] by {
            if i > 0 {
                assert(p.subrange(i + 1, p.len() as int) =~= rp.subrange(i, rp.len() as int));
                assert(joined[i] == rest_quotient[i - 1]);
            }
        }
        assert(quotient =~= joined);
        assert(quotient.drop_first() =~= rest_quotient);
        // value of the rest at x, by induction: qx (x - root) + s
        lemma_mul_as_int(qx, d, qx as int, x as int - root as int);
        lemma_add_as_int(field_mul(qx, d), s, qx as int * (x as int - root as int), s as int);
        let ex = poly_eval(rp, x);
        // left: a + x ex
        lemma_mul_as_int(x, ex, x as int, qx as int * (x as int - root as int) + s as int);
        lemma_add_as_int(
            a,
            field_mul(x, ex),
            a as int,
            x as int * (qx as int * (x as int - root as int) + s as int),
        );
        // right: (s + x qx) (x - root) + (a + root s)
        lemma_mul_as_int(x, qx, x as int, qx as int);
        lemma_add_as_int(s, field_mul(x, qx), s as int, x as int * qx as int);
        lemma_mul_as_int(
            poly_eval(quotient, x),
            d,
            s as int + x as int * qx as int,
            x as int - root as int,
        );
        lemma_mul_as_int(root, s, root as int, s as int);
        lemma_add_as_int(a, field_mul(root, s), a as int, root as int * s as int);
        lemma_add_as_int(
            field_mul(poly_eval(quotient, x), d),
            poly_eval(p, root),
            (s as int + x as int * qx as int) * (x as int - root as int),
            a as int + root as int * s as int,
        );
        assert(a as int + x as int * (qx as int * (x as int - root as int) + s as int) == (s as int
            + x as int * qx as int) * (x as int - root as int) + (a as int + root as int
            * s as int)) by (nonlinear_arith);
        lemma_field_add_congruent(field_mul(poly_eval(quotient, x), d), poly_eval(p, root));
        lemma_equal_by_congruence(
            poly_eval(p, x),
            field_add(field_mul(poly_eval(quotient, x), d), poly_eval(p, root)),
            a as int + x as int * (qx as int * (x as int - root as int) + s as int),
        );
    }
}

} // verus!
