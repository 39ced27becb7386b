//! What the polynomials of a quadratic arithmetic program are at the points
//! of the domain: a wire's polynomial has the value of the wire's entry in
//! each constraint's row, and the target polynomial has the value zero.

use crate::algebra::{
    lemma_add_as_int, lemma_equal_by_congruence, lemma_field_add_congruent,
    lemma_field_mul_congruent, lemma_inverse_of_negative, lemma_mul_as_int, lemma_small_invertible,
};
use crate::evaluation::{
    lemma_eval_add, lemma_eval_mul_linear, lemma_eval_reduced, lemma_eval_scale, lemma_eval_zero,
};
use crate::field::{field_add, field_inv, field_mul, field_neg, field_sub, is_inverse, modulus};
use crate::poly::{lemma_field_mul_zero, poly_eval, poly_scale};
use crate::qap::{
    a_rows, b_rows, basis_numerator, basis_weight, c_rows, domain_point, lagrange_basis, qap_of,
    vanishing, wire_poly, wire_sum, QapView,
};
use crate::r1cs::{well_formed, CircuitView, MAX_DOMAIN_SIZE};
use vstd::arithmetic::div_mod::lemma_small_mod;
use vstd::prelude::*;

verus! {

/// The product of `x - point` over the first `k` points of the domain but point `j`.
pub open spec fn point_product(j: nat, k: nat, x: nat) -> nat
    decreases k,
{
    if k == 0 {
        1
    } else if (k - 1) as nat == j {
        point_product(j, (k - 1) as nat, x)
    } else {
        field_mul(point_product(j, (k - 1) as nat, x), field_sub(x, domain_point((k - 1) as nat)))
    }
}

/// The sum of the coefficients of those of the first `k` entries of a row
/// that name variable `i`: the entry of the matrix in that row and column.
pub open spec fn column_entry(row: Seq<(nat, nat)>, i: nat, k: nat) -> nat
    decreases k,
{
    if k == 0 {
        0
    } else if row[k - 1].0 == i {
        field_add(column_entry(row, i, (k - 1) as nat), row[k - 1].1)
    } else {
        column_entry(row, i, (k - 1) as nat)
    }
}

/// The entry of the matrix in a row and column.
pub open spec fn matrix_entry(row: Seq<(nat, nat)>, i: nat) -> nat {
    column_entry(row, i, row.len())
}

/// The difference of two different points of the domain has an inverse.
pub proof fn lemma_difference_invertible(j: nat, k: nat)
    requires
        j != k,
        j <= MAX_DOMAIN_SIZE,
        k <= MAX_DOMAIN_SIZE,
    ensures
        is_inverse(
            field_sub(domain_point(j), domain_point(k)),
            field_inv(field_sub(domain_point(j), domain_point(k))),
        ),
{
    let d = field_sub(domain_point(j), domain_point(k));
    if j > k {
        let e = (j - k) as nat;
        lemma_small_mod(e, modulus());
        lemma_small_invertible(e);
    } else {
        let e = (k - j) as nat;
        lemma_small_invertible(e);
        let y = choose|y: nat| is_inverse(e, y);
        lemma_inverse_of_negative(e, y);
        assert(field_neg(e) == d) by {
            lemma_small_mod(e, modulus());
        }
    }
}

/// A product that is zero has a zero factor, where the other factor has an inverse.
pub proof fn lemma_cancel(a: nat, d: nat, y: nat)
    requires
        a < modulus(),
        field_mul(a, d) == 0,
        is_inverse(d, y),
    ensures
        a == 0,
{
    // a = a (d y) = (a d) y = 0
    lemma_field_mul_congruent(a, d);
    lemma_field_mul_congruent(d, y);
    lemma_mul_as_int(a, field_mul(d, y), a as int, d as int * y as int);
    lemma_mul_as_int(field_mul(a, d), y, a as int * d as int, y as int);
    assert(a as int * (d as int * y as int) == (a as int * d as int) * y as int)
        by (nonlinear_arith);
    lemma_field_mul_zero(y);
    assert(a as int * 1 == a as int) by (nonlinear_arith);
    lemma_small_mod(a, modulus());
    lemma_small_mod(0, modulus());
    lemma_field_mul_congruent(a, 1);
}

/// The value of the product polynomial is the product of the values.
pub proof fn lemma_eval_basis_numerator(j: nat, k: nat, x: nat)
    ensures
        poly_eval(basis_numerator(j, k), x) == point_product(j, k, x),
    decreases k,
{
    if k == 0 {
        let one = seq![1nat];
        assert(one.drop_first() =~= Seq::<nat>::empty());
        assert(poly_eval(one.drop_first(), x) == 0);
        lemma_field_mul_zero(x);
        lemma_small_mod(1, modulus());
        assert(poly_eval(one, x) == field_add(
            one[0],
            field_mul(x, poly_eval(one.drop_first(), x)),
        ));
    } else if (k - 1) as nat == j {
        lemma_eval_basis_numerator(j, (k - 1) as nat, x);
    } else {
        lemma_eval_basis_numerator(j, (k - 1) as nat, x);
        lemma_eval_mul_linear(basis_numerator(j, (k - 1) as nat), domain_point((k - 1) as nat), x);
    }
}

/// The product is zero at each of its points.
pub proof fn lemma_point_product_vanishes(j: nat, k: nat, i: nat)
    requires
        i < k,
        i != j,
    ensures
        point_product(j, k, domain_point(i)) == 0,
    decreases k,
{
    let x = domain_point(i);
    let before = point_product(j, (k - 1) as nat, x);
    if (k - 1) as nat == i {
        assert(field_sub(x, domain_point(i)) == 0) by {
            lemma_small_mod(0, modulus());
        }
        lemma_field_mul_zero(before);
    } else {
        lemma_point_product_vanishes(j, (k - 1) as nat, i);
        if (k - 1) as nat != j {
            lemma_field_mul_zero(field_sub(x, domain_point((k - 1) as nat)));
        }
    }
}

/// The weight of a basis polynomial is the inverse of the product at the
/// polynomial's own point.
pub proof fn lemma_weight_inverts_product(j: nat, k: nat)
    requires
        j <= MAX_DOMAIN_SIZE,
        k <= MAX_DOMAIN_SIZE,
    ensures
        field_mul(basis_weight(j, k), point_product(j, k, domain_point(j))) == 1,
    decreases k,
{
    let x = domain_point(j);
    if k == 0 {
        lemma_small_mod(1, modulus());
        assert(1nat * 1nat == 1) by (nonlinear_arith);
    } else if (k - 1) as nat == j {
        lemma_weight_inverts_product(j, (k - 1) as nat);
    } else {
        lemma_weight_inverts_product(j, (k - 1) as nat);
        lemma_difference_invertible(j, (k - 1) as nat);
        let w = basis_weight(j, (k - 1) as nat);
        let p = point_product(j, (k - 1) as nat, x);
        let d = field_sub(x, domain_point((k - 1) as nat));
        let y = field_inv(d);
        // (w y) (p d) = (w p) (d y) = 1
        lemma_mul_as_int(w, y, w as int, y as int);
        lemma_mul_as_int(p, d, p as int, d as int);
        lemma_mul_as_int(
            field_mul(w, y),
            field_mul(p, d),
            w as int * y as int,
            p as int * d as int,
        );
        lemma_mul_as_int(w, p, w as int, p as int);
        lemma_mul_as_int(d, y, d as int, y as int);
        lemma_mul_as_int(
            field_mul(w, p),
            field_mul(d, y),
            w as int * p as int,
            d as int * y as int,
        );
        assert((w as int * y as int) * (p as int * d as int) == (w as int * p as int) * (d as int
            * y as int)) by (nonlinear_arith);
        assert(1nat * 1nat == 1) by (nonlinear_arith);
        lemma_small_mod(1, modulus());
        lemma_field_mul_congruent(field_mul(w, y), field_mul(p, d));
        lemma_equal_by_congruence(
            field_mul(field_mul(w, y), field_mul(p, d)),
            1,
            (w as int * y as int) * (p as int * d as int),
        );
    }
}

/// A Lagrange basis polynomial is one at its own point and zero at every
/// other point of the domain.
pub proof fn lemma_eval_lagrange_basis(j: nat, n: nat, i: nat)
    requires
        n <= MAX_DOMAIN_SIZE,
        j < n,
        i < n,
    ensures
        poly_eval(lagrange_basis(j, n), domain_point(i)) == if i == j {
            1nat
        } else {
            0nat
        },
{
    let x = domain_point(i);
    lemma_eval_scale(basis_weight(j, n), basis_numerator(j, n), x);
    lemma_eval_basis_numerator(j, n, x);
    if i == j {
        lemma_weight_inverts_product(j, n);
    } else {
        lemma_point_product_vanishes(j, n, i);
        lemma_field_mul_zero(basis_weight(j, n));
    }
}

/// What a partial sum of a wire's polynomial is at a point of the domain:
/// the entry of the point's row as far as the row has been added up.
pub open spec fn partial_entry(rows: Seq<Seq<(nat, nat)>>, i: nat, j: nat, k: nat, r: nat) -> nat {
    if r < j {
        matrix_entry(rows[r as int], i)
    } else if r == j {
        column_entry(rows[r as int], i, k)
    } else {
        0
    }
}

/// The value of a partial sum of a wire's polynomial at a point of the domain.
pub proof fn lemma_eval_wire_sum(rows: Seq<Seq<(nat, nat)>>, i: nat, j: nat, k: nat, r: nat)
    requires
        rows.len() <= MAX_DOMAIN_SIZE,
        r < rows.len(),
        j <= rows.len(),
        j < rows.len() ==> k <= rows[j as int].len(),
        j == rows.len() ==> k == 0,
    ensures
        poly_eval(wire_sum(rows, i, j, k), domain_point(r)) == partial_entry(rows, i, j, k, r),
    decreases j, k,
{
    let n = rows.len();
    let x = domain_point(r);
    if k > 0 {
        let entry = rows[j as int][k - 1];
        let before = wire_sum(rows, i, j, (k - 1) as nat);
        lemma_eval_wire_sum(rows, i, j, (k - 1) as nat, r);
        if entry.0 == i {
            let scaled = poly_scale(entry.1, lagrange_basis(j, n));
            lemma_eval_add(before, scaled, x);
            lemma_eval_scale(entry.1, lagrange_basis(j, n), x);
            lemma_eval_lagrange_basis(j, n, r);
            let e = poly_eval(before, x);
            lemma_eval_reduced(before, x);
            if r == j {
                // e + c * 1 = e + c
                lemma_mul_as_int(entry.1, 1, entry.1 as int, 1);
                assert(entry.1 as int * 1 == entry.1 as int) by (nonlinear_arith);
                lemma_add_as_int(e, field_mul(entry.1, 1), e as int, entry.1 as int);
                lemma_field_add_congruent(e, entry.1);
                lemma_field_add_congruent(e, field_mul(entry.1, 1));
                lemma_equal_by_congruence(
                    field_add(e, field_mul(entry.1, 1)),
                    field_add(e, entry.1),
                    e as int + entry.1 as int,
                );
            } else {
                lemma_field_mul_zero(entry.1);
                lemma_small_mod(e, modulus());
            }
        }
    } else if j > 0 {
        lemma_eval_wire_sum(rows, i, (j - 1) as nat, rows[j - 1].len(), r);
    } else {
        lemma_eval_zero(n, x);
    }
}

/// At each point of the domain, the polynomial of a wire has the value of the
/// wire's entry in the row of the constraint that the point belongs to.
pub proof fn wire_polynomial_interpolates(rows: Seq<Seq<(nat, nat)>>, i: nat, r: nat)
    requires
        rows.len() <= MAX_DOMAIN_SIZE,
        r < rows.len(),
    ensures
        poly_eval(wire_poly(rows, i), domain_point(r)) == matrix_entry(rows[r as int], i),
{
    lemma_eval_wire_sum(rows, i, rows.len(), 0, r);
}

/// Whether the polynomials of a quadratic arithmetic program are what the
/// circuit asks for: at the point of each constraint, each wire's three
/// polynomials have the values of the wire's entries in the constraint's
/// three rows, and the target polynomial has the value zero.
pub open spec fn qap_interpolates(c: CircuitView, q: QapView) -> bool {
    &&& forall|i: int, r: int|
        0 <= i < c.variable_count && 0 <= r < c.constraints.len() ==> #[trigger] poly_eval(
            q.a[i],
            domain_point(r as nat),
        ) == matrix_entry(c.constraints[r].a, i as nat)
    &&& forall|i: int, r: int|
        0 <= i < c.variable_count && 0 <= r < c.constraints.len() ==> #[trigger] poly_eval(
            q.b[i],
            domain_point(r as nat),
        ) == matrix_entry(c.constraints[r].b, i as nat)
    &&& forall|i: int, r: int|
        0 <= i < c.variable_count && 0 <= r < c.constraints.len() ==> #[trigger] poly_eval(
            q.c[i],
            domain_point(r as nat),
        ) == matrix_entry(c.constraints[r].c, i as nat)
    &&& forall|r: int|
        0 <= r < c.constraints.len() ==> #[trigger] poly_eval(q.target, domain_point(r as nat))
            == 0
}

/// The quadratic arithmetic program of a circuit is what the circuit asks for.
pub proof fn qap_of_interpolates(c: CircuitView)
    requires
        well_formed(c),
    ensures
        qap_interpolates(c, qap_of(c)),
{
    let q = qap_of(c);
    let n = c.constraints.len();
    assert forall|i: int, r: int|
        0 <= i < c.variable_count && 0 <= r < n implies #[trigger] poly_eval(
        q.a[i],
        domain_point(r as nat),
    ) == matrix_entry(c.constraints[r].a, i as nat) by {
        wire_polynomial_interpolates(a_rows(c.constraints), i as nat, r as nat);
    }
    assert forall|i: int, r: int|
        0 <= i < c.variable_count && 0 <= r < n implies #[trigger] poly_eval(
        q.b[i],
        domain_point(r as nat),
    ) == matrix_entry(c.constraints[r].b, i as nat) by {
        wire_polynomial_interpolates(b_rows(c.constraints), i as nat, r as nat);
    }
    assert forall|i: int, r: int|
        0 <= i < c.variable_count && 0 <= r < n implies #[trigger] poly_eval(
        q.c[i],
        domain_point(r as nat),
    ) == matrix_entry(c.constraints[r].c, i as nat) by {
        wire_polynomial_interpolates(c_rows(c.constraints), i as nat, r as nat);
    }
    assert forall|r: int| 0 <= r < n implies #[trigger] poly_eval(
        q.target,
        domain_point(r as nat),
    ) == 0 by {
        target_vanishes_on_domain(n, r as nat);
    }
}

/// The target polynomial is zero at each point of the domain.
pub proof fn target_vanishes_on_domain(n: nat, r: nat)
    requires
        r < n,
    ensures
        poly_eval(vanishing(n), domain_point(r)) == 0,
{
    lemma_eval_basis_numerator(n, n, domain_point(r));
    lemma_point_product_vanishes(n, n, r);
}

/// The target polynomial of a domain of `n` points has degree `n` and leading
/// coefficient one.
pub proof fn target_is_monic(n: nat)
    ensures
        vanishing(n).len() == n + 1,
        vanishing(n)[n as int] == 1,
{
    lemma_numerator_is_monic(n, n);
}

/// The product over the first `k` points, none left out, has degree `k` and
/// leading coefficient one.
proof fn lemma_numerator_is_monic(j: nat, k: nat)
    requires
        k <= j,
    ensures
        basis_numerator(j, k).len() == k + 1,
        basis_numerator(j, k)[k as int] == 1,
    decreases k,
{
    if k > 0 {
        lemma_numerator_is_monic(j, (k - 1) as nat);
        lemma_field_mul_zero(domain_point((k - 1) as nat));
        lemma_small_mod(1, modulus());
    }
}

} // verus!
