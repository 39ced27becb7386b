//! From a constraint system to a quadratic arithmetic program.
//!
//! The evaluation domain of a circuit with `n` constraints is the points
//! 1, 2, ..., `n`. Each wire gets three polynomials, one for each of the rows
//! `a`, `b`, `c`: the sum, over the entries that name the wire, of the entry's
//! coefficient times the Lagrange basis polynomial of the entry's constraint.
//! The target polynomial is the product of `x - point` over the domain.

use crate::field::{field_inv, field_mul, field_sub, modulus, Scalar};
use crate::interpolation::{qap_interpolates, qap_of_interpolates};
use crate::poly::{
    poly_add, poly_mul_linear, poly_scale, poly_zero, Polynomial,
};
use crate::r1cs::{
    constraint_in_range, constraint_views, copy_row, row_in_range, row_view, Circuit, CircuitView,
    Constraint, ConstraintView, Term, MAX_DOMAIN_SIZE,
};
use vstd::arithmetic::div_mod::{lemma_mod_add_multiples_vanish, lemma_small_mod};
use vstd::prelude::*;

verus! {

/// The point of the evaluation domain that belongs to constraint `j`.
pub open spec fn domain_point(j: nat) -> nat {
    j + 1
}

/// The product of `x - point` over the first `k` points of the domain but point `j`.
pub open spec fn basis_numerator(j: nat, k: nat) -> Seq<nat>
    decreases k,
{
    if k == 0 {
        seq![1nat]
    } else if (k - 1) as nat == j {
        basis_numerator(j, (k - 1) as nat)
    } else {
        poly_mul_linear(basis_numerator(j, (k - 1) as nat), domain_point((k - 1) as nat))
    }
}

/// The product of the inverses of `point j - point` over the first `k`
/// points of the domain but point `j`.
pub open spec fn basis_weight(j: nat, k: nat) -> nat
    decreases k,
{
    if k == 0 {
        1
    } else if (k - 1) as nat == j {
        basis_weight(j, (k - 1) as nat)
    } else {
        field_mul(
            basis_weight(j, (k - 1) as nat),
            field_inv(field_sub(domain_point(j), domain_point((k - 1) as nat))),
        )
    }
}

/// The Lagrange basis polynomial of point `j` in a domain of `n` points: the
/// product over the other points of `(x - point) / (point j - point)`.
pub open spec fn lagrange_basis(j: nat, n: nat) -> Seq<nat> {
    poly_scale(basis_weight(j, n), basis_numerator(j, n))
}

/// The target polynomial of a domain of `n` points: the monic polynomial
/// that is the product of `x - point` over all of them.
pub open spec fn vanishing(n: nat) -> Seq<nat> {
    basis_numerator(n, n)
}

/// The polynomial of wire `i` after the first `j` rows and the first `k`
/// entries of row `j` have been added up.
pub open spec fn wire_sum(rows: Seq<Seq<(nat, nat)>>, i: nat, j: nat, k: nat) -> Seq<nat>
    decreases j, k,
{
    if k > 0 {
        let entry = rows[j as int][k - 1];
        let before = wire_sum(rows, i, j, (k - 1) as nat);
        if entry.0 == i {
            poly_add(before, poly_scale(entry.1, lagrange_basis(j, rows.len())))
        } else {
            before
        }
    } else if j > 0 {
        wire_sum(rows, i, (j - 1) as nat, rows[j - 1].len())
    } else {
        poly_zero(rows.len())
    }
}

/// The polynomial of wire `i` for one of the three matrices, given by its rows.
pub open spec fn wire_poly(rows: Seq<Seq<(nat, nat)>>, i: nat) -> Seq<nat> {
    wire_sum(rows, i, rows.len(), 0)
}

/// The polynomials of the first `m` wires for one of the three matrices.
pub open spec fn wire_polys(rows: Seq<Seq<(nat, nat)>>, m: nat) -> Seq<Seq<nat>> {
    Seq::new(m, |i: int| wire_poly(rows, i as nat))
}

/// The `a` rows of a list of constraints.
pub open spec fn a_rows(cs: Seq<ConstraintView>) -> Seq<Seq<(nat, nat)>> {
    Seq::new(cs.len(), |j: int| cs[j].a)
}

/// The `b` rows of a list of constraints.
pub open spec fn b_rows(cs: Seq<ConstraintView>) -> Seq<Seq<(nat, nat)>> {
    Seq::new(cs.len(), |j: int| cs[j].b)
}

/// The `c` rows of a list of constraints.
pub open spec fn c_rows(cs: Seq<ConstraintView>) -> Seq<Seq<(nat, nat)>> {
    Seq::new(cs.len(), |j: int| cs[j].c)
}

/// A quadratic arithmetic program as mathematics sees it.
pub struct QapView {
    pub a: Seq<Seq<nat>>,
    pub b: Seq<Seq<nat>>,
    pub c: Seq<Seq<nat>>,
    pub target: Seq<nat>,
}

/// The quadratic arithmetic program of a circuit.
pub open spec fn qap_of(c: CircuitView) -> QapView {
    QapView {
        a: wire_polys(a_rows(c.constraints), c.variable_count),
        b: wire_polys(b_rows(c.constraints), c.variable_count),
        c: wire_polys(c_rows(c.constraints), c.variable_count),
        target: vanishing(c.constraints.len()),
    }
}

/// The views of a list of polynomials.
pub open spec fn poly_views(polys: Seq<Polynomial>) -> Seq<Seq<nat>> {
    Seq::new(polys.len(), |i: int| polys[i]@)
}

/// The polynomials of a circuit: for each wire one for each of `a`, `b`, `c`,
/// and the target polynomial.
#[derive(Debug)]
pub struct Qap {
    pub a: Vec<Polynomial>,
    pub b: Vec<Polynomial>,
    pub c: Vec<Polynomial>,
    pub target: Polynomial,
}

impl View for Qap {
    type V = QapView;

    open spec fn view(&self) -> QapView {
        QapView {
            a: poly_views(self.a@),
            b: poly_views(self.b@),
            c: poly_views(self.c@),
            target: self.target@,
        }
    }
}

/// Two different points of the domain have a difference that is not zero in the field.
pub proof fn lemma_domain_points_differ(j: nat, k: nat)
    requires
        j != k,
        j < MAX_DOMAIN_SIZE,
        k < MAX_DOMAIN_SIZE,
    ensures
        field_sub(domain_point(j), domain_point(k)) != 0,
{
    let m = modulus() as int;
    let d = j as int - k as int;
    if d > 0 {
        lemma_small_mod(d as nat, modulus());
    } else {
        lemma_mod_add_multiples_vanish(d, m);
        lemma_small_mod((m + d) as nat, modulus());
    }
}

/// The number of coefficients of the product over the first `k` points but point `j`.
pub proof fn lemma_basis_numerator_len(j: nat, k: nat)
    ensures
        basis_numerator(j, k).len() == if j < k {
            k
        } else {
            k + 1
        },
    decreases k,
{
    if k > 0 {
        lemma_basis_numerator_len(j, (k - 1) as nat);
    }
}

/// Every Lagrange basis polynomial of a domain has as many coefficients as
/// the domain has points.
pub proof fn lemma_lagrange_basis_len(j: nat, n: nat)
    requires
        j < n,
    ensures
        lagrange_basis(j, n).len() == n,
{
    lemma_basis_numerator_len(j, n);
}

/// Every partial sum of a wire polynomial has as many coefficients as the
/// domain has points.
pub proof fn lemma_wire_sum_len(rows: Seq<Seq<(nat, nat)>>, i: nat, j: nat, k: nat)
    requires
        j <= rows.len(),
        j < rows.len() ==> k <= rows[j as int].len(),
        j == rows.len() ==> k == 0,
    ensures
        wire_sum(rows, i, j, k).len() == rows.len(),
    decreases j, k,
{
    if k > 0 {
        lemma_wire_sum_len(rows, i, j, (k - 1) as nat);
        lemma_lagrange_basis_len(j, rows.len());
    } else if j > 0 {
        lemma_wire_sum_len(rows, i, (j - 1) as nat, rows[j - 1].len());
    }
}

/// The point of the domain that belongs to constraint `j`, as a field element.
pub fn point_of(j: usize) -> (r: Scalar)
    requires
        j < MAX_DOMAIN_SIZE,
    ensures
        r@ == domain_point(j as nat),
{
    Scalar::from_u64((j + 1) as u64)
}

/// The product of `x - point` over the first `n` points of the domain but
/// point `skip`, together with the product of the inverses of
/// `point skip - point` over the same points.
fn basis_parts(skip: usize, n: usize) -> (r: (Polynomial, Scalar))
    requires
        n <= MAX_DOMAIN_SIZE,
        skip < n,
    ensures
        r.0@ == basis_numerator(skip as nat, n as nat),
        r.1@ == basis_weight(skip as nat, n as nat),
{
    let mut numerator = Polynomial::one();
    let mut weight = Scalar::one();
    let mut k: usize = 0;
    while k < n
        invariant
            k <= n,
            n <= MAX_DOMAIN_SIZE,
            skip < n,
            numerator@ == basis_numerator(skip as nat, k as nat),
            weight@ == basis_weight(skip as nat, k as nat),
        decreases n - k,
    {
        if k != skip {
            let point = point_of(k);
            proof {
                lemma_basis_numerator_len(skip as nat, k as nat);
            }
            numerator = numerator.mul_linear(&point);
            proof {
                lemma_domain_points_differ(skip as nat, k as nat);
            }
            let difference = point_of(skip).sub(&point);
            weight = weight.mul(&difference.inverse_of_nonzero());
        }
        k = k + 1;
    }
    (numerator, weight)
}

/// The Lagrange basis polynomials of a domain of `n` points.
pub fn lagrange_bases(n: usize) -> (r: Vec<Polynomial>)
    requires
        n <= MAX_DOMAIN_SIZE,
    ensures
        r@.len() == n,
        forall|j: int| 0 <= j < n ==> (#[trigger] r@[j])@ == lagrange_basis(j as nat, n as nat),
{
    let mut bases: Vec<Polynomial> = Vec::new();
    let mut j: usize = 0;
    while j < n
        invariant
            j <= n,
            n <= MAX_DOMAIN_SIZE,
            bases@.len() == j,
            forall|i: int|
                0 <= i < j ==> (#[trigger] bases@[i])@ == lagrange_basis(i as nat, n as nat),
        decreases n - j,
    {
        let parts = basis_parts(j, n);
        bases.push(parts.0.scale(&parts.1));
        j = j + 1;
    }
    bases
}

/// The target polynomial of a domain of `n` points.
pub fn target_polynomial(n: usize) -> (r: Polynomial)
    requires
        n <= MAX_DOMAIN_SIZE,
    ensures
        r@ == vanishing(n as nat),
{
    let mut product = Polynomial::one();
    let mut k: usize = 0;
    while k < n
        invariant
            k <= n,
            n <= MAX_DOMAIN_SIZE,
            product@ == basis_numerator(n as nat, k as nat),
        decreases n - k,
    {
        proof {
            lemma_basis_numerator_len(n as nat, k as nat);
        }
        product = product.mul_linear(&point_of(k));
        k = k + 1;
    }
    product
}

/// The views of a list of rows.
pub open spec fn rows_view(rows: Seq<Vec<Term>>) -> Seq<Seq<(nat, nat)>> {
    Seq::new(rows.len(), |j: int| row_view(rows[j]@))
}

/// The polynomials of all wires for one of the three matrices, given by its rows.
fn wire_polynomials(rows: &Vec<Vec<Term>>, variable_count: usize, bases: &Vec<Polynomial>) -> (r:
    Vec<Polynomial>)
    requires
        bases@.len() == rows@.len(),
        forall|j: int|
            0 <= j < rows@.len() ==> (#[trigger] bases@[j])@ == lagrange_basis(
                j as nat,
                rows@.len(),
            ),
        forall|j: int|
            0 <= j < rows@.len() ==> row_in_range(
                #[trigger] rows_view(rows@)[j],
                variable_count as nat,
            ),
    ensures
        poly_views(r@) == wire_polys(rows_view(rows@), variable_count as nat),
{
    let n = rows.len();
    let ghost rv = rows_view(rows@);
    let mut polys: Vec<Polynomial> = Vec::new();
    let mut i: usize = 0;
    while i < variable_count
        invariant
            i <= variable_count,
            n == rows@.len(),
            rv == rows_view(rows@),
            polys@.len() == i,
            forall|v: int| 0 <= v < i ==> (#[trigger] polys@[v])@ == wire_sum(rv, v as nat, 0, 0),
        decreases variable_count - i,
    {
        polys.push(Polynomial::zeros(n));
        i = i + 1;
    }
    let mut j: usize = 0;
    while j < n
        invariant
            j <= n,
            n == rows@.len(),
            bases@.len() == n,
            rv == rows_view(rows@),
            polys@.len() == variable_count,
            forall|j: int|
                0 <= j < rows@.len() ==> (#[trigger] bases@[j])@ == lagrange_basis(
                    j as nat,
                    rows@.len(),
                ),
            forall|j: int|
                0 <= j < rows@.len() ==> row_in_range(
                    #[trigger] rows_view(rows@)[j],
                    variable_count as nat,
                ),
            forall|v: int|
                0 <= v < variable_count ==> (#[trigger] polys@[v])@ == wire_sum(
                    rv,
                    v as nat,
                    j as nat,
                    0,
                ),
        decreases n - j,
    {
        let row = &rows[j];
        let mut k: usize = 0;
        while k < row.len()
            invariant
                k <= row.len(),
                j < n,
                n == rows@.len(),
                bases@.len() == n,
                row == &rows@[j as int],
                rv == rows_view(rows@),
                polys@.len() == variable_count,
                bases@[j as int]@ == lagrange_basis(j as nat, n as nat),
                row_in_range(rows_view(rows@)[j as int], variable_count as nat),
                forall|v: int|
                    0 <= v < variable_count ==> (#[trigger] polys@[v])@ == wire_sum(
                        rv,
                        v as nat,
                        j as nat,
                        k as nat,
                    ),
            decreases row.len() - k,
        {
            let term = row[k];
            proof {
                assert(rv[j as int][k as int] == (term.variable as nat, term.coefficient@));
                assert(rv[j as int][k as int].0 < variable_count);
            }
            let scaled = bases[j].scale(&term.coefficient);
            let updated = polys[term.variable].add(&scaled);
            polys[term.variable] = updated;
            k = k + 1;
        }
        proof {
            assert(rv[j as int].len() == row@.len());
        }
        j = j + 1;
    }
    proof {
        assert(poly_views(polys@) =~= wire_polys(rv, variable_count as nat));
    }
    polys
}

/// One of the three rows of a constraint: 0 for `a`, 1 for `b`, anything else for `c`.
pub open spec fn select_row(c: ConstraintView, which: u8) -> Seq<(nat, nat)> {
    if which == 0 {
        c.a
    } else if which == 1 {
        c.b
    } else {
        c.c
    }
}

/// The rows of one of the three matrices.
pub open spec fn select_rows(cs: Seq<ConstraintView>, which: u8) -> Seq<Seq<(nat, nat)>> {
    Seq::new(cs.len(), |j: int| select_row(cs[j], which))
}

/// Copies out the rows of one of the three matrices.
fn collect_rows(constraints: &Vec<Constraint>, which: u8) -> (r: Vec<Vec<Term>>)
    ensures
        rows_view(r@) == select_rows(constraint_views(constraints@), which),
{
    let mut rows: Vec<Vec<Term>> = Vec::new();
    let mut j: usize = 0;
    while j < constraints.len()
        invariant
            j <= constraints.len(),
            rows@.len() == j,
            forall|k: int|
                0 <= k < j ==> row_view((#[trigger] rows@[k])@) == select_row(
                    constraints@[k]@,
                    which,
                ),
        decreases constraints.len() - j,
    {
        let c = &constraints[j];
        let row = if which == 0 {
            copy_row(&c.a)
        } else if which == 1 {
            copy_row(&c.b)
        } else {
            copy_row(&c.c)
        };
        rows.push(row);
        j = j + 1;
    }
    assert(rows_view(rows@) =~= select_rows(constraint_views(constraints@), which));
    rows
}

impl Qap {
    /// The quadratic arithmetic program of a circuit: for each wire the
    /// polynomials that take the values of the wire's entries at the points
    /// of the constraints, and the target polynomial that is zero there.
    pub fn from_circuit(circuit: &Circuit) -> (r: Qap)
        ensures
            r@ == qap_of(circuit@),
            qap_interpolates(circuit@, r@),
    {
        proof {
            use_type_invariant(circuit);
            qap_of_interpolates(circuit@);
        }
        let constraints = circuit.constraints();
        let ghost cs = circuit@.constraints;
        let n = constraints.len();
        let m = circuit.variable_count();
        let bases = lagrange_bases(n);
        let rows_a = collect_rows(constraints, 0);
        let rows_b = collect_rows(constraints, 1);
        let rows_c = collect_rows(constraints, 2);
        proof {
            assert(select_rows(cs, 0) =~= a_rows(cs));
            assert(select_rows(cs, 1) =~= b_rows(cs));
            assert(select_rows(cs, 2) =~= c_rows(cs));
            assert forall|j: int| 0 <= j < n implies row_in_range(
                #[trigger] rows_view(rows_a@)[j],
                m as nat,
            ) && row_in_range(#[trigger] rows_view(rows_b@)[j], m as nat) && row_in_range(
                #[trigger] rows_view(rows_c@)[j],
                m as nat,
            ) by {
                assert(constraint_in_range(cs[j], m as nat));
            }
        }
        let a = wire_polynomials(&rows_a, m, &bases);
        let b = wire_polynomials(&rows_b, m, &bases);
        let c = wire_polynomials(&rows_c, m, &bases);
        let target = target_polynomial(n);
        Qap { a, b, c, target }
    }
}

} // verus!
