//! Polynomials over the scalar field, by their coefficients from the constant term up.

use crate::field::{field_add, field_mul, field_sub, values, Scalar};
use vstd::prelude::*;

verus! {

/// The coefficient of `x^i`, which is zero beyond the stored ones.
pub open spec fn coeff(p: Seq<nat>, i: int) -> nat {
    if 0 <= i < p.len() {
        p[i]
    } else {
        0
    }
}

/// The value of a polynomial at a point.
pub open spec fn poly_eval(p: Seq<nat>, x: nat) -> nat
    decreases p.len(),
{
    if p.len() == 0 {
        0
    } else {
        field_add(p[0], field_mul(x, poly_eval(p.drop_first(), x)))
    }
}

/// The zero polynomial with `n` stored coefficients.
pub open spec fn poly_zero(n: nat) -> Seq<nat> {
    Seq::new(n, |i: int| 0nat)
}

/// The longer of two lengths.
pub open spec fn longer(a: nat, b: nat) -> nat {
    if a >= b {
        a
    } else {
        b
    }
}

/// The sum of two polynomials.
pub open spec fn poly_add(p: Seq<nat>, q: Seq<nat>) -> Seq<nat> {
    Seq::new(longer(p.len(), q.len()), |i: int| field_add(coeff(p, i), coeff(q, i)))
}

/// The difference of two polynomials.
pub open spec fn poly_sub(p: Seq<nat>, q: Seq<nat>) -> Seq<nat> {
    Seq::new(longer(p.len(), q.len()), |i: int| field_sub(coeff(p, i), coeff(q, i)))
}

/// A polynomial times a constant.
pub open spec fn poly_scale(c: nat, p: Seq<nat>) -> Seq<nat> {
    Seq::new(p.len(), |i: int| field_mul(c, p[i]))
}

/// A polynomial times `x - root`.
pub open spec fn poly_mul_linear(p: Seq<nat>, root: nat) -> Seq<nat> {
    Seq::new(p.len() + 1, |i: int| field_sub(coeff(p, i - 1), field_mul(root, coeff(p, i))))
}

/// A polynomial times `x`.
pub open spec fn poly_shift(p: Seq<nat>) -> Seq<nat> {
    seq![0nat] + p
}

/// The product of two polynomials: the constant term of the first times the
/// second, plus `x` times the product of the rest of the first with the second.
pub open spec fn poly_mul(p: Seq<nat>, q: Seq<nat>) -> Seq<nat>
    decreases p.len(),
{
    if p.len() == 0 {
        Seq::empty()
    } else {
        poly_add(poly_scale(p[0], q), poly_shift(poly_mul(p.drop_first(), q)))
    }
}

/// What is left of a polynomial without its constant term.
pub open spec fn poly_rest(p: Seq<nat>) -> Seq<nat> {
    if p.len() == 0 {
        p
    } else {
        p.drop_first()
    }
}

/// The quotient of a polynomial by `x - root`: its coefficient of `x^i` is the
/// value at `root` of what stands above `x^i` in the dividend. The remainder
/// is the value of the dividend at `root`.
pub open spec fn poly_div_linear(p: Seq<nat>, root: nat) -> Seq<nat> {
    Seq::new(
        if p.len() == 0 {
            0
        } else {
            (p.len() - 1) as nat
        },
        |i: int| poly_eval(p.subrange(i + 1, p.len() as int), root),
    )
}

/// A polynomial over the scalar field.
#[derive(Clone, Debug)]
pub struct Polynomial {
    /// The coefficients, from the constant term up.
    pub coeffs: Vec<Scalar>,
}

impl View for Polynomial {
    type V = Seq<nat>;

    open spec fn view(&self) -> Seq<nat> {
        values(self.coeffs@)
    }
}

impl Polynomial {
    /// The zero polynomial with `n` stored coefficients.
    pub fn zeros(n: usize) -> (r: Polynomial)
        ensures
            r@ == poly_zero(n as nat),
    {
        let mut coeffs: Vec<Scalar> = Vec::new();
        let mut i: usize = 0;
        while i < n
            invariant
                i <= n,
                coeffs@.len() == i,
                forall|j: int| 0 <= j < i ==> (#[trigger] coeffs@[j])@ == 0,
            decreases n - i,
        {
            coeffs.push(Scalar::zero());
            i = i + 1;
        }
        let r = Polynomial { coeffs };
        assert(r@ =~= poly_zero(n as nat));
        r
    }

    /// The constant polynomial one.
    pub fn one() -> (r: Polynomial)
        ensures
            r@ == seq![1nat],
    {
        let mut coeffs: Vec<Scalar> = Vec::new();
        coeffs.push(Scalar::one());
        let r = Polynomial { coeffs };
        assert(r@ =~= seq![1nat]);
        r
    }

    /// The number of stored coefficients.
    pub fn len(&self) -> (r: usize)
        ensures
            r == self@.len(),
    {
        self.coeffs.len()
    }

    /// The value at a point, by Horner's rule.
    pub fn eval(&self, x: &Scalar) -> (r: Scalar)
        ensures
            r@ == poly_eval(self@, x@),
    {
        let n = self.coeffs.len();
        let mut acc = Scalar::zero();
        let mut k: usize = n;
        proof {
            assert(self@.subrange(n as int, n as int) =~= Seq::<nat>::empty());
        }
        while k > 0
            invariant
                k <= n,
                n == self.coeffs@.len(),
                acc@ == poly_eval(self@.subrange(k as int, n as int), x@),
            decreases k,
        {
            k = k - 1;
            proof {
                let tail = self@.subrange(k as int, n as int);
                assert(tail.drop_first() =~= self@.subrange(k + 1, n as int));
                assert(tail[0] == self.coeffs@[k as int]@);
            }
            acc = self.coeffs[k].add(&x.mul(&acc));
        }
        proof {
            assert(self@.subrange(0, n as int) =~= self@);
        }
        acc
    }

    /// The coefficient of `x^i`, which is zero beyond the stored ones.
    pub fn coefficient(&self, i: usize) -> (r: Scalar)
        ensures
            r@ == coeff(self@, i as int),
    {
        if i < self.coeffs.len() {
            self.coeffs[i]
        } else {
            Scalar::zero()
        }
    }

    /// The sum of two polynomials.
    pub fn add(&self, other: &Polynomial) -> (r: Polynomial)
        ensures
            r@ == poly_add(self@, other@),
    {
        let n = if self.coeffs.len() >= other.coeffs.len() {
            self.coeffs.len()
        } else {
            other.coeffs.len()
        };
        let mut coeffs: Vec<Scalar> = Vec::new();
        let mut i: usize = 0;
        while i < n
            invariant
                i <= n,
                n == longer(self@.len(), other@.len()),
                coeffs@.len() == i,
                forall|j: int|
                    0 <= j < i ==> (#[trigger] coeffs@[j])@ == field_add(
                        coeff(self@, j),
                        coeff(other@, j),
                    ),
            decreases n - i,
        {
            coeffs.push(self.coefficient(i).add(&other.coefficient(i)));
            i = i + 1;
        }
        let r = Polynomial { coeffs };
        assert(r@ =~= poly_add(self@, other@));
        r
    }

    /// The difference of two polynomials.
    pub fn sub(&self, other: &Polynomial) -> (r: Polynomial)
        ensures
            r@ == poly_sub(self@, other@),
    {
        let n = if self.coeffs.len() >= other.coeffs.len() {
            self.coeffs.len()
        } else {
            other.coeffs.len()
        };
        let mut coeffs: Vec<Scalar> = Vec::new();
        let mut i: usize = 0;
        while i < n
            invariant
                i <= n,
                n == longer(self@.len(), other@.len()),
                coeffs@.len() == i,
                forall|j: int|
                    0 <= j < i ==> (#[trigger] coeffs@[j])@ == field_sub(
                        coeff(self@, j),
                        coeff(other@, j),
                    ),
            decreases n - i,
        {
            coeffs.push(self.coefficient(i).sub(&other.coefficient(i)));
            i = i + 1;
        }
        let r = Polynomial { coeffs };
        assert(r@ =~= poly_sub(self@, other@));
        r
    }

    /// The polynomial times a constant.
    pub fn scale(&self, c: &Scalar) -> (r: Polynomial)
        ensures
            r@ == poly_scale(c@, self@),
    {
        let n = self.coeffs.len();
        let mut coeffs: Vec<Scalar> = Vec::new();
        let mut i: usize = 0;
        while i < n
            invariant
                i <= n,
                n == self@.len(),
                coeffs@.len() == i,
                forall|j: int| 0 <= j < i ==> (#[trigger] coeffs@[j])@ == field_mul(c@, self@[j]),
            decreases n - i,
        {
            coeffs.push(c.mul(&self.coeffs[i]));
            i = i + 1;
        }
        let r = Polynomial { coeffs };
        assert(r@ =~= poly_scale(c@, self@));
        r
    }

    /// The polynomial times `x - root`.
    pub fn mul_linear(&self, root: &Scalar) -> (r: Polynomial)
        requires
            self@.len() < usize::MAX,
        ensures
            r@ == poly_mul_linear(self@, root@),
    {
        let n = self.coeffs.len();
        let mut coeffs: Vec<Scalar> = Vec::new();
        let mut i: usize = 0;
        while i <= n
            invariant
                i <= n + 1,
                n == self@.len(),
                n < usize::MAX,
                coeffs@.len() == i,
                forall|j: int|
                    0 <= j < i ==> (#[trigger] coeffs@[j])@ == field_sub(
                        coeff(self@, j - 1),
                        field_mul(root@, coeff(self@, j)),
                    ),
            decreases n + 1 - i,
        {
            let below = if i > 0 {
                self.coeffs[i - 1]
            } else {
                Scalar::zero()
            };
            coeffs.push(below.sub(&root.mul(&self.coefficient(i))));
            i = i + 1;
        }
        let r = Polynomial { coeffs };
        assert(r@ =~= poly_mul_linear(self@, root@));
        r
    }

    /// The polynomial times `x`.
    pub fn shift(&self) -> (r: Polynomial)
        ensures
            r@ == poly_shift(self@),
    {
        let mut coeffs: Vec<Scalar> = Vec::new();
        coeffs.push(Scalar::zero());
        let mut i: usize = 0;
        while i < self.coeffs.len()
            invariant
                i <= self.coeffs.len(),
                coeffs@.len() == i + 1,
                coeffs@[0]@ == 0,
                forall|j: int| 0 <= j < i ==> (#[trigger] coeffs@[j + 1])@ == self@[j],
            decreases self.coeffs.len() - i,
        {
            coeffs.push(self.coeffs[i]);
            i = i + 1;
        }
        let r = Polynomial { coeffs };
        assert(r@ =~= poly_shift(self@)) by {
            assert forall|j: int| 0 <= j < r@.len() implies r@[j] == poly_shift(self@)[j] by {
                if j > 0 {
                    assert(r.coeffs@[(j - 1) + 1]@ == self@[j - 1]);
                }
            }
        }
        r
    }

    /// The product of two polynomials.
    pub fn mul(&self, other: &Polynomial) -> (r: Polynomial)
        ensures
            r@ == poly_mul(self@, other@),
    {
        let n = self.coeffs.len();
        let mut acc = Polynomial { coeffs: Vec::new() };
        let mut k: usize = n;
        proof {
            assert(self@.subrange(n as int, n as int) =~= Seq::<nat>::empty());
            assert(acc@ =~= Seq::<nat>::empty());
        }
        while k > 0
            invariant
                k <= n,
                n == self.coeffs@.len(),
                acc@ == poly_mul(self@.subrange(k as int, n as int), other@),
            decreases k,
        {
            k = k - 1;
            proof {
                let tail = self@.subrange(k as int, n as int);
                assert(tail.drop_first() =~= self@.subrange(k + 1, n as int));
                assert(tail[0] == self.coeffs@[k as int]@);
            }
            acc = other.scale(&self.coeffs[k]).add(&acc.shift());
        }
        proof {
            assert(self@.subrange(0, n as int) =~= self@);
        }
        acc
    }

    /// The quotient by `x - root`; what is left over is the value at `root`.
    pub fn div_linear(&self, root: &Scalar) -> (r: Polynomial)
        ensures
            r@ == poly_div_linear(self@, root@),
    {
        let n = self.coeffs.len();
        if n == 0 {
            let r = Polynomial { coeffs: Vec::new() };
            assert(r@ =~= poly_div_linear(self@, root@));
            return r;
        }
        // The quotient is found from the top coefficient down, and turned round at the end.
        let mut down: Vec<Scalar> = Vec::new();
        let mut acc = Scalar::zero();
        let mut k: usize = n;
        proof {
            assert(self@.subrange(n as int, n as int) =~= Seq::<nat>::empty());
        }
        while k > 1
            invariant
                1 <= k <= n,
                n == self.coeffs@.len(),
                down@.len() == n - k,
                acc@ == poly_eval(self@.subrange(k as int, n as int), root@),
                forall|j: int|
                    0 <= j < n - k ==> (#[trigger] down@[j])@ == poly_eval(
                        self@.subrange(n - 1 - j, n as int),
                        root@,
                    ),
            decreases k,
        {
            k = k - 1;
            proof {
                let tail = self@.subrange(k as int, n as int);
                assert(tail.drop_first() =~= self@.subrange(k + 1, n as int));
                assert(tail[0] == self.coeffs@[k as int]@);
            }
            acc = self.coeffs[k].add(&root.mul(&acc));
            down.push(acc);
        }
        let mut coeffs: Vec<Scalar> = Vec::new();
        let mut i: usize = 0;
        while i < n - 1
            invariant
                i <= n - 1,
                n == self.coeffs@.len(),
                down@.len() == n - 1,
                coeffs@.len() == i,
                forall|j: int|
                    0 <= j < n - 1 ==> (#[trigger] down@[j])@ == poly_eval(
                        self@.subrange(n - 1 - j, n as int),
                        root@,
                    ),
                forall|j: int|
                    0 <= j < i ==> (#[trigger] coeffs@[j])@ == poly_eval(
                        self@.subrange(j + 1, n as int),
                        root@,
                    ),
            decreases n - 1 - i,
        {
            coeffs.push(down[n - 2 - i]);
            i = i + 1;
        }
        let r = Polynomial { coeffs };
        assert(r@ =~= poly_div_linear(self@, root@));
        r
    }
}

/// The number of coefficients of a product.
pub proof fn lemma_poly_mul_len(p: Seq<nat>, q: Seq<nat>)
    requires
        q.len() >= 1,
    ensures
        poly_mul(p, q).len() == if p.len() == 0 {
            0
        } else {
            (p.len() + q.len() - 1) as nat
        },
    decreases p.len(),
{
    if p.len() > 0 {
        lemma_poly_mul_len(p.drop_first(), q);
    }
}

/// Anything times zero is zero.
pub proof fn lemma_field_mul_zero(a: nat)
    ensures
        field_mul(a, 0) == 0,
        field_mul(0, a) == 0,
{
    assert(a * 0 == 0) by (nonlinear_arith);
    assert(0 * a == 0) by (nonlinear_arith);
}

} // verus!
