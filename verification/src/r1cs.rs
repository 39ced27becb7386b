//! Circuits as rank-1 constraint systems.
//!
//! A circuit has some number of variables, the first of which are public
//! inputs. Each constraint holds three sparse rows `a`, `b`, `c` over the
//! variables; an assignment satisfies it when the value of `a` times the
//! value of `b` is the value of `c`.

use crate::error::Groth16Error;
use crate::field::{field_add, field_mul, modulus, values, Scalar};
use vstd::prelude::*;

verus! {

/// The largest number of constraints, which is the size of the largest
/// evaluation domain. The differences of the points of a domain must have
/// inverses in the field; up to this size that is proved, number by number.
pub const MAX_DOMAIN_SIZE: usize = 256;

/// One entry of a sparse row: a coefficient on a variable.
#[derive(Clone, Copy, Debug)]
pub struct Term {
    /// The index of the variable.
    pub variable: usize,
    /// The coefficient on it.
    pub coefficient: Scalar,
}

/// One constraint: the rows `a`, `b` and `c`.
#[derive(Clone, Debug)]
pub struct Constraint {
    pub a: Vec<Term>,
    pub b: Vec<Term>,
    pub c: Vec<Term>,
}

/// A constraint as mathematics sees it: each row a list of (variable, coefficient).
pub struct ConstraintView {
    pub a: Seq<(nat, nat)>,
    pub b: Seq<(nat, nat)>,
    pub c: Seq<(nat, nat)>,
}

/// A circuit as mathematics sees it.
pub struct CircuitView {
    pub constraints: Seq<ConstraintView>,
    pub variable_count: nat,
    pub public_input_count: nat,
}

/// The entries of a row as (variable, coefficient).
pub open spec fn row_view(row: Seq<Term>) -> Seq<(nat, nat)> {
    Seq::new(row.len(), |i: int| (row[i].variable as nat, row[i].coefficient@))
}

impl View for Constraint {
    type V = ConstraintView;

    open spec fn view(&self) -> ConstraintView {
        ConstraintView { a: row_view(self.a@), b: row_view(self.b@), c: row_view(self.c@) }
    }
}

/// The views of a list of constraints.
pub open spec fn constraint_views(constraints: Seq<Constraint>) -> Seq<ConstraintView> {
    Seq::new(constraints.len(), |i: int| constraints[i]@)
}

/// Whether every entry of a row names a variable below `variable_count`.
pub open spec fn row_in_range(row: Seq<(nat, nat)>, variable_count: nat) -> bool {
    forall|i: int| 0 <= i < row.len() ==> (#[trigger] row[i]).0 < variable_count
}

/// Whether the three rows of a constraint name variables below `variable_count`.
pub open spec fn constraint_in_range(c: ConstraintView, variable_count: nat) -> bool {
    row_in_range(c.a, variable_count) && row_in_range(c.b, variable_count) && row_in_range(
        c.c,
        variable_count,
    )
}

/// Whether every constraint names variables below `variable_count`.
pub open spec fn constraints_in_range(cs: Seq<ConstraintView>, variable_count: nat) -> bool {
    forall|j: int| 0 <= j < cs.len() ==> constraint_in_range(#[trigger] cs[j], variable_count)
}

/// What a circuit must fulfil: the public inputs are among the variables, the
/// constraints fit the largest domain, and the rows name variables that exist.
pub open spec fn well_formed(c: CircuitView) -> bool {
    &&& c.public_input_count <= c.variable_count
    &&& c.constraints.len() <= MAX_DOMAIN_SIZE
    &&& constraints_in_range(c.constraints, c.variable_count)
}

/// Whether every coefficient of a row is a reduced field element.
pub open spec fn row_reduced(row: Seq<(nat, nat)>) -> bool {
    forall|i: int| 0 <= i < row.len() ==> (#[trigger] row[i]).1 < modulus()
}

/// Whether every coefficient of a circuit is a reduced field element, as
/// those of every circuit held in memory are.
pub open spec fn coefficients_reduced(c: CircuitView) -> bool {
    forall|j: int|
        0 <= j < c.constraints.len() ==> row_reduced((#[trigger] c.constraints[j]).a)
            && row_reduced(c.constraints[j].b) && row_reduced(c.constraints[j].c)
}

/// The value of a row under an assignment: the sum of coefficient times variable.
pub open spec fn row_value(row: Seq<(nat, nat)>, w: Seq<nat>) -> nat
    decreases row.len(),
{
    if row.len() == 0 {
        0
    } else {
        field_add(row_value(row.drop_last(), w), field_mul(row.last().1, w[row.last().0 as int]))
    }
}

/// Whether an assignment satisfies one constraint.
pub open spec fn constraint_holds(c: ConstraintView, w: Seq<nat>) -> bool {
    field_mul(row_value(c.a, w), row_value(c.b, w)) == row_value(c.c, w)
}

/// Whether an assignment has one value for each variable and satisfies every constraint.
pub open spec fn satisfied(c: CircuitView, w: Seq<nat>) -> bool {
    &&& w.len() == c.variable_count
    &&& forall|j: int|
        0 <= j < c.constraints.len() ==> constraint_holds(#[trigger] c.constraints[j], w)
}

/// A circuit: constraints over `variable_count` variables, the first
/// `public_input_count` of which are public.
#[derive(Debug)]
pub struct Circuit {
    pub(crate) constraints: Vec<Constraint>,
    pub(crate) variable_count: usize,
    pub(crate) public_input_count: usize,
}

impl View for Circuit {
    type V = CircuitView;

    closed spec fn view(&self) -> CircuitView {
        CircuitView {
            constraints: constraint_views(self.constraints@),
            variable_count: self.variable_count as nat,
            public_input_count: self.public_input_count as nat,
        }
    }
}

/// Whether every entry of a row names a variable below `variable_count`.
fn check_row(row: &Vec<Term>, variable_count: usize) -> (r: bool)
    ensures
        r == row_in_range(row_view(row@), variable_count as nat),
{
    let mut i: usize = 0;
    while i < row.len()
        invariant
            i <= row.len(),
            forall|k: int| 0 <= k < i ==> (#[trigger] row_view(row@)[k]).0 < variable_count,
        decreases row.len() - i,
    {
        if row[i].variable >= variable_count {
            assert(row_view(row@)[i as int].0 >= variable_count);
            return false;
        }
        i = i + 1;
    }
    true
}

/// A copy of a row.
pub(crate) fn copy_row(row: &Vec<Term>) -> (r: Vec<Term>)
    ensures
        r@ == row@,
{
    let mut out: Vec<Term> = Vec::new();
    let mut i: usize = 0;
    while i < row.len()
        invariant
            i <= row.len(),
            out@ == row@.take(i as int),
        decreases row.len() - i,
    {
        out.push(row[i]);
        assert(out@ =~= row@.take(i + 1));
        i = i + 1;
    }
    assert(row@.take(row@.len() as int) =~= row@);
    out
}

/// The value of a row under an assignment.
fn eval_row(row: &Vec<Term>, w: &Vec<Scalar>) -> (r: Scalar)
    requires
        row_in_range(row_view(row@), w@.len()),
    ensures
        r@ == row_value(row_view(row@), values(w@)),
{
    let mut acc = Scalar::zero();
    let mut i: usize = 0;
    proof {
        assert(row_view(row@).take(0) =~= Seq::<(nat, nat)>::empty());
    }
    while i < row.len()
        invariant
            i <= row.len(),
            row_in_range(row_view(row@), w@.len()),
            acc@ == row_value(row_view(row@).take(i as int), values(w@)),
        decreases row.len() - i,
    {
        proof {
            let full = row_view(row@);
            assert(full.take(i + 1).drop_last() =~= full.take(i as int));
            assert(full.take(i + 1).last() == full[i as int]);
            assert(full[i as int].0 < w@.len());
        }
        let term = &row[i];
        acc = acc.add(&term.coefficient.mul(&w[term.variable]));
        i = i + 1;
    }
    proof {
        assert(row_view(row@).take(row@.len() as int) =~= row_view(row@));
    }
    acc
}

impl Circuit {
    /// Every circuit held is well formed.
    #[verifier::type_invariant]
    pub open spec fn is_well_formed(self) -> bool {
        well_formed(self@)
    }

    /// Makes a circuit of its parts. More constraints than the largest domain
    /// holds are refused as too large, and counts or variables that do not fit
    /// together as malformed.
    pub fn new(constraints: Vec<Constraint>, variable_count: usize, public_input_count: usize) -> (r:
        Result<Circuit, Groth16Error>)
        ensures
            constraints@.len() > MAX_DOMAIN_SIZE ==> r == Err::<Circuit, Groth16Error>(
                Groth16Error::SetupSizeError,
            ),
            constraints@.len() <= MAX_DOMAIN_SIZE && !(public_input_count <= variable_count
                && constraints_in_range(constraint_views(constraints@), variable_count as nat))
                ==> r == Err::<Circuit, Groth16Error>(Groth16Error::SerializationError),
            constraints@.len() <= MAX_DOMAIN_SIZE && public_input_count <= variable_count
                && constraints_in_range(constraint_views(constraints@), variable_count as nat)
                ==> r is Ok && r->Ok_0@ == (CircuitView {
                constraints: constraint_views(constraints@),
                variable_count: variable_count as nat,
                public_input_count: public_input_count as nat,
            }),
    {
        if constraints.len() > MAX_DOMAIN_SIZE {
            return Err(Groth16Error::SetupSizeError);
        }
        if public_input_count > variable_count {
            return Err(Groth16Error::SerializationError);
        }
        let mut j: usize = 0;
        while j < constraints.len()
            invariant
                j <= constraints.len(),
                constraints@.len() <= MAX_DOMAIN_SIZE,
                forall|k: int|
                    0 <= k < j ==> constraint_in_range(
                        #[trigger] constraint_views(constraints@)[k],
                        variable_count as nat,
                    ),
            decreases constraints.len() - j,
        {
            let c = &constraints[j];
            if !(check_row(&c.a, variable_count) && check_row(&c.b, variable_count) && check_row(
                &c.c,
                variable_count,
            )) {
                assert(!constraint_in_range(
                    constraint_views(constraints@)[j as int],
                    variable_count as nat,
                ));
                return Err(Groth16Error::SerializationError);
            }
            j = j + 1;
        }
        Ok(Circuit { constraints, variable_count, public_input_count })
    }

    /// A copy of the circuit.
    pub fn duplicate(&self) -> (r: Circuit)
        ensures
            r@ == self@,
    {
        proof {
            use_type_invariant(self);
        }
        let mut constraints: Vec<Constraint> = Vec::new();
        let mut j: usize = 0;
        while j < self.constraints.len()
            invariant
                j <= self.constraints.len(),
                constraints@.len() == j,
                forall|k: int|
                    0 <= k < j ==> (#[trigger] constraints@[k])@ == self.constraints@[k]@,
            decreases self.constraints.len() - j,
        {
            let c = &self.constraints[j];
            constraints.push(
                Constraint { a: copy_row(&c.a), b: copy_row(&c.b), c: copy_row(&c.c) },
            );
            j = j + 1;
        }
        assert(constraint_views(constraints@) =~= constraint_views(self.constraints@));
        Circuit {
            constraints,
            variable_count: self.variable_count,
            public_input_count: self.public_input_count,
        }
    }

    /// The number of variables.
    pub fn variable_count(&self) -> (r: usize)
        ensures
            r == self@.variable_count,
    {
        self.variable_count
    }

    /// The number of public inputs, which are the first variables.
    pub fn public_input_count(&self) -> (r: usize)
        ensures
            r == self@.public_input_count,
    {
        self.public_input_count
    }

    /// The number of constraints.
    pub fn constraint_count(&self) -> (r: usize)
        ensures
            r == self@.constraints.len(),
    {
        self.constraints.len()
    }

    /// The constraints.
    pub fn constraints(&self) -> (r: &Vec<Constraint>)
        ensures
            constraint_views(r@) == self@.constraints,
    {
        &self.constraints
    }

    /// Whether an assignment has one value for each variable and satisfies every constraint.
    pub fn is_satisfied(&self, w: &Vec<Scalar>) -> (r: bool)
        ensures
            r == satisfied(self@, values(w@)),
    {
        proof {
            use_type_invariant(self);
        }
        if w.len() != self.variable_count {
            return false;
        }
        let mut j: usize = 0;
        while j < self.constraints.len()
            invariant
                j <= self.constraints.len(),
                w@.len() == self.variable_count,
                well_formed(self@),
                forall|k: int|
                    0 <= k < j ==> constraint_holds(#[trigger] self@.constraints[k], values(w@)),
            decreases self.constraints.len() - j,
        {
            let c = &self.constraints[j];
            proof {
                assert(self@.constraints[j as int] == c@);
                assert(constraint_in_range(self@.constraints[j as int], self@.variable_count));
            }
            let a = eval_row(&c.a, w);
            let b = eval_row(&c.b, w);
            let cv = eval_row(&c.c, w);
            if !a.mul(&b).equals(&cv) {
                assert(!constraint_holds(self@.constraints[j as int], values(w@)));
                return false;
            }
            j = j + 1;
        }
        true
    }
}

} // verus!
