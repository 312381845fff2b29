//! A small constraint-system description language: variables, linear and
//! quadratic constraints over them, and a witness checker. Coefficient
//! maps are association lists from variable index to coefficient.

use vstd::prelude::*;

verus! {

/// A circuit variable with an optional witness value.
#[derive(Debug, Clone)]
pub struct Variable {
    pub name: String,
    pub var_type: VariableType,
    pub value: Option<i64>,
}

#[derive(Debug, Clone)]
pub enum VariableType {
    Field,
    Boolean,
    UInt(usize),
}

/// One constraint `(sum(a) + constant) * sum(b) = sum(c)`; with an empty
/// `b` part it degenerates to the linear form `sum(a) + constant = sum(c)`.
#[derive(Debug, Clone)]
pub struct LinearConstraint {
    pub a: Vec<(usize, i64)>,
    pub b: Vec<(usize, i64)>,
    pub c: Vec<(usize, i64)>,
    pub constant: i64,
}

/// The witness value contributed by one coefficient entry: coefficient
/// times value for an assigned in-range variable, nothing otherwise.
pub open spec fn spec_term(vars: Seq<Variable>, entry: (usize, i64)) -> int {
    if entry.0 < vars.len() && vars[entry.0 as int].value is Some {
        entry.1 * vars[entry.0 as int].value->0
    } else {
        0
    }
}

/// The mathematical value of a linear combination.
pub open spec fn spec_lc_value(vars: Seq<Variable>, coeffs: Seq<(usize, i64)>) -> int
    decreases coeffs.len(),
{
    if coeffs.len() == 0 {
        0
    } else {
        spec_term(vars, coeffs[0]) + spec_lc_value(vars, coeffs.drop_first())
    }
}

/// Whether the left-to-right accumulation of a linear combination stays
/// within the checker's 128-bit accumulator, starting from `acc`.
pub open spec fn spec_lc_fits(vars: Seq<Variable>, coeffs: Seq<(usize, i64)>, acc: int) -> bool
    decreases coeffs.len(),
{
    if coeffs.len() == 0 {
        true
    } else {
        let next = acc + spec_term(vars, coeffs[0]);
        &&& i128::MIN <= next <= i128::MAX
        &&& spec_lc_fits(vars, coeffs.drop_first(), next)
    }
}

/// Whether one constraint is satisfied by the witness, evaluated exactly.
pub open spec fn spec_constraint_satisfied(vars: Seq<Variable>, c: LinearConstraint) -> bool {
    let a_sum = spec_lc_value(vars, c.a@) + c.constant;
    if c.b@.len() == 0 {
        a_sum == spec_lc_value(vars, c.c@)
    } else {
        a_sum * spec_lc_value(vars, c.b@) == spec_lc_value(vars, c.c@)
    }
}

/// Whether the checker can evaluate one constraint without leaving its
/// accumulator range.
pub open spec fn spec_constraint_fits(vars: Seq<Variable>, c: LinearConstraint) -> bool {
    &&& spec_lc_fits(vars, c.a@, 0)
    &&& spec_lc_fits(vars, c.b@, 0)
    &&& spec_lc_fits(vars, c.c@, 0)
    &&& i128::MIN <= spec_lc_value(vars, c.a@) + c.constant <= i128::MAX
    &&& (c.b@.len() > 0 ==> i128::MIN <= (spec_lc_value(vars, c.a@) + c.constant)
        * spec_lc_value(vars, c.b@) <= i128::MAX)
}

/// A generic constraint system with public and private input markers.
#[derive(Debug, Clone)]
pub struct ConstraintSystem {
    pub variables: Vec<Variable>,
    pub constraints: Vec<LinearConstraint>,
    pub public_inputs: Vec<usize>,
    pub private_inputs: Vec<usize>,
}

impl ConstraintSystem {
    pub fn new() -> (r: ConstraintSystem)
        ensures
            r.variables@.len() == 0,
            r.constraints@.len() == 0,
            r.public_inputs@.len() == 0,
            r.private_inputs@.len() == 0,
    {
        ConstraintSystem {
            variables: Vec::new(),
            constraints: Vec::new(),
            public_inputs: Vec::new(),
            private_inputs: Vec::new(),
        }
    }

    /// Adds an unassigned variable and returns its index.
    pub fn add_variable(&mut self, name: String, var_type: VariableType) -> (r: usize)
        ensures
            r == old(self).variables@.len(),
            final(self).variables@.len() == old(self).variables@.len() + 1,
            final(self).variables@.last().value is None,
            final(self).variables@.last().name@ == name@,
            final(self).variables@.last().var_type == var_type,
            final(self).variables@.take(old(self).variables@.len() as int) == old(
                self,
            ).variables@,
            final(self).constraints == old(self).constraints,
            final(self).public_inputs == old(self).public_inputs,
            final(self).private_inputs == old(self).private_inputs,
    {
        let index = self.variables.len();
        self.variables.push(Variable { name, var_type, value: None });
        proof {
            assert(self.variables@.take(self.variables@.len() - 1) =~= old(self).variables@);
        }
        index
    }

    /// Marks a variable as a public input, once.
    pub fn add_public_input(&mut self, var_index: usize)
        ensures
            final(self).public_inputs@.contains(var_index),
            old(self).public_inputs@.contains(var_index) ==> final(self).public_inputs == old(
                self,
            ).public_inputs,
            !old(self).public_inputs@.contains(var_index) ==> final(self).public_inputs@ == old(
                self,
            ).public_inputs@.push(var_index),
            final(self).variables == old(self).variables,
            final(self).constraints == old(self).constraints,
            final(self).private_inputs == old(self).private_inputs,
    {
        if !contains_index(&self.public_inputs, var_index) {
            self.public_inputs.push(var_index);
            proof {
                assert(self.public_inputs@.last() == var_index);
            }
        }
    }

    /// Marks a variable as a private input, once.
    pub fn add_private_input(&mut self, var_index: usize)
        ensures
            final(self).private_inputs@.contains(var_index),
            old(self).private_inputs@.contains(var_index) ==> final(self).private_inputs == old(
                self,
            ).private_inputs,
            !old(self).private_inputs@.contains(var_index) ==> final(self).private_inputs@ == old(
                self,
            ).private_inputs@.push(var_index),
            final(self).variables == old(self).variables,
            final(self).constraints == old(self).constraints,
            final(self).public_inputs == old(self).public_inputs,
    {
        if !contains_index(&self.private_inputs, var_index) {
            self.private_inputs.push(var_index);
            proof {
                assert(self.private_inputs@.last() == var_index);
            }
        }
    }

    /// Appends a constraint.
    pub fn add_constraint(&mut self, constraint: LinearConstraint)
        ensures
            final(self).constraints@ == old(self).constraints@.push(constraint),
            final(self).variables == old(self).variables,
            final(self).public_inputs == old(self).public_inputs,
            final(self).private_inputs == old(self).private_inputs,
    {
        self.constraints.push(constraint);
    }

    /// Adds the two one-sided constraints of `min <= var <= max`.
    pub fn add_range_constraint(&mut self, var_index: usize, min: i64, max: i64)
        requires
            min > i64::MIN,
        ensures
            final(self).constraints@.len() == old(self).constraints@.len() + 2,
            final(self).constraints@.take(old(self).constraints@.len() as int) == old(
                self,
            ).constraints@,
            ({
                let c1 = final(self).constraints@[old(self).constraints@.len() as int];
                &&& c1.a@ == seq![(var_index, 1i64)]
                &&& c1.b@.len() == 0
                &&& c1.c@.len() == 0
                &&& c1.constant == -min
            }),
            ({
                let c2 = final(self).constraints@[old(self).constraints@.len() as int + 1];
                &&& c2.a@ == seq![(var_index, -1i64)]
                &&& c2.b@.len() == 0
                &&& c2.c@.len() == 0
                &&& c2.constant == max
            }),
            final(self).variables == old(self).variables,
            final(self).public_inputs == old(self).public_inputs,
            final(self).private_inputs == old(self).private_inputs,
    {
        let mut a: Vec<(usize, i64)> = Vec::new();
        a.push((var_index, 1i64));
        let constraint1 = LinearConstraint {
            a,
            b: Vec::new(),
            c: Vec::new(),
            constant: -min,
        };
        let mut a2: Vec<(usize, i64)> = Vec::new();
        a2.push((var_index, -1i64));
        let constraint2 = LinearConstraint {
            a: a2,
            b: Vec::new(),
            c: Vec::new(),
            constant: max,
        };
        let ghost base = self.constraints@;
        self.add_constraint(constraint1);
        self.add_constraint(constraint2);
        proof {
            assert(self.constraints@[base.len() as int].a@ =~= seq![(var_index, 1i64)]);
            assert(self.constraints@[base.len() as int + 1].a@ =~= seq![(var_index, -1i64)]);
            assert(self.constraints@.take(base.len() as int) =~= base);
        }
    }

    /// Adds the constraint `var1 - var2 = 0`.
    pub fn add_equality_constraint(&mut self, var1_index: usize, var2_index: usize)
        ensures
            final(self).constraints@.len() == old(self).constraints@.len() + 1,
            final(self).constraints@.take(old(self).constraints@.len() as int) == old(
                self,
            ).constraints@,
            ({
                let c = final(self).constraints@.last();
                &&& c.a@ == seq![(var1_index, 1i64), (var2_index, -1i64)]
                &&& c.b@.len() == 0
                &&& c.c@.len() == 0
                &&& c.constant == 0
            }),
            final(self).variables == old(self).variables,
            final(self).public_inputs == old(self).public_inputs,
            final(self).private_inputs == old(self).private_inputs,
    {
        let mut a: Vec<(usize, i64)> = Vec::new();
        a.push((var1_index, 1i64));
        a.push((var2_index, -1i64));
        let constraint = LinearConstraint { a, b: Vec::new(), c: Vec::new(), constant: 0 };
        let ghost base = self.constraints@;
        self.add_constraint(constraint);
        proof {
            assert(self.constraints@.last().a@ =~= seq![(var1_index, 1i64), (var2_index, -1i64)]);
            assert(self.constraints@.take(base.len() as int) =~= base);
        }
    }

    /// Assigns a witness value to an in-range variable; out-of-range
    /// indices are ignored.
    pub fn set_witness(&mut self, var_index: usize, value: i64)
        ensures
            final(self).variables@.len() == old(self).variables@.len(),
            var_index < old(self).variables@.len() ==> {
                &&& final(self).variables@[var_index as int].value == Some(value)
                &&& forall|q: int|
                    0 <= q < old(self).variables@.len() && q != var_index
                        ==> final(self).variables@[q] == old(self).variables@[q]
            },
            var_index >= old(self).variables@.len() ==> final(self).variables == old(
                self,
            ).variables,
            final(self).constraints == old(self).constraints,
    {
        if var_index < self.variables.len() {
            let mut v = self.variables.remove(var_index);
            v.value = Some(value);
            self.variables.insert(var_index, v);
            proof {
                assert(self.variables@ =~= old(self).variables@.update(
                    var_index as int,
                    self.variables@[var_index as int],
                ));
            }
        }
    }

    /// Checks every constraint against the current witness: true exactly
    /// when each one evaluates within the accumulator range and holds.
    pub fn check_constraints(&self) -> (r: bool)
        ensures
            r == forall|k: int|
                0 <= k < self.constraints@.len() ==> spec_constraint_fits(
                    self.variables@,
                    #[trigger] self.constraints@[k],
                ) && spec_constraint_satisfied(self.variables@, self.constraints@[k]),
    {
        let mut k: usize = 0;
        while k < self.constraints.len()
            invariant
                k <= self.constraints@.len(),
                forall|q: int|
                    0 <= q < k ==> spec_constraint_fits(
                        self.variables@,
                        #[trigger] self.constraints@[q],
                    ) && spec_constraint_satisfied(self.variables@, self.constraints@[q]),
            decreases self.constraints@.len() - k,
        {
            if !self.check_single_constraint(&self.constraints[k]) {
                proof {
                    assert(!(spec_constraint_fits(self.variables@, self.constraints@[k as int])
                        && spec_constraint_satisfied(
                        self.variables@,
                        self.constraints@[k as int],
                    )));
                }
                return false;
            }
            k = k + 1;
        }
        true
    }

    /// Checks one constraint: true exactly when its evaluation fits the
    /// accumulator and the equation holds.
    fn check_single_constraint(&self, constraint: &LinearConstraint) -> (r: bool)
        ensures
            r == (spec_constraint_fits(self.variables@, *constraint)
                && spec_constraint_satisfied(self.variables@, *constraint)),
    {
        let a_part = match self.evaluate_linear_combination(&constraint.a) {
            Some(v) => v,
            None => {
                return false;
            },
        };
        let b_sum = match self.evaluate_linear_combination(&constraint.b) {
            Some(v) => v,
            None => {
                return false;
            },
        };
        let c_sum = match self.evaluate_linear_combination(&constraint.c) {
            Some(v) => v,
            None => {
                return false;
            },
        };
        let a_sum = match a_part.checked_add(constraint.constant as i128) {
            Some(v) => v,
            None => {
                return false;
            },
        };
        if constraint.b.len() == 0 {
            a_sum == c_sum
        } else {
            match a_sum.checked_mul(b_sum) {
                Some(p) => p == c_sum,
                None => false,
            }
        }
    }

    /// Evaluates a linear combination over the current witness, reporting
    /// `None` when the accumulation leaves the 128-bit range.
    fn evaluate_linear_combination(&self, coeffs: &Vec<(usize, i64)>) -> (r: Option<i128>)
        ensures
            r is Some <==> spec_lc_fits(self.variables@, coeffs@, 0),
            r matches Some(v) ==> v == spec_lc_value(self.variables@, coeffs@),
    {
        let mut sum: i128 = 0;
        let mut i: usize = 0;
        while i < coeffs.len()
            invariant
                i <= coeffs@.len(),
                spec_lc_fits(self.variables@, coeffs@.take(i as int), 0),
                sum == spec_lc_value(self.variables@, coeffs@.take(i as int)),
            decreases coeffs@.len() - i,
        {
            let entry = coeffs[i];
            let mut term: i128 = 0;
            if entry.0 < self.variables.len() {
                match self.variables[entry.0].value {
                    Some(v) => {
                        let c128 = entry.1 as i128;
                        let v128 = v as i128;
                        proof {
                            lemma_term_product_fits(self.variables@, entry);
                        }
                        term = c128 * v128;
                    },
                    None => {},
                }
            }
            proof {
                assert(term == spec_term(self.variables@, coeffs@[i as int]));
            }
            let next = match sum.checked_add(term) {
                Some(v) => v,
                None => {
                    proof {
                        lemma_fits_split(self.variables@, coeffs@, 0, i as int);
                        assert(!spec_lc_fits(
                            self.variables@,
                            coeffs@.skip(i as int),
                            sum as int,
                        )) by {
                            assert(coeffs@.skip(i as int)[0] == coeffs@[i as int]);
                        }
                    }
                    return None;
                },
            };
            proof {
                assert(coeffs@.take(i + 1) =~= coeffs@.take(i as int).push(coeffs@[i as int]));
                lemma_lc_snoc(self.variables@, coeffs@.take(i as int), coeffs@[i as int], 0);
            }
            sum = next;
            i = i + 1;
        }
        proof {
            assert(coeffs@.take(coeffs@.len() as int) =~= coeffs@);
        }
        Some(sum)
    }
}

/// Splitting an accumulation at any point preserves both the fitting
/// condition and the value.
proof fn lemma_fits_split(vars: Seq<Variable>, coeffs: Seq<(usize, i64)>, acc: int, i: int)
    requires
        0 <= i <= coeffs.len(),
    ensures
        spec_lc_fits(vars, coeffs, acc) == (spec_lc_fits(vars, coeffs.take(i), acc)
            && spec_lc_fits(vars, coeffs.skip(i), acc + spec_lc_value(vars, coeffs.take(i)))),
        spec_lc_value(vars, coeffs) == spec_lc_value(vars, coeffs.take(i)) + spec_lc_value(
            vars,
            coeffs.skip(i),
        ),
    decreases i,
{
    if i == 0 {
        assert(coeffs.take(0) =~= Seq::<(usize, i64)>::empty());
        assert(coeffs.skip(0) =~= coeffs);
    } else {
        assert(coeffs.len() >= 1);
        let rest = coeffs.drop_first();
        assert(coeffs.take(i)[0] == coeffs[0]);
        assert(coeffs.take(i).drop_first() =~= rest.take(i - 1));
        assert(coeffs.skip(i) =~= rest.skip(i - 1));
        lemma_fits_split(vars, rest, acc + spec_term(vars, coeffs[0]), i - 1);
    }
}

/// A single term's product fits an `i128`.
/// A single term's product fits an `i128`.
proof fn lemma_term_product_fits(vars: Seq<Variable>, entry: (usize, i64))
    ensures
        i128::MIN <= spec_term(vars, entry) <= i128::MAX,
{
    if entry.0 < vars.len() && vars[entry.0 as int].value is Some {
        let c = entry.1 as int;
        let v = vars[entry.0 as int].value->0 as int;
        assert(c * v <= i128::MAX && c * v >= i128::MIN) by (nonlinear_arith)
            requires
                -0x8000_0000_0000_0000 <= c < 0x8000_0000_0000_0000,
                -0x8000_0000_0000_0000 <= v < 0x8000_0000_0000_0000,
        {
        }
    }
}

/// Extending the consumed prefix by one entry keeps the running facts.
proof fn lemma_lc_take_push(vars: Seq<Variable>, coeffs: Seq<(usize, i64)>, i: int, acc: int)
    requires
        0 <= i < coeffs.len(),
        spec_lc_fits(vars, coeffs.take(i), 0),
        acc == spec_lc_value(vars, coeffs.take(i)),
        i128::MIN <= acc + spec_term(vars, coeffs[i]) <= i128::MAX,
    ensures
        spec_lc_fits(vars, coeffs.take(i + 1), 0),
        spec_lc_value(vars, coeffs.take(i + 1)) == acc + spec_term(vars, coeffs[i]),
{
    assert(coeffs.take(i + 1) =~= coeffs.take(i).push(coeffs[i]));
    lemma_lc_snoc(vars, coeffs.take(i), coeffs[i], 0);
}

/// Appending one entry to a combination adds its term to the value, and
/// preserves fitting when the extended sum is in range.
proof fn lemma_lc_snoc(vars: Seq<Variable>, coeffs: Seq<(usize, i64)>, x: (usize, i64), acc: int)
    requires
        spec_lc_fits(vars, coeffs, acc),
        i128::MIN <= acc + spec_lc_value(vars, coeffs) + spec_term(vars, x) <= i128::MAX,
    ensures
        spec_lc_fits(vars, coeffs.push(x), acc),
        spec_lc_value(vars, coeffs.push(x)) == spec_lc_value(vars, coeffs) + spec_term(vars, x),
    decreases coeffs.len(),
{
    let w = coeffs.push(x);
    if coeffs.len() == 0 {
        assert(w[0] == x);
        assert(w.drop_first() =~= Seq::<(usize, i64)>::empty());
        assert(spec_lc_value(vars, w) == spec_term(vars, x) + spec_lc_value(vars, w.drop_first()));
        assert(spec_lc_value(vars, w.drop_first()) == 0);
        assert(spec_lc_value(vars, coeffs) == 0);
        assert(spec_lc_fits(vars, w.drop_first(), acc + spec_term(vars, x)));
    } else {
        assert(w[0] == coeffs[0]);
        assert(w.drop_first() =~= coeffs.drop_first().push(x));
        lemma_lc_snoc(vars, coeffs.drop_first(), x, acc + spec_term(vars, coeffs[0]));
        assert(spec_lc_value(vars, w) == spec_term(vars, coeffs[0]) + spec_lc_value(
            vars,
            w.drop_first(),
        ));
    }
}

/// Whether a vector of indices holds the given index.
fn contains_index(v: &Vec<usize>, x: usize) -> (r: bool)
    ensures
        r == v@.contains(x),
{
    let mut i: usize = 0;
    while i < v.len()
        invariant
            i <= v@.len(),
            forall|q: int| 0 <= q < i ==> v@[q] != x,
        decreases v@.len() - i,
    {
        if v[i] == x {
            return true;
        }
        i = i + 1;
    }
    proof {
        if v@.contains(x) {
            let q = choose|q: int| 0 <= q < v@.len() && v@[q] == x;
        }
    }
    false
}

/// A builder for the common circuit shapes.
pub struct CircuitBuilder {
    pub cs: ConstraintSystem,
}

impl CircuitBuilder {
    pub fn new() -> (r: CircuitBuilder)
        ensures
            r.cs.variables@.len() == 0,
            r.cs.constraints@.len() == 0,
            r.cs.public_inputs@.len() == 0,
            r.cs.private_inputs@.len() == 0,
    {
        CircuitBuilder { cs: ConstraintSystem::new() }
    }

    /// A circuit with one private variable constrained to `[min, max]`.
    pub fn build_range_circuit(self, min: i64, max: i64) -> (r: ConstraintSystem)
        requires
            min > i64::MIN,
        ensures
            r.variables@.len() == self.cs.variables@.len() + 1,
            r.constraints@.len() == self.cs.constraints@.len() + 2,
    {
        let mut cs = self.cs;
        let value_var = cs.add_variable(value_name(), VariableType::UInt(64));
        cs.add_private_input(value_var);
        cs.add_range_constraint(value_var, min, max);
        cs
    }

    /// A circuit with two private variables constrained to be equal.
    pub fn build_equality_circuit(self) -> (r: ConstraintSystem)
        ensures
            r.variables@.len() == self.cs.variables@.len() + 2,
            r.constraints@.len() == self.cs.constraints@.len() + 1,
    {
        let mut cs = self.cs;
        let value1_var = cs.add_variable(value_name(), VariableType::UInt(64));
        let value2_var = cs.add_variable(value_name(), VariableType::UInt(64));
        cs.add_private_input(value1_var);
        cs.add_private_input(value2_var);
        cs.add_equality_constraint(value1_var, value2_var);
        cs
    }

    /// A circuit with one private value constrained to reach a public
    /// threshold.
    pub fn build_threshold_circuit(self, threshold: i64) -> (r: ConstraintSystem)
        requires
            threshold > i64::MIN,
        ensures
            r.variables@.len() == self.cs.variables@.len() + 2,
            r.constraints@.len() == self.cs.constraints@.len() + 2,
    {
        let mut cs = self.cs;
        let value_var = cs.add_variable(value_name(), VariableType::UInt(64));
        let threshold_var = cs.add_variable(threshold_name(), VariableType::UInt(64));
        cs.add_private_input(value_var);
        cs.add_public_input(threshold_var);
        cs.set_witness(threshold_var, threshold);
        cs.add_range_constraint(value_var, threshold, i64::MAX);
        cs
    }

    pub fn finalize(self) -> (r: ConstraintSystem)
        ensures
            r == self.cs,
    {
        self.cs
    }
}

/// The conventional name for a value variable.
fn value_name() -> String {
    "value".to_string()
}

/// The conventional name for a threshold variable.
fn threshold_name() -> String {
    "threshold".to_string()
}

} // verus!
