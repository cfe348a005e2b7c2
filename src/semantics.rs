//! What the emitted code computes, given the value of each of its constants,
//! and the laws that relate the forward and the inverse mapping.
use vstd::prelude::*;
use vstd::std_specs::cmp::PartialEqSpec;

use crate::codegen::{
    const_name, dispatch_of, ArmView, CodeView, ConstView, ForwardCode, InverseCode, NamedConst,
    RenderCode,
};
use crate::schema::{
    first_index, lemma_first_index_at, lemma_first_index_none, lemma_first_index_stable,
    opt_int, SchemaView,
};

verus! {

/// The constant at an index has the given name.
pub open spec fn named_at(cs: Seq<ConstView>, name: Seq<char>) -> spec_fn(int) -> bool {
    |k: int| cs[k].name == name
}

/// The arm at an index is for the given variant.
pub open spec fn arm_for_at(arms: Seq<ArmView>, variant: Seq<char>) -> spec_fn(int) -> bool {
    |a: int| arms[a].variant == variant
}

/// The index of the constant that a name refers to.
pub open spec fn const_index(c: CodeView, name: Seq<char>) -> Option<int> {
    first_index(c.constants.len() as int, named_at(c.constants, name))
}

/// The value of the constant that arm `a` refers to, where `values[k]` is the
/// value of the constant at `k`.
pub open spec fn arm_value<V>(c: CodeView, values: Seq<V>, a: int) -> Option<V> {
    match const_index(c, c.arms[a].constant) {
        Some(k) => Some(values[k]),
        None => None,
    }
}

/// What the forward mapping returns for a variant: the constant of the first
/// arm for it; `None` where no arm is for it.
pub open spec fn forward_outcome<V>(c: CodeView, values: Seq<V>, variant: Seq<char>) -> Option<V> {
    match first_index(c.arms.len() as int, arm_for_at(c.arms, variant)) {
        Some(a) => arm_value(c, values, a),
        None => None,
    }
}

/// The arm at an index matches `x` under the equality `eq`.
pub open spec fn arm_matches_at<V>(c: CodeView, values: Seq<V>, eq: spec_fn(V, V) -> bool, x: V) -> spec_fn(int) -> bool {
    |a: int| arm_value(c, values, a) matches Some(y) && eq(y, x)
}

/// What the inverse mapping returns for `x`: the variant of the first arm
/// whose constant equals `x`, else `x` itself as the error.
pub open spec fn inverse_outcome<V>(c: CodeView, values: Seq<V>, eq: spec_fn(V, V) -> bool, x: V) -> Result<Seq<char>, V> {
    match first_index(c.arms.len() as int, arm_matches_at(c, values, eq, x)) {
        Some(a) => Ok(c.arms[a].variant),
        None => Err(x),
    }
}

/// The equality of `V`'s own `==`.
pub open spec fn eq_of<V: PartialEq>() -> spec_fn(V, V) -> bool {
    |a: V, b: V| a.eq_spec(&b)
}

fn find_const(cs: &Vec<NamedConst>, name: &String) -> (r: Option<usize>)
    ensures
        opt_int(r) == first_index(cs@.len() as int, named_at(cs@.map_values(|c: NamedConst| c@), name@)),
        r matches Some(k) ==> k < cs@.len(),
{
    let ghost v = cs@.map_values(|c: NamedConst| c@);
    let mut k: usize = 0;
    while k < cs.len()
        invariant
            0 <= k <= cs@.len(),
            v == cs@.map_values(|c: NamedConst| c@),
            first_index(k as int, named_at(v, name@)) is None,
        decreases cs@.len() - k,
    {
        if cs[k].name == *name {
            proof {
                assert(named_at(v, name@)(k as int));
                lemma_first_index_stable(k + 1, cs@.len() as int, named_at(v, name@));
            }
            return Some(k);
        }
        k += 1;
    }
    None
}

impl ForwardCode {
    /// Runs the forward mapping on the variant named `variant`, where
    /// `values[k]` is the value of the constant at `k`.
    #[verifier::loop_isolation(false)]
    pub fn run<'a, V>(&self, values: &'a Vec<V>, variant: &String) -> (r: Option<&'a V>)
        requires
            values@.len() == self.constants@.len(),
        ensures
            match forward_outcome(self@, values@, variant@) {
                Some(v) => r == Some(&v),
                None => r is None,
            },
    {
        let ghost c = self@;
        let mut a: usize = 0;
        while a < self.arms.len()
            invariant
                0 <= a <= self.arms@.len(),
                c == self@,
                first_index(a as int, arm_for_at(c.arms, variant@)) is None,
            decreases self.arms@.len() - a,
        {
            if self.arms[a].variant == *variant {
                proof {
                    assert(arm_for_at(c.arms, variant@)(a as int));
                    lemma_first_index_stable(a + 1, self.arms@.len() as int, arm_for_at(c.arms, variant@));
                }
                return match find_const(&self.constants, &self.arms[a].constant) {
                    Some(k) => Some(&values[k]),
                    None => None,
                };
            }
            a += 1;
        }
        None
    }
}

impl InverseCode {
    /// Runs the inverse mapping on `x`, where `values[k]` is the value of the
    /// constant at `k` and constants are compared with `V`'s `==`.
    #[verifier::loop_isolation(false)]
    pub fn run<V: PartialEq>(&self, values: &Vec<V>, x: V) -> (r: Result<String, V>)
        requires
            V::obeys_eq_spec(),
            values@.len() == self.constants@.len(),
        ensures
            match inverse_outcome(self@, values@, eq_of::<V>(), x) {
                Ok(n) => r matches Ok(s) && s@ == n,
                Err(y) => r == Err::<String, V>(y),
            },
    {
        let ghost c = self@;
        let ghost p = arm_matches_at(c, values@, eq_of::<V>(), x);
        let mut a: usize = 0;
        while a < self.arms.len()
            invariant
                0 <= a <= self.arms@.len(),
                c == self@,
                values@.len() == self.constants@.len(),
                p == arm_matches_at(c, values@, eq_of::<V>(), x),
                first_index(a as int, p) is None,
            decreases self.arms@.len() - a,
        {
            match find_const(&self.constants, &self.arms[a].constant) {
                Some(k) => {
                    if values[k].eq(&x) {
                        proof {
                            assert(p(a as int));
                            lemma_first_index_stable(a + 1, self.arms@.len() as int, p);
                        }
                        return Ok(self.arms[a].variant.clone());
                    }
                },
                None => {},
            }
            assert(!p(a as int));
            a += 1;
        }
        Err(x)
    }
}

/// What the rendering writes for a variant: the text of its forward image,
/// where `texts[k]` is the text of the value of the constant at `k`.
pub open spec fn render_outcome(forward: CodeView, texts: Seq<String>, variant: Seq<char>) -> Option<Seq<char>> {
    match forward_outcome(forward, texts, variant) {
        Some(t) => Some(t@),
        None => None,
    }
}

impl RenderCode {
    /// Runs the rendering of the variant named `variant` through `forward`,
    /// the forward mapping of the same enumeration.
    pub fn run(&self, forward: &ForwardCode, texts: &Vec<String>, variant: &String) -> (r: Option<String>)
        requires
            forward@.enum_name == self@.enum_name,
            forward@.repr_type == self@.repr_type,
            texts@.len() == forward.constants@.len(),
        ensures
            match render_outcome(forward@, texts@, variant@) {
                Some(t) => r matches Some(x) && x@ == t,
                None => r is None,
            },
    {
        match forward.run(texts, variant) {
            Some(t) => Some(t.clone()),
            None => None,
        }
    }
}

proof fn lemma_const_name_injective(a: Seq<char>, b: Seq<char>)
    requires
        const_name(a) == const_name(b),
    ensures
        a == b,
{
    let k = "C_"@.len() as int;
    assert(a =~= const_name(a).subrange(k, const_name(a).len() as int));
    assert(b =~= const_name(b).subrange(k, const_name(b).len() as int));
}

/// In the code of a valid schema, the arm for the variant at `i` is at `i`,
/// and the constant it names is at `i`.
proof fn lemma_dispatch_lookup(s: SchemaView, i: int)
    requires
        s.wf(),
        0 <= i < s.variants.len(),
    ensures
        first_index(s.variants.len() as int, arm_for_at(dispatch_of(s).arms, s.variants[i].name))
            == Some(i),
        const_index(dispatch_of(s), dispatch_of(s).arms[i].constant) == Some(i),
{
    let c = dispatch_of(s);
    let n = s.variants.len() as int;
    assert forall|j: int| 0 <= j < i implies !#[trigger] arm_for_at(c.arms, s.variants[i].name)(j) by {}
    lemma_first_index_at(n, arm_for_at(c.arms, s.variants[i].name), i);
    assert forall|j: int| 0 <= j < i implies !#[trigger] named_at(c.constants, c.arms[i].constant)(j) by {
        if c.constants[j].name == c.arms[i].constant {
            lemma_const_name_injective(s.variants[j].name, s.variants[i].name);
        }
    }
    lemma_first_index_at(n, named_at(c.constants, c.arms[i].constant), i);
}

/// The forward mapping is total: on every variant of a valid schema it
/// returns that variant's constant, through the one arm emitted for it.
pub proof fn law_forward_total<V>(s: SchemaView, values: Seq<V>, i: int)
    requires
        s.wf(),
        values.len() == s.variants.len(),
        0 <= i < s.variants.len(),
    ensures
        dispatch_of(s).arms.len() == s.variants.len(),
        forward_outcome(dispatch_of(s), values, s.variants[i].name) == Some(values[i]),
{
    lemma_dispatch_lookup(s, i);
}

/// Where the constants of a valid schema are pairwise distinct under `eq`,
/// and each equals itself, the inverse mapping takes the forward image of
/// every variant back to that variant.
pub proof fn law_round_trip<V>(s: SchemaView, values: Seq<V>, eq: spec_fn(V, V) -> bool, i: int)
    requires
        s.wf(),
        values.len() == s.variants.len(),
        0 <= i < s.variants.len(),
        forall|k: int| 0 <= k < values.len() ==> #[trigger] eq(values[k], values[k]),
        forall|j: int, k: int|
            0 <= j < values.len() && 0 <= k < values.len() && j != k ==> !#[trigger] eq(values[j], values[k]),
    ensures
        forward_outcome(dispatch_of(s), values, s.variants[i].name) matches Some(y)
            && inverse_outcome(dispatch_of(s), values, eq, y) == Ok::<Seq<char>, V>(s.variants[i].name),
{
    law_forward_total(s, values, i);
    law_first_match(s, values, eq, i, values[i]);
}

/// The inverse mapping returns the variant of the first constant, in
/// declaration order, that equals `x` under `eq`.
pub proof fn law_first_match<V>(s: SchemaView, values: Seq<V>, eq: spec_fn(V, V) -> bool, i: int, x: V)
    requires
        s.wf(),
        values.len() == s.variants.len(),
        0 <= i < s.variants.len(),
        eq(values[i], x),
        forall|k: int| 0 <= k < i ==> !#[trigger] eq(values[k], x),
    ensures
        inverse_outcome(dispatch_of(s), values, eq, x) == Ok::<Seq<char>, V>(s.variants[i].name),
{
    let c = dispatch_of(s);
    let n = s.variants.len() as int;
    let p = arm_matches_at(c, values, eq, x);
    assert forall|k: int| 0 <= k <= i implies (#[trigger] p(k) <==> eq(values[k], x)) by {
        lemma_dispatch_lookup(s, k);
    }
    lemma_first_index_at(n, p, i);
}

/// Of two variants with the same constant, the inverse mapping yields the
/// one declared first.
pub proof fn law_tie_goes_to_earlier<V>(s: SchemaView, values: Seq<V>, eq: spec_fn(V, V) -> bool, i: int, j: int)
    requires
        s.wf(),
        values.len() == s.variants.len(),
        0 <= i < j < s.variants.len(),
        eq(values[i], values[j]),
        forall|k: int| 0 <= k < i ==> !#[trigger] eq(values[k], values[j]),
    ensures
        inverse_outcome(dispatch_of(s), values, eq, values[j]) == Ok::<Seq<char>, V>(s.variants[i].name),
{
    law_first_match(s, values, eq, i, values[j]);
}

/// A value equal to no constant is handed back unchanged as the error.
pub proof fn law_unmapped_rejected<V>(s: SchemaView, values: Seq<V>, eq: spec_fn(V, V) -> bool, x: V)
    requires
        s.wf(),
        values.len() == s.variants.len(),
        forall|k: int| 0 <= k < values.len() ==> !#[trigger] eq(values[k], x),
    ensures
        inverse_outcome(dispatch_of(s), values, eq, x) == Err::<Seq<char>, V>(x),
{
    let c = dispatch_of(s);
    let n = s.variants.len() as int;
    let p = arm_matches_at(c, values, eq, x);
    assert forall|k: int| 0 <= k < n implies !#[trigger] p(k) by {
        lemma_dispatch_lookup(s, k);
    }
    lemma_first_index_none(n, p);
}

} // verus!
