//! Schema extraction: validation of a declaration into an [`EnumSchema`].
use vstd::prelude::*;

use crate::decl::{
    fieldless, labelled, Annotation, Declaration, Fields, Shape, VariantDecl, ASSOCIATED_TYPE,
    CONSTANT_VALUE, ORDINAL_REPR,
};
use crate::parse::{parse_expr, parse_type};

verus! {

/// Where the constants of a schema come from.
#[derive(Clone, Copy, Debug, PartialEq, Eq, Structural)]
pub enum SchemaKind {
    /// The variant's ordinal, cast to the representation type.
    Discriminant,
    /// An explicit constant expression per variant.
    Associated,
}

/// The constant of one variant.
#[derive(Clone, Debug)]
pub enum ConstValueSource {
    Discriminant,
    /// The token text of the constant expression.
    Explicit(String),
}

#[derive(Clone, Debug)]
pub struct VariantSpec {
    pub name: String,
    pub value: ConstValueSource,
}

/// A validated enumeration: see [`EnumSchema::wf`].
#[derive(Clone, Debug)]
pub struct EnumSchema {
    pub name: String,
    /// The token text of the representation type.
    pub repr_type: String,
    pub kind: SchemaKind,
    pub variants: Vec<VariantSpec>,
}

/// Which rule a declaration breaks.
#[derive(Clone, Debug)]
pub enum ErrorKind {
    NotAnEnum,
    NoVariants,
    Generic,
    /// The named variant carries payload fields.
    NotFieldless(String),
    /// The named variant is declared more than once.
    DuplicateVariant(String),
    /// Neither a representation-type annotation nor an ordinal one.
    MissingRepresentation,
    /// The argument of an annotation with this label is no type.
    UnparsableType(String),
    /// The named variant has no constant-value annotation.
    MissingConstValue(String),
    /// The constant-value argument of the named variant is no expression.
    UnparsableConstValue(String),
}

/// Why a declaration is not a valid schema: the declaration's name and the
/// rule it breaks.
#[derive(Clone, Debug)]
pub struct SchemaError {
    pub declaration: String,
    pub kind: ErrorKind,
}

pub enum ValueView {
    Discriminant,
    Explicit(Seq<char>),
}

pub struct VariantView {
    pub name: Seq<char>,
    pub value: ValueView,
}

pub struct SchemaView {
    pub name: Seq<char>,
    pub repr_type: Seq<char>,
    pub kind: SchemaKind,
    pub variants: Seq<VariantView>,
}

pub enum ErrorKindView {
    NotAnEnum,
    NoVariants,
    Generic,
    NotFieldless(Seq<char>),
    DuplicateVariant(Seq<char>),
    MissingRepresentation,
    UnparsableType(Seq<char>),
    MissingConstValue(Seq<char>),
    UnparsableConstValue(Seq<char>),
}

pub struct ErrorView {
    pub declaration: Seq<char>,
    pub kind: ErrorKindView,
}

impl View for ConstValueSource {
    type V = ValueView;

    open spec fn view(&self) -> ValueView {
        match self {
            ConstValueSource::Discriminant => ValueView::Discriminant,
            ConstValueSource::Explicit(e) => ValueView::Explicit(e@),
        }
    }
}

impl View for VariantSpec {
    type V = VariantView;

    open spec fn view(&self) -> VariantView {
        VariantView { name: self.name@, value: self.value@ }
    }
}

impl View for EnumSchema {
    type V = SchemaView;

    open spec fn view(&self) -> SchemaView {
        SchemaView {
            name: self.name@,
            repr_type: self.repr_type@,
            kind: self.kind,
            variants: self.variants@.map_values(|v: VariantSpec| v@),
        }
    }
}

impl View for ErrorKind {
    type V = ErrorKindView;

    open spec fn view(&self) -> ErrorKindView {
        match self {
            ErrorKind::NotAnEnum => ErrorKindView::NotAnEnum,
            ErrorKind::NoVariants => ErrorKindView::NoVariants,
            ErrorKind::Generic => ErrorKindView::Generic,
            ErrorKind::NotFieldless(n) => ErrorKindView::NotFieldless(n@),
            ErrorKind::DuplicateVariant(n) => ErrorKindView::DuplicateVariant(n@),
            ErrorKind::MissingRepresentation => ErrorKindView::MissingRepresentation,
            ErrorKind::UnparsableType(n) => ErrorKindView::UnparsableType(n@),
            ErrorKind::MissingConstValue(n) => ErrorKindView::MissingConstValue(n@),
            ErrorKind::UnparsableConstValue(n) => ErrorKindView::UnparsableConstValue(n@),
        }
    }
}

impl View for SchemaError {
    type V = ErrorView;

    open spec fn view(&self) -> ErrorView {
        ErrorView { declaration: self.declaration@, kind: self.kind@ }
    }
}

/// The first index below `n` at which `p` holds.
pub open spec fn first_index(n: int, p: spec_fn(int) -> bool) -> Option<int>
    decreases n,
{
    if n <= 0 {
        None
    } else {
        match first_index(n - 1, p) {
            Some(i) => Some(i),
            None => if p(n - 1) {
                Some(n - 1)
            } else {
                None
            },
        }
    }
}

/// The last index below `n` at which `p` holds.
pub open spec fn last_index(n: int, p: spec_fn(int) -> bool) -> Option<int>
    decreases n,
{
    if n <= 0 {
        None
    } else if p(n - 1) {
        Some(n - 1)
    } else {
        last_index(n - 1, p)
    }
}

pub proof fn lemma_first_index_stable(n: int, m: int, p: spec_fn(int) -> bool)
    requires
        n <= m,
        first_index(n, p) is Some,
    ensures
        first_index(m, p) == first_index(n, p),
    decreases m - n,
{
    if n < m {
        lemma_first_index_stable(n, m - 1, p);
    }
}

pub proof fn lemma_first_index_none(n: int, p: spec_fn(int) -> bool)
    requires
        0 <= n,
    ensures
        first_index(n, p) is None <==> forall|j: int| 0 <= j < n ==> !#[trigger] p(j),
    decreases n,
{
    if n > 0 {
        lemma_first_index_none(n - 1, p);
    }
}

pub proof fn lemma_last_index_none(n: int, p: spec_fn(int) -> bool)
    requires
        0 <= n,
        last_index(n, p) is None,
    ensures
        forall|j: int| 0 <= j < n ==> !#[trigger] p(j),
    decreases n,
{
    if n > 0 {
        lemma_last_index_none(n - 1, p);
    }
}

pub proof fn lemma_last_index_some(n: int, p: spec_fn(int) -> bool)
    ensures
        last_index(n, p) matches Some(i) ==> 0 <= i < n && p(i),
    decreases n,
{
    if n > 0 {
        lemma_last_index_some(n - 1, p);
    }
}

pub proof fn lemma_first_index_bounds(n: int, p: spec_fn(int) -> bool)
    ensures
        first_index(n, p) matches Some(i) ==> 0 <= i < n && p(i) && forall|j: int|
            0 <= j < i ==> !#[trigger] p(j),
    decreases n,
{
    if n > 0 {
        lemma_first_index_bounds(n - 1, p);
        if first_index(n - 1, p) is None {
            lemma_first_index_none(n - 1, p);
        }
    }
}

/// The index of the first annotation with the given label.
pub open spec fn first_labelled(s: Seq<Annotation>, label: Seq<char>) -> Option<int> {
    first_index(s.len() as int, label_at(s, label))
}

/// The index of the last annotation with the given label.
pub open spec fn last_labelled(s: Seq<Annotation>, label: Seq<char>) -> Option<int> {
    last_index(s.len() as int, label_at(s, label))
}

/// The annotation at an index has the given label.
pub open spec fn label_at(s: Seq<Annotation>, label: Seq<char>) -> spec_fn(int) -> bool {
    |k: int| labelled(s[k], label)
}

/// The annotation at an index is an associated-type annotation whose
/// argument did not read as a type.
pub open spec fn bad_type_at(s: Seq<Annotation>, types: Seq<Option<Seq<char>>>) -> spec_fn(int) -> bool {
    |k: int| labelled(s[k], ASSOCIATED_TYPE@) && types[k] is None
}

/// The texts of a sequence of parse outcomes.
pub open spec fn texts(s: Seq<Option<String>>) -> Seq<Option<Seq<char>>> {
    s.map_values(|o: Option<String>| opt_text(o))
}

/// The text of a parse outcome.
pub open spec fn opt_text(o: Option<String>) -> Option<Seq<char>> {
    match o {
        Some(t) => Some(t@),
        None => None,
    }
}

/// The representation type and kind chosen by a declaration's annotations,
/// where `types[k]` is annotation `k`'s argument read as a type: every
/// associated-type annotation must read as a type, and the last one wins;
/// without one, the first ordinal annotation.
pub open spec fn representation(s: Seq<Annotation>, types: Seq<Option<Seq<char>>>) -> Result<(Seq<char>, SchemaKind), ErrorKindView> {
    if first_index(s.len() as int, bad_type_at(s, types)) is Some {
        Err(ErrorKindView::UnparsableType(ASSOCIATED_TYPE@))
    } else {
        match last_labelled(s, ASSOCIATED_TYPE@) {
            Some(k) => Ok((types[k]->Some_0, SchemaKind::Associated)),
            None => match first_labelled(s, ORDINAL_REPR@) {
                Some(k) => match types[k] {
                    Some(t) => Ok((t, SchemaKind::Discriminant)),
                    None => Err(ErrorKindView::UnparsableType(ORDINAL_REPR@)),
                },
                None => Err(ErrorKindView::MissingRepresentation),
            },
        }
    }
}

/// The explicit constant of a variant, where `parsed` is its first
/// constant-value argument read as an expression.
pub open spec fn explicit_value(v: VariantDecl, parsed: Option<Seq<char>>) -> Result<Seq<char>, ErrorKindView> {
    if first_labelled(v.annotations@, CONSTANT_VALUE@) is Some {
        match parsed {
            Some(e) => Ok(e),
            None => Err(ErrorKindView::UnparsableConstValue(v.name@)),
        }
    } else {
        Err(ErrorKindView::MissingConstValue(v.name@))
    }
}

/// The variant at `i` has the name of an earlier one.
pub open spec fn repeats_earlier(vs: Seq<VariantDecl>, i: int) -> bool {
    exists|j: int| 0 <= j < i && vs[j].name@ == vs[i].name@
}

/// The variants of a schema of the given kind.
pub open spec fn variant_views(vs: Seq<VariantDecl>, kind: SchemaKind, values: Seq<Option<Seq<char>>>) -> Seq<VariantView> {
    Seq::new(
        vs.len(),
        |i: int|
            VariantView {
                name: vs[i].name@,
                value: match kind {
                    SchemaKind::Discriminant => ValueView::Discriminant,
                    SchemaKind::Associated => ValueView::Explicit(explicit_value(vs[i], values[i])->Ok_0),
                },
            },
    )
}

/// The variant at an index carries payload fields.
pub open spec fn has_fields_at(vs: Seq<VariantDecl>) -> spec_fn(int) -> bool {
    |i: int| !fieldless(vs[i].fields)
}

/// The variant at an index repeats an earlier name.
pub open spec fn repeats_at(vs: Seq<VariantDecl>) -> spec_fn(int) -> bool {
    |i: int| repeats_earlier(vs, i)
}

/// The variant at an index has no usable explicit constant.
pub open spec fn lacks_value_at(vs: Seq<VariantDecl>, values: Seq<Option<Seq<char>>>) -> spec_fn(int) -> bool {
    |i: int| explicit_value(vs[i], values[i]) is Err
}

/// Parse outcomes of the right shape for a declaration: one type per
/// annotation, one expression per variant.
pub open spec fn fits(d: Declaration, types: Seq<Option<Seq<char>>>, values: Seq<Option<Seq<char>>>) -> bool {
    types.len() == d.annotations@.len() && values.len() == d.variants@.len()
}

/// What extraction makes of a declaration, where `types[k]` is annotation
/// `k`'s argument read as a type and `values[i]` the first constant-value
/// argument of variant `i` read as an expression. The rules are checked in
/// this order, and the first one broken gives the error.
pub open spec fn extraction(d: Declaration, types: Seq<Option<Seq<char>>>, values: Seq<Option<Seq<char>>>) -> Result<SchemaView, ErrorKindView> {
    let vs = d.variants@;
    let n = vs.len() as int;
    if d.shape != Shape::Enum {
        Err(ErrorKindView::NotAnEnum)
    } else if n == 0 {
        Err(ErrorKindView::NoVariants)
    } else if d.generic_params > 0 || d.has_where_clause {
        Err(ErrorKindView::Generic)
    } else if let Some(i) = first_index(n, has_fields_at(vs)) {
        Err(ErrorKindView::NotFieldless(vs[i].name@))
    } else if let Some(i) = first_index(n, repeats_at(vs)) {
        Err(ErrorKindView::DuplicateVariant(vs[i].name@))
    } else {
        match representation(d.annotations@, types) {
            Err(e) => Err(e),
            Ok((ty, kind)) => {
                if kind == SchemaKind::Associated {
                    if let Some(i) = first_index(n, lacks_value_at(vs, values)) {
                        Err(explicit_value(vs[i], values[i])->Err_0)
                    } else {
                        Ok(SchemaView { name: d.name@, repr_type: ty, kind, variants: variant_views(vs, kind, values) })
                    }
                } else {
                    Ok(SchemaView { name: d.name@, repr_type: ty, kind, variants: variant_views(vs, kind, values) })
                }
            },
        }
    }
}

/// `r` is what extraction makes of `d` under the given parse outcomes, and
/// an error names `d`.
pub open spec fn extracted(r: Result<EnumSchema, SchemaError>, d: Declaration, types: Seq<Option<Seq<char>>>, values: Seq<Option<Seq<char>>>) -> bool {
    &&& fits(d, types, values)
    &&& match extraction(d, types, values) {
        Ok(s) => r matches Ok(x) && x@ == s,
        Err(e) => r matches Err(x) && x@ == (ErrorView { declaration: d.name@, kind: e }),
    }
}

impl SchemaView {
    /// At least one variant, no name twice, and each constant of the
    /// schema's kind.
    pub open spec fn wf(self) -> bool {
        &&& self.variants.len() > 0
        &&& forall|i: int, j: int|
            0 <= i < self.variants.len() && 0 <= j < self.variants.len() && i != j
                ==> self.variants[i].name != self.variants[j].name
        &&& forall|i: int|
            0 <= i < self.variants.len() ==> (self.variants[i].value is Discriminant <==> self.kind
                == SchemaKind::Discriminant)
    }
}

impl EnumSchema {
    pub open spec fn wf(&self) -> bool {
        self@.wf()
    }
}

pub open spec fn opt_int(o: Option<usize>) -> Option<int> {
    match o {
        Some(x) => Some(x as int),
        None => None,
    }
}

/// Finds the index of the last annotation with the given label.
fn find_last_labelled(s: &Vec<Annotation>, label: &str) -> (r: Option<usize>)
    ensures
        opt_int(r) == last_labelled(s@, label@),
        r matches Some(k) ==> k < s@.len(),
{
    let mut found: Option<usize> = None;
    let mut k: usize = 0;
    while k < s.len()
        invariant
            0 <= k <= s@.len(),
            opt_int(found) == last_index(k as int, label_at(s@, label@)),
            found matches Some(x) ==> x < k,
        decreases s@.len() - k,
    {
        if s[k].has_label(label) {
            found = Some(k);
        }
        k += 1;
    }
    found
}

/// Finds the index of the first annotation with the given label.
fn find_first_labelled(s: &Vec<Annotation>, label: &str) -> (r: Option<usize>)
    ensures
        opt_int(r) == first_labelled(s@, label@),
        r matches Some(k) ==> k < s@.len(),
{
    let mut k: usize = 0;
    while k < s.len()
        invariant
            0 <= k <= s@.len(),
            first_index(k as int, label_at(s@, label@)) is None,
        decreases s@.len() - k,
    {
        if s[k].has_label(label) {
            proof {
                lemma_first_index_stable(k + 1, s@.len() as int, label_at(s@, label@));
            }
            return Some(k);
        }
        k += 1;
    }
    None
}

/// Chooses the representation type and kind from the annotations, given
/// each annotation's argument read as a type.
#[verifier::loop_isolation(false)]
fn resolve_representation(s: &Vec<Annotation>, types: &Vec<Option<String>>) -> (r: Result<(String, SchemaKind), ErrorKind>)
    requires
        types@.len() == s@.len(),
    ensures
        match representation(s@, texts(types@)) {
            Ok((t, kind)) => r matches Ok((x, y)) && x@ == t && y == kind,
            Err(e) => r matches Err(x) && x@ == e,
        },
{
    let ghost tv = texts(types@);
    let mut k: usize = 0;
    while k < s.len()
        invariant
            0 <= k <= s@.len(),
            first_index(k as int, bad_type_at(s@, tv)) is None,
        decreases s@.len() - k,
    {
        if s[k].has_label(ASSOCIATED_TYPE) && types[k].is_none() {
            proof {
                assert(bad_type_at(s@, tv)(k as int));
                lemma_first_index_stable(k + 1, s@.len() as int, bad_type_at(s@, tv));
            }
            return Err(ErrorKind::UnparsableType(ASSOCIATED_TYPE.to_owned()));
        }
        k += 1;
    }
    match find_last_labelled(s, ASSOCIATED_TYPE) {
        Some(k) => {
            proof {
                lemma_first_index_none(s@.len() as int, bad_type_at(s@, tv));
                assert(!bad_type_at(s@, tv)(k as int));
            }
            match &types[k] {
                Some(t) => Ok((t.clone(), SchemaKind::Associated)),
                None => {
                    proof {
                        lemma_last_index_some(s@.len() as int, label_at(s@, ASSOCIATED_TYPE@));
                        assert(bad_type_at(s@, tv)(k as int));
                    }
                    Err(ErrorKind::UnparsableType(ASSOCIATED_TYPE.to_owned()))
                },
            }
        },
        None => match find_first_labelled(s, ORDINAL_REPR) {
            Some(k) => match &types[k] {
                Some(t) => Ok((t.clone(), SchemaKind::Discriminant)),
                None => Err(ErrorKind::UnparsableType(ORDINAL_REPR.to_owned())),
            },
            None => Err(ErrorKind::MissingRepresentation),
        },
    }
}

/// Validates a declaration into a schema, given the parse outcomes of its
/// arguments: `types[k]` is annotation `k`'s argument read as a type, and
/// `values[i]` the first constant-value argument of variant `i` read as an
/// expression. The rules: an enumeration, with variants, not generic,
/// every variant fieldless, no variant name twice, a representation type,
/// and under an explicit representation type a constant for every variant.
/// The first rule broken gives the error.
#[verifier::loop_isolation(false)]
pub fn build_schema(d: &Declaration, types: &Vec<Option<String>>, values: &Vec<Option<String>>) -> (r: Result<EnumSchema, SchemaError>)
    requires
        fits(*d, texts(types@), texts(values@)),
    ensures
        extracted(r, *d, texts(types@), texts(values@)),
        r matches Ok(x) ==> x.wf(),
{
    let ghost vs = d.variants@;
    let ghost vv = texts(values@);
    if d.shape != Shape::Enum {
        return Err(SchemaError { declaration: d.name.clone(), kind: ErrorKind::NotAnEnum });
    }
    let n = d.variants.len();
    if n == 0 {
        return Err(SchemaError { declaration: d.name.clone(), kind: ErrorKind::NoVariants });
    }
    if d.generic_params > 0 || d.has_where_clause {
        return Err(SchemaError { declaration: d.name.clone(), kind: ErrorKind::Generic });
    }
    let mut i: usize = 0;
    while i < n
        invariant
            0 <= i <= n,
            first_index(i as int, has_fields_at(vs)) is None,
        decreases n - i,
    {
        if !d.variants[i].fields.is_fieldless() {
            proof {
                lemma_first_index_stable(i + 1, n as int, has_fields_at(vs));
            }
            return Err(
                SchemaError {
                    declaration: d.name.clone(),
                    kind: ErrorKind::NotFieldless(d.variants[i].name.clone()),
                },
            );
        }
        i += 1;
    }
    let mut i: usize = 0;
    while i < n
        invariant
            0 <= i <= n,
            first_index(i as int, repeats_at(vs)) is None,
        decreases n - i,
    {
        let mut j: usize = 0;
        while j < i
            invariant
                0 <= j <= i < n,
                forall|k: int| 0 <= k < j ==> vs[k].name@ != vs[i as int].name@,
            decreases i - j,
        {
            if d.variants[j].name == d.variants[i].name {
                proof {
                    assert(repeats_earlier(vs, i as int));
                    lemma_first_index_stable(i + 1, n as int, repeats_at(vs));
                }
                return Err(
                    SchemaError {
                        declaration: d.name.clone(),
                        kind: ErrorKind::DuplicateVariant(d.variants[i].name.clone()),
                    },
                );
            }
            j += 1;
        }
        i += 1;
    }
    proof {
        lemma_first_index_none(n as int, repeats_at(vs));
    }
    let (repr_type, kind) = match resolve_representation(&d.annotations, types) {
        Ok(p) => p,
        Err(e) => {
            return Err(SchemaError { declaration: d.name.clone(), kind: e });
        },
    };
    let mut variants: Vec<VariantSpec> = Vec::new();
    let mut i: usize = 0;
    while i < n
        invariant
            0 <= i <= n,
            variants@.len() == i,
            forall|k: int| 0 <= k < i ==> #[trigger] variants@[k]@ == variant_views(vs, kind, vv)[k],
            kind == SchemaKind::Associated ==> first_index(i as int, lacks_value_at(vs, vv)) is None,
        decreases n - i,
    {
        let value = match kind {
            SchemaKind::Discriminant => ConstValueSource::Discriminant,
            SchemaKind::Associated => {
                let present = find_first_labelled(&d.variants[i].annotations, CONSTANT_VALUE);
                match (present, &values[i]) {
                    (Some(_), Some(e)) => ConstValueSource::Explicit(e.clone()),
                    (p, _) => {
                        proof {
                            assert(lacks_value_at(vs, vv)(i as int));
                            lemma_first_index_stable(i + 1, n as int, lacks_value_at(vs, vv));
                        }
                        let v = d.variants[i].name.clone();
                        let kind = if p.is_some() {
                            ErrorKind::UnparsableConstValue(v)
                        } else {
                            ErrorKind::MissingConstValue(v)
                        };
                        return Err(SchemaError { declaration: d.name.clone(), kind });
                    },
                }
            },
        };
        variants.push(VariantSpec { name: d.variants[i].name.clone(), value });
        i += 1;
    }
    let r = EnumSchema { name: d.name.clone(), repr_type, kind, variants };
    assert(r@.variants =~= variant_views(vs, kind, vv));
    proof {
        assert forall|a: int, b: int|
            0 <= a < n && 0 <= b < n && a != b implies r@.variants[a].name != r@.variants[b].name by {
            if a < b {
                assert(!repeats_at(vs)(b));
            } else {
                assert(!repeats_at(vs)(a));
            }
        }
    }
    Ok(r)
}

/// The text read as a type for an annotation: the argument of a
/// representation-type or ordinal annotation; no text for any other.
pub open spec fn type_source(a: Annotation) -> Option<Seq<char>> {
    if labelled(a, ASSOCIATED_TYPE@) || labelled(a, ORDINAL_REPR@) {
        Some(a.args@)
    } else {
        None
    }
}

/// The text read as an expression for a variant: where the declaration has
/// a representation-type annotation, the argument of the variant's first
/// constant-value annotation; else none, as ordinal values consult no
/// per-variant annotation.
pub open spec fn value_source(d: Declaration, v: VariantDecl) -> Option<Seq<char>> {
    if last_labelled(d.annotations@, ASSOCIATED_TYPE@) is Some {
        match first_labelled(v.annotations@, CONSTANT_VALUE@) {
            Some(j) => Some(v.annotations@[j].args@),
            None => None,
        }
    } else {
        None
    }
}

/// The texts handed to the parser: one per annotation, one per variant.
pub open spec fn sources(d: Declaration) -> (Seq<Option<Seq<char>>>, Seq<Option<Seq<char>>>) {
    (
        d.annotations@.map_values(|a: Annotation| type_source(a)),
        d.variants@.map_values(|v: VariantDecl| value_source(d, v)),
    )
}

/// Parse outcomes that exist only where the declaration gave a text.
pub open spec fn parsed_from_sources(d: Declaration, types: Seq<Option<Seq<char>>>, values: Seq<Option<Seq<char>>>) -> bool {
    &&& forall|k: int| 0 <= k < types.len() && #[trigger] types[k] is Some ==> sources(d).0[k] is Some
    &&& forall|i: int| 0 <= i < values.len() && #[trigger] values[i] is Some ==> sources(d).1[i] is Some
}

/// Collects the texts that extraction reads: for each annotation the
/// argument of a representation-type or ordinal annotation, and for each
/// variant, where the declaration has a representation-type annotation,
/// the argument of its first constant-value annotation.
pub fn parse_sources(d: &Declaration) -> (r: (Vec<Option<String>>, Vec<Option<String>>))
    ensures
        texts(r.0@) == sources(*d).0,
        texts(r.1@) == sources(*d).1,
{
    let mut types: Vec<Option<String>> = Vec::new();
    let mut k: usize = 0;
    while k < d.annotations.len()
        invariant
            0 <= k <= d.annotations@.len(),
            types@.len() == k,
            forall|j: int| 0 <= j < k ==> #[trigger] opt_text(types@[j]) == sources(*d).0[j],
        decreases d.annotations@.len() - k,
    {
        let a = &d.annotations[k];
        let t = if a.has_label(ASSOCIATED_TYPE) || a.has_label(ORDINAL_REPR) {
            Some(a.args.clone())
        } else {
            None
        };
        types.push(t);
        k += 1;
    }
    let associated = find_last_labelled(&d.annotations, ASSOCIATED_TYPE).is_some();
    let mut values: Vec<Option<String>> = Vec::new();
    let mut i: usize = 0;
    while i < d.variants.len()
        invariant
            0 <= i <= d.variants@.len(),
            values@.len() == i,
            associated == last_labelled(d.annotations@, ASSOCIATED_TYPE@) is Some,
            forall|j: int| 0 <= j < i ==> #[trigger] opt_text(values@[j]) == sources(*d).1[j],
        decreases d.variants@.len() - i,
    {
        let v = &d.variants[i];
        let e = if associated {
            match find_first_labelled(&v.annotations, CONSTANT_VALUE) {
                Some(j) => Some(v.annotations[j].args.clone()),
                None => None,
            }
        } else {
            None
        };
        values.push(e);
        i += 1;
    }
    assert(texts(types@) =~= sources(*d).0);
    assert(texts(values@) =~= sources(*d).1);
    (types, values)
}

/// Validates a declaration into a schema. The texts of [`parse_sources`],
/// and only those, are read by the parser, the first ones as types and the
/// others as expressions. Whatever the parser gives back, the result is
/// what [`build_schema`] makes of the declaration under parse outcomes of
/// the right shape that exist only where there was a text; the rules that
/// need no parsing decide exactly.
pub fn extract(d: &Declaration) -> (r: Result<EnumSchema, SchemaError>)
    ensures
        exists|types: Seq<Option<Seq<char>>>, values: Seq<Option<Seq<char>>>|
            #[trigger] extracted(r, *d, types, values) && parsed_from_sources(*d, types, values),
        r matches Ok(x) ==> x.wf(),
{
    let (type_texts, value_texts) = parse_sources(d);
    assert(type_texts@.len() == texts(type_texts@).len());
    assert(value_texts@.len() == texts(value_texts@).len());
    let mut types: Vec<Option<String>> = Vec::new();
    let mut k: usize = 0;
    while k < type_texts.len()
        invariant
            0 <= k <= type_texts@.len(),
            types@.len() == k,
            forall|j: int| 0 <= j < k && #[trigger] types@[j] is Some ==> type_texts@[j] is Some,
        decreases type_texts@.len() - k,
    {
        let t = match &type_texts[k] {
            Some(text) => parse_type(text.as_str()),
            None => None,
        };
        types.push(t);
        k += 1;
    }
    let mut values: Vec<Option<String>> = Vec::new();
    let mut i: usize = 0;
    while i < value_texts.len()
        invariant
            0 <= i <= value_texts@.len(),
            values@.len() == i,
            forall|j: int| 0 <= j < i && #[trigger] values@[j] is Some ==> value_texts@[j] is Some,
        decreases value_texts@.len() - i,
    {
        let e = match &value_texts[i] {
            Some(text) => parse_expr(text.as_str()),
            None => None,
        };
        values.push(e);
        i += 1;
    }
    proof {
        assert forall|j: int| 0 <= j < types@.len() && #[trigger] texts(types@)[j] is Some implies sources(*d).0[j] is Some by {
            assert(types@[j] is Some);
            assert(texts(type_texts@)[j] is Some);
        }
        assert forall|j: int| 0 <= j < values@.len() && #[trigger] texts(values@)[j] is Some implies sources(*d).1[j] is Some by {
            assert(values@[j] is Some);
            assert(texts(value_texts@)[j] is Some);
        }
    }
    let r = build_schema(d, &types, &values);
    assert(extracted(r, *d, texts(types@), texts(values@)));
    r
}

pub proof fn lemma_first_index_at(n: int, p: spec_fn(int) -> bool, i: int)
    requires
        0 <= i < n,
        p(i),
        forall|j: int| 0 <= j < i ==> !#[trigger] p(j),
    ensures
        first_index(n, p) == Some(i),
{
    lemma_first_index_none(i, p);
    lemma_first_index_stable(i + 1, n, p);
}

/// An enumeration with variants and without generics.
pub open spec fn well_shaped(d: Declaration) -> bool {
    d.shape == Shape::Enum && d.variants@.len() > 0 && d.generic_params == 0 && !d.has_where_clause
}

/// Every variant is fieldless and no name repeats.
pub open spec fn plain_variants(vs: Seq<VariantDecl>) -> bool {
    &&& forall|i: int| 0 <= i < vs.len() ==> #[trigger] fieldless(vs[i].fields)
    &&& forall|i: int| 0 <= i < vs.len() ==> !#[trigger] repeats_earlier(vs, i)
}

/// Each malformed declaration is rejected, whatever the parser gives back,
/// with its own error: not an enumeration, no variants, generic, a variant
/// with fields (named by the first such), no representation type, and under
/// an explicit representation type a variant without a constant (named by
/// the first variant whose constant is missing or unreadable). A
/// declaration that is accepted gives a valid schema with all its variants.
pub proof fn law_malformed_rejected(d: Declaration, types: Seq<Option<Seq<char>>>, values: Seq<Option<Seq<char>>>)
    requires
        fits(d, types, values),
    ensures
        d.shape != Shape::Enum ==> extraction(d, types, values) == Err::<SchemaView, ErrorKindView>(
            ErrorKindView::NotAnEnum,
        ),
        d.shape == Shape::Enum && d.variants@.len() == 0 ==> extraction(d, types, values) == Err::<
            SchemaView,
            ErrorKindView,
        >(ErrorKindView::NoVariants),
        d.shape == Shape::Enum && d.variants@.len() > 0 && (d.generic_params > 0 || d.has_where_clause)
            ==> extraction(d, types, values) == Err::<SchemaView, ErrorKindView>(ErrorKindView::Generic),
        forall|i: int|
            0 <= i < d.variants@.len() && !fieldless(#[trigger] d.variants@[i].fields) ==> extraction(
                d,
                types,
                values,
            ) is Err,
        forall|i: int|
            well_shaped(d) && 0 <= i < d.variants@.len() && !fieldless(#[trigger] d.variants@[i].fields)
                && (forall|k: int| 0 <= k < i ==> fieldless(d.variants@[k].fields)) ==> extraction(
                d,
                types,
                values,
            ) == Err::<SchemaView, ErrorKindView>(ErrorKindView::NotFieldless(d.variants@[i].name@)),
        last_labelled(d.annotations@, ASSOCIATED_TYPE@) is None && first_labelled(
            d.annotations@,
            ORDINAL_REPR@,
        ) is None ==> extraction(d, types, values) is Err,
        well_shaped(d) && plain_variants(d.variants@) && last_labelled(d.annotations@, ASSOCIATED_TYPE@)
            is None && first_labelled(d.annotations@, ORDINAL_REPR@) is None ==> extraction(d, types, values)
            == Err::<SchemaView, ErrorKindView>(ErrorKindView::MissingRepresentation),
        forall|i: int|
            0 <= i < d.variants@.len() && last_labelled(d.annotations@, ASSOCIATED_TYPE@) is Some
                && first_labelled(#[trigger] d.variants@[i].annotations@, CONSTANT_VALUE@) is None
                ==> extraction(d, types, values) is Err,
        forall|i: int|
            well_shaped(d) && plain_variants(d.variants@) && 0 <= i < d.variants@.len()
                && (representation(d.annotations@, types) matches Ok((_, SchemaKind::Associated)))
                && first_labelled(#[trigger] d.variants@[i].annotations@, CONSTANT_VALUE@) is None
                && (forall|k: int| 0 <= k < i ==> explicit_value(d.variants@[k], values[k]) is Ok)
                ==> extraction(d, types, values) == Err::<SchemaView, ErrorKindView>(
                ErrorKindView::MissingConstValue(d.variants@[i].name@),
            ),
        extraction(d, types, values) matches Ok(s) ==> s.wf() && s.variants.len() == d.variants@.len(),
{
    let vs = d.variants@;
    let n = vs.len() as int;
    let r = extraction(d, types, values);
    let s = d.annotations@;
    if last_labelled(s, ASSOCIATED_TYPE@) is None {
        lemma_last_index_none(s.len() as int, label_at(s, ASSOCIATED_TYPE@));
        assert forall|k: int| 0 <= k < s.len() implies !#[trigger] bad_type_at(s, types)(k) by {
            assert(!label_at(s, ASSOCIATED_TYPE@)(k));
        }
        lemma_first_index_none(s.len() as int, bad_type_at(s, types));
    }
    lemma_first_index_bounds(n, has_fields_at(vs));
    lemma_first_index_none(n, has_fields_at(vs));
    lemma_first_index_none(n, repeats_at(vs));
    lemma_first_index_none(n, lacks_value_at(vs, values));
    assert forall|i: int|
        well_shaped(d) && 0 <= i < n && !fieldless(#[trigger] vs[i].fields) && (forall|k: int|
            0 <= k < i ==> fieldless(vs[k].fields)) implies r == Err::<SchemaView, ErrorKindView>(
        ErrorKindView::NotFieldless(vs[i].name@),
    ) by {
        assert forall|k: int| 0 <= k < i implies !#[trigger] has_fields_at(vs)(k) by {
            assert(fieldless(vs[k].fields));
        }
        lemma_first_index_at(n, has_fields_at(vs), i);
    }
    assert forall|i: int| 0 <= i < n && !fieldless(#[trigger] vs[i].fields) implies r is Err by {
        assert(has_fields_at(vs)(i));
    }
    if plain_variants(vs) {
        assert forall|i: int| 0 <= i < n implies !#[trigger] has_fields_at(vs)(i) by {
            assert(fieldless(vs[i].fields));
        }
        assert forall|i: int| 0 <= i < n implies !#[trigger] repeats_at(vs)(i) by {
            assert(!repeats_earlier(vs, i));
        }
    }
    assert forall|i: int|
        0 <= i < n && last_labelled(d.annotations@, ASSOCIATED_TYPE@) is Some && first_labelled(
            #[trigger] vs[i].annotations@,
            CONSTANT_VALUE@,
        ) is None implies r is Err by {
        assert(lacks_value_at(vs, values)(i));
    }
    assert forall|i: int|
        well_shaped(d) && plain_variants(vs) && 0 <= i < n && (representation(d.annotations@, types) matches Ok((_, SchemaKind::Associated))) && first_labelled(#[trigger] vs[i].annotations@, CONSTANT_VALUE@) is None && (forall|k: int|
            0 <= k < i ==> explicit_value(vs[k], values[k]) is Ok) implies r == Err::<
        SchemaView,
        ErrorKindView,
    >(ErrorKindView::MissingConstValue(vs[i].name@)) by {
        assert forall|k: int| 0 <= k < i implies !#[trigger] lacks_value_at(vs, values)(k) by {
            assert(explicit_value(vs[k], values[k]) is Ok);
        }
        lemma_first_index_at(n, lacks_value_at(vs, values), i);
    }
    if let Ok(s) = r {
        assert forall|a: int, b: int|
            0 <= a < n && 0 <= b < n && a != b implies s.variants[a].name != s.variants[b].name by {
            if a < b {
                assert(!repeats_at(vs)(b));
            } else {
                assert(!repeats_at(vs)(a));
            }
        }
    }
}

/// Every error names a rule that the declaration does break (and, for a
/// variant's rule, a variant that breaks it), so two declarations that
/// each break a different single rule are rejected with different errors.
pub proof fn law_error_names_a_broken_rule(d: Declaration, types: Seq<Option<Seq<char>>>, values: Seq<Option<Seq<char>>>)
    requires
        fits(d, types, values),
    ensures
        extraction(d, types, values) matches Err(e) ==> {
            let vs = d.variants@;
            &&& (e is NotAnEnum <==> d.shape != Shape::Enum)
            &&& (e is NoVariants <==> d.shape == Shape::Enum && vs.len() == 0)
            &&& (e is Generic <==> d.shape == Shape::Enum && vs.len() > 0 && (d.generic_params > 0
                || d.has_where_clause))
            &&& (e matches ErrorKindView::NotFieldless(n) ==> exists|i: int|
                0 <= i < vs.len() && !fieldless(#[trigger] vs[i].fields) && vs[i].name@ == n)
            &&& (e matches ErrorKindView::DuplicateVariant(n) ==> exists|i: int|
                0 <= i < vs.len() && #[trigger] repeats_earlier(vs, i) && vs[i].name@ == n)
            &&& (e is MissingRepresentation ==> last_labelled(d.annotations@, ASSOCIATED_TYPE@) is None
                && first_labelled(d.annotations@, ORDINAL_REPR@) is None)
            &&& (e matches ErrorKindView::MissingConstValue(n) ==> exists|i: int|
                0 <= i < vs.len() && first_labelled(#[trigger] vs[i].annotations@, CONSTANT_VALUE@)
                    is None && vs[i].name@ == n)
        },
{
    let vs = d.variants@;
    let n = vs.len() as int;
    lemma_first_index_bounds(n, has_fields_at(vs));
    lemma_first_index_bounds(n, repeats_at(vs));
    lemma_first_index_bounds(n, lacks_value_at(vs, values));
    if let Some(i) = first_index(n, has_fields_at(vs)) {
        assert(!fieldless(vs[i].fields));
    }
    if let Some(i) = first_index(n, repeats_at(vs)) {
        assert(repeats_earlier(vs, i));
    }
    if let Some(i) = first_index(n, lacks_value_at(vs, values)) {
        assert(explicit_value(vs[i], values[i]) is Err);
    }
}

} // verus!
