//! The generators: the forward mapping, the inverse mapping and the
//! rendering, each emitted as a small syntax tree.
use vstd::prelude::*;
use vstd::string::*;

use crate::decl::Declaration;
use crate::schema::{
    extract, extracted, parsed_from_sources, ConstValueSource, EnumSchema, SchemaError, SchemaView, ValueView,
    VariantView,
};

verus! {

/// The initializer of a named constant.
#[derive(Clone, Debug)]
pub enum ConstInit {
    /// `enum_name::variant as ty`: the variant's ordinal, cast.
    Cast { enum_name: String, variant: String, ty: String },
    /// A constant expression, as written.
    Expr(String),
}

/// `const name: ty = init;`
#[derive(Clone, Debug)]
pub struct NamedConst {
    pub name: String,
    pub ty: String,
    pub init: ConstInit,
}

/// One arm of a dispatch: between `enum_name::variant` and the constant
/// named `constant`.
#[derive(Clone, Debug)]
pub struct Arm {
    pub variant: String,
    pub constant: String,
}

/// `fn into(self) -> repr_type`: the constants, then a match on `self`
/// whose arms, in order, return each variant's constant. No fallback arm.
#[derive(Clone, Debug)]
pub struct ForwardCode {
    pub enum_name: String,
    pub repr_type: String,
    pub constants: Vec<NamedConst>,
    pub arms: Vec<Arm>,
}

/// `fn try_from(val: repr_type) -> Result<enum_name, repr_type>`: the
/// constants, then a match on `val` whose arms, in order, return
/// `Ok(variant)` when `val` equals the arm's constant, closed by
/// `other => Err(other)`.
#[derive(Clone, Debug)]
pub struct InverseCode {
    pub enum_name: String,
    pub repr_type: String,
    pub constants: Vec<NamedConst>,
    pub arms: Vec<Arm>,
}

/// `fn fmt(&self, f)`: converts `*self` by the forward mapping into
/// `repr_type` and writes that value with its own rendering.
#[derive(Clone, Debug)]
pub struct RenderCode {
    pub enum_name: String,
    pub repr_type: String,
}

pub enum InitView {
    Cast { enum_name: Seq<char>, variant: Seq<char>, ty: Seq<char> },
    Expr(Seq<char>),
}

pub struct ConstView {
    pub name: Seq<char>,
    pub ty: Seq<char>,
    pub init: InitView,
}

pub struct ArmView {
    pub variant: Seq<char>,
    pub constant: Seq<char>,
}

/// A dispatch over named constants, forward or inverse.
pub struct CodeView {
    pub enum_name: Seq<char>,
    pub repr_type: Seq<char>,
    pub constants: Seq<ConstView>,
    pub arms: Seq<ArmView>,
}

pub struct RenderView {
    pub enum_name: Seq<char>,
    pub repr_type: Seq<char>,
}

impl View for ConstInit {
    type V = InitView;

    open spec fn view(&self) -> InitView {
        match self {
            ConstInit::Cast { enum_name, variant, ty } => InitView::Cast {
                enum_name: enum_name@,
                variant: variant@,
                ty: ty@,
            },
            ConstInit::Expr(e) => InitView::Expr(e@),
        }
    }
}

impl View for NamedConst {
    type V = ConstView;

    open spec fn view(&self) -> ConstView {
        ConstView { name: self.name@, ty: self.ty@, init: self.init@ }
    }
}

impl View for Arm {
    type V = ArmView;

    open spec fn view(&self) -> ArmView {
        ArmView { variant: self.variant@, constant: self.constant@ }
    }
}

impl View for ForwardCode {
    type V = CodeView;

    open spec fn view(&self) -> CodeView {
        CodeView {
            enum_name: self.enum_name@,
            repr_type: self.repr_type@,
            constants: self.constants@.map_values(|c: NamedConst| c@),
            arms: self.arms@.map_values(|a: Arm| a@),
        }
    }
}

impl View for InverseCode {
    type V = CodeView;

    open spec fn view(&self) -> CodeView {
        CodeView {
            enum_name: self.enum_name@,
            repr_type: self.repr_type@,
            constants: self.constants@.map_values(|c: NamedConst| c@),
            arms: self.arms@.map_values(|a: Arm| a@),
        }
    }
}

impl View for RenderCode {
    type V = RenderView;

    open spec fn view(&self) -> RenderView {
        RenderView { enum_name: self.enum_name@, repr_type: self.repr_type@ }
    }
}

/// The name of the constant that holds a variant's value.
pub open spec fn const_name(variant: Seq<char>) -> Seq<char> {
    "C_"@ + variant
}

/// The initializer of a variant's constant.
pub open spec fn const_init(s: SchemaView, v: VariantView) -> InitView {
    match v.value {
        ValueView::Discriminant => InitView::Cast {
            enum_name: s.name,
            variant: v.name,
            ty: s.repr_type,
        },
        ValueView::Explicit(e) => InitView::Expr(e),
    }
}

/// One constant per variant, in declaration order.
pub open spec fn constants_of(s: SchemaView) -> Seq<ConstView> {
    s.variants.map_values(
        |v: VariantView| ConstView { name: const_name(v.name), ty: s.repr_type, init: const_init(s, v) },
    )
}

/// One arm per variant, in declaration order.
pub open spec fn arms_of(s: SchemaView) -> Seq<ArmView> {
    s.variants.map_values(|v: VariantView| ArmView { variant: v.name, constant: const_name(v.name) })
}

/// The code that both mappings of a schema are made of.
pub open spec fn dispatch_of(s: SchemaView) -> CodeView {
    CodeView {
        enum_name: s.name,
        repr_type: s.repr_type,
        constants: constants_of(s),
        arms: arms_of(s),
    }
}

fn constant_name(variant: &String) -> (r: String)
    ensures
        r@ == const_name(variant@),
{
    String::from_str("C_").concat(variant.as_str())
}

fn constants(s: &EnumSchema) -> (r: Vec<NamedConst>)
    ensures
        r@.map_values(|c: NamedConst| c@) == constants_of(s@),
{
    let mut r: Vec<NamedConst> = Vec::new();
    let mut i: usize = 0;
    while i < s.variants.len()
        invariant
            0 <= i <= s.variants@.len(),
            r@.len() == i,
            forall|k: int| 0 <= k < i ==> #[trigger] r@[k]@ == constants_of(s@)[k],
        decreases s.variants@.len() - i,
    {
        let v = &s.variants[i];
        let init = match &v.value {
            ConstValueSource::Discriminant => ConstInit::Cast {
                enum_name: s.name.clone(),
                variant: v.name.clone(),
                ty: s.repr_type.clone(),
            },
            ConstValueSource::Explicit(e) => ConstInit::Expr(e.clone()),
        };
        r.push(NamedConst { name: constant_name(&v.name), ty: s.repr_type.clone(), init });
        i += 1;
    }
    assert(r@.map_values(|c: NamedConst| c@) =~= constants_of(s@));
    r
}

fn arms(s: &EnumSchema) -> (r: Vec<Arm>)
    ensures
        r@.map_values(|a: Arm| a@) == arms_of(s@),
{
    let mut r: Vec<Arm> = Vec::new();
    let mut i: usize = 0;
    while i < s.variants.len()
        invariant
            0 <= i <= s.variants@.len(),
            r@.len() == i,
            forall|k: int| 0 <= k < i ==> #[trigger] r@[k]@ == arms_of(s@)[k],
        decreases s.variants@.len() - i,
    {
        let v = &s.variants[i];
        r.push(Arm { variant: v.name.clone(), constant: constant_name(&v.name) });
        i += 1;
    }
    assert(r@.map_values(|a: Arm| a@) =~= arms_of(s@));
    r
}

/// Emits the forward mapping: one constant per variant, then an exhaustive
/// match returning it.
pub fn generate_forward(s: &EnumSchema) -> (r: ForwardCode)
    ensures
        r@ == dispatch_of(s@),
{
    ForwardCode {
        enum_name: s.name.clone(),
        repr_type: s.repr_type.clone(),
        constants: constants(s),
        arms: arms(s),
    }
}

/// Emits the inverse mapping: the same constants, then a match on the input
/// with one arm per constant in declaration order and a fallback that
/// returns the input.
pub fn generate_inverse(s: &EnumSchema) -> (r: InverseCode)
    ensures
        r@ == dispatch_of(s@),
{
    InverseCode {
        enum_name: s.name.clone(),
        repr_type: s.repr_type.clone(),
        constants: constants(s),
        arms: arms(s),
    }
}

/// Emits the rendering, which goes through the forward mapping.
pub fn generate_render(s: &EnumSchema) -> (r: RenderCode)
    ensures
        r@ == (RenderView { enum_name: s@.name, repr_type: s@.repr_type }),
{
    RenderCode { enum_name: s.name.clone(), repr_type: s.repr_type.clone() }
}

/// Validates a declaration and emits its inverse mapping.
pub fn derive_try_from(d: &Declaration) -> (r: Result<InverseCode, SchemaError>)
    ensures
        exists|x: Result<EnumSchema, SchemaError>, types: Seq<Option<Seq<char>>>, values: Seq<Option<Seq<char>>>|
            #[trigger] extracted(x, *d, types, values) && parsed_from_sources(*d, types, values) && match (x, r) {
                (Ok(s), Ok(c)) => c@ == dispatch_of(s@),
                (Err(e), Err(f)) => e@ == f@,
                _ => false,
            },
{
    let x = extract(d);
    let ghost (types, values) = choose|types: Seq<Option<Seq<char>>>, values: Seq<Option<Seq<char>>>|
        #[trigger] extracted(x, *d, types, values) && parsed_from_sources(*d, types, values);
    let r = match x {
        Ok(s) => Ok(generate_inverse(&s)),
        Err(e) => Err(e),
    };
    assert(extracted(x, *d, types, values));
    r
}

/// Validates a declaration and emits its forward mapping.
pub fn derive_into(d: &Declaration) -> (r: Result<ForwardCode, SchemaError>)
    ensures
        exists|x: Result<EnumSchema, SchemaError>, types: Seq<Option<Seq<char>>>, values: Seq<Option<Seq<char>>>|
            #[trigger] extracted(x, *d, types, values) && parsed_from_sources(*d, types, values) && match (x, r) {
                (Ok(s), Ok(c)) => c@ == dispatch_of(s@),
                (Err(e), Err(f)) => e@ == f@,
                _ => false,
            },
{
    let x = extract(d);
    let ghost (types, values) = choose|types: Seq<Option<Seq<char>>>, values: Seq<Option<Seq<char>>>|
        #[trigger] extracted(x, *d, types, values) && parsed_from_sources(*d, types, values);
    let r = match x {
        Ok(s) => Ok(generate_forward(&s)),
        Err(e) => Err(e),
    };
    assert(extracted(x, *d, types, values));
    r
}

/// Validates a declaration and emits its rendering.
pub fn derive_display(d: &Declaration) -> (r: Result<RenderCode, SchemaError>)
    ensures
        exists|x: Result<EnumSchema, SchemaError>, types: Seq<Option<Seq<char>>>, values: Seq<Option<Seq<char>>>|
            #[trigger] extracted(x, *d, types, values) && parsed_from_sources(*d, types, values) && match (x, r) {
                (Ok(s), Ok(c)) => c@ == (RenderView { enum_name: s@.name, repr_type: s@.repr_type }),
                (Err(e), Err(f)) => e@ == f@,
                _ => false,
            },
{
    let x = extract(d);
    let ghost (types, values) = choose|types: Seq<Option<Seq<char>>>, values: Seq<Option<Seq<char>>>|
        #[trigger] extracted(x, *d, types, values) && parsed_from_sources(*d, types, values);
    let r = match x {
        Ok(s) => Ok(generate_render(&s)),
        Err(e) => Err(e),
    };
    assert(extracted(x, *d, types, values));
    r
}

} // verus!
