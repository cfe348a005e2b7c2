//! The input of schema extraction: an item declaration as the host parser
//! saw it, with its annotations reduced to a name and an argument text.
use vstd::prelude::*;

verus! {

/// The label of the annotation that selects an explicit representation type.
pub const ASSOCIATED_TYPE: &'static str = "const_ty";

/// The label of the structural ordinal-representation annotation.
pub const ORDINAL_REPR: &'static str = "repr";

/// The label of the per-variant constant-value annotation.
pub const CONSTANT_VALUE: &'static str = "const_val";

/// What kind of item was declared.
#[derive(Clone, Copy, Debug, PartialEq, Eq, Structural)]
pub enum Shape {
    Enum,
    Struct,
    Union,
}

/// The payload list of a variant, with the number of its elements.
#[derive(Clone, Copy, Debug, PartialEq, Eq, Structural)]
pub enum Fields {
    Unit,
    Named(usize),
    Unnamed(usize),
}

/// An annotation attached to a declaration or a variant: its name and the
/// text of its argument list.
#[derive(Clone, Debug)]
pub struct Annotation {
    pub name: String,
    pub args: String,
}

/// One variant of a declared enumeration.
#[derive(Clone, Debug)]
pub struct VariantDecl {
    pub name: String,
    pub fields: Fields,
    pub annotations: Vec<Annotation>,
}

/// A declaration handed to schema extraction. `variants` is empty for
/// anything but an enumeration.
#[derive(Clone, Debug)]
pub struct Declaration {
    pub name: String,
    pub shape: Shape,
    /// Number of type, lifetime and const parameters.
    pub generic_params: usize,
    pub has_where_clause: bool,
    pub annotations: Vec<Annotation>,
    pub variants: Vec<VariantDecl>,
}

/// A variant carries no data: no payload, or an empty payload list.
pub open spec fn fieldless(f: Fields) -> bool {
    match f {
        Fields::Unit => true,
        Fields::Named(n) => n == 0,
        Fields::Unnamed(n) => n == 0,
    }
}

/// The annotation has the given label.
pub open spec fn labelled(a: Annotation, label: Seq<char>) -> bool {
    a.name@ == label
}

impl Fields {
    pub fn is_fieldless(&self) -> (r: bool)
        ensures
            r == fieldless(*self),
    {
        match self {
            Fields::Unit => true,
            Fields::Named(n) => *n == 0,
            Fields::Unnamed(n) => *n == 0,
        }
    }
}

impl Annotation {
    pub fn new(name: &str, args: &str) -> (r: Annotation)
        ensures
            r.name@ == name@,
            r.args@ == args@,
    {
        Annotation { name: name.to_owned(), args: args.to_owned() }
    }

    pub fn has_label(&self, label: &str) -> (r: bool)
        ensures
            r == labelled(*self, label@),
    {
        self.name == label.to_owned()
    }
}

} // verus!
