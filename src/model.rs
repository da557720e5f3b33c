//! A plain model of what the analysis reads from a parsed source file.

use vstd::prelude::*;

verus! {

/// A type as it is written in a field or an alias.
pub enum TypeRef {
    /// A path such as `a::b::C<X, Y>`.
    Path(TypePath),
    /// `&T` or `&mut T`.
    Reference(Box<TypeRef>),
    /// `[T]`.
    Slice(Box<TypeRef>),
    /// `[T; N]`.
    Array(Box<TypeRef>),
    /// `*const T` or `*mut T`.
    Pointer(Box<TypeRef>),
    /// `(A, B, ...)`; `()` is the empty tuple.
    Tuple(Vec<TypeRef>),
    /// Any other type (a function pointer, a trait object, ...), as its
    /// source text with the spaces removed.
    Other(String),
}

/// A type path: its segments, and the type arguments of all its segments in
/// the order they are written.
pub struct TypePath {
    pub segments: Vec<String>,
    pub args: Vec<TypeRef>,
}

/// The tree of one `use` item.
pub enum UseTree {
    /// `ident::tree`.
    Path { ident: String, tree: Box<UseTree> },
    /// `ident`.
    Name(String),
    /// `ident as rename`.
    Rename { ident: String, rename: String },
    /// `*`.
    Glob,
    /// `{a, b, ...}`.
    Group(Vec<UseTree>),
}

/// A top-level item of a file or of a module.
pub enum Item {
    /// A struct with the types of its fields (named or positional) in order.
    Struct { name: String, fields: Vec<TypeRef> },
    /// `type name = target;`.
    Alias { name: String, target: TypeRef },
    /// A `use` item.
    Use(UseTree),
    /// `mod name { ... }` (`Some`) or `mod name;` (`None`).
    Module { name: String, content: Option<Vec<Item>> },
    /// Anything else.
    Other,
}

/// A parsed source file and where it lies: its path from the root of the
/// source tree, one entry per directory and the file's name last.
pub struct SourceFile {
    pub path: Vec<String>,
    pub items: Vec<Item>,
}

/// A type that a field mentions, before resolution.
pub enum FieldRef {
    /// A path, resolved later in the module it was written in.
    Named(Vec<String>),
    /// A type kept as its text; it is never resolved.
    Verbatim(String),
}

/// What a [`FieldRef`] stands for.
pub ghost enum RefView {
    Named(Seq<Seq<char>>),
    Verbatim(Seq<char>),
}

impl View for FieldRef {
    type V = RefView;

    open spec fn view(&self) -> RefView {
        match self {
            FieldRef::Named(p) => RefView::Named(p.deep_view()),
            FieldRef::Verbatim(s) => RefView::Verbatim(s@),
        }
    }
}

/// The views of a list of field references.
pub open spec fn refs_view(v: Seq<FieldRef>) -> Seq<RefView> {
    v.map_values(|f: FieldRef| f@)
}

} // verus!
