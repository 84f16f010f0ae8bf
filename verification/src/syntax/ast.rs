//! The syntax tree of a compilation unit.

use vstd::prelude::*;
use crate::filemap::Span;

verus! {

/// A name as it stands in the source.
#[derive(Debug, Clone, PartialEq, Eq)]
pub struct Ident {
    pub name: String,
    pub span: Span,
}

/// The mathematical value of an `Ident`.
pub struct IdentView {
    pub name: Seq<char>,
    pub span: Span,
}

impl View for Ident {
    type V = IdentView;

    open spec fn view(&self) -> IdentView {
        IdentView { name: self.name@, span: self.span }
    }
}

impl Default for Ident {
    /// The empty name at the start of the source.
    fn default() -> (id: Ident)
        ensures
            id@ == (IdentView { name: Seq::empty(), span: Span { lo: 0, hi: 0 } }),
    {
        Ident { name: String::new(), span: Span { lo: 0, hi: 0 } }
    }
}

/// The values of a list of identifiers.
pub open spec fn idents_view(v: Seq<Ident>) -> Seq<IdentView> {
    v.map_values(|i: Ident| i@)
}

/// A name that may be qualified: `a.b.c` has the path `a`, `b` and the last
/// part `c`.
#[derive(Debug, Clone, PartialEq, Eq)]
pub struct Name {
    pub path: Vec<Ident>,
    pub last: Option<Ident>,
}

/// The mathematical value of a `Name`.
pub struct NameView {
    pub path: Seq<IdentView>,
    pub last: Option<IdentView>,
}

impl View for Name {
    type V = NameView;

    open spec fn view(&self) -> NameView {
        NameView {
            path: idents_view(self.path@),
            last: match self.last {
                Some(i) => Some(i@),
                None => None,
            },
        }
    }
}

/// An import declaration.
#[derive(Debug, Clone, PartialEq, Eq)]
pub enum Import {
    /// `import a.b.C;`
    Single(Name),
    /// `import a.b.*;`
    Wildcard(Name),
}

/// The mathematical value of an `Import`.
pub enum ImportView {
    Single(NameView),
    Wildcard(NameView),
}

impl View for Import {
    type V = ImportView;

    open spec fn view(&self) -> ImportView {
        match *self {
            Import::Single(n) => ImportView::Single(n@),
            Import::Wildcard(n) => ImportView::Wildcard(n@),
        }
    }
}

/// Who may see a class or a member.
#[derive(Debug, Clone, Copy, PartialEq, Eq, Structural)]
pub enum Visibility {
    Public,
    Protected,
    Package,
    Private,
}

/// The keywords that may stand before a declaration.
#[derive(Debug, Clone, Copy, PartialEq, Eq, Hash, Structural)]
pub enum Modifier {
    Public,
    Protected,
    Private,
    Abstract,
    Static,
    Final,
    Synchronized,
    Native,
    Strictfp,
    Transient,
    Volatile,
}

impl Modifier {
    /// The modifier as it is written in a Java source.
    pub open spec fn java_text(self) -> Seq<char> {
        match self {
            Modifier::Public => "public"@,
            Modifier::Protected => "protected"@,
            Modifier::Private => "private"@,
            Modifier::Abstract => "abstract"@,
            Modifier::Static => "static"@,
            Modifier::Final => "final"@,
            Modifier::Synchronized => "synchronized"@,
            Modifier::Native => "native"@,
            Modifier::Strictfp => "strictfp"@,
            Modifier::Transient => "transient"@,
            Modifier::Volatile => "volatile"@,
        }
    }

    /// The modifier as it is written in a Java source.
    pub fn as_java_string(&self) -> (s: &'static str)
        ensures
            s@ == self.java_text(),
    {
        match self {
            Modifier::Public => "public",
            Modifier::Protected => "protected",
            Modifier::Private => "private",
            Modifier::Abstract => "abstract",
            Modifier::Static => "static",
            Modifier::Final => "final",
            Modifier::Synchronized => "synchronized",
            Modifier::Native => "native",
            Modifier::Strictfp => "strictfp",
            Modifier::Transient => "transient",
            Modifier::Volatile => "volatile",
        }
    }
}

/// A parameter of a method.
#[derive(Debug, Clone, PartialEq, Eq)]
pub struct FormalParameter {
    pub ty: Ident,
    pub name: Ident,
    /// Number of `[]` behind the type or the name.
    pub dims: usize,
    pub final_: bool,
}

/// The mathematical value of a `FormalParameter`.
pub struct FormalParameterView {
    pub ty: IdentView,
    pub name: IdentView,
    pub dims: usize,
    pub final_: bool,
}

impl View for FormalParameter {
    type V = FormalParameterView;

    open spec fn view(&self) -> FormalParameterView {
        FormalParameterView {
            ty: self.ty@,
            name: self.name@,
            dims: self.dims,
            final_: self.final_,
        }
    }
}

/// The values of a list of parameters.
pub open spec fn params_view(v: Seq<FormalParameter>) -> Seq<FormalParameterView> {
    v.map_values(|p: FormalParameter| p@)
}

/// The header of a method.
#[derive(Debug, Clone, PartialEq, Eq)]
pub struct Method {
    pub vis: Visibility,
    pub name: Ident,
    pub ret_ty: Ident,
    pub static_: bool,
    pub final_: bool,
    pub params: Vec<FormalParameter>,
}

/// The mathematical value of a `Method`.
pub struct MethodView {
    pub vis: Visibility,
    pub name: IdentView,
    pub ret_ty: IdentView,
    pub static_: bool,
    pub final_: bool,
    pub params: Seq<FormalParameterView>,
}

impl View for Method {
    type V = MethodView;

    open spec fn view(&self) -> MethodView {
        MethodView {
            vis: self.vis,
            name: self.name@,
            ret_ty: self.ret_ty@,
            static_: self.static_,
            final_: self.final_,
            params: params_view(self.params@),
        }
    }
}

/// The values of a list of methods.
pub open spec fn methods_view(v: Seq<Method>) -> Seq<MethodView> {
    v.map_values(|m: Method| m@)
}

/// A class with the methods declared in it.
#[derive(Debug, Clone, PartialEq, Eq)]
pub struct Class {
    pub name: Ident,
    pub vis: Visibility,
    pub methods: Vec<Method>,
}

/// The mathematical value of a `Class`.
pub struct ClassView {
    pub name: IdentView,
    pub vis: Visibility,
    pub methods: Seq<MethodView>,
}

impl View for Class {
    type V = ClassView;

    open spec fn view(&self) -> ClassView {
        ClassView { name: self.name@, vis: self.vis, methods: methods_view(self.methods@) }
    }
}

/// What may stand at the top of a compilation unit.
#[derive(Debug, Clone, PartialEq, Eq)]
pub enum Item {
    Import(Import),
    Class(Box<Class>),
    Method(Box<Method>),
}

/// The mathematical value of an `Item`.
pub enum ItemView {
    Import(ImportView),
    Class(ClassView),
    Method(MethodView),
}

impl View for Item {
    type V = ItemView;

    open spec fn view(&self) -> ItemView {
        match *self {
            Item::Import(i) => ItemView::Import(i@),
            Item::Class(c) => ItemView::Class(c@),
            Item::Method(m) => ItemView::Method(m@),
        }
    }
}

/// The values of a list of items.
pub open spec fn items_view(v: Seq<Item>) -> Seq<ItemView> {
    v.map_values(|i: Item| i@)
}

/// A compilation unit: what one source file holds.
#[derive(Debug, Clone, PartialEq, Eq)]
pub struct CUnit {
    pub items: Vec<Item>,
}

/// The mathematical value of a `CUnit`.
pub struct CUnitView {
    pub items: Seq<ItemView>,
}

impl View for CUnit {
    type V = CUnitView;

    open spec fn view(&self) -> CUnitView {
        CUnitView { items: items_view(self.items@) }
    }
}

} // verus!
