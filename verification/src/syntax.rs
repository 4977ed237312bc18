//! The parts of an item declaration that marker synthesis reads.
//!
//! A front end turns a parsed item into a [`Declaration`]; everything after
//! that works on these plain values.

use vstd::prelude::*;

verus! {

/// A path made of plain identifiers, such as `require` or `::a::b`.
#[derive(Debug, PartialEq, Eq)]
pub struct Path {
    /// Whether the path starts with `::`.
    pub leading_colon: bool,
    /// The identifiers between the `::` separators, in order.
    pub segments: Vec<String>,
}

/// The mathematical content of a [`Path`].
pub struct PathView {
    pub leading_colon: bool,
    pub segments: Seq<Seq<char>>,
}

impl View for Path {
    type V = PathView;

    open spec fn view(&self) -> PathView {
        PathView { leading_colon: self.leading_colon, segments: self.segments.deep_view() }
    }
}

impl DeepView for Path {
    type V = PathView;

    open spec fn deep_view(&self) -> PathView {
        self@
    }
}

impl PathView {
    /// The path is the single identifier `name`: no leading `::` and exactly
    /// one segment, which spells `name`.
    pub open spec fn is_ident(self, name: Seq<char>) -> bool {
        !self.leading_colon && self.segments.len() == 1 && self.segments[0] == name
    }
}

/// Copies a list of names.
pub fn clone_names(names: &Vec<String>) -> (copy: Vec<String>)
    ensures
        copy.deep_view() == names.deep_view(),
{
    let mut copy: Vec<String> = Vec::new();
    let mut i: usize = 0;
    while i < names.len()
        invariant
            i <= names.len(),
            copy.len() == i,
            forall|k: int| 0 <= k < i ==> copy[k]@ == names[k]@,
        decreases names.len() - i,
    {
        copy.push(names[i].clone());
        i += 1;
    }
    assert(copy.deep_view() =~= names.deep_view());
    copy
}

impl Path {
    /// The path that consists of the single identifier `name`.
    pub fn from_ident(name: &str) -> (path: Path)
        ensures
            path@.is_ident(name@),
            path@ == (PathView { leading_colon: false, segments: seq![name@] }),
    {
        let mut segments: Vec<String> = Vec::new();
        segments.push(name.to_string());
        let path = Path { leading_colon: false, segments };
        assert(path@.segments =~= seq![name@]);
        path
    }

    /// Whether the path is exactly the identifier `name`.
    pub fn is_ident(&self, name: &str) -> (r: bool)
        ensures
            r == self@.is_ident(name@),
    {
        if self.leading_colon || self.segments.len() != 1 {
            return false;
        }
        let expected = name.to_string();
        self.segments[0] == expected
    }
}

impl Clone for Path {
    fn clone(&self) -> (copy: Path)
        ensures
            copy@ == self@,
    {
        Path { leading_colon: self.leading_colon, segments: clone_names(&self.segments) }
    }
}

/// Who may name an item: `pub`, `pub(..)`, or nothing written.
#[derive(Debug, PartialEq, Eq)]
pub enum Visibility {
    /// `pub`
    Public,
    /// `pub(crate)`, `pub(super)`, `pub(self)` or `pub(in path)`; `has_in`
    /// tells whether the keyword `in` is written before the path.
    Restricted { has_in: bool, path: Path },
    /// No visibility written.
    Inherited,
}

/// The mathematical content of a [`Visibility`].
pub enum VisibilityView {
    Public,
    Restricted { has_in: bool, path: PathView },
    Inherited,
}

impl View for Visibility {
    type V = VisibilityView;

    open spec fn view(&self) -> VisibilityView {
        match self {
            Visibility::Public => VisibilityView::Public,
            Visibility::Restricted { has_in, path } => VisibilityView::Restricted {
                has_in: *has_in,
                path: path@,
            },
            Visibility::Inherited => VisibilityView::Inherited,
        }
    }
}

impl DeepView for Visibility {
    type V = VisibilityView;

    open spec fn deep_view(&self) -> VisibilityView {
        self@
    }
}

impl Clone for Visibility {
    fn clone(&self) -> (copy: Visibility)
        ensures
            copy@ == self@,
    {
        match self {
            Visibility::Public => Visibility::Public,
            Visibility::Restricted { has_in, path } => Visibility::Restricted {
                has_in: *has_in,
                path: path.clone(),
            },
            Visibility::Inherited => Visibility::Inherited,
        }
    }
}

/// What follows the path of an attribute.
#[derive(Debug, Clone, PartialEq, Eq)]
pub enum AttributeArgs {
    /// Nothing: `#[path]`.
    Bare,
    /// A delimited list, `#[path(...)]`, held as the source text between the
    /// delimiters.
    List(String),
    /// A value: `#[path = value]`.
    NameValue,
}

/// The mathematical content of an [`AttributeArgs`].
pub enum AttributeArgsView {
    Bare,
    List(Seq<char>),
    NameValue,
}

impl View for AttributeArgs {
    type V = AttributeArgsView;

    open spec fn view(&self) -> AttributeArgsView {
        match self {
            AttributeArgs::Bare => AttributeArgsView::Bare,
            AttributeArgs::List(text) => AttributeArgsView::List(text@),
            AttributeArgs::NameValue => AttributeArgsView::NameValue,
        }
    }
}

/// One attribute written on an item or on a variant.
#[derive(Debug, Clone, PartialEq, Eq)]
pub struct Attribute {
    pub path: Path,
    pub args: AttributeArgs,
}

/// The mathematical content of an [`Attribute`].
pub struct AttributeView {
    pub path: PathView,
    pub args: AttributeArgsView,
}

impl View for Attribute {
    type V = AttributeView;

    open spec fn view(&self) -> AttributeView {
        AttributeView { path: self.path@, args: self.args@ }
    }
}

impl DeepView for Attribute {
    type V = AttributeView;

    open spec fn deep_view(&self) -> AttributeView {
        self@
    }
}

impl Attribute {
    /// The attribute `#[name(args)]`.
    pub fn list(name: &str, args: &str) -> (attr: Attribute)
        ensures
            attr@ == (AttributeView {
                path: PathView { leading_colon: false, segments: seq![name@] },
                args: AttributeArgsView::List(args@),
            }),
    {
        Attribute { path: Path::from_ident(name), args: AttributeArgs::List(args.to_string()) }
    }
}

/// One variant of an enum. Its fields are of no concern here: a front end
/// carries them through untouched.
#[derive(Debug, Clone, PartialEq, Eq)]
pub struct Variant {
    pub name: String,
    pub attrs: Vec<Attribute>,
}

/// The mathematical content of a [`Variant`].
pub struct VariantView {
    pub name: Seq<char>,
    pub attrs: Seq<AttributeView>,
}

impl View for Variant {
    type V = VariantView;

    open spec fn view(&self) -> VariantView {
        VariantView { name: self.name@, attrs: self.attrs.deep_view() }
    }
}

impl DeepView for Variant {
    type V = VariantView;

    open spec fn deep_view(&self) -> VariantView {
        self@
    }
}

/// The kind of item that was declared, with the variants of an enum.
#[derive(Debug, Clone, PartialEq, Eq)]
pub enum ItemBody {
    Struct,
    Enum(Vec<Variant>),
    Union,
}

/// The mathematical content of an [`ItemBody`].
pub enum ItemBodyView {
    Struct,
    Enum(Seq<VariantView>),
    Union,
}

impl View for ItemBody {
    type V = ItemBodyView;

    open spec fn view(&self) -> ItemBodyView {
        match self {
            ItemBody::Struct => ItemBodyView::Struct,
            ItemBody::Enum(variants) => ItemBodyView::Enum(variants.deep_view()),
            ItemBody::Union => ItemBodyView::Union,
        }
    }
}

/// An item declaration: its name, visibility, attributes and body.
#[derive(Debug, Clone, PartialEq, Eq)]
pub struct Declaration {
    pub name: String,
    pub visibility: Visibility,
    pub attrs: Vec<Attribute>,
    pub body: ItemBody,
}

/// The mathematical content of a [`Declaration`].
pub struct DeclarationView {
    pub name: Seq<char>,
    pub visibility: VisibilityView,
    pub attrs: Seq<AttributeView>,
    pub body: ItemBodyView,
}

impl View for Declaration {
    type V = DeclarationView;

    open spec fn view(&self) -> DeclarationView {
        DeclarationView {
            name: self.name@,
            visibility: self.visibility@,
            attrs: self.attrs.deep_view(),
            body: self.body@,
        }
    }
}

} // verus!
