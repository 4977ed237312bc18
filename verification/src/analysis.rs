//! Reading a declaration into the model that synthesis works from: which
//! visibility the marker types get, and which other types each marker requires.

use crate::syntax::{
    Attribute, AttributeArgs, AttributeArgsView, AttributeView, Declaration, DeclarationView,
    ItemBody, ItemBodyView, Path, Variant, VariantView, Visibility, VisibilityView,
};
use proc_macro2::fallback;
use syn::parse::Parser;
use syn::punctuated::Punctuated;
use vstd::prelude::*;

verus! {

/// Why no marker types were generated.
#[derive(Debug, Clone, Copy, PartialEq, Eq, Structural)]
pub enum DeriveError {
    /// The declaration is a struct or a union, not an enum.
    NotAnEnum,
}

impl DeriveError {
    /// The text of the diagnostic that a front end reports for this error.
    pub fn message(&self) -> (text: String)
        ensures
            text@ == "Cannot derive `EnumComponentTag` on non-enum type"@,
    {
        "Cannot derive `EnumComponentTag` on non-enum type".to_string()
    }
}

/// One variant of the subject enum, with the names of the types that its
/// marker requires.
#[derive(Debug, Clone, PartialEq, Eq)]
pub struct VariantSpec {
    pub name: String,
    pub requires: Vec<String>,
}

/// The mathematical content of a [`VariantSpec`].
pub struct VariantSpecView {
    pub name: Seq<char>,
    pub requires: Seq<Seq<char>>,
}

impl View for VariantSpec {
    type V = VariantSpecView;

    open spec fn view(&self) -> VariantSpecView {
        VariantSpecView { name: self.name@, requires: self.requires.deep_view() }
    }
}

impl DeepView for VariantSpec {
    type V = VariantSpecView;

    open spec fn deep_view(&self) -> VariantSpecView {
        self@
    }
}

/// The subject enum as synthesis sees it.
#[derive(Debug, Clone, PartialEq, Eq)]
pub struct EnumSpec {
    pub name: String,
    /// The visibility of the enum itself.
    pub visibility: Visibility,
    /// The visibility that every marker type gets.
    pub tag_visibility: Visibility,
    pub variants: Vec<VariantSpec>,
}

/// The mathematical content of an [`EnumSpec`].
pub struct EnumSpecView {
    pub name: Seq<char>,
    pub visibility: VisibilityView,
    pub tag_visibility: VisibilityView,
    pub variants: Seq<VariantSpecView>,
}

impl View for EnumSpec {
    type V = EnumSpecView;

    open spec fn view(&self) -> EnumSpecView {
        EnumSpecView {
            name: self.name@,
            visibility: self.visibility@,
            tag_visibility: self.tag_visibility@,
            variants: self.variants.deep_view(),
        }
    }
}

/// What `syn` makes of `args` read as paths separated by commas, a trailing
/// comma allowed: `None` where `args` is not such a list, else one entry per
/// path, which is the path's identifier where the path is a single identifier
/// and `None` where it is anything longer.
pub uninterp spec fn parsed_require_list(args: Seq<char>) -> Option<Seq<Option<Seq<char>>>>;

/// Trusted: `syn::punctuated::Punctuated::<syn::Path, Comma>::parse_terminated`
/// run on `args` by `syn::parse::Parser::parse_str`, then `syn::Path::get_ident`
/// on each path.
///
/// `proc_macro2::fallback::force` makes `proc-macro2` lex the text itself in
/// every process, also where a compiler's lexer is at hand, so parsing reads
/// nothing but `args` and its outcome is a function of the text. The contract
/// gives that function the name [`parsed_require_list`] and claims nothing
/// else about it.
#[verifier::external_body]
fn parse_require_list(args: &str) -> (entries: Option<Vec<Option<String>>>)
    ensures
        entries.deep_view() == parsed_require_list(args@),
{
    fallback::force();
    let parsed = Punctuated::<syn::Path, syn::token::Comma>::parse_terminated.parse_str(args);
    fallback::unforce();
    match parsed {
        Ok(paths) => Some(paths.iter().map(|p| p.get_ident().map(|i| i.to_string())).collect()),
        Err(_) => None,
    }
}

/// The visibilities that `syn` reads out of `args` taken as nested
/// attribute entries `key = visibility, ...`: one for each entry that has a
/// value, in order, up to the end of `args` or to the first point where the
/// text stops being such a list.
pub uninterp spec fn parsed_visibility_entries(args: Seq<char>) -> Seq<VisibilityView>;

/// Trusted: `syn::meta::parser` run on `args` by `syn::parse::Parser::parse_str`;
/// for each entry on which `ParseNestedMeta::value` succeeds, the value is
/// parsed as a `syn::Visibility` and recorded.
///
/// `proc_macro2::fallback::force` makes `proc-macro2` lex the text itself in
/// every process, so what is recorded is a function of the text. The contract
/// gives that function the name [`parsed_visibility_entries`] and claims
/// nothing else about it. A parse error ends the walk and keeps what was
/// recorded before it.
#[verifier::external_body]
fn parse_visibility_entries(args: &str) -> (found: Vec<Visibility>)
    ensures
        found.deep_view() == parsed_visibility_entries(args@),
{
    fallback::force();
    let mut found: Vec<syn::Visibility> = Vec::new();
    let _ = syn::meta::parser(|meta| {
        if let Ok(value) = meta.value() { found.push(value.parse()?); }
        Ok(())
    }).parse_str(args);
    fallback::unforce();
    found.iter().map(|v| match v {
        syn::Visibility::Public(_) => Visibility::Public,
        syn::Visibility::Inherited => Visibility::Inherited,
        syn::Visibility::Restricted(r) => Visibility::Restricted {
            has_in: r.in_token.is_some(),
            path: Path { leading_colon: r.path.leading_colon.is_some(), segments: r.path.segments.iter().map(|s| s.ident.to_string()).collect() },
        },
    }).collect()
}

/// The name of the attribute that lists what a marker requires.
pub open spec fn require_name() -> Seq<char> {
    "require"@
}

/// The name of the attribute that sets the visibility of the marker types.
pub open spec fn tag_visibility_name() -> Seq<char> {
    "tag_visibility"@
}

/// The identifiers among `entries`, in order; entries that are not a single
/// identifier are left out.
pub open spec fn idents_of(entries: Seq<Option<Seq<char>>>) -> Seq<Seq<char>>
    decreases entries.len(),
{
    if entries.len() == 0 {
        Seq::empty()
    } else {
        match entries.last() {
            Some(ident) => idents_of(entries.drop_last()).push(ident),
            None => idents_of(entries.drop_last()),
        }
    }
}

/// What a parsed requirement list contributes: its identifiers, or nothing
/// where the list did not parse.
pub open spec fn listed_idents(parsed: Option<Seq<Option<Seq<char>>>>) -> Seq<Seq<char>> {
    match parsed {
        Some(entries) => idents_of(entries),
        None => Seq::empty(),
    }
}

/// The requirements that one attribute contributes: those of a `require(...)`
/// list, none for any other attribute.
pub open spec fn attribute_requirements(attr: AttributeView) -> Seq<Seq<char>> {
    match attr.args {
        AttributeArgsView::List(text) if attr.path.is_ident(require_name()) => listed_idents(
            parsed_require_list(text),
        ),
        _ => Seq::empty(),
    }
}

/// The requirements of a variant: those of its attributes, one after another.
pub open spec fn requirements(attrs: Seq<AttributeView>) -> Seq<Seq<char>>
    decreases attrs.len(),
{
    if attrs.len() == 0 {
        Seq::empty()
    } else {
        requirements(attrs.drop_last()) + attribute_requirements(attrs.last())
    }
}

/// The visibility in force after a list of recorded visibilities: the last
/// of them, or `current` where there is none.
pub open spec fn latest_visibility(
    found: Seq<VisibilityView>,
    current: VisibilityView,
) -> VisibilityView {
    if found.len() > 0 {
        found.last()
    } else {
        current
    }
}

/// The visibility in force after one attribute: a `tag_visibility(...)` list
/// may replace `current`, any other attribute leaves it.
pub open spec fn attribute_visibility(
    attr: AttributeView,
    current: VisibilityView,
) -> VisibilityView {
    match attr.args {
        AttributeArgsView::List(text) if attr.path.is_ident(tag_visibility_name()) =>
            latest_visibility(parsed_visibility_entries(text), current),
        _ => current,
    }
}

/// The visibility of the marker types: public, unless `tag_visibility(...)`
/// attributes say otherwise; the last one that sets a visibility decides.
pub open spec fn tag_visibility(attrs: Seq<AttributeView>) -> VisibilityView
    decreases attrs.len(),
{
    if attrs.len() == 0 {
        VisibilityView::Public
    } else {
        attribute_visibility(attrs.last(), tag_visibility(attrs.drop_last()))
    }
}

/// The model of one variant.
pub open spec fn variant_spec(variant: VariantView) -> VariantSpecView {
    VariantSpecView { name: variant.name, requires: requirements(variant.attrs) }
}

/// The model of a declaration: that of an enum, or the reason why there is
/// none.
pub open spec fn analysis(decl: DeclarationView) -> Result<EnumSpecView, DeriveError> {
    match decl.body {
        ItemBodyView::Enum(variants) => Ok(
            EnumSpecView {
                name: decl.name,
                visibility: decl.visibility,
                tag_visibility: tag_visibility(decl.attrs),
                variants: Seq::new(variants.len(), |i: int| variant_spec(variants[i])),
            },
        ),
        _ => Err(DeriveError::NotAnEnum),
    }
}

/// Picks the identifiers out of the entries of a requirement list.
pub fn single_idents(entries: &Vec<Option<String>>) -> (idents: Vec<String>)
    ensures
        idents.deep_view() == idents_of(entries.deep_view()),
{
    let mut idents: Vec<String> = Vec::new();
    let mut i: usize = 0;
    while i < entries.len()
        invariant
            i <= entries.len(),
            idents.deep_view() == idents_of(entries.deep_view().take(i as int)),
        decreases entries.len() - i,
    {
        proof {
            let next = entries.deep_view().take(i + 1);
            assert(next.drop_last() =~= entries.deep_view().take(i as int));
            assert(next.last() == entries[i as int].deep_view());
        }
        let ghost before = idents.deep_view();
        match &entries[i] {
            Some(ident) => {
                idents.push(ident.clone());
                assert(idents.deep_view() =~= before.push(ident@));
            },
            None => {},
        }
        i += 1;
    }
    assert(entries.deep_view().take(i as int) =~= entries.deep_view());
    idents
}

/// What a parsed requirement list contributes to a marker's requirements.
pub fn requirements_from(parsed: &Option<Vec<Option<String>>>) -> (idents: Vec<String>)
    ensures
        idents.deep_view() == listed_idents(parsed.deep_view()),
{
    match parsed {
        Some(entries) => single_idents(entries),
        None => Vec::new(),
    }
}

/// The requirements that one attribute contributes.
pub fn requirements_of_attribute(attr: &Attribute) -> (idents: Vec<String>)
    ensures
        idents.deep_view() == attribute_requirements(attr@),
{
    if !attr.path.is_ident("require") {
        return Vec::new();
    }
    match &attr.args {
        AttributeArgs::List(text) => {
            let parsed = parse_require_list(text.as_str());
            requirements_from(&parsed)
        },
        _ => Vec::new(),
    }
}

/// The requirements of a variant with the attributes `attrs`.
pub fn requirements_of(attrs: &Vec<Attribute>) -> (idents: Vec<String>)
    ensures
        idents.deep_view() == requirements(attrs.deep_view()),
{
    let mut idents: Vec<String> = Vec::new();
    let mut i: usize = 0;
    while i < attrs.len()
        invariant
            i <= attrs.len(),
            idents.deep_view() == requirements(attrs.deep_view().take(i as int)),
        decreases attrs.len() - i,
    {
        proof {
            let next = attrs.deep_view().take(i + 1);
            assert(next.drop_last() =~= attrs.deep_view().take(i as int));
            assert(next.last() == attrs[i as int]@);
        }
        let ghost before = idents.deep_view();
        let mut more = requirements_of_attribute(&attrs[i]);
        let ghost added = more.deep_view();
        idents.append(&mut more);
        assert(idents.deep_view() =~= before + added);
        i += 1;
    }
    assert(attrs.deep_view().take(i as int) =~= attrs.deep_view());
    idents
}

/// The visibility in force after the recorded visibilities `found`.
pub fn choose_visibility(found: &Vec<Visibility>, current: Visibility) -> (chosen: Visibility)
    ensures
        chosen@ == latest_visibility(found.deep_view(), current@),
{
    if found.len() > 0 {
        found[found.len() - 1].clone()
    } else {
        current
    }
}

/// The visibility of the marker types of a declaration with the attributes
/// `attrs`.
pub fn tag_visibility_of(attrs: &Vec<Attribute>) -> (chosen: Visibility)
    ensures
        chosen@ == tag_visibility(attrs.deep_view()),
{
    let mut chosen = Visibility::Public;
    let mut i: usize = 0;
    while i < attrs.len()
        invariant
            i <= attrs.len(),
            chosen@ == tag_visibility(attrs.deep_view().take(i as int)),
        decreases attrs.len() - i,
    {
        proof {
            let next = attrs.deep_view().take(i + 1);
            assert(next.drop_last() =~= attrs.deep_view().take(i as int));
            assert(next.last() == attrs[i as int]@);
        }
        let attr = &attrs[i];
        if attr.path.is_ident("tag_visibility") {
            match &attr.args {
                AttributeArgs::List(text) => {
                    let found = parse_visibility_entries(text.as_str());
                    chosen = choose_visibility(&found, chosen);
                },
                _ => {},
            }
        }
        i += 1;
    }
    assert(attrs.deep_view().take(i as int) =~= attrs.deep_view());
    chosen
}

/// The model of one variant.
pub fn analyze_variant(variant: &Variant) -> (spec: VariantSpec)
    ensures
        spec@ == variant_spec(variant@),
{
    VariantSpec { name: variant.name.clone(), requires: requirements_of(&variant.attrs) }
}

/// Reads a declaration into an [`EnumSpec`]. Fails exactly when the
/// declaration is not an enum; malformed attribute arguments never make it
/// fail.
pub fn analyze(decl: &Declaration) -> (outcome: Result<EnumSpec, DeriveError>)
    ensures
        match analysis(decl@) {
            Ok(spec) => outcome is Ok && outcome->Ok_0@ == spec,
            Err(error) => outcome == Err::<EnumSpec, DeriveError>(error),
        },
        outcome is Err <==> !(decl.body is Enum),
{
    let tag_visibility = tag_visibility_of(&decl.attrs);
    match &decl.body {
        ItemBody::Enum(variants) => {
            let mut specs: Vec<VariantSpec> = Vec::new();
            let mut i: usize = 0;
            while i < variants.len()
                invariant
                    i <= variants.len(),
                    specs.len() == i,
                    forall|k: int| 0 <= k < i ==> (#[trigger] specs[k])@ == variant_spec(variants[k]@),
                decreases variants.len() - i,
            {
                specs.push(analyze_variant(&variants[i]));
                i += 1;
            }
            let spec = EnumSpec {
                name: decl.name.clone(),
                visibility: decl.visibility.clone(),
                tag_visibility,
                variants: specs,
            };
            assert(spec@.variants =~= Seq::new(
                variants.deep_view().len(),
                |i: int| variant_spec(variants.deep_view()[i]),
            ));
            Ok(spec)
        },
        _ => Err(DeriveError::NotAnEnum),
    }
}

} // verus!
