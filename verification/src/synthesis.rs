//! From an enum to what is generated for it: one marker type per variant in a
//! namespace named after the enum, and the hooks of the enum and its markers.

use crate::analysis::{
    DeriveError, EnumSpec, EnumSpecView, analysis, analyze, requirements, tag_visibility,
};
use crate::hooks::{Step, StepView, build_enter_hook, build_exit_hook, enter_plan, exit_plan};
use crate::naming::{namespace_of, snake_case};
use crate::syntax::{
    Declaration, DeclarationView, ItemBodyView, Visibility, VisibilityView, clone_names,
};
use vstd::prelude::*;

verus! {

/// One generated marker type: a type without data whose presence on an
/// object says that the object's enum value is of the variant it is named
/// after.
#[derive(Debug, Clone, PartialEq, Eq)]
pub struct MarkerType {
    /// The name of the type, which is the name of its variant.
    pub name: String,
    pub visibility: Visibility,
    /// The types that the host attaches along with this marker.
    pub requires: Vec<String>,
    /// The position of the variant that the marker's own enter hook insists
    /// on: attached to an object whose value is of another variant, or which
    /// holds none, the marker takes itself off again.
    pub guard: usize,
}

/// The mathematical content of a [`MarkerType`].
pub struct MarkerTypeView {
    pub name: Seq<char>,
    pub visibility: VisibilityView,
    pub requires: Seq<Seq<char>>,
    pub guard: int,
}

impl View for MarkerType {
    type V = MarkerTypeView;

    open spec fn view(&self) -> MarkerTypeView {
        MarkerTypeView {
            name: self.name@,
            visibility: self.visibility@,
            requires: self.requires.deep_view(),
            guard: self.guard as int,
        }
    }
}

impl DeepView for MarkerType {
    type V = MarkerTypeView;

    open spec fn deep_view(&self) -> MarkerTypeView {
        self@
    }
}

/// Everything that is generated for one enum.
#[derive(Debug, Clone, PartialEq, Eq)]
pub struct Expansion {
    /// The enum that the hooks are registered on.
    pub enum_name: String,
    /// The name of the namespace that holds the marker types.
    pub namespace: String,
    /// The visibility of the namespace, which is that of the enum.
    pub visibility: Visibility,
    /// The marker types, in the order of the variants.
    pub markers: Vec<MarkerType>,
    /// The hook that runs when a value of the enum is attached to an object
    /// or replaces the one that was there.
    pub enter_hook: Vec<Step>,
    /// The hook that runs when the value is about to leave the object.
    pub exit_hook: Vec<Step>,
}

/// The mathematical content of an [`Expansion`].
pub struct ExpansionView {
    pub enum_name: Seq<char>,
    pub namespace: Seq<char>,
    pub visibility: VisibilityView,
    pub markers: Seq<MarkerTypeView>,
    pub enter_hook: Seq<StepView>,
    pub exit_hook: Seq<StepView>,
}

impl View for Expansion {
    type V = ExpansionView;

    open spec fn view(&self) -> ExpansionView {
        ExpansionView {
            enum_name: self.enum_name@,
            namespace: self.namespace@,
            visibility: self.visibility@,
            markers: self.markers.deep_view(),
            enter_hook: self.enter_hook.deep_view(),
            exit_hook: self.exit_hook.deep_view(),
        }
    }
}

impl ExpansionView {
    /// The hooks are those of an enum with as many variants as there are
    /// markers, and each marker guards the variant at its own position.
    pub open spec fn well_formed(self) -> bool {
        &&& self.enter_hook == enter_plan(self.markers.len())
        &&& self.exit_hook == exit_plan(self.markers.len())
        &&& forall|i: int| 0 <= i < self.markers.len() ==> (#[trigger] self.markers[i]).guard == i
    }

    /// The variant that each marker's enter hook insists on.
    pub open spec fn guards(self) -> Seq<int> {
        Seq::new(self.markers.len(), |i: int| self.markers[i].guard)
    }
}

/// The marker type for the variant at position `index` of `spec`.
pub open spec fn marker_for(spec: EnumSpecView, index: int) -> MarkerTypeView {
    MarkerTypeView {
        name: spec.variants[index].name,
        visibility: spec.tag_visibility,
        requires: spec.variants[index].requires,
        guard: index,
    }
}

/// What is generated for the enum `spec` when its markers go into
/// `namespace`.
pub open spec fn synthesis(spec: EnumSpecView, namespace: Seq<char>) -> ExpansionView {
    ExpansionView {
        enum_name: spec.name,
        namespace,
        visibility: spec.visibility,
        markers: Seq::new(spec.variants.len(), |i: int| marker_for(spec, i)),
        enter_hook: enter_plan(spec.variants.len()),
        exit_hook: exit_plan(spec.variants.len()),
    }
}

/// What is generated for a declaration: the expansion of an enum, with the
/// namespace named by the snake-case spelling of the enum's name, or the
/// reason why there is none.
pub open spec fn expand(decl: DeclarationView) -> Result<ExpansionView, DeriveError> {
    match analysis(decl) {
        Ok(spec) => Ok(synthesis(spec, snake_case(spec.name))),
        Err(error) => Err(error),
    }
}

/// Builds what is generated for the enum `spec` when its markers go into
/// `namespace`.
pub fn synthesize(spec: &EnumSpec, namespace: String) -> (expansion: Expansion)
    ensures
        expansion@ == synthesis(spec@, namespace@),
        expansion@.well_formed(),
{
    let count = spec.variants.len();
    let mut markers: Vec<MarkerType> = Vec::new();
    let mut i: usize = 0;
    while i < count
        invariant
            count == spec.variants.len(),
            i <= count,
            markers.len() == i,
            forall|k: int| 0 <= k < i ==> (#[trigger] markers[k])@ == marker_for(spec@, k),
        decreases count - i,
    {
        let variant = &spec.variants[i];
        markers.push(
            MarkerType {
                name: variant.name.clone(),
                visibility: spec.tag_visibility.clone(),
                requires: clone_names(&variant.requires),
                guard: i,
            },
        );
        i += 1;
    }
    let expansion = Expansion {
        enum_name: spec.name.clone(),
        namespace,
        visibility: spec.visibility.clone(),
        markers,
        enter_hook: build_enter_hook(count),
        exit_hook: build_exit_hook(count),
    };
    assert(expansion@.markers =~= Seq::new(
        spec@.variants.len(),
        |i: int| marker_for(spec@, i),
    ));
    expansion
}

/// Generates the marker types and hooks for a declaration.
///
/// Fails with [`DeriveError::NotAnEnum`] exactly when the declaration is not
/// an enum, and then generates nothing. For an enum, succeeds with one marker
/// type per variant, in the order of the variants and named as they are, in
/// the namespace that [`snake_case`] names.
pub fn derive_enum_component_tag(decl: &Declaration) -> (outcome: Result<Expansion, DeriveError>)
    ensures
        match expand(decl@) {
            Ok(expansion) => outcome is Ok && outcome->Ok_0@ == expansion,
            Err(error) => outcome == Err::<Expansion, DeriveError>(error),
        },
        !(decl.body is Enum) ==> outcome == Err::<Expansion, DeriveError>(DeriveError::NotAnEnum),
        decl@.body matches ItemBodyView::Enum(variants) ==> {
            &&& outcome matches Ok(expansion)
            &&& expansion@.well_formed()
            &&& expansion@.enum_name == decl@.name
            &&& expansion@.namespace == snake_case(decl@.name)
            &&& expansion@.visibility == decl@.visibility
            &&& expansion@.markers.len() == variants.len()
            &&& forall|i: int|
                0 <= i < variants.len() ==> (#[trigger] expansion@.markers[i])
                    == marker_for(analysis(decl@)->Ok_0, i)
        },
{
    match analyze(decl) {
        Ok(spec) => {
            let namespace = namespace_of(spec.name.as_str());
            Ok(synthesize(&spec, namespace))
        },
        Err(error) => Err(error),
    }
}

/// Generation on an enum gives exactly one marker type for each variant, at
/// the variant's position and under the variant's name, with the visibility
/// that the declaration's attributes choose and the requirements that the
/// variant's attributes list, all in the namespace named by the snake-case
/// spelling of the enum's name.
pub proof fn lemma_one_marker_per_variant(decl: DeclarationView)
    requires
        decl.body is Enum,
    ensures
        expand(decl) is Ok,
        expand(decl)->Ok_0.well_formed(),
        expand(decl)->Ok_0.namespace == snake_case(decl.name),
        expand(decl)->Ok_0.markers.len() == decl.body->Enum_0.len(),
        forall|i: int|
            0 <= i < decl.body->Enum_0.len() ==> {
                let marker = #[trigger] expand(decl)->Ok_0.markers[i];
                let variant = decl.body->Enum_0[i];
                &&& marker.name == variant.name
                &&& marker.visibility == tag_visibility(decl.attrs)
                &&& marker.requires == requirements(variant.attrs)
                &&& marker.guard == i
            },
{
}

/// Generation on a declaration that is not an enum fails with
/// [`DeriveError::NotAnEnum`], whatever else the declaration holds.
pub proof fn lemma_not_an_enum_is_rejected(decl: DeclarationView)
    requires
        !(decl.body is Enum),
    ensures
        expand(decl) == Err::<ExpansionView, DeriveError>(DeriveError::NotAnEnum),
{
}

} // verus!
