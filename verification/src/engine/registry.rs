//! Engine discovery.
//!
//! An engine comes with an [`EngineFactory`]; the application registers the
//! factories it was compiled with into an [`EngineRegistry`]. The
//! [`EngineDescriptor`] carries enough metadata (including a typed config
//! field list) to render a settings UI for any engine without hardcoding it.

use serde_json::Value;
use vstd::prelude::*;

use crate::bits::Double;
use crate::json;
use crate::json::JsonView;
use crate::text;

verus! {

#[derive(Debug, Clone, Copy, PartialEq, Eq, Structural)]
pub enum EngineKind {
    Local,
    Cloud,
}

pub struct EngineDescriptor {
    pub id: &'static str,
    /// Human-readable name shown in the engine selector.
    pub name: &'static str,
    pub kind: EngineKind,
    /// Whether this engine emits transient (revisable) segments. Engines with
    /// `false` only ever produce finalized segments.
    pub emits_partials: bool,
    pub config_fields: Vec<ConfigField>,
}

pub struct ConfigField {
    /// Key in the engine's config blob.
    pub key: &'static str,
    pub label: &'static str,
    pub field: FieldType,
    pub default: Value,
    /// Environment variable that overrides this field at startup.
    pub env_var: Option<&'static str>,
    pub help: Option<&'static str>,
}

#[allow(inconsistent_fields)]
pub enum FieldType {
    Bool,
    Int { min: i64, max: i64 },
    Float { min: Double, max: Double, step: Double },
    Enum { options: Vec<EnumOption> },
    Path { directory: bool },
    Text,
    /// Sensitive value (API key); rendered as a password input.
    Secret,
}

pub struct EnumOption {
    pub value: Value,
    pub label: String,
}

/// What an [`EngineDescriptor`] says.
#[verifier::ext_equal]
pub struct DescriptorView {
    pub id: Seq<char>,
    pub name: Seq<char>,
    pub kind: EngineKind,
    pub emits_partials: bool,
    pub config_fields: Seq<ConfigFieldView>,
}

/// What a [`ConfigField`] says.
#[verifier::ext_equal]
pub struct ConfigFieldView {
    pub key: Seq<char>,
    pub label: Seq<char>,
    pub field: FieldTypeView,
    pub default: JsonView,
    pub env_var: Option<Seq<char>>,
    pub help: Option<Seq<char>>,
}

/// What a [`FieldType`] says.
#[verifier::ext_equal]
pub enum FieldTypeView {
    Bool,
    Int { min: i64, max: i64 },
    Float { lowest: Double, highest: Double, step: Double },
    /// The options, each with its label.
    Enum(Seq<(JsonView, Seq<char>)>),
    Path { directory: bool },
    Text,
    Secret,
}

impl View for FieldType {
    type V = FieldTypeView;

    open spec fn view(&self) -> FieldTypeView {
        match *self {
            FieldType::Bool => FieldTypeView::Bool,
            FieldType::Int { min, max } => FieldTypeView::Int { min, max },
            FieldType::Float { min, max, step } => FieldTypeView::Float {
                lowest: min,
                highest: max,
                step,
            },
            FieldType::Enum { options } => FieldTypeView::Enum(options_view(options@)),
            FieldType::Path { directory } => FieldTypeView::Path { directory },
            FieldType::Text => FieldTypeView::Text,
            FieldType::Secret => FieldTypeView::Secret,
        }
    }
}

pub open spec fn options_view(v: Seq<EnumOption>) -> Seq<(JsonView, Seq<char>)> {
    Seq::new(v.len(), |i: int| (json::json_view(v[i].value), v[i].label@))
}

pub open spec fn opt_str_view(s: Option<&'static str>) -> Option<Seq<char>> {
    match s {
        Some(s) => Some(s@),
        None => None,
    }
}

impl View for ConfigField {
    type V = ConfigFieldView;

    open spec fn view(&self) -> ConfigFieldView {
        ConfigFieldView {
            key: self.key@,
            label: self.label@,
            field: self.field@,
            default: json::json_view(self.default),
            env_var: opt_str_view(self.env_var),
            help: opt_str_view(self.help),
        }
    }
}

pub open spec fn config_fields_view(v: Seq<ConfigField>) -> Seq<ConfigFieldView> {
    Seq::new(v.len(), |i: int| v[i]@)
}

impl View for EngineDescriptor {
    type V = DescriptorView;

    open spec fn view(&self) -> DescriptorView {
        DescriptorView {
            id: self.id@,
            name: self.name@,
            kind: self.kind,
            emits_partials: self.emits_partials,
            config_fields: config_fields_view(self.config_fields@),
        }
    }
}

/// What announces an engine. Engines outside this crate bring their own.
pub trait EngineFactory {
    fn descriptor(&self) -> EngineDescriptor;

    fn default_config(&self) -> Value;
}

/// The factories that were registered, in order. What they announce is asked anew on
/// every use.
pub struct EngineRegistry<F> {
    factories: Vec<F>,
}

impl<F> View for EngineRegistry<F> {
    type V = Seq<F>;

    closed spec fn view(&self) -> Seq<F> {
        self.factories@
    }
}

/// `said` is what the first factories answer when each is asked for its descriptor.
pub open spec fn answered<F: EngineFactory>(factories: Seq<F>, said: Seq<EngineDescriptor>) -> bool {
    &&& said.len() <= factories.len()
    &&& forall|i: int|
        0 <= i < said.len() ==> call_ensures(F::descriptor, (&factories[i],), #[trigger] said[i])
}

/// Which of the descriptors is the first with the given id.
pub open spec fn position(said: Seq<EngineDescriptor>, id: Seq<char>) -> Option<int>
    decreases said.len(),
{
    if said.len() == 0 {
        None
    } else {
        match position(said.drop_last(), id) {
            Some(i) => Some(i),
            None => if said.last().id@ == id {
                Some(said.len() - 1)
            } else {
                None
            },
        }
    }
}

impl<F: EngineFactory> EngineRegistry<F> {
    pub fn new() -> (r: Self)
        ensures
            r@ == Seq::<F>::empty(),
    {
        EngineRegistry { factories: Vec::new() }
    }

    pub fn register(&mut self, factory: F)
        ensures
            final(self)@ == old(self)@.push(factory),
    {
        self.factories.push(factory);
    }

    /// The first registered factory of that id: the factories are asked in order, up
    /// to the one that answers with it.
    pub fn get(&self, id: &str) -> (r: Option<&F>)
        ensures
            exists|said: Seq<EngineDescriptor>| #[trigger]
                answered(self@, said) && match r {
                    Some(factory) => {
                        &&& said.len() > 0
                        &&& position(said, id@) == Some(said.len() - 1)
                        &&& *factory == self@[said.len() - 1]
                    },
                    None => said.len() == self@.len() && position(said, id@) is None,
                },
    {
        let ghost mut said: Seq<EngineDescriptor> = Seq::empty();
        let mut i: usize = 0;
        while i < self.factories.len()
            invariant
                i <= self.factories@.len(),
                self@ == self.factories@,
                said.len() == i,
                answered(self@, said),
                position(said, id@) is None,
            decreases self.factories.len() - i,
        {
            let factory = &self.factories[i];
            let descriptor = factory.descriptor();
            let ghost before = said;
            proof {
                said = said.push(descriptor);
                assert(said.drop_last() =~= before);
                assert(answered(self@, said));
            }
            if text::same_text(descriptor.id, id) {
                return Some(factory);
            }
            i += 1;
        }
        None
    }

    /// What each factory announces, in order.
    pub fn descriptors(&self) -> (r: Vec<EngineDescriptor>)
        ensures
            r@.len() == self@.len(),
            answered(self@, r@),
    {
        let mut r: Vec<EngineDescriptor> = Vec::new();
        let mut i: usize = 0;
        while i < self.factories.len()
            invariant
                i <= self.factories@.len(),
                self@ == self.factories@,
                r@.len() == i,
                answered(self@, r@),
            decreases self.factories.len() - i,
        {
            r.push(self.factories[i].descriptor());
            i += 1;
        }
        r
    }

    /// The first registered engine, used when no explicit selection exists.
    pub fn default_engine_id(&self) -> (r: Option<&'static str>)
        ensures
            match r {
                Some(id) => self@.len() > 0 && exists|d: EngineDescriptor| #[trigger]
                    call_ensures(F::descriptor, (&self@[0],), d) && d.id == id,
                None => self@.len() == 0,
            },
    {
        if self.factories.len() == 0 {
            None
        } else {
            let descriptor = self.factories[0].descriptor();
            assert(call_ensures(F::descriptor, (&self@[0],), descriptor));
            Some(descriptor.id)
        }
    }
}

/// A lookup finds exactly the announced ids, and of several engines with one id the
/// first.
pub proof fn law_lookup_finds_the_first(said: Seq<EngineDescriptor>, id: Seq<char>)
    ensures
        match position(said, id) {
            Some(i) => {
                &&& 0 <= i < said.len()
                &&& said[i].id@ == id
                &&& forall|j: int| 0 <= j < i ==> (#[trigger] said[j]).id@ != id
            },
            None => forall|j: int| 0 <= j < said.len() ==> (#[trigger] said[j]).id@ != id,
        },
    decreases said.len(),
{
    if said.len() > 0 {
        let front = said.drop_last();
        law_lookup_finds_the_first(front, id);
        assert forall|j: int| 0 <= j < front.len() implies (#[trigger] said[j]) == front[j] by {}
    }
}

/// Registering never changes what was found before: as long as the earlier factories
/// answer as they did, a lookup stops at the same one.
pub proof fn law_earlier_engines_win<F: EngineFactory>(
    factories: Seq<F>,
    added: F,
    said: Seq<EngineDescriptor>,
    more: Seq<EngineDescriptor>,
    id: Seq<char>,
)
    requires
        answered(factories, said),
        position(said, id) is Some,
    ensures
        answered(factories.push(added), said),
        position(said + more, id) == position(said, id),
    decreases more.len(),
{
    assert forall|i: int| 0 <= i < said.len() implies call_ensures(
        F::descriptor,
        (&factories.push(added)[i],),
        #[trigger] said[i],
    ) by {
        assert(factories.push(added)[i] == factories[i]);
    }
    if more.len() == 0 {
        assert(said + more =~= said);
    } else {
        law_earlier_engines_win(factories, added, said, more.drop_last(), id);
        assert((said + more).drop_last() =~= said + more.drop_last());
    }
}

} // verus!
