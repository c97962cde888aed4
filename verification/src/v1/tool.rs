//! Tools: functions that a model may ask the client to call.
use vstd::prelude::*;
use crate::v1::text::text_eq;

verus! {

// -----------------------------------------------------------------------------
// Definitions

/// A call that the model asks for.
#[derive(Clone, Debug)]
pub struct ToolCall {
    pub function: ToolCallFunction,
}

/// The function that a call names, and its arguments as JSON text.
#[derive(Clone, Debug)]
pub struct ToolCallFunction {
    pub name: String,
    pub arguments: String,
}

/// The content of a [`ToolCallFunction`], and so of a [`ToolCall`].
pub struct ToolCallModel {
    pub name: Seq<char>,
    pub arguments: Seq<char>,
}

impl View for ToolCallFunction {
    type V = ToolCallModel;

    open spec fn view(&self) -> ToolCallModel {
        ToolCallModel { name: self.name@, arguments: self.arguments@ }
    }
}

impl View for ToolCall {
    type V = ToolCallModel;

    open spec fn view(&self) -> ToolCallModel {
        self.function@
    }
}

/// A tool offered to the model.
#[derive(Clone, Debug)]
pub struct Tool {
    pub type_: ToolType,
    pub function: ToolFunction,
}

/// The kind of a parameter list.
#[derive(Clone, Copy, Debug, PartialEq, Eq, Structural)]
pub enum ToolFunctionParametersType {
    Object,
}

/// The type of one parameter.
#[derive(Clone, Copy, Debug, PartialEq, Eq, Structural)]
pub enum ToolFunctionParameterType {
    String,
}

/// The kind of a tool.
#[derive(Clone, Copy, Debug, PartialEq, Eq, Structural)]
pub enum ToolType {
    Function,
}

/// Whether and how the model may call tools.
#[derive(Clone, Copy, Debug, PartialEq, Eq, Structural)]
pub enum ToolChoice {
    /// The model must call a tool.
    Any,
    /// The model decides.
    Auto,
    /// The model calls no tool.
    Never,
}

impl ToolFunctionParametersType {
    /// The name by which the API knows this kind.
    pub open spec fn name(self) -> Seq<char> {
        "object"@
    }

    /// The name by which the API knows this kind.
    pub fn as_str(&self) -> (r: &'static str)
        ensures
            r@ == self.name(),
    {
        "object"
    }
}

impl ToolFunctionParameterType {
    /// The name by which the API knows this type.
    pub open spec fn name(self) -> Seq<char> {
        "string"@
    }

    /// The name by which the API knows this type.
    pub fn as_str(&self) -> (r: &'static str)
        ensures
            r@ == self.name(),
    {
        "string"
    }
}

impl ToolType {
    /// The name by which the API knows this kind.
    pub open spec fn name(self) -> Seq<char> {
        "function"@
    }

    /// The name by which the API knows this kind.
    pub fn as_str(&self) -> (r: &'static str)
        ensures
            r@ == self.name(),
    {
        "function"
    }
}

impl ToolChoice {
    /// The name by which the API knows this choice.
    pub open spec fn name(self) -> Seq<char> {
        match self {
            ToolChoice::Any => "any"@,
            ToolChoice::Auto => "auto"@,
            ToolChoice::Never => "none"@,
        }
    }

    /// The name by which the API knows this choice.
    pub fn as_str(&self) -> (r: &'static str)
        ensures
            r@ == self.name(),
    {
        match self {
            ToolChoice::Any => "any",
            ToolChoice::Auto => "auto",
            ToolChoice::Never => "none",
        }
    }
}

// -----------------------------------------------------------------------------
// Request

/// The description of a function offered as a tool.
#[derive(Clone, Debug)]
pub struct ToolFunction {
    pub name: String,
    pub description: String,
    pub parameters: ToolFunctionParameters,
}

/// One parameter of a function, as the caller declares it.
#[derive(Clone, Debug)]
pub struct ToolFunctionParameter {
    pub name: String,
    pub description: String,
    pub type_: ToolFunctionParameterType,
}

/// The content of a [`ToolFunctionParameter`].
pub struct ParameterModel {
    pub name: Seq<char>,
    pub description: Seq<char>,
    pub type_: ToolFunctionParameterType,
}

impl View for ToolFunctionParameter {
    type V = ParameterModel;

    open spec fn view(&self) -> ParameterModel {
        ParameterModel { name: self.name@, description: self.description@, type_: self.type_ }
    }
}

impl ToolFunctionParameter {
    /// Declares a parameter.
    pub fn new(name: String, description: String, type_: ToolFunctionParameterType) -> (r: Self)
        ensures
            r.name == name,
            r.description == description,
            r.type_ == type_,
    {
        Self { name, type_, description }
    }
}

/// What is said of one parameter in a parameter list.
#[derive(Clone, Debug)]
pub struct ToolFunctionParameterProperty {
    pub type_: ToolFunctionParameterType,
    pub description: String,
}

/// The content of a [`ToolFunctionParameterProperty`].
pub struct PropertyModel {
    pub type_: ToolFunctionParameterType,
    pub description: Seq<char>,
}

impl View for ToolFunctionParameterProperty {
    type V = PropertyModel;

    open spec fn view(&self) -> PropertyModel {
        PropertyModel { type_: self.type_, description: self.description@ }
    }
}

/// The parameter list of a function: its properties by name, and the names of
/// those that are required.
#[derive(Clone, Debug)]
pub struct ToolFunctionParameters {
    pub type_: ToolFunctionParametersType,
    /// The properties, each under its name. No name occurs twice.
    pub properties: Vec<(String, ToolFunctionParameterProperty)>,
    pub required: Vec<String>,
}

/// One named property, as content.
pub type EntryModel = (Seq<char>, PropertyModel);

/// The contents of a list of named properties.
pub open spec fn entry_models(entries: Seq<(String, ToolFunctionParameterProperty)>) -> Seq<
    EntryModel,
> {
    entries.map_values(|entry: (String, ToolFunctionParameterProperty)| (entry.0@, entry.1@))
}

/// The names of a list of named properties, in order.
pub open spec fn entry_names(entries: Seq<EntryModel>) -> Seq<Seq<char>> {
    entries.map_values(|entry: EntryModel| entry.0)
}

/// The characters of a list of strings.
pub open spec fn texts(strings: Seq<String>) -> Seq<Seq<char>> {
    strings.map_values(|s: String| s@)
}

/// The place of the entry called `name`, or the number of entries where none
/// is called so.
pub open spec fn position(entries: Seq<EntryModel>, name: Seq<char>) -> int
    decreases entries.len(),
{
    if entries.len() == 0 {
        0
    } else if entries[0].0 == name {
        0
    } else {
        1 + position(entries.drop_first(), name)
    }
}

/// The properties that a list of declared parameters amounts to. Each name is
/// listed once, at the place of its first declaration, with what its last
/// declaration says.
pub open spec fn properties_of(parameters: Seq<ParameterModel>) -> Seq<EntryModel>
    decreases parameters.len(),
{
    if parameters.len() == 0 {
        Seq::empty()
    } else {
        let before = properties_of(parameters.drop_last());
        let last = parameters.last();
        let entry = (last.name, PropertyModel { type_: last.type_, description: last.description });
        let at = position(before, last.name);
        if at < before.len() {
            before.update(at, entry)
        } else {
            before.push(entry)
        }
    }
}

impl ToolFunctionParameters {
    /// The properties as content.
    pub open spec fn entries(&self) -> Seq<EntryModel> {
        entry_models(self.properties@)
    }

    /// A parameter list is well formed when no property name occurs twice and
    /// the required names are the property names, in the same order.
    pub open spec fn wf(&self) -> bool {
        &&& entry_names(self.entries()).no_duplicates()
        &&& texts(self.required@) == entry_names(self.entries())
    }
}

// -----------------------------------------------------------------------------
// Custom

/// A function of the caller's that a client runs when the model asks for it.
/// `R` is what such functions hand back.
pub trait Function<R> {
    /// Whether `result` is what this function may hand back for `arguments`.
    /// A function that says nothing of its results may hand back anything.
    open spec fn gives(&self, arguments: Seq<char>, result: R) -> bool {
        true
    }

    /// Runs the function on its arguments, given as JSON text.
    fn execute(&self, arguments: String) -> (result: R)
        ensures
            self.gives(arguments@, result),
    ;
}

/// `position` is the first place where the name stands.
pub proof fn lemma_position(entries: Seq<EntryModel>, name: Seq<char>)
    ensures
        0 <= position(entries, name) <= entries.len(),
        position(entries, name) < entries.len() ==> entries[position(entries, name)].0 == name,
        forall|i: int| 0 <= i < position(entries, name) ==> (#[trigger] entries[i]).0 != name,
    decreases entries.len(),
{
    if entries.len() > 0 && entries[0].0 != name {
        let rest = entries.drop_first();
        lemma_position(rest, name);
        assert forall|i: int| 0 <= i < position(entries, name) implies (#[trigger] entries[i]).0
            != name by {
            if i > 0 {
                assert(entries[i] == rest[i - 1]);
            }
        }
    }
}

/// The contents of a list of declared parameters.
pub open spec fn parameter_models(parameters: Seq<ToolFunctionParameter>) -> Seq<ParameterModel> {
    parameters.map_values(|parameter: ToolFunctionParameter| parameter@)
}

/// In the properties of a list of parameters no name occurs twice.
pub proof fn lemma_properties_distinct(parameters: Seq<ParameterModel>)
    ensures
        entry_names(properties_of(parameters)).no_duplicates(),
    decreases parameters.len(),
{
    if parameters.len() > 0 {
        let before = properties_of(parameters.drop_last());
        let last = parameters.last();
        let after = properties_of(parameters);
        lemma_properties_distinct(parameters.drop_last());
        lemma_position(before, last.name);
        let at = position(before, last.name);
        if at < before.len() {
            assert(entry_names(after) == entry_names(before));
        } else {
            assert forall|i: int, j: int|
                0 <= i < after.len() && 0 <= j < after.len() && i != j implies entry_names(
                after,
            )[i] != entry_names(after)[j] by {
                if i < before.len() && j < before.len() {
                    assert(entry_names(before)[i] != entry_names(before)[j]);
                } else if i < before.len() {
                    assert(before[i].0 != last.name);
                } else {
                    assert(before[j].0 != last.name);
                }
            }
        }
    }
}

/// The properties of a list of parameters hold the names that are declared,
/// and no others.
pub proof fn lemma_properties_names(parameters: Seq<ParameterModel>, name: Seq<char>)
    ensures
        entry_names(properties_of(parameters)).contains(name) <==> exists|i: int|
            0 <= i < parameters.len() && (#[trigger] parameters[i]).name == name,
    decreases parameters.len(),
{
    if parameters.len() > 0 {
        let shorter = parameters.drop_last();
        let before = properties_of(shorter);
        let last = parameters.last();
        let after = properties_of(parameters);
        lemma_properties_names(shorter, name);
        lemma_position(before, last.name);
        let at = position(before, last.name);
        if at < before.len() {
            assert(entry_names(after) == entry_names(before));
            assert(entry_names(before)[at] == last.name);
        } else {
            assert(entry_names(after) == entry_names(before).push(last.name));
            assert(entry_names(after).last() == last.name);
        }
        if entry_names(after).contains(name) {
            let k = choose|k: int| 0 <= k < after.len() && entry_names(after)[k] == name;
            if k < before.len() && entry_names(before)[k] == name {
                let i = choose|i: int| 0 <= i < shorter.len() && (#[trigger] shorter[i]).name == name;
                assert(parameters[i] == shorter[i]);
            } else {
                assert(parameters[parameters.len() - 1].name == name);
            }
        }
        if exists|i: int| 0 <= i < parameters.len() && (#[trigger] parameters[i]).name == name {
            let i = choose|i: int| 0 <= i < parameters.len() && (#[trigger] parameters[i]).name == name;
            if i < shorter.len() {
                assert(shorter[i] == parameters[i]);
                let k = choose|k: int| 0 <= k < before.len() && entry_names(before)[k] == name;
                assert(entry_names(after)[k] == name);
            } else {
                if at < before.len() {
                    assert(entry_names(after)[at] == name);
                } else {
                    assert(entry_names(after)[after.len() - 1] == name);
                }
            }
        }
    }
}

/// Finds the place of the property called `name`.
fn find_property(entries: &Vec<(String, ToolFunctionParameterProperty)>, name: &str) -> (at: usize)
    ensures
        at == position(entry_models(entries@), name@),
{
    let ghost models = entry_models(entries@);
    let mut at: usize = 0;
    proof {
        lemma_position(models, name@);
    }
    while at < entries.len()
        invariant
            at <= entries@.len(),
            models == entry_models(entries@),
            forall|i: int| 0 <= i < at ==> (#[trigger] models[i]).0 != name@,
            0 <= position(models, name@) <= models.len(),
            position(models, name@) < models.len() ==> models[position(models, name@)].0 == name@,
            forall|i: int| 0 <= i < position(models, name@) ==> (#[trigger] models[i]).0 != name@,
        decreases entries@.len() - at,
    {
        if text_eq(entries[at].0.as_str(), name) {
            assert(models[at as int].0 == name@);
            return at;
        }
        at += 1;
    }
    at
}

impl Tool {
    /// Describes a function as a tool. Its parameter list holds one property
    /// for each name among the parameters, and requires them all.
    pub fn new(
        function_name: String,
        function_description: String,
        function_parameters: Vec<ToolFunctionParameter>,
    ) -> (r: Self)
        ensures
            r.type_ == ToolType::Function,
            r.function.name == function_name,
            r.function.description == function_description,
            r.function.parameters.type_ == ToolFunctionParametersType::Object,
            r.function.parameters.entries() == properties_of(
                parameter_models(function_parameters@),
            ),
            r.function.parameters.wf(),
            forall|name: Seq<char>|
                texts(r.function.parameters.required@).contains(name) <==> exists|i: int|
                    0 <= i < function_parameters@.len() && (#[trigger] function_parameters@[i]).name@
                        == name,
    {
        let ghost declared = parameter_models(function_parameters@);
        let mut properties: Vec<(String, ToolFunctionParameterProperty)> = Vec::new();
        let mut required: Vec<String> = Vec::new();
        let mut i: usize = 0;
        assert(declared.take(0) == Seq::<ParameterModel>::empty());
        assert(entry_models(properties@) == Seq::<EntryModel>::empty());
        assert(texts(required@) == entry_names(entry_models(properties@)));
        while i < function_parameters.len()
            invariant
                i <= function_parameters@.len(),
                declared == parameter_models(function_parameters@),
                entry_models(properties@) == properties_of(declared.take(i as int)),
                texts(required@) == entry_names(entry_models(properties@)),
            decreases function_parameters@.len() - i,
        {
            let ghost before = entry_models(properties@);
            let ghost names_before = texts(required@);
            assert(declared.take(i + 1).drop_last() == declared.take(i as int));
            assert(declared.take(i + 1).last() == function_parameters@[i as int]@);
            let parameter = &function_parameters[i];
            let name = parameter.name.clone();
            let property = ToolFunctionParameterProperty {
                type_: parameter.type_,
                description: parameter.description.clone(),
            };
            let ghost entry = (name@, property@);
            let at = find_property(&properties, name.as_str());
            if at < properties.len() {
                proof {
                    lemma_position(before, name@);
                }
                properties.set(at, (name, property));
                assert(entry_models(properties@) == before.update(at as int, entry));
                assert(entry_names(before.update(at as int, entry)) == entry_names(before));
            } else {
                required.push(name.clone());
                properties.push((name, property));
                assert(entry_models(properties@) == before.push(entry));
                assert(texts(required@) == names_before.push(name@));
                assert(entry_names(before.push(entry)) == entry_names(before).push(name@));
            }
            i += 1;
        }
        assert(declared.take(i as int) == declared);
        proof {
            lemma_properties_distinct(declared);
            assert forall|name: Seq<char>|
                texts(required@).contains(name) <==> exists|i: int|
                    0 <= i < function_parameters@.len() && (#[trigger] function_parameters@[i]).name@
                        == name by {
                lemma_properties_names(declared, name);
                if exists|i: int| 0 <= i < declared.len() && (#[trigger] declared[i]).name == name {
                    let i = choose|i: int|
                        0 <= i < declared.len() && (#[trigger] declared[i]).name == name;
                    assert(function_parameters@[i].name@ == name);
                }
                if exists|i: int|
                    0 <= i < function_parameters@.len() && (#[trigger] function_parameters@[i]).name@
                        == name {
                    let i = choose|i: int|
                        0 <= i < function_parameters@.len() && (
                        #[trigger] function_parameters@[i]).name@ == name;
                    assert(declared[i].name == name);
                }
            }
        }
        Self {
            type_: ToolType::Function,
            function: ToolFunction {
                name: function_name,
                description: function_description,
                parameters: ToolFunctionParameters {
                    type_: ToolFunctionParametersType::Object,
                    properties,
                    required,
                },
            },
        }
    }
}

} // verus!
