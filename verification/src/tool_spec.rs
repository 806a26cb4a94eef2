//! How a function tool is described to the model.

use vstd::prelude::*;

use crate::strings;

verus! {

/// What values a parameter takes.
#[derive(Clone, Copy, Debug, PartialEq, Eq, Structural)]
pub enum SchemaKind {
    Text,
    Integer,
    Boolean,
}

/// The schema of one parameter.
#[derive(Debug)]
pub struct JsonSchema {
    pub kind: SchemaKind,
    pub description: Option<String>,
}

/// What the schema of a parameter says.
pub struct SchemaView {
    pub kind: SchemaKind,
    pub description: Option<Seq<char>>,
}

impl View for JsonSchema {
    type V = SchemaView;

    open spec fn view(&self) -> SchemaView {
        SchemaView { kind: self.kind, description: strings::opt_text(self.description) }
    }
}

/// The schema of a described parameter.
pub open spec fn described(kind: SchemaKind, description: Seq<char>) -> SchemaView {
    SchemaView { kind, description: Some(description) }
}

impl JsonSchema {
    /// A text.
    pub fn string(description: Option<String>) -> (schema: JsonSchema)
        ensures
            schema@ == (SchemaView {
                kind: SchemaKind::Text,
                description: strings::opt_text(description),
            }),
    {
        JsonSchema { kind: SchemaKind::Text, description }
    }

    /// A whole number.
    pub fn integer(description: Option<String>) -> (schema: JsonSchema)
        ensures
            schema@ == (SchemaView {
                kind: SchemaKind::Integer,
                description: strings::opt_text(description),
            }),
    {
        JsonSchema { kind: SchemaKind::Integer, description }
    }

    /// A truth value.
    pub fn boolean(description: Option<String>) -> (schema: JsonSchema)
        ensures
            schema@ == (SchemaView {
                kind: SchemaKind::Boolean,
                description: strings::opt_text(description),
            }),
    {
        JsonSchema { kind: SchemaKind::Boolean, description }
    }
}

/// A named parameter.
#[derive(Debug)]
pub struct Property {
    pub name: String,
    pub schema: JsonSchema,
}

/// The parameters of a tool by name, in the order of their names.
#[derive(Debug)]
pub struct Properties {
    pub entries: Vec<Property>,
}

/// A parameter of a name is one of the entries.
pub open spec fn has_name(entries: Seq<Property>, name: Seq<char>) -> bool {
    exists|i: int| 0 <= i < entries.len() && (#[trigger] entries[i]).name@ == name
}

/// The schemas of the parameters by name.
pub open spec fn schemas(entries: Seq<Property>) -> Map<Seq<char>, SchemaView> {
    Map::new(
        |name: Seq<char>| has_name(entries, name),
        |name: Seq<char>|
            entries[choose|i: int|
                0 <= i < entries.len() && (#[trigger] entries[i]).name@ == name].schema@,
    )
}

impl View for Properties {
    type V = Map<Seq<char>, SchemaView>;

    open spec fn view(&self) -> Map<Seq<char>, SchemaView> {
        schemas(self.entries@)
    }
}

impl Properties {
    /// The names come in order, each once.
    pub open spec fn well_formed(self) -> bool {
        forall|i: int, j: int|
            0 <= i < j < self.entries.len() ==> strings::precedes(
                (#[trigger] self.entries@[i]).name@,
                (#[trigger] self.entries@[j]).name@,
            )
    }

    /// No parameters.
    pub fn new() -> (properties: Properties)
        ensures
            properties.well_formed(),
            properties@ == Map::<Seq<char>, SchemaView>::empty(),
    {
        let properties = Properties { entries: Vec::new() };
        assert(properties@ =~= Map::<Seq<char>, SchemaView>::empty());
        properties
    }

    /// A name stands at one place only.
    proof fn lemma_schema_at(self, index: int)
        requires
            self.well_formed(),
            0 <= index < self.entries.len(),
        ensures
            self@.dom().contains(self.entries@[index].name@),
            self@[self.entries@[index].name@] == self.entries@[index].schema@,
    {
        let name = self.entries@[index].name@;
        assert(has_name(self.entries@, name));
        let chosen = choose|i: int|
            0 <= i < self.entries@.len() && (#[trigger] self.entries@[i]).name@ == name;
        strings::law_precedes_total(name, name);
        if chosen < index {
            assert(strings::precedes(self.entries@[chosen].name@, self.entries@[index].name@));
        } else if index < chosen {
            assert(strings::precedes(self.entries@[index].name@, self.entries@[chosen].name@));
        }
        assert(self@[name] == self.entries@[chosen].schema@);
    }

    /// Adds a parameter, in the place of the one of the same name if there is one.
    pub fn insert(&mut self, name: String, schema: JsonSchema)
        requires
            old(self).well_formed(),
        ensures
            final(self).well_formed(),
            final(self)@ == old(self)@.insert(name@, schema@),
    {
        let ghost entry = Property { name, schema };
        let mut at: usize = 0;
        while at < self.entries.len() && strings::comes_before(
            self.entries[at].name.as_str(),
            name.as_str(),
        )
            invariant
                *self == *old(self),
                at <= self.entries.len(),
                forall|i: int|
                    0 <= i < at ==> strings::precedes(
                        (#[trigger] self.entries@[i]).name@,
                        name@,
                    ),
            decreases self.entries.len() - at,
        {
            at += 1;
        }
        let ghost before = self.entries@;
        if at < self.entries.len() && strings::same_text(
            self.entries[at].name.as_str(),
            name.as_str(),
        ) {
            self.entries.set(at, Property { name, schema });
            assert(self.entries@ =~= before.update(at as int, entry));
            assert(self.well_formed());
        } else {
            self.entries.insert(at, Property { name, schema });
            assert(self.entries@ =~= before.insert(at as int, entry));
            proof {
                assert forall|i: int| at <= i < before.len() implies strings::precedes(
                    name@,
                    (#[trigger] before[i]).name@,
                ) by {
                    strings::law_precedes_total(before[at as int].name@, name@);
                    if i > at {
                        strings::law_precedes_transitive(
                            name@,
                            before[at as int].name@,
                            before[i].name@,
                        );
                    }
                }
                assert forall|i: int, j: int| 0 <= i < j < self.entries.len() implies strings::precedes(
                    (#[trigger] self.entries@[i]).name@,
                    (#[trigger] self.entries@[j]).name@,
                ) by {
                    let was_i = if i < at {
                        i
                    } else {
                        i - 1
                    };
                    let was_j = if j < at {
                        j
                    } else {
                        j - 1
                    };
                    if i != at && j != at {
                        assert(self.entries@[i] == before[was_i]);
                        assert(self.entries@[j] == before[was_j]);
                    } else if j == at {
                        assert(self.entries@[i] == before[i]);
                    } else {
                        assert(self.entries@[j] == before[j - 1]);
                    }
                }
            }
        }
        proof {
            assert(self.entries@[at as int] == entry);
            self.lemma_schema_at(at as int);
            assert forall|key: Seq<char>|
                self@.dom().contains(key) <==> old(self)@.insert(name@, schema@).dom().contains(
                    key,
                ) by {
                if has_name(self.entries@, key) {
                    let i = choose|i: int|
                        0 <= i < self.entries@.len() && (#[trigger] self.entries@[i]).name@ == key;
                    if i != at {
                        let was = if i < at || self.entries.len() == before.len() {
                            i
                        } else {
                            i - 1
                        };
                        assert(before[was] == self.entries@[i]);
                        assert(has_name(before, key));
                    }
                }
                if has_name(before, key) && key != name@ {
                    let i = choose|i: int|
                        0 <= i < before.len() && (#[trigger] before[i]).name@ == key;
                    let now = if i < at || self.entries.len() == before.len() {
                        i
                    } else {
                        i + 1
                    };
                    assert(self.entries@[now] == before[i]);
                    assert(has_name(self.entries@, key));
                }
            }
            assert forall|key: Seq<char>| #[trigger] self@.dom().contains(key) implies self@[key]
                == old(self)@.insert(name@, schema@)[key] by {
                if key != name@ {
                    assert(has_name(before, key));
                    let i = choose|i: int|
                        0 <= i < before.len() && (#[trigger] before[i]).name@ == key;
                    let now = if i < at || self.entries.len() == before.len() {
                        i
                    } else {
                        i + 1
                    };
                    assert(self.entries@[now] == before[i]);
                    self.lemma_schema_at(now);
                    old(self).lemma_schema_at(i);
                }
            }
            assert(self@ =~= old(self)@.insert(name@, schema@));
        }
    }
}

/// The parameters of a tool, as an object.
#[derive(Debug)]
pub struct ObjectSchema {
    pub properties: Properties,
    pub required: Option<Vec<String>>,
    pub additional_properties: Option<bool>,
}

/// How a function tool is described.
#[derive(Debug)]
pub struct ToolSpec {
    pub name: String,
    pub description: String,
    pub strict: bool,
    pub defer_loading: Option<bool>,
    pub parameters: ObjectSchema,
    pub output_schema: Option<ObjectSchema>,
}

impl ToolSpec {
    /// The tool is the lenient function of a name and description, with the given parameters and no
    /// others, of which some are required.
    pub open spec fn describes(
        self,
        name: Seq<char>,
        description: Seq<char>,
        properties: Map<Seq<char>, SchemaView>,
        required: Seq<Seq<char>>,
    ) -> bool {
        &&& self.name@ == name
        &&& self.description@ == description
        &&& !self.strict
        &&& self.defer_loading is None
        &&& self.parameters.properties.well_formed()
        &&& self.parameters.properties@ == properties
        &&& self.parameters.required matches Some(names) && strings::texts(names@) == required
        &&& self.parameters.additional_properties == Some(false)
        &&& self.output_schema is None
    }
}

/// The parameters with the environment's id among them, if it is wanted.
pub open spec fn with_environment(properties: Map<Seq<char>, SchemaView>, wanted: bool) -> Map<
    Seq<char>,
    SchemaView,
> {
    if wanted {
        properties.insert(
            "environment_id"@,
            described(
                SchemaKind::Text,
                "Environment id from <environment_context>; omit for the primary environment."@,
            ),
        )
    } else {
        properties
    }
}

/// Adds the environment's id to the parameters, if it is wanted.
pub fn environment_property(properties: &mut Properties, wanted: bool)
    requires
        old(properties).well_formed(),
    ensures
        final(properties).well_formed(),
        final(properties)@ == with_environment(old(properties)@, wanted),
{
    if wanted {
        properties.insert(
            "environment_id".to_owned(),
            JsonSchema::string(
                Some(
                    "Environment id from <environment_context>; omit for the primary environment.".to_owned(),
                ),
            ),
        );
    }
}

/// Describes a lenient function tool that takes the given parameters and no others.
pub fn function_spec(
    name: &str,
    description: &str,
    properties: Properties,
    required: Vec<String>,
) -> (tool: ToolSpec)
    requires
        properties.well_formed(),
    ensures
        tool.describes(name@, description@, properties@, strings::texts(required@)),
{
    ToolSpec {
        name: name.to_owned(),
        description: description.to_owned(),
        strict: false,
        defer_loading: None,
        parameters: ObjectSchema {
            properties,
            required: Some(required),
            additional_properties: Some(false),
        },
        output_schema: None,
    }
}

} // verus!
