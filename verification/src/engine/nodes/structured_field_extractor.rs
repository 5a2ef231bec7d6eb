//! Extraction of single data from structured packets: every configured output selects one datum by a
//! JSON pointer and sends it on unchanged, with its origin.
use crate::asset::share;
use crate::engine::node::{channel_full, NodeAction, NodeError, NodeErrorView};
use crate::engine::nodes::collector::came_out;
use crate::engine::nodes::config::{config_trimmed, failed, trimmed_text};
use crate::engine::packet::{
    DataPacket, Datum, FieldSourceView, PacketView, StructuredPacket, TypedFieldSource, TypedValue,
};
use crate::engine::runtime::{NodeRuntime, RuntimeView};
use crate::engine::spec::{
    find_port, port_index, port_views, NodeRuntimeState, NodeSpec, NodeView, PortSpec, PortView,
};
use crate::json::{trees, JsonTree, JsonValue};
use crate::text::{blank, concat, concat3, concat5, is_blank, same_text};
use std::sync::Arc;
use vstd::prelude::*;
use vstd::utf8::encode_utf8;

verus! {

pub const INPUT_PORT: &'static str = "packet";

pub const PACKET_PORT_KIND: &'static str = "data.packet.v1";

pub const FIELD_PORT_KIND: &'static str = "data.field.v1";

/// What is wrong with the escapes of a pointer.
pub enum EscapeFault {
    Incomplete,
    Invalid(u8),
}

/// What is wrong with the escapes of a pointer from a byte on: a tilde is followed by zero or one.
pub open spec fn escape_fault(bytes: Seq<u8>, i: int) -> Option<EscapeFault>
    decreases bytes.len() - i,
{
    if i < 0 || i >= bytes.len() {
        None
    } else if bytes[i] != 126 {
        escape_fault(bytes, i + 1)
    } else if i + 1 >= bytes.len() {
        Some(EscapeFault::Incomplete)
    } else if bytes[i + 1] != 48 && bytes[i + 1] != 49 {
        Some(EscapeFault::Invalid(bytes[i + 1]))
    } else {
        escape_fault(bytes, i + 2)
    }
}

/// Why a text is no pointer to a part of a document; the whole document is no single datum.
pub open spec fn pointer_fault(pointer: Seq<char>) -> Option<NodeErrorView> {
    if pointer.len() == 0 || pointer[0] != '/' {
        Some(
            NodeErrorView::Config(
                "structuredFieldExtractor pointer `"@ + pointer + "` must start with `/`"@,
            ),
        )
    } else {
        match escape_fault(encode_utf8(pointer), 0) {
            None => None,
            Some(EscapeFault::Incomplete) => Some(
                NodeErrorView::Config(
                    "structuredFieldExtractor pointer `"@ + pointer
                        + "` contains an incomplete `~` escape"@,
                ),
            ),
            Some(EscapeFault::Invalid(byte)) => Some(
                NodeErrorView::Config(
                    "structuredFieldExtractor pointer `"@ + pointer + "` contains invalid `~"@
                        + seq![byte as char] + "` escape"@,
                ),
            ),
        }
    }
}

/// Checks that a text is a pointer to a part of a document.
pub fn validate_json_pointer(pointer: &str) -> (r: Result<(), NodeError>)
    ensures
        came_out(r, pointer_fault(pointer@)),
{
    if pointer.unicode_len() == 0 || pointer.get_char(0) != '/' {
        return Err(
            NodeError::Config(
                concat3("structuredFieldExtractor pointer `", pointer, "` must start with `/`"),
            ),
        );
    }
    let bytes: &[u8] = pointer.as_bytes();
    let ghost whole = encode_utf8(pointer@);
    let mut i: usize = 0;
    while i < bytes.len()
        invariant
            i <= bytes@.len(),
            bytes@ == whole,
            whole == encode_utf8(pointer@),
            pointer@.len() > 0,
            pointer@[0] == '/',
            escape_fault(whole, i as int) == escape_fault(whole, 0),
        decreases bytes@.len() - i,
    {
        if bytes[i] == 126 {
            if bytes.len() - i < 2 {
                return Err(
                    NodeError::Config(
                        concat3(
                            "structuredFieldExtractor pointer `",
                            pointer,
                            "` contains an incomplete `~` escape",
                        ),
                    ),
                );
            }
            let escape: u8 = bytes[i + 1];
            if escape != 48 && escape != 49 {
                let mut s: String = "structuredFieldExtractor pointer `".to_owned();
                s.append(pointer);
                s.append("` contains invalid `~");
                s.push(escape as char);
                proof {
                    assert(s@ =~= "structuredFieldExtractor pointer `"@ + pointer@
                        + "` contains invalid `~"@ + seq![escape as char]);
                }
                s.append("` escape");
                return Err(NodeError::Config(s));
            }
            i = i + 2;
        } else {
            i = i + 1;
        }
    }
    Ok(())
}

/// One output: its port and the pointer that selects its datum.
#[derive(Debug)]
pub struct OutputDefinition {
    pub id: String,
    pub pointer: String,
}

/// One output by its values.
pub struct DefinitionView {
    pub id: Seq<char>,
    pub pointer: Seq<char>,
}

impl View for OutputDefinition {
    type V = DefinitionView;

    open spec fn view(&self) -> DefinitionView {
        DefinitionView { id: self.id@, pointer: self.pointer@ }
    }
}

/// Outputs by their values.
pub open spec fn definition_views(outputs: Seq<OutputDefinition>) -> Seq<DefinitionView> {
    outputs.map_values(|output: OutputDefinition| output@)
}

/// Whether an output is defined.
pub open spec fn defined(definitions: Seq<DefinitionView>, id: Seq<char>) -> bool {
    exists|i: int| 0 <= i < definitions.len() && (#[trigger] definitions[i]).id == id
}

/// The error of a missing member.
pub open spec fn member_required(key: Seq<char>) -> NodeErrorView {
    NodeErrorView::Config(
        "structuredFieldExtractor output definition requires non-empty `"@ + key + "`"@,
    )
}

/// The error of a port that carries something else than single data.
pub open spec fn wrong_kind(id: Seq<char>, kind: Seq<char>) -> NodeErrorView {
    NodeErrorView::Config(
        "structuredFieldExtractor output `"@ + id + "` must use `data.field.v1`, got `"@ + kind
            + "`"@,
    )
}

/// An output as it is defined after earlier ones, or why it is not defined.
pub open spec fn read_definition(
    definition: JsonTree,
    earlier: Seq<DefinitionView>,
    ports: Seq<PortView>,
) -> Result<DefinitionView, NodeErrorView> {
    if !(definition is Object) {
        Err(
            NodeErrorView::Config(
                "structuredFieldExtractor output definition must be an object"@,
            ),
        )
    } else {
        match trimmed_text(definition, "id"@) {
            None => Err(member_required("id"@)),
            Some(id) => if defined(earlier, id) {
                Err(
                    NodeErrorView::Config(
                        "structuredFieldExtractor contains duplicate output definition `"@ + id
                            + "`"@,
                    ),
                )
            } else {
                match trimmed_text(definition, "pointer"@) {
                    None => Err(member_required("pointer"@)),
                    Some(pointer) => match pointer_fault(pointer) {
                        Some(error) => Err(error),
                        None => if definition.member("type"@) is Some {
                            Err(
                                NodeErrorView::Config(
                                    "structuredFieldExtractor output `"@ + id
                                        + "` must not declare a primitive type"@,
                                ),
                            )
                        } else {
                            match port_index(ports, id) {
                                None => Err(
                                    NodeErrorView::Config(
                                        "structuredFieldExtractor output definition `"@ + id
                                            + "` has no matching static output port"@,
                                    ),
                                ),
                                Some(i) => if ports[i].kind != FIELD_PORT_KIND@ {
                                    Err(wrong_kind(id, ports[i].kind))
                                } else {
                                    Ok(DefinitionView { id, pointer })
                                },
                            }
                        },
                    },
                }
            },
        }
    }
}

/// Outputs as they are defined, or why the first bad one is not.
pub open spec fn read_definitions(definitions: Seq<JsonTree>, ports: Seq<PortView>) -> Result<
    Seq<DefinitionView>,
    NodeErrorView,
>
    decreases definitions.len(),
{
    if definitions.len() == 0 {
        Ok(Seq::empty())
    } else {
        match read_definitions(definitions.drop_last(), ports) {
            Err(error) => Err(error),
            Ok(earlier) => match read_definition(definitions.last(), earlier, ports) {
                Err(error) => Err(error),
                Ok(output) => Ok(earlier.push(output)),
            },
        }
    }
}

/// The outputs of a configuration, or why there are none.
pub open spec fn configured_outputs(config: JsonTree, ports: Seq<PortView>) -> Result<
    Seq<DefinitionView>,
    NodeErrorView,
> {
    if !(config is Object) {
        Err(NodeErrorView::Config("structuredFieldExtractor config must be an object"@))
    } else {
        let list = match config.member("outputs"@) {
            Some(list) => list.items(),
            None => None,
        };
        match list {
            None => Err(
                NodeErrorView::Config(
                    "structuredFieldExtractor config requires an `outputs` array"@,
                ),
            ),
            Some(definitions) => if definitions.len() == 0 {
                Err(
                    NodeErrorView::Config(
                        "structuredFieldExtractor config `outputs` must not be empty"@,
                    ),
                )
            } else {
                match read_definitions(definitions, ports) {
                    Err(error) => Err(error),
                    Ok(outputs) => if ports.len() != outputs.len() {
                        Err(
                            NodeErrorView::Config(
                                "structuredFieldExtractor static output ports must exactly match configured outputs"@,
                            ),
                        )
                    } else {
                        Ok(outputs)
                    },
                }
            },
        }
    }
}

/// Why the inputs of a node do not fit; nothing where they do.
pub open spec fn input_fault(inputs: Seq<PortView>) -> Option<NodeErrorView> {
    match port_index(inputs, INPUT_PORT@) {
        None => Some(
            NodeErrorView::Config("structuredFieldExtractor requires input port `packet`"@),
        ),
        Some(i) => if inputs[i].kind != PACKET_PORT_KIND@ {
            Some(
                NodeErrorView::Config(
                    "structuredFieldExtractor input `packet` must use `data.packet.v1`, got `"@
                        + inputs[i].kind + "`"@,
                ),
            )
        } else {
            None
        },
    }
}

fn validate_input_port(spec: &NodeSpec) -> (r: Result<(), NodeError>)
    ensures
        came_out(r, input_fault(spec@.inputs)),
{
    match find_port(&spec.inputs, INPUT_PORT) {
        None => Err(NodeError::config("structuredFieldExtractor requires input port `packet`")),
        Some(port) => {
            if !same_text(port.kind.as_str(), PACKET_PORT_KIND) {
                return Err(
                    NodeError::Config(
                        concat3(
                            "structuredFieldExtractor input `packet` must use `data.packet.v1`, got `",
                            port.kind.as_str(),
                            "`",
                        ),
                    ),
                );
            }
            Ok(())
        },
    }
}

fn is_defined(outputs: &Vec<OutputDefinition>, id: &str) -> (r: bool)
    ensures
        r == defined(definition_views(outputs@), id@),
{
    let ghost views = definition_views(outputs@);
    let mut i: usize = 0;
    while i < outputs.len()
        invariant
            i <= outputs@.len() == views.len(),
            views == definition_views(outputs@),
            forall|j: int| 0 <= j < i ==> (#[trigger] views[j]).id != id@,
        decreases outputs@.len() - i,
    {
        proof {
            assert(views[i as int] == outputs@[i as int]@);
        }
        if same_text(outputs[i].id.as_str(), id) {
            return true;
        }
        i = i + 1;
    }
    false
}

fn required_text<'a>(definition: &'a JsonValue, key: &str) -> (r: Result<&'a str, NodeError>)
    ensures
        match trimmed_text(definition@, key@) {
            Some(s) => r is Ok && r->Ok_0@ == s,
            None => failed(r, member_required(key@)),
        },
{
    match config_trimmed(definition, key) {
        Some(s) => Ok(s),
        None => Err(
            NodeError::Config(
                concat3(
                    "structuredFieldExtractor output definition requires non-empty `",
                    key,
                    "`",
                ),
            ),
        ),
    }
}

fn parse_definition(
    definition: &JsonValue,
    earlier: &Vec<OutputDefinition>,
    ports: &Vec<PortSpec>,
) -> (r: Result<OutputDefinition, NodeError>)
    ensures
        match read_definition(definition@, definition_views(earlier@), port_views(ports@)) {
            Ok(output) => r is Ok && r->Ok_0@ == output,
            Err(error) => failed(r, error),
        },
{
    if !definition.is_object() {
        return Err(
            NodeError::config("structuredFieldExtractor output definition must be an object"),
        );
    }
    let id: &str = match required_text(definition, "id") {
        Ok(id) => id,
        Err(error) => {
            return Err(error);
        },
    };
    if is_defined(earlier, id) {
        return Err(
            NodeError::Config(
                concat3("structuredFieldExtractor contains duplicate output definition `", id, "`"),
            ),
        );
    }
    let pointer: &str = match required_text(definition, "pointer") {
        Ok(pointer) => pointer,
        Err(error) => {
            return Err(error);
        },
    };
    match validate_json_pointer(pointer) {
        Ok(()) => {},
        Err(error) => {
            return Err(error);
        },
    }
    if definition.get("type").is_some() {
        return Err(
            NodeError::Config(
                concat3(
                    "structuredFieldExtractor output `",
                    id,
                    "` must not declare a primitive type",
                ),
            ),
        );
    }
    match find_port(ports, id) {
        None => Err(
            NodeError::Config(
                concat3(
                    "structuredFieldExtractor output definition `",
                    id,
                    "` has no matching static output port",
                ),
            ),
        ),
        Some(port) => {
            if !same_text(port.kind.as_str(), FIELD_PORT_KIND) {
                return Err(
                    NodeError::Config(
                        concat5(
                            "structuredFieldExtractor output `",
                            id,
                            "` must use `data.field.v1`, got `",
                            port.kind.as_str(),
                            "`",
                        ),
                    ),
                );
            }
            Ok(OutputDefinition { id: id.to_owned(), pointer: pointer.to_owned() })
        },
    }
}

proof fn lemma_bad_definition_persists(definitions: Seq<JsonTree>, ports: Seq<PortView>, i: int)
    requires
        0 <= i <= definitions.len(),
        read_definitions(definitions.take(i), ports) is Err,
    ensures
        read_definitions(definitions, ports) == read_definitions(definitions.take(i), ports),
    decreases definitions.len() - i,
{
    if i < definitions.len() {
        assert(definitions.take(i + 1).drop_last() =~= definitions.take(i));
        lemma_bad_definition_persists(definitions, ports, i + 1);
    } else {
        assert(definitions.take(i) =~= definitions);
    }
}

/// Reads the outputs of a node from its configuration; they must be the node's output ports.
pub fn parse_output_definitions(spec: &NodeSpec) -> (r: Result<Vec<OutputDefinition>, NodeError>)
    ensures
        match configured_outputs(spec.config@, spec@.outputs) {
            Ok(outputs) => r is Ok && definition_views(r->Ok_0@) == outputs,
            Err(error) => failed(r, error),
        },
{
    if !spec.config.is_object() {
        return Err(NodeError::config("structuredFieldExtractor config must be an object"));
    }
    let list: Option<&Vec<JsonValue>> = match spec.config.get("outputs") {
        Some(list) => list.as_array(),
        None => None,
    };
    let definitions: &Vec<JsonValue> = match list {
        Some(definitions) => definitions,
        None => {
            return Err(
                NodeError::config("structuredFieldExtractor config requires an `outputs` array"),
            );
        },
    };
    let ghost views = trees(definitions@);
    let ghost ports = spec@.outputs;
    if definitions.len() == 0 {
        return Err(
            NodeError::config("structuredFieldExtractor config `outputs` must not be empty"),
        );
    }
    let mut parsed: Vec<OutputDefinition> = Vec::new();
    let mut i: usize = 0;
    proof {
        assert(views.take(0) =~= Seq::<JsonTree>::empty());
        assert(definition_views(parsed@) =~= Seq::<DefinitionView>::empty());
    }
    while i < definitions.len()
        invariant
            i <= definitions@.len() == views.len(),
            definitions@.len() > 0,
            views == trees(definitions@),
            ports == port_views(spec.outputs@),
            spec@.outputs == ports,
            spec.config@ is Object,
            spec.config@.member("outputs"@) is Some,
            spec.config@.member("outputs"@)->Some_0.items() == Some(views),
            read_definitions(views.take(i as int), ports) == Ok::<
                Seq<DefinitionView>,
                NodeErrorView,
            >(definition_views(parsed@)),
        decreases definitions@.len() - i,
    {
        let ghost next = views.take(i + 1);
        let ghost before = definition_views(parsed@);
        proof {
            assert(next.drop_last() =~= views.take(i as int));
            assert(next.last() == definitions@[i as int]@);
        }
        match parse_definition(&definitions[i], &parsed, &spec.outputs) {
            Ok(output) => {
                parsed.push(output);
                proof {
                    assert(definition_views(parsed@) =~= before.push(output@));
                }
            },
            Err(error) => {
                proof {
                    lemma_bad_definition_persists(views, ports, i + 1);
                }
                return Err(error);
            },
        }
        i = i + 1;
    }
    proof {
        assert(views.take(i as int) =~= views);
    }
    if spec.outputs.len() != parsed.len() {
        return Err(
            NodeError::config(
                "structuredFieldExtractor static output ports must exactly match configured outputs",
            ),
        );
    }
    Ok(parsed)
}

/// A `serde_json` document.
#[verifier::external_type_specification]
#[verifier::external_body]
pub struct ExValue(serde_json::Value);

/// What a `serde_json` document holds.
pub uninterp spec fn document_tree(document: serde_json::Value) -> JsonTree;

/// The part of a document that `serde_json`'s `Value::pointer` selects.
pub uninterp spec fn pointed(document: JsonTree, pointer: Seq<char>) -> Option<JsonTree>;

/// `serde_json::Value::pointer`: the part of a document that a JSON pointer selects. What is
/// selected, if anything, depends on what the document holds and on the pointer alone.
#[verifier::external_body]
fn point<'a>(document: &'a serde_json::Value, pointer: &str) -> (r: Option<&'a serde_json::Value>)
    ensures
        match r {
            Some(part) => pointed(document_tree(*document), pointer@) == Some(document_tree(*part)),
            None => pointed(document_tree(*document), pointer@) is None,
        },
{
    document.pointer(pointer)
}

/// Whether a pointer selects a part of a document, or nothing.
pub open spec fn selects(
    document: serde_json::Value,
    pointer: Seq<char>,
    part: Option<&serde_json::Value>,
) -> bool {
    pointed(document_tree(document), pointer) == (match part {
        Some(part) => Some(document_tree(*part)),
        None => None,
    })
}

/// Whether a field names the camera model that a packet is about.
pub open spec fn names_model(field: Datum) -> Option<Seq<char>> {
    match (field.value, field.semantic_type) {
        (TypedValue::Str(value), Some(semantic)) => if field.name@ == "camera.model.id"@
            && semantic@ == "camera.model-id"@ && !blank(value@) {
            Some(value@)
        } else {
            None
        },
        _ => None,
    }
}

/// The camera model that a packet is about: the first field that names one decides.
pub open spec fn model_id(fields: Seq<Datum>) -> Option<Seq<char>>
    decreases fields.len(),
{
    if fields.len() == 0 {
        None
    } else {
        match model_id(fields.drop_last()) {
            Some(id) => Some(id),
            None => names_model(fields.last()),
        }
    }
}

/// The origin of the fields of a packet.
pub open spec fn source_of(packet: StructuredPacket) -> FieldSourceView {
    FieldSourceView {
        schema: packet.schema@,
        provenance: (*packet.provenance)@,
        model_id: model_id(packet.fields@),
    }
}

fn named_model(field: &Datum) -> (r: Option<String>)
    ensures
        match r {
            Some(id) => names_model(*field) == Some(id@),
            None => names_model(*field) is None,
        },
{
    match (&field.value, &field.semantic_type) {
        (TypedValue::Str(value), Some(semantic)) => {
            if same_text(field.name.as_str(), "camera.model.id") && same_text(
                semantic.as_str(),
                "camera.model-id",
            ) && !is_blank(value.as_str()) {
                Some(value.clone())
            } else {
                None
            }
        },
        _ => None,
    }
}

proof fn lemma_model_id_persists(fields: Seq<Datum>, i: int)
    requires
        0 <= i <= fields.len(),
        model_id(fields.take(i)) is Some,
    ensures
        model_id(fields) == model_id(fields.take(i)),
    decreases fields.len() - i,
{
    if i < fields.len() {
        assert(fields.take(i + 1).drop_last() =~= fields.take(i));
        lemma_model_id_persists(fields, i + 1);
    } else {
        assert(fields.take(i) =~= fields);
    }
}

fn find_model_id(fields: &Vec<Datum>) -> (r: Option<String>)
    ensures
        match r {
            Some(id) => model_id(fields@) == Some(id@),
            None => model_id(fields@) is None,
        },
{
    let mut i: usize = 0;
    proof {
        assert(fields@.take(0) =~= Seq::<Datum>::empty());
    }
    while i < fields.len()
        invariant
            i <= fields@.len(),
            model_id(fields@.take(i as int)) is None,
        decreases fields@.len() - i,
    {
        let ghost next = fields@.take(i + 1);
        proof {
            assert(next.drop_last() =~= fields@.take(i as int));
            assert(next.last() == fields@[i as int]);
        }
        match named_model(&fields[i]) {
            Some(id) => {
                proof {
                    lemma_model_id_persists(fields@, i + 1);
                }
                return Some(id);
            },
            None => {},
        }
        i = i + 1;
    }
    proof {
        assert(fields@.take(i as int) =~= fields@);
    }
    None
}

/// The origin that all fields of a packet share.
pub fn typed_field_source(packet: &StructuredPacket) -> (r: TypedFieldSource)
    ensures
        r@ == source_of(*packet),
{
    TypedFieldSource {
        schema: packet.schema.clone(),
        provenance: share(&packet.provenance),
        model_id: find_model_id(&packet.fields),
    }
}

/// A structured packet as it came in.
#[derive(Debug)]
pub enum PacketForm {
    /// The packet itself.
    Packet(Arc<StructuredPacket>),
    /// A document, which is to be read.
    Document(Arc<JsonValue>),
}

/// Why a document does not read as a structured packet.
#[derive(Debug)]
pub enum WireFault {
    /// It could not be written as JSON text.
    Encoding(String),
    /// Its text is not that of a structured packet.
    Reading(String),
}

/// What was found where a pointer points.
#[derive(Debug)]
pub enum FieldLookup {
    /// Nothing.
    Missing,
    /// Something that does not read as one datum.
    NotADatum(String),
    /// A datum that is not valid.
    Invalid(String),
    Found(Arc<Datum>),
}

/// An error of one output.
pub open spec fn output_error(
    output: DefinitionView,
    what: Seq<char>,
    why: Seq<char>,
) -> NodeErrorView {
    NodeErrorView::Precondition(
        "structured field output `"@ + output.id + "` pointer `"@ + output.pointer + "` "@ + what
            + why,
    )
}

fn output_failure(output: &OutputDefinition, what: &str, why: &str) -> (r: NodeError)
    ensures
        r@ == output_error(output@, what@, why@),
{
    let mut s: String = "structured field output `".to_owned();
    s.append(output.id.as_str());
    s.append("` pointer `");
    s.append(output.pointer.as_str());
    s.append("` ");
    s.append(what);
    s.append(why);
    NodeError::Precondition(s)
}

/// What the outputs send, one by one, until one fails.
pub open spec fn fields_sent(
    outputs: Seq<DefinitionView>,
    found: Seq<FieldLookup>,
    generation: u64,
    source: FieldSourceView,
    rt: RuntimeView,
) -> (RuntimeView, Option<NodeErrorView>)
    decreases outputs.len(),
{
    if outputs.len() == 0 {
        (rt, None)
    } else {
        let (before, error) = fields_sent(
            outputs.drop_last(),
            found.drop_last(),
            generation,
            source,
            rt,
        );
        let output = outputs.last();
        if error is Some {
            (before, error)
        } else {
            match found.last() {
                FieldLookup::Missing => (
                    before,
                    Some(output_error(output, "did not resolve to a value"@, ""@)),
                ),
                FieldLookup::NotADatum(why) => (
                    before,
                    Some(output_error(output, "must select one datum: "@, why@)),
                ),
                FieldLookup::Invalid(why) => (
                    before,
                    Some(output_error(output, "selected an invalid datum: "@, why@)),
                ),
                FieldLookup::Found(datum) => if before.accepts(output.id) {
                    (
                        before.emitted(
                            output.id,
                            PacketView::TypedField { datum: *datum, generation, source },
                        ),
                        None,
                    )
                } else {
                    (before, Some(channel_full()))
                },
            }
        }
    }
}

proof fn lemma_fields_error_persists(
    outputs: Seq<DefinitionView>,
    found: Seq<FieldLookup>,
    generation: u64,
    source: FieldSourceView,
    rt: RuntimeView,
    i: int,
)
    requires
        0 <= i <= outputs.len() == found.len(),
        fields_sent(outputs.take(i), found.take(i), generation, source, rt).1 is Some,
    ensures
        fields_sent(outputs, found, generation, source, rt) == fields_sent(
            outputs.take(i),
            found.take(i),
            generation,
            source,
            rt,
        ),
    decreases outputs.len() - i,
{
    if i < outputs.len() {
        assert(outputs.take(i + 1).drop_last() =~= outputs.take(i));
        assert(found.take(i + 1).drop_last() =~= found.take(i));
        lemma_fields_error_persists(outputs, found, generation, source, rt, i + 1);
    } else {
        assert(outputs.take(i) =~= outputs);
        assert(found.take(i) =~= found);
    }
}

/// What comes of a packet whose outputs were looked up.
pub open spec fn extracted(
    outputs: Seq<DefinitionView>,
    next_generation: u64,
    packet: StructuredPacket,
    found: Seq<FieldLookup>,
    rt: RuntimeView,
) -> (RuntimeView, Option<NodeErrorView>) {
    if next_generation == u64::MAX {
        (
            rt,
            Some(NodeErrorView::Execution("structured field generation counter exhausted"@)),
        )
    } else {
        let (after, error) = fields_sent(outputs, found, next_generation, source_of(packet), rt);
        if error is Some {
            (after, error)
        } else {
            (after.reported(NodeRuntimeState::Running, "structured fields extracted"@), None)
        }
    }
}

pub struct StructuredFieldExtractorFactory;

impl StructuredFieldExtractorFactory {
    pub fn kind(&self) -> (r: &'static str)
        ensures
            r@ == "structuredFieldExtractor"@,
    {
        "structuredFieldExtractor"
    }

    pub fn instantiate(&self, spec: NodeSpec) -> (r: Result<StructuredFieldExtractorNode, NodeError>)
        ensures
            match extractor_of(spec@) {
                Ok(outputs) => r is Ok && definition_views(r->Ok_0.outputs@) == outputs
                    && r->Ok_0.next_generation == 1,
                Err(error) => failed(r, error),
            },
    {
        StructuredFieldExtractorNode::new(spec)
    }
}

/// The outputs of the node that a specification describes, or why it describes none.
pub open spec fn extractor_of(spec: NodeView) -> Result<Seq<DefinitionView>, NodeErrorView> {
    match input_fault(spec.inputs) {
        Some(error) => Err(error),
        None => configured_outputs(spec.config, spec.outputs),
    }
}

/// Sends single data of structured packets on.
#[derive(Debug)]
pub struct StructuredFieldExtractorNode {
    pub outputs: Vec<OutputDefinition>,
    pub next_generation: u64,
}

impl StructuredFieldExtractorNode {
    pub fn new(spec: NodeSpec) -> (r: Result<StructuredFieldExtractorNode, NodeError>)
        ensures
            match extractor_of(spec@) {
                Ok(outputs) => r is Ok && definition_views(r->Ok_0.outputs@) == outputs
                    && r->Ok_0.next_generation == 1,
                Err(error) => failed(r, error),
            },
    {
        match validate_input_port(&spec) {
            Ok(()) => {},
            Err(error) => {
                return Err(error);
            },
        }
        match parse_output_definitions(&spec) {
            Ok(outputs) => Ok(StructuredFieldExtractorNode { outputs, next_generation: 1 }),
            Err(error) => Err(error),
        }
    }

    pub fn on_start(&mut self, rt: &mut NodeRuntime) -> (r: Result<(), NodeError>)
        ensures
            r is Ok,
            *final(self) == *old(self),
            final(rt)@ == old(rt)@.reported(
                NodeRuntimeState::Ready,
                "waiting for structured packet"@,
            ),
    {
        rt.report_state(NodeRuntimeState::Ready, "waiting for structured packet");
        Ok(())
    }

    /// The packet to be looked up, as it came in; only structured packets and documents on the one
    /// input are taken.
    pub fn on_input(&mut self, port: &str, packet: DataPacket) -> (r: Result<
        PacketForm,
        NodeError,
    >)
        ensures
            *final(self) == *old(self),
            if port@ != INPUT_PORT@ {
                failed(
                    r,
                    NodeErrorView::Precondition(
                        "structuredFieldExtractor received input on unknown port `"@ + port@ + "`"@,
                    ),
                )
            } else {
                match packet {
                    DataPacket::StructuredPacket(packet) => r == Ok::<PacketForm, NodeError>(
                        PacketForm::Packet(packet),
                    ),
                    DataPacket::PacketData(document) => r == Ok::<PacketForm, NodeError>(
                        PacketForm::Document(document),
                    ),
                    _ => failed(
                        r,
                        NodeErrorView::Precondition(
                            "structuredFieldExtractor.packet requires data.packet.v1"@,
                        ),
                    ),
                }
            },
    {
        if !same_text(port, INPUT_PORT) {
            return Err(
                NodeError::Precondition(
                    concat3(
                        "structuredFieldExtractor received input on unknown port `",
                        port,
                        "`",
                    ),
                ),
            );
        }
        match packet {
            DataPacket::StructuredPacket(packet) => Ok(PacketForm::Packet(packet)),
            DataPacket::PacketData(document) => Ok(PacketForm::Document(document)),
            _ => Err(
                NodeError::precondition("structuredFieldExtractor.packet requires data.packet.v1"),
            ),
        }
    }

    /// Takes the packet that a document reads as; `reading` is that packet, or why there is none.
    pub fn document_read(&self, reading: Result<StructuredPacket, WireFault>) -> (r: Result<
        Arc<StructuredPacket>,
        NodeError,
    >)
        ensures
            match reading {
                Ok(packet) => r is Ok && *r->Ok_0 == packet,
                Err(WireFault::Encoding(why)) => failed(
                    r,
                    NodeErrorView::Precondition("data.packet.v1 cannot be encoded: "@ + why@),
                ),
                Err(WireFault::Reading(why)) => failed(
                    r,
                    NodeErrorView::Precondition(
                        "structuredFieldExtractor.packet requires StructuredPacket wire JSON: "@
                            + why@,
                    ),
                ),
            },
    {
        match reading {
            Ok(packet) => Ok(Arc::new(packet)),
            Err(WireFault::Encoding(why)) => Err(
                NodeError::Precondition(concat("data.packet.v1 cannot be encoded: ", why.as_str())),
            ),
            Err(WireFault::Reading(why)) => Err(
                NodeError::Precondition(
                    concat(
                        "structuredFieldExtractor.packet requires StructuredPacket wire JSON: ",
                        why.as_str(),
                    ),
                ),
            ),
        }
    }

    /// What the pointers of the outputs select in the document of a packet.
    pub fn locate<'a>(&self, document: &'a serde_json::Value) -> (r: Vec<
        Option<&'a serde_json::Value>,
    >)
        ensures
            r@.len() == self.outputs@.len(),
            forall|i: int|
                0 <= i < r@.len() ==> selects(
                    *document,
                    self.outputs@[i].pointer@,
                    #[trigger] r@[i],
                ),
    {
        let mut r: Vec<Option<&'a serde_json::Value>> = Vec::new();
        let mut i: usize = 0;
        while i < self.outputs.len()
            invariant
                i <= self.outputs@.len(),
                r@.len() == i,
                forall|j: int|
                    0 <= j < i ==> selects(
                        *document,
                        self.outputs@[j].pointer@,
                        #[trigger] r@[j],
                    ),
            decreases self.outputs@.len() - i,
        {
            r.push(point(document, self.outputs[i].pointer.as_str()));
            i = i + 1;
        }
        r
    }

    /// Sends the data that were found, each on its output, all of one generation. A failure ends the
    /// sending; what went before it went out. `found` has one entry for each output.
    pub fn extract(
        &mut self,
        packet: &StructuredPacket,
        found: Vec<FieldLookup>,
        rt: &mut NodeRuntime,
    ) -> (r: Result<(), NodeError>)
        requires
            found@.len() == old(self).outputs@.len(),
        ensures
            ({
                let (after, error) = extracted(
                    definition_views(old(self).outputs@),
                    old(self).next_generation,
                    *packet,
                    found@,
                    old(rt)@,
                );
                came_out(r, error) && final(rt)@ == after
            }),
            final(self).outputs == old(self).outputs,
            final(self).next_generation == (if old(self).next_generation == u64::MAX {
                u64::MAX
            } else {
                (old(self).next_generation + 1) as u64
            }),
    {
        let source: Arc<TypedFieldSource> = Arc::new(typed_field_source(packet));
        let generation: u64 = self.next_generation;
        match generation.checked_add(1) {
            Some(next) => {
                self.next_generation = next;
            },
            None => {
                return Err(NodeError::execution("structured field generation counter exhausted"));
            },
        }
        match send_fields(&self.outputs, &found, generation, &source, rt) {
            Ok(()) => {},
            Err(error) => {
                return Err(error);
            },
        }
        rt.report_state(NodeRuntimeState::Running, "structured fields extracted");
        Ok(())
    }

    /// The packet could not be written as a document.
    pub fn encoding_failed(&self, why: &str) -> (r: NodeError)
        ensures
            r@ == NodeErrorView::Execution(
                "could not encode structured packet for extraction: "@ + why@,
            ),
    {
        NodeError::Execution(
            concat("could not encode structured packet for extraction: ", why),
        )
    }

    pub fn on_action(&mut self, action: NodeAction, _rt: &mut NodeRuntime) -> (r: Result<
        (),
        NodeError,
    >)
        ensures
            failed(r, NodeErrorView::UnsupportedAction(action.label())),
            *final(self) == *old(self),
            final(_rt)@ == old(_rt)@,
    {
        Err(NodeError::unsupported(&action))
    }

    pub fn on_stop(&mut self, rt: &mut NodeRuntime) -> (r: Result<(), NodeError>)
        ensures
            r is Ok,
            *final(self) == *old(self),
            final(rt)@ == old(rt)@.reported(NodeRuntimeState::Idle, "stopped"@),
    {
        rt.report_state(NodeRuntimeState::Idle, "stopped");
        Ok(())
    }
}

fn send_field(
    output: &OutputDefinition,
    found: &FieldLookup,
    generation: u64,
    source: &Arc<TypedFieldSource>,
    rt: &mut NodeRuntime,
) -> (r: Result<(), NodeError>)
    ensures
        match *found {
            FieldLookup::Missing => failed(
                r,
                output_error(output@, "did not resolve to a value"@, ""@),
            ) && final(rt)@ == old(rt)@,
            FieldLookup::NotADatum(why) => failed(
                r,
                output_error(output@, "must select one datum: "@, why@),
            ) && final(rt)@ == old(rt)@,
            FieldLookup::Invalid(why) => failed(
                r,
                output_error(output@, "selected an invalid datum: "@, why@),
            ) && final(rt)@ == old(rt)@,
            FieldLookup::Found(datum) => if old(rt)@.accepts(output.id@) {
                r is Ok && final(rt)@ == old(rt)@.emitted(
                    output.id@,
                    PacketView::TypedField { datum: *datum, generation, source: (**source)@ },
                )
            } else {
                failed(r, channel_full()) && final(rt)@ == old(rt)@
            },
        },
{
    match found {
        FieldLookup::Missing => Err(output_failure(output, "did not resolve to a value", "")),
        FieldLookup::NotADatum(why) => Err(
            output_failure(output, "must select one datum: ", why.as_str()),
        ),
        FieldLookup::Invalid(why) => Err(
            output_failure(output, "selected an invalid datum: ", why.as_str()),
        ),
        FieldLookup::Found(datum) => rt.emit(
            output.id.as_str(),
            DataPacket::TypedField { datum: share(datum), generation, source: share(source) },
        ),
    }
}

fn send_fields(
    outputs: &Vec<OutputDefinition>,
    found: &Vec<FieldLookup>,
    generation: u64,
    source: &Arc<TypedFieldSource>,
    rt: &mut NodeRuntime,
) -> (r: Result<(), NodeError>)
    requires
        found@.len() == outputs@.len(),
    ensures
        ({
            let (after, error) = fields_sent(
                definition_views(outputs@),
                found@,
                generation,
                (**source)@,
                old(rt)@,
            );
            came_out(r, error) && final(rt)@ == after
        }),
{
    let ghost views = definition_views(outputs@);
    let ghost origin = (**source)@;
    let mut i: usize = 0;
    while i < outputs.len()
        invariant
            i <= outputs@.len() == found@.len(),
            views == definition_views(outputs@),
            origin == (**source)@,
            fields_sent(
                views.take(i as int),
                found@.take(i as int),
                generation,
                origin,
                old(rt)@,
            ) == (rt@, None::<NodeErrorView>),
        decreases outputs@.len() - i,
    {
        let ghost next = views.take(i + 1);
        let ghost next_found = found@.take(i + 1);
        proof {
            assert(next.drop_last() =~= views.take(i as int));
            assert(next_found.drop_last() =~= found@.take(i as int));
            assert(next.last() == outputs@[i as int]@);
            assert(next_found.last() == found@[i as int]);
        }
        match send_field(&outputs[i], &found[i], generation, source, rt) {
            Ok(()) => {},
            Err(error) => {
                proof {
                    lemma_fields_error_persists(
                        views,
                        found@,
                        generation,
                        origin,
                        old(rt)@,
                        i + 1,
                    );
                }
                return Err(error);
            },
        }
        i = i + 1;
    }
    proof {
        assert(views.take(i as int) =~= views);
        assert(found@.take(i as int) =~= found@);
    }
    Ok(())
}

/// Defined outputs are distinct, and each has a port for single data.
pub proof fn law_outputs_are_distinct_field_ports(
    definitions: Seq<JsonTree>,
    ports: Seq<PortView>,
    outputs: Seq<DefinitionView>,
)
    requires
        read_definitions(definitions, ports) == Ok::<Seq<DefinitionView>, NodeErrorView>(outputs),
    ensures
        forall|i: int, j: int|
            0 <= i < j < outputs.len() ==> (#[trigger] outputs[i]).id != (
            #[trigger] outputs[j]).id,
        forall|i: int|
            0 <= i < outputs.len() ==> port_index(ports, (#[trigger] outputs[i]).id) is Some
                && ports[port_index(ports, outputs[i].id)->Some_0].kind == FIELD_PORT_KIND@
                && pointer_fault(outputs[i].pointer) is None,
    decreases definitions.len(),
{
    if definitions.len() > 0 {
        let init = definitions.drop_last();
        let earlier = read_definitions(init, ports)->Ok_0;
        law_outputs_are_distinct_field_ports(init, ports, earlier);
        let last = outputs.last();
        assert(outputs == earlier.push(last));
        assert forall|i: int, j: int| 0 <= i < j < outputs.len() implies (
        #[trigger] outputs[i]).id != (#[trigger] outputs[j]).id by {
            assert(outputs[i] == earlier[i]);
            if j < earlier.len() {
                assert(outputs[j] == earlier[j]);
            }
        }
        assert forall|i: int| 0 <= i < outputs.len() implies port_index(
            ports,
            (#[trigger] outputs[i]).id,
        ) is Some && ports[port_index(ports, outputs[i].id)->Some_0].kind == FIELD_PORT_KIND@
            && pointer_fault(outputs[i].pointer) is None by {
            if i < earlier.len() {
                assert(outputs[i] == earlier[i]);
            }
        }
    }
}

} // verus!
