//! Laws of structured fields and of the tasks that are built from them: which pointers and outputs
//! there are, what is sent for each, and that a task writes what was encoded.
use crate::digest::sha256_hex_text;
use crate::engine::i2c_task::{
    page_inside, range_inside, I2cTaskFault, I2cTaskPacket, TaskOperation,
};
use crate::engine::node::{NodeError, NodeErrorView};
use crate::engine::nodes::config::{filled_text, trimmed_text};
use crate::engine::nodes::i2c_plan_nodes::{
    asked_map, command_of, complete, configured_operation, configured_placement, encoder_inputs,
    encoder_made, encoder_port_fault, readied, task_checked, task_taken, I2cFieldEncoderNode,
    I2cTaskExecutorNode, executor_port_fault, found_map, gathered, input_index, inputs_fault,
    lemma_input_index, placed_input_fault, row_input, slot_index, slot_inputs, stored_slots,
    storage_matches, taken_by, task_of, CompiledMap, EncodedImage, I2cCommand, I2cReadRequest,
    I2cWriteRequest, InputView, LoadedMap, MapSlot, Placement,
};
use crate::engine::nodes::structured_field_extractor::{
    configured_outputs, defined, escape_fault, extracted, extractor_of, fields_sent, model_id,
    names_model, pointer_fault, read_definition, read_definitions, source_of, DefinitionView,
    FieldLookup,
};
use crate::engine::packet::{Datum, FieldSourceView, PacketView, SshConnection, StructuredPacket};
use crate::engine::runtime::{EffectView, RuntimeView};
use crate::engine::spec::{lemma_port_index, port_index, NodeRuntimeState, NodeView, PortView};
use crate::json::JsonTree;
use crate::text::{blank, folded, trimmed};
use std::sync::Arc;
use vstd::prelude::*;

verus! {

proof fn lemma_escapes(bytes: Seq<u8>, i: int)
    requires
        0 <= i,
    ensures
        escape_fault(bytes, i) is None <==> forall|j: int|
            i <= j < bytes.len() && #[trigger] bytes[j] == 126 ==> j + 1 < bytes.len() && (bytes[j
                + 1] == 48 || bytes[j + 1] == 49),
    decreases bytes.len() - i,
{
    if i < bytes.len() {
        if bytes[i] != 126 {
            lemma_escapes(bytes, i + 1);
        } else if i + 1 < bytes.len() && (bytes[i + 1] == 48 || bytes[i + 1] == 49) {
            lemma_escapes(bytes, i + 2);
        }
    }
}

/// A pointer is one exactly where it begins with a slash and every tilde in it is followed by a zero
/// or a one.
pub proof fn law_pointers_escape_every_tilde(pointer: Seq<char>)
    ensures
        pointer_fault(pointer) is None <==> {
            let bytes = vstd::utf8::encode_utf8(pointer);
            &&& pointer.len() > 0 && pointer[0] == '/'
            &&& forall|j: int|
                0 <= j < bytes.len() && #[trigger] bytes[j] == 126 ==> j + 1 < bytes.len() && (
                bytes[j + 1] == 48 || bytes[j + 1] == 49)
        },
{
    lemma_escapes(vstd::utf8::encode_utf8(pointer), 0);
}

/// An output is defined exactly where it has an identity that no earlier one has, a pointer, no type,
/// and a port of its name for fields.
pub proof fn law_outputs_are_defined_for_field_ports(
    definition: JsonTree,
    earlier: Seq<DefinitionView>,
    ports: Seq<PortView>,
)
    ensures
        read_definition(definition, earlier, ports) matches Ok(output) ==> {
            &&& trimmed_text(definition, "id"@) == Some(output.id)
            &&& trimmed_text(definition, "pointer"@) == Some(output.pointer)
            &&& pointer_fault(output.pointer) is None
            &&& definition.member("type"@) is None
            &&& forall|i: int|
                0 <= i < earlier.len() ==> (#[trigger] earlier[i]).id != output.id
            &&& exists|i: int|
                0 <= i < ports.len() && (#[trigger] ports[i]).id == output.id && ports[i].kind
                    == "data.field.v1"@
        },
        (definition is Object && trimmed_text(definition, "id"@) is Some && trimmed_text(
            definition,
            "pointer"@,
        ) is Some && pointer_fault(trimmed_text(definition, "pointer"@)->Some_0) is None
            && definition.member("type"@) is None && !defined(
            earlier,
            trimmed_text(definition, "id"@)->Some_0,
        ) && (port_index(ports, trimmed_text(definition, "id"@)->Some_0) matches Some(i)
            && ports[i].kind == "data.field.v1"@)) ==> read_definition(definition, earlier, ports)
            is Ok,
{
    if read_definition(definition, earlier, ports) is Ok {
        let output = read_definition(definition, earlier, ports)->Ok_0;
        lemma_port_index(ports, output.id);
        let i = port_index(ports, output.id)->Some_0;
        assert(ports[i].id == output.id);
        assert forall|k: int| 0 <= k < earlier.len() implies (#[trigger] earlier[k]).id
            != output.id by {
            assert(!defined(earlier, output.id));
        }
    }
}

proof fn lemma_definitions(definitions: Seq<JsonTree>, ports: Seq<PortView>, i: int)
    requires
        read_definitions(definitions, ports) is Ok,
        0 <= i < definitions.len(),
    ensures
        read_definitions(definitions, ports)->Ok_0.len() == definitions.len(),
        trimmed_text(definitions[i], "id"@) == Some(
            read_definitions(definitions, ports)->Ok_0[i].id,
        ),
        trimmed_text(definitions[i], "pointer"@) == Some(
            read_definitions(definitions, ports)->Ok_0[i].pointer,
        ),
    decreases definitions.len(),
{
    let init = definitions.drop_last();
    if i < init.len() {
        lemma_definitions(init, ports, i);
        assert(init[i] == definitions[i]);
    } else if init.len() > 0 {
        lemma_definitions(init, ports, 0);
    }
}

/// An extractor has an output for every definition, in their order and with their pointers, and a port
/// for each and no other.
pub proof fn law_extractor_has_every_defined_output(
    config: JsonTree,
    ports: Seq<PortView>,
    i: int,
)
    requires
        configured_outputs(config, ports) is Ok,
    ensures
        ({
            let outputs = configured_outputs(config, ports)->Ok_0;
            &&& config.member("outputs"@) matches Some(JsonTree::Array(definitions))
                && definitions.len() == outputs.len() == ports.len() && definitions.len() > 0 && (0
                <= i < outputs.len() ==> trimmed_text(definitions[i], "id"@) == Some(outputs[i].id)
                && trimmed_text(definitions[i], "pointer"@) == Some(outputs[i].pointer))
        }),
{
    let definitions = config.member("outputs"@)->Some_0->Array_0;
    lemma_definitions(definitions, ports, 0);
    if 0 <= i < definitions.len() {
        lemma_definitions(definitions, ports, i);
    }
}

/// Whether every output has its field and a port that takes it.
pub open spec fn all_ready(
    outputs: Seq<DefinitionView>,
    found: Seq<FieldLookup>,
    rt: RuntimeView,
) -> bool {
    forall|i: int|
        #![trigger outputs[i]]
        0 <= i < outputs.len() ==> found[i] is Found && rt.accepts(outputs[i].id)
}

proof fn lemma_fields(
    outputs: Seq<DefinitionView>,
    found: Seq<FieldLookup>,
    generation: u64,
    source: FieldSourceView,
    rt: RuntimeView,
)
    requires
        outputs.len() == found.len(),
    ensures
        fields_sent(outputs, found, generation, source, rt).0.full_ports == rt.full_ports,
        fields_sent(outputs, found, generation, source, rt).1 is None <==> all_ready(
            outputs,
            found,
            rt,
        ),
        fields_sent(outputs, found, generation, source, rt).1 is None ==> {
            let log = fields_sent(outputs, found, generation, source, rt).0.log;
            &&& log.len() == rt.log.len() + outputs.len()
            &&& log.take(rt.log.len() as int) == rt.log
            &&& forall|i: int|
                0 <= i < outputs.len() ==> log[rt.log.len() + i] == (EffectView::Emit {
                    port: (#[trigger] outputs[i]).id,
                    packet: PacketView::TypedField {
                        datum: *found[i]->Found_0,
                        generation,
                        source,
                    },
                })
        },
    decreases outputs.len(),
{
    if outputs.len() > 0 {
        let init = outputs.drop_last();
        let rest = found.drop_last();
        lemma_fields(init, rest, generation, source, rt);
        assert(forall|i: int| 0 <= i < init.len() ==> init[i] == outputs[i] && rest[i] == found[i]);
        assert(outputs.last() == outputs[outputs.len() - 1] && found.last() == found[outputs.len()
            - 1]);
        let (before, error) = fields_sent(init, rest, generation, source, rt);
        let (after, fault) = fields_sent(outputs, found, generation, source, rt);
        assert(before.accepts(outputs.last().id) == rt.accepts(outputs.last().id));
        if fault is None {
            assert forall|i: int| 0 <= i < outputs.len() implies found[i] is Found && rt.accepts(
                (#[trigger] outputs[i]).id,
            ) by {
                if i < init.len() {
                    assert(rest[i] is Found && rt.accepts(init[i].id));
                }
            }
            assert(all_ready(outputs, found, rt));
            assert(after.log.take(rt.log.len() as int) =~= before.log.take(rt.log.len() as int));
            assert forall|i: int| 0 <= i < outputs.len() implies after.log[rt.log.len() + i] == (
            EffectView::Emit {
                port: (#[trigger] outputs[i]).id,
                packet: PacketView::TypedField { datum: *found[i]->Found_0, generation, source },
            }) by {
                if i < init.len() {
                    assert(after.log[rt.log.len() + i] == before.log[rt.log.len() + i]);
                    assert(init[i] == outputs[i]);
                }
            }
        }
        if all_ready(outputs, found, rt) {
            assert forall|i: int| 0 <= i < init.len() implies rest[i] is Found && rt.accepts(
                (#[trigger] init[i]).id,
            ) by {
                assert(found[i] is Found && rt.accepts(outputs[i].id));
            }
            assert(all_ready(init, rest, rt));
            assert(found[outputs.len() - 1] is Found && rt.accepts(outputs[outputs.len() - 1].id));
        }
    } else {
        assert(rt.log.take(rt.log.len() as int) =~= rt.log);
    }
}

/// Every field that was found goes out on the port of its own output, in their order, with the
/// generation and the source of its packet; where one is missing or its port full there is an error.
pub proof fn law_fields_go_out_on_their_own_ports(
    outputs: Seq<DefinitionView>,
    found: Seq<FieldLookup>,
    generation: u64,
    packet: StructuredPacket,
    rt: RuntimeView,
    i: int,
)
    requires
        outputs.len() == found.len(),
        generation < u64::MAX,
    ensures
        ({
            let (after, error) = extracted(outputs, generation, packet, found, rt);
            let n = rt.log.len();
            &&& error is None <==> all_ready(outputs, found, rt)
            &&& error is None ==> after.log.len() == n + outputs.len() + 1
            &&& error is None && 0 <= i < outputs.len() ==> after.log[n + i] == (EffectView::Emit {
                port: outputs[i].id,
                packet: PacketView::TypedField {
                    datum: *found[i]->Found_0,
                    generation,
                    source: source_of(packet),
                },
            })
        }),
        source_of(packet).schema == packet.schema@,
        source_of(packet).model_id == model_id(packet.fields@),
{
    lemma_fields(outputs, found, generation, source_of(packet), rt);
    let sent = fields_sent(outputs, found, generation, source_of(packet), rt);
    let (after, error) = extracted(outputs, generation, packet, found, rt);
    assert((error is None) == (sent.1 is None));
    if error is None && 0 <= i < outputs.len() {
        assert(sent.0.log[rt.log.len() + i] == (EffectView::Emit {
            port: outputs[i].id,
            packet: PacketView::TypedField {
                datum: *found[i]->Found_0,
                generation,
                source: source_of(packet),
            },
        }));
        assert(after.log[rt.log.len() + i] == sent.0.log[rt.log.len() + i]);
    }
}

/// The model of a packet is named by the first field that names one.
pub proof fn law_model_is_the_first_named(fields: Seq<Datum>)
    ensures
        match model_id(fields) {
            Some(id) => exists|i: int|
                0 <= i < fields.len() && #[trigger] names_model(fields[i]) == Some(id) && forall|
                    j: int,
                |
                    0 <= j < i ==> #[trigger] names_model(fields[j]) is None,
            None => forall|i: int|
                0 <= i < fields.len() ==> #[trigger] names_model(fields[i]) is None,
        },
    decreases fields.len(),
{
    if fields.len() > 0 {
        let init = fields.drop_last();
        law_model_is_the_first_named(init);
        assert(forall|i: int| 0 <= i < init.len() ==> init[i] == fields[i]);
        match model_id(init) {
            Some(id) => {
                let i = choose|i: int|
                    0 <= i < init.len() && #[trigger] names_model(init[i]) == Some(id) && forall|
                        j: int,
                    |
                        0 <= j < i ==> #[trigger] names_model(init[j]) is None;
                assert(names_model(fields[i]) == Some(id));
                assert forall|j: int| 0 <= j < i implies #[trigger] names_model(fields[j]) is None by {
                    assert(names_model(init[j]) is None);
                }
            },
            None => {
                let n = fields.len() - 1;
                assert(fields.last() == fields[n]);
                assert forall|j: int| 0 <= j < n implies #[trigger] names_model(fields[j]) is None by {
                    assert(names_model(init[j]) is None);
                }
                if model_id(fields) is None {
                    assert(names_model(fields[n]) is None);
                }
            },
        }
    }
}

/// A field names a model where it is so called, is marked so, and holds a text that is not blank.
pub proof fn law_models_are_named_by_marked_texts(field: Datum)
    ensures
        names_model(field) matches Some(id) ==> {
            &&& field.name@ == "camera.model.id"@
            &&& field.semantic_type is Some && field.semantic_type->Some_0@ == "camera.model-id"@
            &&& field.value is Str && field.value->Str_0@ == id && !blank(id)
        },
{
}

/// A map is the built-in one of its identity unless a custom one is asked for, which is then the text
/// that is set.
pub proof fn law_asked_map_is_the_one_set(config: JsonTree)
    ensures
        trimmed_text(config, "mapMode"@) is None || trimmed_text(config, "mapMode"@) == Some(
            "builtin"@,
        ) ==> (asked_map(config) matches Ok(asked) && !asked.0 && match trimmed_text(
            config,
            "mapId"@,
        ) {
            Some(id) => asked.1 == id,
            None => asked.1 == "yg-stereo-p24c64g-v1"@,
        }),
        trimmed_text(config, "mapMode"@) == Some("custom"@) ==> (match filled_text(
            config,
            "mapYaml"@,
        ) {
            Some(yaml) => asked_map(config) == Ok::<_, NodeErrorView>((true, yaml)),
            None => asked_map(config) is Err,
        }),
        asked_map(config) matches Ok(asked) ==> asked.0 ==> trimmed_text(config, "mapMode"@) == Some(
            "custom"@,
        ),
{
    reveal_strlit("builtin");
    reveal_strlit("custom");
    assert("builtin"@[0] != "custom"@[0]);
}

/// What the settings say of a placement goes before what the map says, each part by its own setting;
/// the address must be set, and without a bus it is the first.
pub proof fn law_settings_place_before_the_map(config: JsonTree, map: Placement)
    ensures
        configured_placement(config, map) matches Ok(placed) ==> {
            &&& match config.member("bus"@) {
                Some(JsonTree::Uint(n)) => placed.bus == n,
                None => placed.bus == 0,
                _ => false,
            }
            &&& match config.member("address"@) {
                Some(JsonTree::Uint(n)) => placed.i2c_address == n,
                _ => false,
            }
            &&& match config.member("addressWidthBytes"@) {
                Some(JsonTree::Uint(n)) => placed.address_width_bits == 8 * n,
                None => placed.address_width_bits == map.address_width_bits,
                _ => false,
            }
            &&& match config.member("pageSizeBytes"@) {
                Some(JsonTree::Uint(n)) => placed.page_size_bytes == n,
                None => placed.page_size_bytes == map.page_size_bytes,
                _ => false,
            }
            &&& match config.member("writeCycleMs"@) {
                Some(JsonTree::Uint(n)) => placed.write_cycle_ms == n,
                None => placed.write_cycle_ms == map.write_cycle_ms,
                _ => false,
            }
        },
        config.member("address"@) is None ==> configured_placement(config, map) is Err,
{
}

/// Whether `picks` are, in order, the positions of the slots that are stored.
pub open spec fn picks_stored(slots: Seq<MapSlot>, picks: Seq<int>) -> bool {
    &&& forall|k: int| 0 <= k < picks.len() ==> 0 <= #[trigger] picks[k] < slots.len()
    &&& forall|k: int, l: int|
        0 <= k < l < picks.len() ==> #[trigger] picks[k] < #[trigger] picks[l]
    &&& forall|k: int| 0 <= k < picks.len() ==> slots[#[trigger] picks[k]].storage is Some
    &&& forall|i: int|
        0 <= i < slots.len() && (#[trigger] slots[i]).storage is Some ==> picks.contains(i)
}

/// The stored slots of a map are those with a place in the image, all of them, in their order.
pub proof fn law_stored_slots_have_a_place(slots: Seq<MapSlot>)
    ensures
        exists|picks: Seq<int>|
            #[trigger] picks_stored(slots, picks) && stored_slots(slots) == Seq::new(
                picks.len(),
                |k: int| slots[picks[k]],
            ),
    decreases slots.len(),
{
    if slots.len() == 0 {
        let picks = Seq::<int>::empty();
        assert(picks_stored(slots, picks));
        assert(stored_slots(slots) =~= Seq::new(picks.len(), |k: int| slots[picks[k]]));
    } else {
        let init = slots.drop_last();
        law_stored_slots_have_a_place(init);
        let before = choose|picks: Seq<int>|
            #[trigger] picks_stored(init, picks) && stored_slots(init) == Seq::new(
                picks.len(),
                |k: int| init[picks[k]],
            );
        assert(forall|i: int| 0 <= i < init.len() ==> init[i] == slots[i]);
        let n = slots.len() - 1;
        let picks = if slots.last().storage is Some {
            before.push(n)
        } else {
            before
        };
        assert forall|i: int| 0 <= i < slots.len() && (#[trigger] slots[i]).storage is Some implies
            picks.contains(i) by {
            if i < n {
                assert(init[i].storage is Some);
                let k = choose|k: int| 0 <= k < before.len() && before[k] == i;
                assert(picks[k] == i);
            } else {
                assert(picks[picks.len() - 1] == n);
            }
        }
        assert(picks_stored(slots, picks));
        assert(stored_slots(slots) =~= Seq::new(picks.len(), |k: int| slots[picks[k]]));
    }
}

/// A map that is tuned has the place that is set and the slots that it is given; the rest stays.
pub proof fn law_tuned_map_has_its_new_place(
    compiled: CompiledMap,
    placement: Placement,
    slots: Vec<MapSlot>,
    loaded: LoadedMap,
)
    ensures
        ({
            let map = compiled.map.tuned(placement, slots);
            &&& map.placement() == placement && map.slots == slots
            &&& map.id == compiled.map.id && map.read_ranges == compiled.map.read_ranges
            &&& map.image_bytes == compiled.map.image_bytes
            &&& map.readback_required == compiled.map.readback_required
        }),
        found_map(loaded) matches Ok(map) ==> loaded == LoadedMap::Builtin(Some(map)) || (
        loaded matches LoadedMap::Custom(Ok(custom)) && custom == map),
{
}

/// An operation is a guarded write unless reading is asked for.
pub proof fn law_operations_are_the_one_set(config: JsonTree)
    ensures
        config.member("operation"@) is None ==> configured_operation(config) == Ok::<
            TaskOperation,
            NodeErrorView,
        >(TaskOperation::GuardedWrite),
        config.member("operation"@) == Some(JsonTree::Text("read"@)) ==> configured_operation(config)
            == Ok::<TaskOperation, NodeErrorView>(TaskOperation::Read),
        config.member("operation"@) == Some(JsonTree::Text("guarded_write"@))
            ==> configured_operation(config) == Ok::<TaskOperation, NodeErrorView>(
            TaskOperation::GuardedWrite,
        ),
        config.member("operation"@) matches Some(JsonTree::Text(s)) ==> s != "read"@ && s
            != "guarded_write"@ ==> configured_operation(config) is Err,
{
    reveal_strlit("read");
    reveal_strlit("guarded_write");
    assert("read"@[0] != "guarded_write"@[0]);
}

proof fn lemma_slot(slots: Seq<MapSlot>, name: Seq<char>)
    ensures
        match slot_index(slots, name) {
            Some(i) => 0 <= i < slots.len() && slots[i].name@ == name,
            None => forall|i: int| 0 <= i < slots.len() ==> (#[trigger] slots[i]).name@ != name,
        },
    decreases slots.len(),
{
    if slots.len() > 0 {
        let init = slots.drop_last();
        lemma_slot(init, name);
        assert(forall|i: int| 0 <= i < init.len() ==> init[i] == slots[i]);
        assert(slots.last() == slots[slots.len() - 1]);
        assert forall|i: int| 0 <= i < slots.len() && slot_index(slots, name) is None implies (
        #[trigger] slots[i]).name@ != name by {
            if i < init.len() {
                assert(init[i].name@ != name);
            }
        }
    }
}

/// A row is an input exactly where it names a stored slot and states its place in the image and its
/// encoding as the map does; it is required unless it says otherwise.
pub proof fn law_rows_agree_with_their_slot(row: JsonTree, slots: Seq<MapSlot>)
    ensures
        row_input(row, slots) matches Ok(input) ==> {
            &&& row.member("id"@) == Some(JsonTree::Text(input.port_id)) && !blank(input.port_id)
            &&& row.member("name"@) == Some(JsonTree::Text(input.datum_name)) && !blank(
                input.datum_name,
            )
            &&& match row.member("required"@) {
                Some(JsonTree::Bool(b)) => input.required == b,
                _ => input.required,
            }
            &&& exists|i: int|
                0 <= i < slots.len() && (#[trigger] slots[i]).name@ == input.datum_name
                    && slots[i].storage is Some && row.member("offset"@) == Some(
                    JsonTree::Uint(slots[i].storage->Some_0.offset as u64),
                ) && row.member("byteLength"@) == Some(
                    JsonTree::Uint(slots[i].storage->Some_0.byte_len as u64),
                ) && (row.member("encoding"@) matches Some(JsonTree::Text(encoding)) && folded(
                    trimmed(encoding),
                ) == folded(trimmed(slots[i].storage->Some_0.encoding@)))
        },
        (forall|i: int|
            0 <= i < slots.len() ==> row.member("name"@) != Some(
                JsonTree::Text((#[trigger] slots[i]).name@),
            )) ==> row_input(row, slots) is Err,
{
    if row_input(row, slots) is Ok {
        let input = row_input(row, slots)->Ok_0;
        lemma_slot(slots, input.datum_name);
        let i = slot_index(slots, input.datum_name)->Some_0;
        assert(slots[i].name@ == input.datum_name);
        assert(storage_matches(
            slots[i].storage->Some_0,
            row.member("offset"@)->Some_0->Uint_0 as u16,
            row.member("byteLength"@)->Some_0->Uint_0 as u16,
            row.member("encoding"@)->Some_0->Text_0,
        ));
    }
}

/// The inputs of a map are its slots by their own names, as required as they are; an encoder has as
/// many ports as inputs, and at least one.
pub proof fn law_inputs_are_the_slots_of_the_map(
    config: JsonTree,
    ports: Seq<PortView>,
    slots: Seq<MapSlot>,
    i: int,
)
    ensures
        slot_inputs(slots).len() == slots.len(),
        0 <= i < slots.len() ==> slot_inputs(slots)[i].port_id == slots[i].name@ && slot_inputs(
            slots,
        )[i].datum_name == slots[i].name@ && slot_inputs(slots)[i].required == slots[i].required,
        encoder_inputs(config, ports, slots) matches Ok(inputs) ==> inputs.len() == ports.len()
            && inputs.len() > 0,
        config.member("inputs"@) is None && encoder_inputs(config, ports, slots) is Ok
            ==> encoder_inputs(config, ports, slots)->Ok_0 == slot_inputs(slots),
{
}

/// A field is taken by the input of its port where it bears the name that the input is for.
pub proof fn law_fields_are_taken_by_their_input(
    inputs: Seq<InputView>,
    port: Seq<char>,
    packet: PacketView,
)
    ensures
        taken_by(inputs, port, packet) matches Ok(taken) ==> {
            &&& 0 <= taken.0 < inputs.len() && inputs[taken.0].port_id == port
            &&& packet is TypedField && packet->datum == taken.1
            &&& taken.1.name@ == inputs[taken.0].datum_name
        },
        (forall|i: int| 0 <= i < inputs.len() ==> (#[trigger] inputs[i]).port_id != port)
            ==> taken_by(inputs, port, packet) is Err,
        !(packet is TypedField) ==> taken_by(inputs, port, packet) is Err,
{
    lemma_input_index(inputs, port);
}

/// An encoder is complete exactly where every required input has its field; what it gathers are the
/// fields that came, one for each that did.
pub proof fn law_encoder_gathers_what_came(
    inputs: Seq<InputView>,
    received: Seq<Option<Arc<Datum>>>,
    datum: Arc<Datum>,
)
    ensures
        complete(inputs, received) <==> forall|i: int|
            0 <= i < inputs.len() && (#[trigger] inputs[i]).required ==> received[i] is Some,
        gathered(Seq::<Option<Arc<Datum>>>::empty()).len() == 0,
        gathered(received.push(Some(datum))) == gathered(received).push(*datum),
        gathered(received.push(None)) == gathered(received),
{
    assert(received.push(Some(datum)).drop_last() =~= received);
    assert(received.push(None).drop_last() =~= received);
}

/// A task is sound exactly where it says what it is, names its map, addresses a device, holds its whole
/// image under its digest, and reads and writes inside the image, each write waiting as the device
/// needs.
pub proof fn law_sound_tasks_stay_inside_their_image(task: I2cTaskPacket)
    ensures
        task.fault() is None <==> {
            &&& task.schema@ == "camera-toolbox.i2c.task.v1"@
            &&& !blank(task.map_id@) && !blank(task.map_digest@)
            &&& 1 <= task.target.address_width_bytes <= 2
            &&& 3 <= task.target.address <= 127
            &&& task.target.page_size_bytes > 0
            &&& 0 < task.final_image@.len() == task.validation.image_bytes
            &&& task.final_image_digest@ == sha256_hex_text(task.final_image@)
            &&& task.read_ranges@.len() > 0
            &&& forall|i: int|
                0 <= i < task.read_ranges@.len() ==> (#[trigger] task.read_ranges@[i]).byte_len > 0
                    && task.read_ranges@[i].offset + task.read_ranges@[i].byte_len
                    <= task.final_image@.len()
            &&& task.operation == TaskOperation::GuardedWrite ==> task.pages@.len() > 0
            &&& forall|i: int|
                0 <= i < task.pages@.len() ==> (#[trigger] task.pages@[i]).bytes@.len() > 0
                    && task.pages@[i].offset + task.pages@[i].bytes@.len()
                    <= task.final_image@.len() && task.pages@[i].settle_ms
                    == task.target.write_cycle_ms
        },
        task.schema@ != "camera-toolbox.i2c.task.v1"@ ==> task.fault() == Some(I2cTaskFault::Schema),
{
    let n = task.final_image@.len();
    assert(forall|i: int|
        0 <= i < task.read_ranges@.len() ==> (range_inside(#[trigger] task.read_ranges@[i], n) <==> (
        task.read_ranges@[i].byte_len > 0 && task.read_ranges@[i].offset
            + task.read_ranges@[i].byte_len <= n)));
    assert(forall|i: int|
        0 <= i < task.pages@.len() ==> (page_inside(
            #[trigger] task.pages@[i],
            n,
            task.target.write_cycle_ms,
        ) <==> (task.pages@[i].bytes@.len() > 0 && task.pages@[i].offset
            + task.pages@[i].bytes@.len() <= n && task.pages@[i].settle_ms
            == task.target.write_cycle_ms)));
}

/// A task does what was encoded where the map says: its pages and its image are the encoded ones, its
/// target is the one of the map.
pub proof fn law_tasks_write_what_was_encoded(
    compiled: CompiledMap,
    operation: TaskOperation,
    image: EncodedImage,
    task: I2cTaskPacket,
    i: int,
)
    requires
        task_of(compiled, operation, image, task),
    ensures
        task.operation == operation && task.map_id@ == compiled.map.id@,
        task.target.bus == compiled.map.bus && task.target.address == compiled.map.i2c_address,
        task.target.address_width_bytes == compiled.map.address_width_bits / 8,
        task.target.page_size_bytes == compiled.map.page_size_bytes,
        task.target.write_cycle_ms == compiled.map.write_cycle_ms,
        task.read_ranges@ == compiled.map.read_ranges@,
        task.validation.image_bytes == compiled.map.image_bytes,
        task.verify_after_write == compiled.map.readback_required,
        task.final_image@ == image.bytes@,
        task.final_image_digest@ == sha256_hex_text(image.bytes@),
        task.pages@.len() == image.pages@.len(),
        0 <= i < image.pages@.len() ==> task.pages@[i].offset == image.pages@[i].offset
            && task.pages@[i].bytes@ == image.pages@[i].bytes@ && task.pages@[i].settle_ms
            == compiled.map.write_cycle_ms,
{
}

/// A request of a task holds every part of it, and a command is of the sort that the task is.
pub proof fn law_commands_hold_their_task(
    task: I2cTaskPacket,
    read: I2cReadRequest,
    write: I2cWriteRequest,
    over: Arc<SshConnection>,
    command: I2cCommand,
    i: int,
)
    ensures
        read.is_of(task) ==> read.map_id@ == task.map_id@ && read.map_digest@ == task.map_digest@
            && read.target == task.target && read.read_ranges@ == task.read_ranges@
            && read.validation == task.validation,
        write.is_of(task) ==> write.read.is_of(task) && write.final_image@ == task.final_image@
            && write.verify_after_write == task.verify_after_write && write.pages@.len()
            == task.pages@.len(),
        write.is_of(task) && 0 <= i < task.pages@.len() ==> write.pages@[i].offset
            == task.pages@[i].offset && write.pages@[i].bytes@ == task.pages@[i].bytes@
            && write.pages@[i].settle_ms == task.pages@[i].settle_ms,
        command_of(task, over, command) ==> (command is Read <==> task.operation
            == TaskOperation::Read),
        command_of(task, over, command) && command is Read ==> command->Read_connection == over
            && command->Read_request.is_of(task),
        command_of(task, over, command) && command is Write ==> command->Write_connection == over
            && command->Write_request.is_of(task),
{
}

/// An encoder has the one output for tasks, an executor the two inputs for a task and a connection.
pub proof fn law_encoder_and_executor_have_their_ports(ports: Seq<PortView>)
    ensures
        encoder_port_fault(ports) is None <==> ports.len() == 1 && ports[0].id == "task"@
            && ports[0].kind == "data.packet.v1"@,
        executor_port_fault(ports) is None ==> ports.len() == 2 && (exists|i: int|
            0 <= i < 2 && (#[trigger] ports[i]).id == "task"@ && ports[i].kind == "data.packet.v1"@)
            && (exists|i: int|
            0 <= i < 2 && (#[trigger] ports[i]).id == "connection"@ && ports[i].kind
                == "ssh.connection.v1"@),
{
    lemma_port_index(ports, "task"@);
    lemma_port_index(ports, "connection"@);
    if executor_port_fault(ports) is None {
        let i = port_index(ports, "task"@)->Some_0;
        let j = port_index(ports, "connection"@)->Some_0;
        assert(ports[i].id == "task"@);
        assert(ports[j].id == "connection"@);
    }
}

/// An encoder is made of the map, the operation and the inputs that are set, with nothing received
/// yet.
pub proof fn law_encoder_is_made_as_set(
    spec: NodeView,
    compiled: Result<CompiledMap, NodeError>,
    r: Result<I2cFieldEncoderNode, NodeError>,
    i: int,
)
    requires
        encoder_made(spec, compiled, r),
    ensures
        r is Ok ==> {
            &&& compiled is Ok && r->Ok_0.compiled == compiled->Ok_0
            &&& configured_operation(spec.config) == Ok::<TaskOperation, NodeErrorView>(
                r->Ok_0.operation,
            )
            &&& r->Ok_0.inputs@.len() == spec.inputs.len()
            &&& r->Ok_0.received@.len() == spec.inputs.len()
            &&& 0 <= i < spec.inputs.len() ==> r->Ok_0.received@[i] is None
        },
        compiled is Err ==> r is Err,
{
}

/// A task is handed on, or taken in, exactly where it is sound, and then as it is.
pub proof fn law_only_sound_tasks_pass(
    task: I2cTaskPacket,
    given: Result<I2cTaskPacket, NodeError>,
    parsed: Result<I2cTaskPacket, String>,
    taken: Result<I2cTaskPacket, NodeError>,
)
    ensures
        task_checked(task, given) ==> (given is Ok <==> task.fault() is None),
        task_checked(task, given) && given is Ok ==> given->Ok_0 == task,
        task_taken(parsed, taken) ==> (taken is Ok <==> parsed is Ok && parsed->Ok_0.fault() is None),
        task_taken(parsed, taken) && taken is Ok ==> taken->Ok_0 == parsed->Ok_0,
{
}

/// An executor is ready exactly where it has a task and a connection.
pub proof fn law_executor_is_ready_with_task_and_connection(
    node: I2cTaskExecutorNode,
    rt: RuntimeView,
)
    ensures
        node.task is Some && node.connection is Some ==> readied(node, rt).log.len() == rt.log.len()
            + 1 && readied(node, rt).log.last() is State && readied(node, rt).log.last()->state
            == NodeRuntimeState::Ready,
        node.task is None || node.connection is None ==> readied(node, rt) == rt,
{
}

/// A placement is usable exactly where its address is set to a byte, its bus is of 32 bits and its
/// other numbers of 16 where they are set, and its address is short enough to be counted in bits.
pub proof fn law_usable_placements(config: JsonTree, map: Placement)
    ensures
        configured_placement(config, map) is Ok <==> {
            &&& config.member("bus"@) matches Some(value) ==> value is Uint && value->Uint_0
                <= 0xffff_ffff
            &&& config.member("address"@) matches Some(JsonTree::Uint(n)) && n <= 0xff
            &&& config.member("addressWidthBytes"@) matches Some(value) ==> value is Uint
                && value->Uint_0 * 8 <= 0xff
            &&& config.member("pageSizeBytes"@) matches Some(value) ==> value is Uint
                && value->Uint_0 <= 0xffff
            &&& config.member("writeCycleMs"@) matches Some(value) ==> value is Uint
                && value->Uint_0 <= 0xffff
        },
{
}

/// A row that is named, names a stored slot and states its place and encoding is an input.
pub proof fn law_agreeing_rows_are_inputs(row: JsonTree, slots: Seq<MapSlot>, i: int, encoding: Seq<char>)
    requires
        0 <= i < slots.len(),
        forall|j: int, k: int|
            0 <= j < k < slots.len() ==> (#[trigger] slots[j]).name@ != (#[trigger] slots[k]).name@,
        slots[i].storage is Some,
        row is Object,
        filled_text(row, "id"@) is Some,
        !blank(slots[i].name@),
        row.member("name"@) == Some(JsonTree::Text(slots[i].name@)),
        row.member("offset"@) == Some(JsonTree::Uint(slots[i].storage->Some_0.offset as u64)),
        row.member("byteLength"@) == Some(JsonTree::Uint(slots[i].storage->Some_0.byte_len as u64)),
        row.member("encoding"@) == Some(JsonTree::Text(encoding)),
        folded(trimmed(encoding)) == folded(trimmed(slots[i].storage->Some_0.encoding@)),
    ensures
        row_input(row, slots) is Ok,
{
    let name = slots[i].name@;
    lemma_slot(slots, name);
    let at = slot_index(slots, name)->Some_0;
    assert(at == i) by {
        if at < i {
            assert(slots[at].name@ != slots[i].name@);
        } else if i < at {
            assert(slots[i].name@ != slots[at].name@);
        }
    }
    assert(storage_matches(
        slots[i].storage->Some_0,
        slots[i].storage->Some_0.offset,
        slots[i].storage->Some_0.byte_len,
        encoding,
    ));
}

/// A field on a port that one input has, under the name that the input is for, is taken by it.
pub proof fn law_named_fields_are_taken(
    inputs: Seq<InputView>,
    packet: PacketView,
    i: int,
)
    requires
        0 <= i < inputs.len(),
        forall|j: int, k: int|
            0 <= j < k < inputs.len() ==> (#[trigger] inputs[j]).port_id != (
            #[trigger] inputs[k]).port_id,
        packet is TypedField,
        packet->datum.name@ == inputs[i].datum_name,
    ensures
        taken_by(inputs, inputs[i].port_id, packet) == Ok::<(int, Datum), NodeErrorView>(
            (i, packet->datum),
        ),
{
    lemma_input_index(inputs, inputs[i].port_id);
    let at = input_index(inputs, inputs[i].port_id)->Some_0;
    assert(at == i) by {
        if at < i {
            assert(inputs[at].port_id != inputs[i].port_id);
        } else if i < at {
            assert(inputs[i].port_id != inputs[at].port_id);
        }
    }
}

/// An executor with its two inputs, in either order, has its ports.
pub proof fn law_executor_takes_its_ports_in_any_order(ports: Seq<PortView>)
    requires
        ports.len() == 2,
        ports[0].id == "task"@ && ports[0].kind == "data.packet.v1"@ && ports[1].id == "connection"@
            && ports[1].kind == "ssh.connection.v1"@ || ports[1].id == "task"@ && ports[1].kind
            == "data.packet.v1"@ && ports[0].id == "connection"@ && ports[0].kind
            == "ssh.connection.v1"@,
    ensures
        executor_port_fault(ports) is None,
{
    reveal_strlit("task");
    reveal_strlit("connection");
    assert("task"@[0] != "connection"@[0]);
    lemma_port_index(ports, "task"@);
    lemma_port_index(ports, "connection"@);
}

/// Whether an input stands on a port for fields that no earlier input has, for a slot of the map.
pub open spec fn placed(
    inputs: Seq<InputView>,
    slots: Seq<MapSlot>,
    ports: Seq<PortView>,
    i: int,
) -> bool {
    &&& forall|j: int| 0 <= j < i ==> (#[trigger] inputs[j]).port_id != inputs[i].port_id
    &&& exists|k: int| 0 <= k < slots.len() && (#[trigger] slots[k]).name@ == inputs[i].datum_name
    &&& port_index(ports, inputs[i].port_id) matches Some(p) && ports[p].kind == "data.field.v1"@
}

/// The inputs of an encoder are accepted exactly where each of them is placed.
pub proof fn law_inputs_stand_on_their_own_ports(
    inputs: Seq<InputView>,
    slots: Seq<MapSlot>,
    ports: Seq<PortView>,
)
    ensures
        inputs_fault(inputs, slots, ports) is None <==> forall|i: int|
            0 <= i < inputs.len() ==> #[trigger] placed(inputs, slots, ports, i),
    decreases inputs.len(),
{
    if inputs.len() > 0 {
        let init = inputs.drop_last();
        let n = inputs.len() - 1;
        law_inputs_stand_on_their_own_ports(init, slots, ports);
        assert(forall|i: int| 0 <= i < init.len() ==> init[i] == inputs[i]);
        assert(inputs.last() == inputs[n]);
        lemma_input_index(init, inputs[n].port_id);
        lemma_slot(slots, inputs[n].datum_name);
        assert forall|i: int| 0 <= i < n implies placed(init, slots, ports, i) == placed(
            inputs,
            slots,
            ports,
            i,
        ) by {
            assert(init[i] == inputs[i]);
            if placed(init, slots, ports, i) {
                assert forall|j: int| 0 <= j < i implies (#[trigger] inputs[j]).port_id
                    != inputs[i].port_id by {
                    assert(init[j].port_id != init[i].port_id);
                }
            }
            if placed(inputs, slots, ports, i) {
                assert forall|j: int| 0 <= j < i implies (#[trigger] init[j]).port_id
                    != init[i].port_id by {
                    assert(inputs[j].port_id != inputs[i].port_id);
                }
            }
        }
        if slot_index(slots, inputs[n].datum_name) is Some {
            let k = slot_index(slots, inputs[n].datum_name)->Some_0;
            assert(slots[k].name@ == inputs[n].datum_name);
        }
        if input_index(init, inputs[n].port_id) is Some {
            let j = input_index(init, inputs[n].port_id)->Some_0;
            assert(inputs[j].port_id == inputs[n].port_id);
        } else {
            assert forall|j: int| 0 <= j < n implies (#[trigger] inputs[j]).port_id
                != inputs[n].port_id by {
                assert(init[j].port_id != inputs[n].port_id);
            }
        }
        let last_fault = placed_input_fault(inputs.last(), init, slots, ports);
        assert(last_fault is None <==> placed(inputs, slots, ports, n));
        if inputs_fault(inputs, slots, ports) is None {
            assert forall|i: int| 0 <= i < inputs.len() implies #[trigger] placed(
                inputs,
                slots,
                ports,
                i,
            ) by {
                if i < n {
                    assert(placed(init, slots, ports, i));
                }
            }
        }
        if forall|i: int| 0 <= i < inputs.len() ==> #[trigger] placed(inputs, slots, ports, i) {
            assert forall|i: int| 0 <= i < init.len() implies #[trigger] placed(
                init,
                slots,
                ports,
                i,
            ) by {
                assert(placed(inputs, slots, ports, i));
            }
            assert(placed(inputs, slots, ports, n));
        }
    }
}

/// An extractor is made exactly where its settings are an object with a list of outputs that is not
/// empty, every definition in it can be read beside those before it, and there is a port for each.
pub proof fn law_extractor_is_made_of_readable_definitions(config: JsonTree, ports: Seq<PortView>)
    ensures
        configured_outputs(config, ports) is Ok <==> (config.member("outputs"@) matches Some(
            JsonTree::Array(definitions),
        ) && definitions.len() > 0 && definitions.len() == ports.len() && forall|i: int|
            0 <= i < definitions.len() ==> read_definitions(#[trigger] definitions.take(i), ports)
                is Ok && read_definition(
                definitions[i],
                read_definitions(definitions.take(i), ports)->Ok_0,
                ports,
            ) is Ok),
{
    if config.member("outputs"@) is Some && config.member("outputs"@)->Some_0 is Array {
        let definitions = config.member("outputs"@)->Some_0->Array_0;
        lemma_readable(definitions, ports);
        if read_definitions(definitions, ports) is Ok && definitions.len() > 0 {
            lemma_definitions(definitions, ports, 0);
        }
    }
}

proof fn lemma_readable(definitions: Seq<JsonTree>, ports: Seq<PortView>)
    ensures
        read_definitions(definitions, ports) is Ok <==> forall|i: int|
            0 <= i < definitions.len() ==> read_definitions(#[trigger] definitions.take(i), ports)
                is Ok && read_definition(
                definitions[i],
                read_definitions(definitions.take(i), ports)->Ok_0,
                ports,
            ) is Ok,
    decreases definitions.len(),
{
    if definitions.len() > 0 {
        let init = definitions.drop_last();
        let n = definitions.len() - 1;
        lemma_readable(init, ports);
        assert(definitions.take(n) =~= init);
        assert forall|i: int| 0 <= i < n implies #[trigger] init.take(i) == definitions.take(i) by {
            assert(init.take(i) =~= definitions.take(i));
        }
        if read_definitions(definitions, ports) is Ok {
            assert forall|i: int| 0 <= i < definitions.len() implies read_definitions(
                #[trigger] definitions.take(i),
                ports,
            ) is Ok && read_definition(
                definitions[i],
                read_definitions(definitions.take(i), ports)->Ok_0,
                ports,
            ) is Ok by {
                if i < n {
                    assert(init.take(i) == definitions.take(i));
                    assert(init[i] == definitions[i]);
                }
            }
        } else if forall|i: int|
            0 <= i < definitions.len() ==> read_definitions(#[trigger] definitions.take(i), ports)
                is Ok && read_definition(
                definitions[i],
                read_definitions(definitions.take(i), ports)->Ok_0,
                ports,
            ) is Ok {
            assert(read_definitions(definitions.take(n), ports) is Ok);
        }
    }
}

/// An extractor has a port for packets, and is made of what its settings define.
pub proof fn law_extractor_takes_packets(spec: NodeView)
    ensures
        extractor_of(spec) is Ok <==> {
            &&& port_index(spec.inputs, "packet"@) matches Some(i) && spec.inputs[i].kind
                == "data.packet.v1"@
            &&& configured_outputs(spec.config, spec.outputs) is Ok
        },
        extractor_of(spec) is Ok ==> extractor_of(spec) == configured_outputs(
            spec.config,
            spec.outputs,
        ),
{
}

} // verus!
