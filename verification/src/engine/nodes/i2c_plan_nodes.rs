//! Encoding of single data into sealed tasks for an I2C memory, and execution of such tasks.
use crate::asset::share;
use crate::digest::{sha256_hex, sha256_hex_text};
use crate::engine::i2c_task::{
    I2cMapValidationContract, I2cPageWrite, I2cReadRange, I2cTaskPacket, I2cTaskTarget,
    TaskOperation, TASK_SCHEMA,
};
use crate::engine::node::{channel_full, NodeAction, NodeError, NodeErrorView};
use crate::engine::nodes::collector::came_out;
use crate::engine::nodes::config::{
    bool_or, config_bool, config_filled, config_trimmed, failed, filled_text, text_or, trimmed_text,
};
use crate::engine::nodes::remote::{config_optional_u16, optional_u16};
use crate::engine::packet::{
    DataPacket, Datum, I2cExecutionReport, I2cReadReport, PacketView, SshConnection,
};
use crate::engine::runtime::{require_service, service_missing, NodeRuntime, RuntimeView};
use crate::engine::spec::{
    find_port, port_index, port_views, NodeRuntimeState, NodeSpec, NodeView, PortSpec, PortView,
};
use crate::json::{trees, JsonTree, JsonValue};
use crate::text::{concat, concat3, concat5, fold, folded, same_text, trim, trimmed};
use std::sync::Arc;
use vstd::prelude::*;

verus! {

pub const TASK_PORT: &'static str = "task";

pub const CONNECTION_PORT: &'static str = "connection";

pub const FIELD_PORT_KIND: &'static str = "data.field.v1";

pub const PACKET_PORT_KIND: &'static str = "data.packet.v1";

/// Where a map stores a field.
#[derive(Debug)]
pub struct SlotStorage {
    pub offset: u16,
    pub byte_len: u16,
    pub encoding: String,
}

/// A field that a map declares; one without storage is not written to the memory.
#[derive(Debug)]
pub struct MapSlot {
    pub name: String,
    pub required: bool,
    pub storage: Option<SlotStorage>,
}

/// The layout of a memory, as far as tasks depend on it.
#[derive(Debug)]
pub struct EncoderMap {
    pub id: String,
    pub bus: u32,
    pub i2c_address: u8,
    pub address_width_bits: u8,
    pub page_size_bytes: u16,
    pub write_cycle_ms: u16,
    pub slots: Vec<MapSlot>,
    pub read_ranges: Vec<I2cReadRange>,
    pub image_bytes: u16,
    pub readback_required: bool,
}

/// Which map a configuration asks for.
#[derive(Debug)]
pub enum MapSource {
    /// A map that comes with the program.
    Builtin(String),
    /// A map that is written out in the configuration.
    Custom(String),
}

/// Which map a configuration asks for, by its values; the flag tells a map that is written out.
pub open spec fn asked_map(config: JsonTree) -> Result<(bool, Seq<char>), NodeErrorView> {
    let mode = match trimmed_text(config, "mapMode"@) {
        Some(mode) => mode,
        None => "builtin"@,
    };
    if mode == "builtin"@ {
        Ok(
            (
                false,
                match trimmed_text(config, "mapId"@) {
                    Some(id) => id,
                    None => "yg-stereo-p24c64g-v1"@,
                },
            ),
        )
    } else if mode == "custom"@ {
        match filled_text(config, "mapYaml"@) {
            Some(yaml) => Ok((true, yaml)),
            None => Err(NodeErrorView::Config("i2cFieldEncoder custom map requires mapYaml"@)),
        }
    } else {
        Err(NodeErrorView::Config("i2cFieldEncoder mapMode must be builtin or custom"@))
    }
}

/// Reads which map a configuration asks for.
pub fn map_source(config: &JsonValue) -> (r: Result<MapSource, NodeError>)
    ensures
        match asked_map(config@) {
            Ok((custom, text)) => r is Ok && match r->Ok_0 {
                MapSource::Builtin(id) => !custom && id@ == text,
                MapSource::Custom(yaml) => custom && yaml@ == text,
            },
            Err(error) => failed(r, error),
        },
{
    proof {
        reveal_strlit("builtin");
        reveal_strlit("custom");
        assert("builtin"@.len() != "custom"@.len());
    }
    let mode: &str = match config_trimmed(config, "mapMode") {
        Some(mode) => mode,
        None => "builtin",
    };
    if same_text(mode, "builtin") {
        let id: &str = match config_trimmed(config, "mapId") {
            Some(id) => id,
            None => "yg-stereo-p24c64g-v1",
        };
        return Ok(MapSource::Builtin(id.to_owned()));
    }
    if same_text(mode, "custom") {
        return match config_filled(config, "mapYaml") {
            Some(yaml) => Ok(MapSource::Custom(yaml.to_owned())),
            None => Err(NodeError::config("i2cFieldEncoder custom map requires mapYaml")),
        };
    }
    Err(NodeError::config("i2cFieldEncoder mapMode must be builtin or custom"))
}

/// A configured 32-bit number; nothing where it is missing.
pub open spec fn optional_u32(config: JsonTree, key: Seq<char>) -> Result<
    Option<u32>,
    NodeErrorView,
> {
    match config.member(key) {
        None => Ok(None),
        Some(value) => match value.uint() {
            Some(n) => if n <= 0xffff_ffff {
                Ok(Some(n as u32))
            } else {
                Err(NodeErrorView::Config("config `"@ + key + "` must be u32"@))
            },
            None => Err(NodeErrorView::Config("config `"@ + key + "` must be u32"@)),
        },
    }
}

fn config_optional_u32(config: &JsonValue, key: &str) -> (r: Result<Option<u32>, NodeError>)
    ensures
        match optional_u32(config@, key@) {
            Ok(n) => r == Ok::<Option<u32>, NodeError>(n),
            Err(error) => failed(r, error),
        },
{
    match config.get(key) {
        None => Ok(None),
        Some(value) => match value.as_u64() {
            Some(n) => if n <= 0xffff_ffff {
                Ok(Some(n as u32))
            } else {
                Err(NodeError::Config(concat3("config `", key, "` must be u32")))
            },
            None => Err(NodeError::Config(concat3("config `", key, "` must be u32"))),
        },
    }
}

/// The place of a memory on its bus, with its write timing.
#[derive(Clone, Copy, Debug, PartialEq, Eq, Structural)]
pub struct Placement {
    pub bus: u32,
    pub i2c_address: u8,
    pub address_width_bits: u8,
    pub page_size_bytes: u16,
    pub write_cycle_ms: u16,
}

/// The placement that a configuration gives a memory whose map has another one, or why there is none.
/// The bus and the address always come from the configuration.
pub open spec fn configured_placement(config: JsonTree, map: Placement) -> Result<
    Placement,
    NodeErrorView,
> {
    match optional_u32(config, "bus"@) {
        Err(error) => Err(error),
        Ok(bus) => match optional_u16(config, "address"@) {
            Err(error) => Err(error),
            Ok(None) => Err(
                NodeErrorView::Config("i2cFieldEncoder config `address` is required"@),
            ),
            Ok(Some(address)) => if address > 0xff {
                Err(NodeErrorView::Config("address must fit u8"@))
            } else {
                match optional_u16(config, "addressWidthBytes"@) {
                    Err(error) => Err(error),
                    Ok(width) => if width is Some && width->Some_0 * 8 > 0xffff {
                        Err(NodeErrorView::Config("addressWidthBytes overflow"@))
                    } else if width is Some && width->Some_0 * 8 > 0xff {
                        Err(NodeErrorView::Config("addressWidthBytes must be 1 or 2"@))
                    } else {
                        match optional_u16(config, "pageSizeBytes"@) {
                            Err(error) => Err(error),
                            Ok(size) => match optional_u16(config, "writeCycleMs"@) {
                                Err(error) => Err(error),
                                Ok(cycle) => Ok(
                                    Placement {
                                        bus: match bus {
                                            Some(bus) => bus,
                                            None => 0,
                                        },
                                        i2c_address: address as u8,
                                        address_width_bits: match width {
                                            Some(width) => (width * 8) as u8,
                                            None => map.address_width_bits,
                                        },
                                        page_size_bytes: match size {
                                            Some(size) => size,
                                            None => map.page_size_bytes,
                                        },
                                        write_cycle_ms: match cycle {
                                            Some(cycle) => cycle,
                                            None => map.write_cycle_ms,
                                        },
                                    },
                                ),
                            },
                        }
                    },
                }
            },
        },
    }
}

fn read_placement(config: &JsonValue, map: Placement) -> (r: Result<Placement, NodeError>)
    ensures
        match configured_placement(config@, map) {
            Ok(placement) => r == Ok::<Placement, NodeError>(placement),
            Err(error) => failed(r, error),
        },
{
    let mut placed: Placement = map;
    match config_optional_u32(config, "bus") {
        Ok(Some(bus)) => {
            placed.bus = bus;
        },
        Ok(None) => {
            placed.bus = 0;
        },
        Err(error) => {
            return Err(error);
        },
    }
    match config_optional_u16(config, "address") {
        Ok(Some(address)) => {
            if address > 0xff {
                return Err(NodeError::config("address must fit u8"));
            }
            placed.i2c_address = address as u8;
        },
        Ok(None) => {
            return Err(NodeError::config("i2cFieldEncoder config `address` is required"));
        },
        Err(error) => {
            return Err(error);
        },
    }
    match config_optional_u16(config, "addressWidthBytes") {
        Ok(Some(width)) => {
            let bits: u16 = match width.checked_mul(8) {
                Some(bits) => bits,
                None => {
                    return Err(NodeError::config("addressWidthBytes overflow"));
                },
            };
            if bits > 0xff {
                return Err(NodeError::config("addressWidthBytes must be 1 or 2"));
            }
            placed.address_width_bits = bits as u8;
        },
        Ok(None) => {},
        Err(error) => {
            return Err(error);
        },
    }
    match config_optional_u16(config, "pageSizeBytes") {
        Ok(Some(size)) => {
            placed.page_size_bytes = size;
        },
        Ok(None) => {},
        Err(error) => {
            return Err(error);
        },
    }
    match config_optional_u16(config, "writeCycleMs") {
        Ok(Some(cycle)) => {
            placed.write_cycle_ms = cycle;
        },
        Ok(None) => {},
        Err(error) => {
            return Err(error);
        },
    }
    Ok(placed)
}

/// The fields that a map stores, in order.
pub open spec fn stored_slots(slots: Seq<MapSlot>) -> Seq<MapSlot>
    decreases slots.len(),
{
    if slots.len() == 0 {
        Seq::empty()
    } else {
        let rest = stored_slots(slots.drop_last());
        if slots.last().storage is Some {
            rest.push(slots.last())
        } else {
            rest
        }
    }
}

fn keep_stored(slots: Vec<MapSlot>) -> (r: Vec<MapSlot>)
    ensures
        r@ == stored_slots(slots@),
{
    let ghost whole = slots@;
    let mut rest: Vec<MapSlot> = slots;
    let mut reversed: Vec<MapSlot> = Vec::new();
    proof {
        assert(stored_slots(whole) =~= stored_slots(rest@) + reversed@.reverse());
    }
    while rest.len() > 0
        invariant
            stored_slots(whole) == stored_slots(rest@) + reversed@.reverse(),
        decreases rest@.len(),
    {
        let ghost before = rest@;
        let ghost kept = reversed@;
        match rest.pop() {
            Some(slot) => {
                proof {
                    assert(before.drop_last() =~= rest@);
                    assert(before.last() == slot);
                }
                if slot.storage.is_some() {
                    reversed.push(slot);
                    proof {
                        assert(reversed@.reverse() =~= seq![slot] + kept.reverse());
                        assert(stored_slots(rest@) + reversed@.reverse() =~= stored_slots(before)
                            + kept.reverse());
                    }
                }
            },
            None => {},
        }
    }
    let mut r: Vec<MapSlot> = Vec::new();
    let ghost all = reversed@;
    proof {
        assert(rest@ =~= Seq::<MapSlot>::empty());
        assert(stored_slots(whole) =~= all.reverse());
        assert(r@ + reversed@.reverse() =~= all.reverse());
    }
    while reversed.len() > 0
        invariant
            r@ + reversed@.reverse() == all.reverse(),
        decreases reversed@.len(),
    {
        let ghost before = reversed@;
        let ghost kept = r@;
        match reversed.pop() {
            Some(slot) => {
                r.push(slot);
                proof {
                    assert(before.reverse() =~= seq![slot] + reversed@.reverse());
                    assert(r@ + reversed@.reverse() =~= kept + before.reverse());
                }
            },
            None => {},
        }
    }
    proof {
        assert(r@ =~= all.reverse());
    }
    r
}

impl EncoderMap {
    /// The placement of the map.
    pub open spec fn placement(self) -> Placement {
        Placement {
            bus: self.bus,
            i2c_address: self.i2c_address,
            address_width_bits: self.address_width_bits,
            page_size_bytes: self.page_size_bytes,
            write_cycle_ms: self.write_cycle_ms,
        }
    }

    /// The map with another placement and only the fields that it stores.
    pub open spec fn tuned(self, placement: Placement, slots: Vec<MapSlot>) -> EncoderMap {
        EncoderMap {
            bus: placement.bus,
            i2c_address: placement.i2c_address,
            address_width_bits: placement.address_width_bits,
            page_size_bytes: placement.page_size_bytes,
            write_cycle_ms: placement.write_cycle_ms,
            slots,
            ..self
        }
    }

    /// Applies a configuration to a map: the encoder owns the placement and nothing but stored
    /// fields.
    pub fn tune(self, config: &JsonValue) -> (r: Result<EncoderMap, NodeError>)
        ensures
            match configured_placement(config@, self.placement()) {
                Ok(placement) => r is Ok && r->Ok_0 == self.tuned(placement, r->Ok_0.slots)
                    && r->Ok_0.slots@ == stored_slots(self.slots@),
                Err(error) => failed(r, error),
            },
    {
        let placement: Placement = match read_placement(
            config,
            Placement {
                bus: self.bus,
                i2c_address: self.i2c_address,
                address_width_bits: self.address_width_bits,
                page_size_bytes: self.page_size_bytes,
                write_cycle_ms: self.write_cycle_ms,
            },
        ) {
            Ok(placement) => placement,
            Err(error) => {
                return Err(error);
            },
        };
        Ok(
            EncoderMap {
                id: self.id,
                bus: placement.bus,
                i2c_address: placement.i2c_address,
                address_width_bits: placement.address_width_bits,
                page_size_bytes: placement.page_size_bytes,
                write_cycle_ms: placement.write_cycle_ms,
                slots: keep_stored(self.slots),
                read_ranges: self.read_ranges,
                image_bytes: self.image_bytes,
                readback_required: self.readback_required,
            },
        )
    }
}

/// What came of looking for a map: among those that come with the program, or in a text, with the
/// reader's own words where that is no map.
#[derive(Debug)]
pub enum LoadedMap {
    Builtin(Option<EncoderMap>),
    Custom(Result<EncoderMap, String>),
}

/// The map that was found, or why there is none.
pub open spec fn found_map(loaded: LoadedMap) -> Result<EncoderMap, NodeErrorView> {
    match loaded {
        LoadedMap::Builtin(Some(map)) => Ok(map),
        LoadedMap::Builtin(None) => Err(NodeErrorView::Config("unsupported I2C map"@)),
        LoadedMap::Custom(Ok(map)) => Ok(map),
        LoadedMap::Custom(Err(why)) => Err(
            NodeErrorView::Config("I2C map compilation failed: "@ + why@),
        ),
    }
}

/// Goes on with a map that was looked for: one that was found is tuned by the configuration, and
/// has to be checked next.
pub fn compile_encoder_map(config: &JsonValue, loaded: LoadedMap) -> (r: Result<
    EncoderMap,
    NodeError,
>)
    ensures
        match found_map(loaded) {
            Err(error) => failed(r, error),
            Ok(map) => match configured_placement(config@, map.placement()) {
                Ok(placement) => r is Ok && r->Ok_0 == map.tuned(placement, r->Ok_0.slots)
                    && r->Ok_0.slots@ == stored_slots(map.slots@),
                Err(error) => failed(r, error),
            },
        },
{
    match loaded {
        LoadedMap::Builtin(Some(map)) => map.tune(config),
        LoadedMap::Builtin(None) => Err(NodeError::config("unsupported I2C map")),
        LoadedMap::Custom(Ok(map)) => map.tune(config),
        LoadedMap::Custom(Err(why)) => Err(
            NodeError::Config(concat("I2C map compilation failed: ", why.as_str())),
        ),
    }
}

/// The operation of a configuration, or why there is none.
pub open spec fn configured_operation(config: JsonTree) -> Result<TaskOperation, NodeErrorView> {
    let value = text_or(config, "operation"@, "guarded_write"@);
    if value == "read"@ {
        Ok(TaskOperation::Read)
    } else if value == "guarded_write"@ {
        Ok(TaskOperation::GuardedWrite)
    } else {
        Err(
            NodeErrorView::Config(
                "i2cFieldEncoder operation must be read or guarded_write, got `"@ + value + "`"@,
            ),
        )
    }
}

/// Reads the operation of a configuration.
pub fn parse_operation(config: &JsonValue) -> (r: Result<TaskOperation, NodeError>)
    ensures
        match configured_operation(config@) {
            Ok(operation) => r == Ok::<TaskOperation, NodeError>(operation),
            Err(error) => failed(r, error),
        },
{
    let value: &str = crate::engine::nodes::config::config_text(
        config,
        "operation",
        "guarded_write",
    );
    if same_text(value, "read") {
        return Ok(TaskOperation::Read);
    }
    if same_text(value, "guarded_write") {
        return Ok(TaskOperation::GuardedWrite);
    }
    Err(
        NodeError::Config(
            concat3("i2cFieldEncoder operation must be read or guarded_write, got `", value, "`"),
        ),
    )
}

/// Why the outputs of an encoder do not fit.
pub open spec fn encoder_port_fault(outputs: Seq<PortView>) -> Option<NodeErrorView> {
    match port_index(outputs, TASK_PORT@) {
        None => Some(NodeErrorView::Config("i2cFieldEncoder requires task output"@)),
        Some(i) => if outputs[i].kind != PACKET_PORT_KIND@ || outputs.len() != 1 {
            Some(
                NodeErrorView::Config(
                    "i2cFieldEncoder has exactly one data.packet.v1 task output"@,
                ),
            )
        } else {
            None
        },
    }
}

fn validate_encoder_ports(spec: &NodeSpec) -> (r: Result<(), NodeError>)
    ensures
        came_out(r, encoder_port_fault(spec@.outputs)),
{
    match find_port(&spec.outputs, TASK_PORT) {
        None => Err(NodeError::config("i2cFieldEncoder requires task output")),
        Some(port) => {
            if !same_text(port.kind.as_str(), PACKET_PORT_KIND) || spec.outputs.len() != 1 {
                return Err(
                    NodeError::config("i2cFieldEncoder has exactly one data.packet.v1 task output"),
                );
            }
            Ok(())
        },
    }
}

/// An input of an encoder.
#[derive(Debug)]
pub struct EncoderInput {
    pub port_id: String,
    pub datum_name: String,
    pub required: bool,
}

/// An input of an encoder by its values.
#[verifier::ext_equal]
pub struct InputView {
    pub port_id: Seq<char>,
    pub datum_name: Seq<char>,
    pub required: bool,
}

impl View for EncoderInput {
    type V = InputView;

    open spec fn view(&self) -> InputView {
        InputView {
            port_id: self.port_id@,
            datum_name: self.datum_name@,
            required: self.required,
        }
    }
}

/// Inputs by their values.
pub open spec fn input_views(inputs: Seq<EncoderInput>) -> Seq<InputView> {
    inputs.map_values(|input: EncoderInput| input@)
}

/// The position of the first field with a name.
pub open spec fn slot_index(slots: Seq<MapSlot>, name: Seq<char>) -> Option<int>
    decreases slots.len(),
{
    if slots.len() == 0 {
        None
    } else {
        match slot_index(slots.drop_last(), name) {
            Some(i) => Some(i),
            None => if slots.last().name@ == name {
                Some(slots.len() - 1)
            } else {
                None
            },
        }
    }
}

proof fn lemma_slot_index(slots: Seq<MapSlot>, name: Seq<char>)
    ensures
        match slot_index(slots, name) {
            Some(i) => 0 <= i < slots.len() && slots[i].name@ == name && forall|j: int|
                0 <= j < i ==> (#[trigger] slots[j]).name@ != name,
            None => forall|j: int| 0 <= j < slots.len() ==> (#[trigger] slots[j]).name@ != name,
        },
    decreases slots.len(),
{
    if slots.len() > 0 {
        let init = slots.drop_last();
        lemma_slot_index(init, name);
        assert forall|j: int| 0 <= j < init.len() implies #[trigger] slots[j] == init[j] by {}
    }
}

fn find_slot(slots: &Vec<MapSlot>, name: &str) -> (r: Option<usize>)
    ensures
        match slot_index(slots@, name@) {
            Some(i) => r is Some && r->Some_0 == i && 0 <= i < slots@.len(),
            None => r is None,
        },
{
    let mut i: usize = 0;
    while i < slots.len()
        invariant
            i <= slots@.len(),
            forall|j: int| 0 <= j < i ==> (#[trigger] slots@[j]).name@ != name@,
        decreases slots@.len() - i,
    {
        if same_text(slots[i].name.as_str(), name) {
            proof {
                lemma_slot_index(slots@, name@);
            }
            return Some(i);
        }
        i = i + 1;
    }
    proof {
        lemma_slot_index(slots@, name@);
    }
    None
}

/// An error of one input.
pub open spec fn input_error(port: Seq<char>, what: Seq<char>) -> NodeErrorView {
    NodeErrorView::Config("encoder input `"@ + port + what)
}

fn input_failure(port: &str, what: &str) -> (r: NodeError)
    ensures
        r@ == input_error(port@, what@),
{
    NodeError::Config(concat3("encoder input `", port, what))
}

/// An error of one input that names a field.
pub open spec fn field_error(port: Seq<char>, what: Seq<char>, field: Seq<char>) -> NodeErrorView {
    NodeErrorView::Config("encoder input `"@ + port + what + field + "`"@)
}

fn field_failure(port: &str, what: &str, field: &str) -> (r: NodeError)
    ensures
        r@ == field_error(port@, what@, field@),
{
    NodeError::Config(concat5("encoder input `", port, what, field, "`"))
}

/// A configured 16-bit member of a row.
pub open spec fn row_u16(row: JsonTree, key: Seq<char>) -> Option<u16> {
    match row.member_uint(key) {
        Some(n) => if n <= 0xffff {
            Some(n as u16)
        } else {
            None
        },
        None => None,
    }
}

fn read_row_u16(row: &JsonValue, key: &str) -> (r: Option<u16>)
    ensures
        r == row_u16(row@, key@),
{
    match row.get_u64(key) {
        Some(n) => if n <= 0xffff {
            Some(n as u16)
        } else {
            None
        },
        None => None,
    }
}

/// Whether a row describes the storage of a field; encodings may differ in case, hyphens and
/// underscores.
pub open spec fn storage_matches(
    storage: SlotStorage,
    offset: u16,
    byte_len: u16,
    encoding: Seq<char>,
) -> bool {
    offset == storage.offset && byte_len == storage.byte_len && folded(trimmed(encoding))
        == folded(trimmed(storage.encoding@))
}

/// An input that a row of a configuration describes, or why it describes none.
pub open spec fn row_input(row: JsonTree, slots: Seq<MapSlot>) -> Result<InputView, NodeErrorView> {
    if !(row is Object) {
        Err(NodeErrorView::Config("encoder input row must be an object"@))
    } else {
        match (filled_text(row, "id"@), filled_text(row, "name"@)) {
            (None, _) => Err(NodeErrorView::Config("encoder input requires id"@)),
            (Some(_), None) => Err(NodeErrorView::Config("encoder input requires name"@)),
            (Some(port), Some(name)) => match slot_index(slots, name) {
                None => Err(field_error(port, "` names an undeclared field `"@, name)),
                Some(i) => match slots[i].storage {
                    None => Err(field_error(port, "` names a non-storage map field `"@, name)),
                    Some(storage) => match row_u16(row, "offset"@) {
                        None => Err(input_error(port, "` requires u16 offset"@)),
                        Some(offset) => match row_u16(row, "byteLength"@) {
                            None => Err(input_error(port, "` requires u16 byteLength"@)),
                            Some(byte_len) => match row.member_text("encoding"@) {
                                None => Err(input_error(port, "` requires encoding"@)),
                                Some(encoding) => if !storage_matches(
                                    storage,
                                    offset,
                                    byte_len,
                                    encoding,
                                ) {
                                    Err(
                                        field_error(
                                            port,
                                            "` storage layout does not match map field `"@,
                                            name,
                                        ),
                                    )
                                } else {
                                    Ok(
                                        InputView {
                                            port_id: port,
                                            datum_name: name,
                                            required: bool_or(row, "required"@, true),
                                        },
                                    )
                                },
                            },
                        },
                    },
                },
            },
        }
    }
}

fn check_storage(
    row: &JsonValue,
    storage: &SlotStorage,
    port: &str,
    name: &str,
) -> (r: Result<(), NodeError>)
    ensures
        match row_u16(row@, "offset"@) {
            None => failed(r, input_error(port@, "` requires u16 offset"@)),
            Some(offset) => match row_u16(row@, "byteLength"@) {
                None => failed(r, input_error(port@, "` requires u16 byteLength"@)),
                Some(byte_len) => match row@.member_text("encoding"@) {
                    None => failed(r, input_error(port@, "` requires encoding"@)),
                    Some(encoding) => if storage_matches(*storage, offset, byte_len, encoding) {
                        r is Ok
                    } else {
                        failed(
                            r,
                            field_error(
                                port@,
                                "` storage layout does not match map field `"@,
                                name@,
                            ),
                        )
                    },
                },
            },
        },
{
    let offset: u16 = match read_row_u16(row, "offset") {
        Some(offset) => offset,
        None => {
            return Err(input_failure(port, "` requires u16 offset"));
        },
    };
    let byte_len: u16 = match read_row_u16(row, "byteLength") {
        Some(byte_len) => byte_len,
        None => {
            return Err(input_failure(port, "` requires u16 byteLength"));
        },
    };
    let encoding: &str = match row.get_str("encoding") {
        Some(encoding) => encoding,
        None => {
            return Err(input_failure(port, "` requires encoding"));
        },
    };
    if offset != storage.offset || byte_len != storage.byte_len || !same_text(
        normalize_encoding(encoding).as_str(),
        normalize_encoding(storage.encoding.as_str()).as_str(),
    ) {
        return Err(
            field_failure(port, "` storage layout does not match map field `", name),
        );
    }
    Ok(())
}

/// The name of an encoding without the differences that do not matter.
pub fn normalize_encoding(value: &str) -> (r: String)
    ensures
        r@ == folded(trimmed(value@)),
{
    fold(trim(value))
}

fn parse_row(row: &JsonValue, slots: &Vec<MapSlot>) -> (r: Result<EncoderInput, NodeError>)
    ensures
        match row_input(row@, slots@) {
            Ok(input) => r is Ok && r->Ok_0@ == input,
            Err(error) => failed(r, error),
        },
{
    if !row.is_object() {
        return Err(NodeError::config("encoder input row must be an object"));
    }
    let port: &str = match config_filled(row, "id") {
        Some(port) => port,
        None => {
            return Err(NodeError::config("encoder input requires id"));
        },
    };
    let name: &str = match config_filled(row, "name") {
        Some(name) => name,
        None => {
            return Err(NodeError::config("encoder input requires name"));
        },
    };
    let required: bool = config_bool(row, "required", true);
    let slot: usize = match find_slot(slots, name) {
        Some(slot) => slot,
        None => {
            return Err(field_failure(port, "` names an undeclared field `", name));
        },
    };
    match &slots[slot].storage {
        None => Err(field_failure(port, "` names a non-storage map field `", name)),
        Some(storage) => match check_storage(row, storage, port, name) {
            Ok(()) => Ok(
                EncoderInput { port_id: port.to_owned(), datum_name: name.to_owned(), required },
            ),
            Err(error) => Err(error),
        },
    }
}

/// The inputs that rows describe, or why the first bad row describes none.
pub open spec fn row_inputs(rows: Seq<JsonTree>, slots: Seq<MapSlot>) -> Result<
    Seq<InputView>,
    NodeErrorView,
>
    decreases rows.len(),
{
    if rows.len() == 0 {
        Ok(Seq::empty())
    } else {
        match row_inputs(rows.drop_last(), slots) {
            Err(error) => Err(error),
            Ok(earlier) => match row_input(rows.last(), slots) {
                Err(error) => Err(error),
                Ok(input) => Ok(earlier.push(input)),
            },
        }
    }
}

proof fn lemma_bad_row_persists(rows: Seq<JsonTree>, slots: Seq<MapSlot>, i: int)
    requires
        0 <= i <= rows.len(),
        row_inputs(rows.take(i), slots) is Err,
    ensures
        row_inputs(rows, slots) == row_inputs(rows.take(i), slots),
    decreases rows.len() - i,
{
    if i < rows.len() {
        assert(rows.take(i + 1).drop_last() =~= rows.take(i));
        lemma_bad_row_persists(rows, slots, i + 1);
    } else {
        assert(rows.take(i) =~= rows);
    }
}

fn parse_rows(rows: &Vec<JsonValue>, slots: &Vec<MapSlot>) -> (r: Result<
    Vec<EncoderInput>,
    NodeError,
>)
    ensures
        match row_inputs(trees(rows@), slots@) {
            Ok(inputs) => r is Ok && input_views(r->Ok_0@) == inputs,
            Err(error) => failed(r, error),
        },
{
    let ghost views = trees(rows@);
    let mut inputs: Vec<EncoderInput> = Vec::new();
    let mut i: usize = 0;
    proof {
        assert(views.take(0) =~= Seq::<JsonTree>::empty());
        assert(input_views(inputs@) =~= Seq::<InputView>::empty());
    }
    while i < rows.len()
        invariant
            i <= rows@.len() == views.len(),
            views == trees(rows@),
            row_inputs(views.take(i as int), slots@) == Ok::<Seq<InputView>, NodeErrorView>(
                input_views(inputs@),
            ),
        decreases rows@.len() - i,
    {
        let ghost next = views.take(i + 1);
        let ghost before = input_views(inputs@);
        proof {
            assert(next.drop_last() =~= views.take(i as int));
            assert(next.last() == rows@[i as int]@);
        }
        match parse_row(&rows[i], slots) {
            Ok(input) => {
                inputs.push(input);
                proof {
                    assert(input_views(inputs@) =~= before.push(input@));
                }
            },
            Err(error) => {
                proof {
                    lemma_bad_row_persists(views, slots@, i + 1);
                }
                return Err(error);
            },
        }
        i = i + 1;
    }
    proof {
        assert(views.take(i as int) =~= views);
    }
    Ok(inputs)
}

/// The inputs of a map, one for each field.
pub open spec fn slot_inputs(slots: Seq<MapSlot>) -> Seq<InputView> {
    slots.map_values(
        |slot: MapSlot|
            InputView { port_id: slot.name@, datum_name: slot.name@, required: slot.required },
    )
}

fn inputs_of_slots(slots: &Vec<MapSlot>) -> (r: Vec<EncoderInput>)
    ensures
        input_views(r@) == slot_inputs(slots@),
{
    let mut r: Vec<EncoderInput> = Vec::new();
    let mut i: usize = 0;
    while i < slots.len()
        invariant
            i <= slots@.len(),
            r@.len() == i,
            forall|j: int|
                0 <= j < i ==> (#[trigger] r@[j])@ == (InputView {
                    port_id: slots@[j].name@,
                    datum_name: slots@[j].name@,
                    required: slots@[j].required,
                }),
        decreases slots@.len() - i,
    {
        r.push(
            EncoderInput {
                port_id: slots[i].name.clone(),
                datum_name: slots[i].name.clone(),
                required: slots[i].required,
            },
        );
        i = i + 1;
    }
    proof {
        assert(input_views(r@) =~= slot_inputs(slots@));
    }
    r
}

/// The position of the first input on a port.
pub open spec fn input_index(inputs: Seq<InputView>, port: Seq<char>) -> Option<int>
    decreases inputs.len(),
{
    if inputs.len() == 0 {
        None
    } else {
        match input_index(inputs.drop_last(), port) {
            Some(i) => Some(i),
            None => if inputs.last().port_id == port {
                Some(inputs.len() - 1)
            } else {
                None
            },
        }
    }
}

pub proof fn lemma_input_index(inputs: Seq<InputView>, port: Seq<char>)
    ensures
        match input_index(inputs, port) {
            Some(i) => 0 <= i < inputs.len() && inputs[i].port_id == port && forall|j: int|
                0 <= j < i ==> (#[trigger] inputs[j]).port_id != port,
            None => forall|j: int| 0 <= j < inputs.len() ==> (#[trigger] inputs[j]).port_id != port,
        },
    decreases inputs.len(),
{
    if inputs.len() > 0 {
        let init = inputs.drop_last();
        lemma_input_index(init, port);
        assert forall|j: int| 0 <= j < init.len() implies #[trigger] inputs[j] == init[j] by {}
    }
}

fn find_input(inputs: &Vec<EncoderInput>, port: &str, most: usize) -> (r: Option<usize>)
    requires
        most <= inputs@.len(),
    ensures
        match input_index(input_views(inputs@).take(most as int), port@) {
            Some(i) => r is Some && r->Some_0 == i && 0 <= i < most,
            None => r is None,
        },
{
    let ghost views = input_views(inputs@).take(most as int);
    let mut i: usize = 0;
    while i < most
        invariant
            i <= most <= inputs@.len(),
            views == input_views(inputs@).take(most as int),
            forall|j: int| 0 <= j < i ==> (#[trigger] views[j]).port_id != port@,
        decreases most - i,
    {
        proof {
            assert(views[i as int] == inputs@[i as int]@);
        }
        if same_text(inputs[i].port_id.as_str(), port) {
            proof {
                lemma_input_index(views, port@);
            }
            return Some(i);
        }
        i = i + 1;
    }
    proof {
        lemma_input_index(views, port@);
    }
    None
}

/// Why an input cannot stand after earlier ones.
pub open spec fn placed_input_fault(
    input: InputView,
    earlier: Seq<InputView>,
    slots: Seq<MapSlot>,
    ports: Seq<PortView>,
) -> Option<NodeErrorView> {
    if input_index(earlier, input.port_id) is Some || slot_index(slots, input.datum_name) is None {
        Some(input_error(input.port_id, "` is duplicate or not declared by map"@))
    } else {
        match port_index(ports, input.port_id) {
            None => Some(input_error(input.port_id, "` has no graph port"@)),
            Some(i) => if ports[i].kind != FIELD_PORT_KIND@ {
                Some(input_error(input.port_id, "` must use `data.field.v1`"@))
            } else {
                None
            },
        }
    }
}

/// Why inputs cannot stand together: the first that cannot decides.
pub open spec fn inputs_fault(
    inputs: Seq<InputView>,
    slots: Seq<MapSlot>,
    ports: Seq<PortView>,
) -> Option<NodeErrorView>
    decreases inputs.len(),
{
    if inputs.len() == 0 {
        None
    } else {
        match inputs_fault(inputs.drop_last(), slots, ports) {
            Some(error) => Some(error),
            None => placed_input_fault(inputs.last(), inputs.drop_last(), slots, ports),
        }
    }
}

proof fn lemma_inputs_fault_persists(
    inputs: Seq<InputView>,
    slots: Seq<MapSlot>,
    ports: Seq<PortView>,
    i: int,
)
    requires
        0 <= i <= inputs.len(),
        inputs_fault(inputs.take(i), slots, ports) is Some,
    ensures
        inputs_fault(inputs, slots, ports) == inputs_fault(inputs.take(i), slots, ports),
    decreases inputs.len() - i,
{
    if i < inputs.len() {
        assert(inputs.take(i + 1).drop_last() =~= inputs.take(i));
        lemma_inputs_fault_persists(inputs, slots, ports, i + 1);
    } else {
        assert(inputs.take(i) =~= inputs);
    }
}

fn check_placed_input(
    inputs: &Vec<EncoderInput>,
    i: usize,
    slots: &Vec<MapSlot>,
    ports: &Vec<PortSpec>,
) -> (r: Result<(), NodeError>)
    requires
        i < inputs@.len(),
    ensures
        came_out(
            r,
            placed_input_fault(
                inputs@[i as int]@,
                input_views(inputs@).take(i as int),
                slots@,
                port_views(ports@),
            ),
        ),
{
    let input: &EncoderInput = &inputs[i];
    let port_id: &str = input.port_id.as_str();
    if find_input(inputs, port_id, i).is_some() || find_slot(
        slots,
        input.datum_name.as_str(),
    ).is_none() {
        return Err(input_failure(port_id, "` is duplicate or not declared by map"));
    }
    match find_port(ports, port_id) {
        None => Err(input_failure(port_id, "` has no graph port")),
        Some(port) => {
            if !same_text(port.kind.as_str(), FIELD_PORT_KIND) {
                return Err(input_failure(port_id, "` must use `data.field.v1`"));
            }
            Ok(())
        },
    }
}

fn check_inputs(inputs: &Vec<EncoderInput>, slots: &Vec<MapSlot>, ports: &Vec<PortSpec>) -> (r:
    Result<(), NodeError>)
    ensures
        came_out(r, inputs_fault(input_views(inputs@), slots@, port_views(ports@))),
{
    let ghost views = input_views(inputs@);
    let ghost port_list = port_views(ports@);
    let mut i: usize = 0;
    proof {
        assert(views.take(0) =~= Seq::<InputView>::empty());
    }
    while i < inputs.len()
        invariant
            i <= inputs@.len() == views.len(),
            views == input_views(inputs@),
            port_list == port_views(ports@),
            inputs_fault(views.take(i as int), slots@, port_list) is None,
        decreases inputs@.len() - i,
    {
        let ghost next = views.take(i + 1);
        proof {
            assert(next.drop_last() =~= views.take(i as int));
            assert(next.last() == inputs@[i as int]@);
        }
        match check_placed_input(inputs, i, slots, ports) {
            Ok(()) => {},
            Err(error) => {
                proof {
                    lemma_inputs_fault_persists(views, slots@, port_list, i + 1);
                }
                return Err(error);
            },
        }
        i = i + 1;
    }
    proof {
        assert(views.take(i as int) =~= views);
    }
    Ok(())
}

/// The rows of inputs that a configuration has.
pub open spec fn configured_rows(config: JsonTree) -> Option<Seq<JsonTree>> {
    match config.member("inputs"@) {
        Some(list) => list.items(),
        None => None,
    }
}

/// The inputs of an encoder, or why there are none: those of the configuration, or one for each field
/// of the map.
pub open spec fn encoder_inputs(
    config: JsonTree,
    ports: Seq<PortView>,
    slots: Seq<MapSlot>,
) -> Result<Seq<InputView>, NodeErrorView> {
    let rows = match configured_rows(config) {
        Some(rows) => row_inputs(rows, slots),
        None => Ok(slot_inputs(slots)),
    };
    match rows {
        Err(error) => Err(error),
        Ok(inputs) => if inputs.len() == 0 {
            Err(NodeErrorView::Config("i2cFieldEncoder requires at least one input"@))
        } else {
            match inputs_fault(inputs, slots, ports) {
                Some(error) => Err(error),
                None => if ports.len() != inputs.len() {
                    Err(
                        NodeErrorView::Config(
                            "encoder graph inputs must exactly match configured inputs"@,
                        ),
                    )
                } else {
                    Ok(inputs)
                },
            }
        },
    }
}

/// Reads the inputs of an encoder.
pub fn parse_encoder_inputs(spec: &NodeSpec, map: &EncoderMap) -> (r: Result<
    Vec<EncoderInput>,
    NodeError,
>)
    ensures
        match encoder_inputs(spec.config@, spec@.inputs, map.slots@) {
            Ok(inputs) => r is Ok && input_views(r->Ok_0@) == inputs,
            Err(error) => failed(r, error),
        },
{
    let rows: Option<&Vec<JsonValue>> = match spec.config.get("inputs") {
        Some(list) => list.as_array(),
        None => None,
    };
    let inputs: Vec<EncoderInput> = match rows {
        Some(rows) => match parse_rows(rows, &map.slots) {
            Ok(inputs) => inputs,
            Err(error) => {
                return Err(error);
            },
        },
        None => inputs_of_slots(&map.slots),
    };
    proof {
        assert(input_views(inputs@).len() == inputs@.len());
    }
    if inputs.len() == 0 {
        return Err(NodeError::config("i2cFieldEncoder requires at least one input"));
    }
    match check_inputs(&inputs, &map.slots, &spec.inputs) {
        Ok(()) => {},
        Err(error) => {
            return Err(error);
        },
    }
    if spec.inputs.len() != inputs.len() {
        return Err(
            NodeError::config("encoder graph inputs must exactly match configured inputs"),
        );
    }
    Ok(inputs)
}

/// A map that passed its checks, with its full description in words.
#[derive(Debug)]
pub struct CompiledMap {
    pub map: EncoderMap,
    pub description: Vec<u8>,
}

impl CompiledMap {
    /// Finishes the compilation of a map that was checked: with its description where it passed,
    /// with the words of the check where it did not.
    pub fn checked(map: EncoderMap, description: Result<Vec<u8>, String>) -> (r: Result<
        CompiledMap,
        NodeError,
    >)
        ensures
            match description {
                Ok(description) => r == Ok::<CompiledMap, NodeError>(
                    CompiledMap { map, description },
                ),
                Err(why) => failed(
                    r,
                    NodeErrorView::Config("I2C encoder map is invalid: "@ + why@),
                ),
            },
    {
        match description {
            Ok(description) => Ok(CompiledMap { map, description }),
            Err(why) => Err(
                NodeError::Config(concat("I2C encoder map is invalid: ", why.as_str())),
            ),
        }
    }
}

/// Bytes that were encoded for a memory, and the pages that they are written in.
#[derive(Debug)]
pub struct EncodedImage {
    pub bytes: Vec<u8>,
    pub pages: Vec<EncodedPage>,
}

/// One page of an image.
#[derive(Debug)]
pub struct EncodedPage {
    pub offset: u16,
    pub bytes: Vec<u8>,
}

pub struct I2cFieldEncoderFactory;

impl I2cFieldEncoderFactory {
    pub fn kind(&self) -> (r: &'static str)
        ensures
            r@ == "i2cFieldEncoder"@,
    {
        "i2cFieldEncoder"
    }

    /// A node; `compiled` is the map that its configuration asks for, or why there is none.
    pub fn instantiate(
        &self,
        spec: NodeSpec,
        compiled: Result<CompiledMap, NodeError>,
    ) -> (r: Result<I2cFieldEncoderNode, NodeError>)
        ensures
            encoder_made(spec@, compiled, r),
    {
        I2cFieldEncoderNode::new(spec, compiled)
    }
}

/// Encodes single data into tasks. What came in is kept in the order of the inputs.
pub struct I2cFieldEncoderNode {
    pub compiled: CompiledMap,
    pub operation: TaskOperation,
    pub inputs: Vec<EncoderInput>,
    pub received: Vec<Option<Arc<Datum>>>,
}

/// No datum for any of `n` inputs.
pub open spec fn nothing_received(n: nat) -> Seq<Option<Arc<Datum>>> {
    Seq::new(n, |i: int| None)
}

fn empty_slots(n: usize) -> (r: Vec<Option<Arc<Datum>>>)
    ensures
        r@ == nothing_received(n as nat),
{
    let mut r: Vec<Option<Arc<Datum>>> = Vec::new();
    while r.len() < n
        invariant
            r@.len() <= n,
            forall|i: int| 0 <= i < r@.len() ==> #[trigger] r@[i] is None,
        decreases n - r@.len(),
    {
        r.push(None);
    }
    proof {
        assert(r@ =~= nothing_received(n as nat));
    }
    r
}

/// What becomes of a specification and a map.
pub open spec fn encoder_made(
    spec: NodeView,
    compiled: Result<CompiledMap, NodeError>,
    r: Result<I2cFieldEncoderNode, NodeError>,
) -> bool {
    match encoder_port_fault(spec.outputs) {
        Some(error) => failed(r, error),
        None => match compiled {
            Err(error) => failed(r, error@),
            Ok(compiled) => match configured_operation(spec.config) {
                Err(error) => failed(r, error),
                Ok(operation) => match encoder_inputs(
                    spec.config,
                    spec.inputs,
                    compiled.map.slots@,
                ) {
                    Err(error) => failed(r, error),
                    Ok(inputs) => r is Ok && r->Ok_0.compiled == compiled && r->Ok_0.operation
                        == operation && input_views(r->Ok_0.inputs@) == inputs
                        && r->Ok_0.received@ == nothing_received(inputs.len()) && r->Ok_0.wf(),
                },
            },
        },
    }
}

/// The data that came in, in the order of the inputs.
pub open spec fn gathered(received: Seq<Option<Arc<Datum>>>) -> Seq<Datum>
    decreases received.len(),
{
    if received.len() == 0 {
        Seq::empty()
    } else {
        match received.last() {
            Some(datum) => gathered(received.drop_last()).push(*datum),
            None => gathered(received.drop_last()),
        }
    }
}

/// Whether every input that is required has its datum.
pub open spec fn complete(inputs: Seq<InputView>, received: Seq<Option<Arc<Datum>>>) -> bool {
    forall|i: int|
        0 <= i < inputs.len() && (#[trigger] inputs[i]).required ==> received[i] is Some
}

/// Data by their values.
pub open spec fn data_of(fields: Seq<Arc<Datum>>) -> Seq<Datum> {
    fields.map_values(|field: Arc<Datum>| *field)
}

/// Why a datum does not belong on a port, or the input that it belongs to.
pub open spec fn taken_by(inputs: Seq<InputView>, port: Seq<char>, packet: PacketView) -> Result<
    (int, Datum),
    NodeErrorView,
> {
    match input_index(inputs, port) {
        None => Err(
            NodeErrorView::Precondition(
                "i2cFieldEncoder received input on unknown port `"@ + port + "`"@,
            ),
        ),
        Some(i) => match packet {
            PacketView::TypedField { datum, .. } => if datum.name@ != inputs[i].datum_name {
                Err(
                    NodeErrorView::Precondition(
                        "encoder port `"@ + port + "` expects datum `"@ + inputs[i].datum_name
                            + "`, got `"@ + datum.name@ + "`"@,
                    ),
                )
            } else {
                Ok((i, datum))
            },
            _ => Err(NodeErrorView::Precondition("i2cFieldEncoder inputs require data.field.v1"@)),
        },
    }
}

/// The pages of a task.
pub open spec fn task_pages(pages: Seq<EncodedPage>, task: Seq<I2cPageWrite>, cycle: u16) -> bool {
    &&& task.len() == pages.len()
    &&& forall|i: int|
        0 <= i < pages.len() ==> (#[trigger] task[i]).offset == pages[i].offset
            && task[i].bytes@ == pages[i].bytes@ && task[i].settle_ms == cycle
}

/// Whether a task is the one that an encoder makes of an image.
pub open spec fn task_of(
    compiled: CompiledMap,
    operation: TaskOperation,
    image: EncodedImage,
    task: I2cTaskPacket,
) -> bool {
    let map = compiled.map;
    &&& task.schema@ == TASK_SCHEMA@
    &&& task.operation == operation
    &&& task.map_id@ == map.id@
    &&& task.map_digest@ == sha256_hex_text(compiled.description@)
    &&& task.target == (I2cTaskTarget {
        bus: map.bus,
        address: map.i2c_address as u16,
        address_width_bytes: (map.address_width_bits / 8) as u8,
        page_size_bytes: map.page_size_bytes,
        write_cycle_ms: map.write_cycle_ms,
    })
    &&& task.read_ranges@ == map.read_ranges@
    &&& task.validation == (I2cMapValidationContract { image_bytes: map.image_bytes })
    &&& task_pages(image.pages@, task.pages@, map.write_cycle_ms)
    &&& task.final_image@ == image.bytes@
    &&& task.verify_after_write == map.readback_required
    &&& task.final_image_digest@ == sha256_hex_text(image.bytes@)
}

fn copy_ranges(ranges: &Vec<I2cReadRange>) -> (r: Vec<I2cReadRange>)
    ensures
        r@ == ranges@,
{
    let mut r: Vec<I2cReadRange> = Vec::new();
    let mut i: usize = 0;
    while i < ranges.len()
        invariant
            i <= ranges@.len(),
            r@ == ranges@.take(i as int),
        decreases ranges@.len() - i,
    {
        r.push(ranges[i]);
        proof {
            assert(r@ =~= ranges@.take(i + 1));
        }
        i = i + 1;
    }
    proof {
        assert(ranges@.take(i as int) =~= ranges@);
    }
    r
}

fn pages_of(pages: &Vec<EncodedPage>, cycle: u16) -> (r: Vec<I2cPageWrite>)
    ensures
        task_pages(pages@, r@, cycle),
{
    let mut r: Vec<I2cPageWrite> = Vec::new();
    let mut i: usize = 0;
    while i < pages.len()
        invariant
            i <= pages@.len(),
            r@.len() == i,
            forall|j: int|
                0 <= j < i ==> (#[trigger] r@[j]).offset == pages@[j].offset && r@[j].bytes@
                    == pages@[j].bytes@ && r@[j].settle_ms == cycle,
        decreases pages@.len() - i,
    {
        let page: &EncodedPage = &pages[i];
        proof {
            assert(page.bytes@.subrange(0, page.bytes@.len() as int) =~= page.bytes@);
        }
        r.push(
            I2cPageWrite {
                offset: page.offset,
                bytes: crate::engine::packet::copy_bytes(&page.bytes, 0, page.bytes.len()),
                settle_ms: cycle,
            },
        );
        i = i + 1;
    }
    r
}

impl I2cFieldEncoderNode {
    /// Every input has a place for its datum.
    pub open spec fn wf(&self) -> bool {
        self.received@.len() == self.inputs@.len()
    }

    pub fn new(spec: NodeSpec, compiled: Result<CompiledMap, NodeError>) -> (r: Result<
        I2cFieldEncoderNode,
        NodeError,
    >)
        ensures
            encoder_made(spec@, compiled, r),
    {
        match validate_encoder_ports(&spec) {
            Ok(()) => {},
            Err(error) => {
                return Err(error);
            },
        }
        let compiled: CompiledMap = match compiled {
            Ok(compiled) => compiled,
            Err(error) => {
                return Err(error);
            },
        };
        let operation: TaskOperation = match parse_operation(&spec.config) {
            Ok(operation) => operation,
            Err(error) => {
                return Err(error);
            },
        };
        let inputs: Vec<EncoderInput> = match parse_encoder_inputs(&spec, &compiled.map) {
            Ok(inputs) => inputs,
            Err(error) => {
                return Err(error);
            },
        };
        let received: Vec<Option<Arc<Datum>>> = empty_slots(inputs.len());
        proof {
            assert(input_views(inputs@).len() == inputs@.len());
        }
        Ok(I2cFieldEncoderNode { compiled, operation, inputs, received })
    }

    pub fn on_start(&mut self, rt: &mut NodeRuntime) -> (r: Result<(), NodeError>)
        ensures
            r is Ok,
            *final(self) == *old(self),
            final(rt)@ == old(rt)@.reported(
                NodeRuntimeState::Idle,
                "waiting for configured field data"@,
            ),
    {
        rt.report_state(NodeRuntimeState::Idle, "waiting for configured field data");
        Ok(())
    }

    /// Keeps a datum. Where all required data are there, the data to be encoded come back, in the
    /// order of the inputs.
    pub fn on_input(&mut self, port: &str, packet: DataPacket) -> (r: Result<
        Option<Vec<Arc<Datum>>>,
        NodeError,
    >)
        requires
            old(self).wf(),
        ensures
            final(self).wf(),
            final(self).compiled == old(self).compiled,
            final(self).operation == old(self).operation,
            final(self).inputs == old(self).inputs,
            match taken_by(input_views(old(self).inputs@), port@, packet@) {
                Err(error) => failed(r, error) && final(self).received == old(self).received,
                Ok((i, datum)) => {
                    &&& r is Ok
                    &&& final(self).received@ == old(self).received@.update(
                        i,
                        Some(Arc::new(datum)),
                    )
                    &&& if complete(input_views(old(self).inputs@), final(self).received@) {
                        r->Ok_0 is Some && data_of(r->Ok_0->Some_0@) == gathered(
                            final(self).received@,
                        )
                    } else {
                        r->Ok_0 is None
                    }
                },
            },
    {
        let ghost views = input_views(self.inputs@);
        proof {
            assert(views.take(views.len() as int) =~= views);
        }
        let i: usize = match find_input(&self.inputs, port, self.inputs.len()) {
            Some(i) => i,
            None => {
                return Err(
                    NodeError::Precondition(
                        concat3("i2cFieldEncoder received input on unknown port `", port, "`"),
                    ),
                );
            },
        };
        proof {
            assert(views[i as int] == self.inputs@[i as int]@);
        }
        let datum: Arc<Datum> = match packet {
            DataPacket::TypedField { datum, .. } => datum,
            _ => {
                return Err(
                    NodeError::precondition("i2cFieldEncoder inputs require data.field.v1"),
                );
            },
        };
        if !same_text(datum.name.as_str(), self.inputs[i].datum_name.as_str()) {
            let mut s: String = "encoder port `".to_owned();
            s.append(port);
            s.append("` expects datum `");
            s.append(self.inputs[i].datum_name.as_str());
            s.append("`, got `");
            s.append(datum.name.as_str());
            s.append("`");
            return Err(NodeError::Precondition(s));
        }
        self.received.set(i, Some(datum));
        Ok(self.ready_fields())
    }

    fn ready_fields(&self) -> (r: Option<Vec<Arc<Datum>>>)
        requires
            self.wf(),
        ensures
            if complete(input_views(self.inputs@), self.received@) {
                r is Some && data_of(r->Some_0@) == gathered(self.received@)
            } else {
                r is None
            },
    {
        let ghost views = input_views(self.inputs@);
        let mut fields: Vec<Arc<Datum>> = Vec::new();
        let mut i: usize = 0;
        proof {
            assert(self.received@.take(0) =~= Seq::<Option<Arc<Datum>>>::empty());
            assert(data_of(fields@) =~= Seq::<Datum>::empty());
        }
        while i < self.inputs.len()
            invariant
                self.wf(),
                i <= self.inputs@.len() == views.len(),
                views == input_views(self.inputs@),
                forall|j: int|
                    0 <= j < i && (#[trigger] views[j]).required ==> self.received@[j] is Some,
                data_of(fields@) == gathered(self.received@.take(i as int)),
            decreases self.inputs@.len() - i,
        {
            let ghost next = self.received@.take(i + 1);
            let ghost before = data_of(fields@);
            proof {
                assert(next.drop_last() =~= self.received@.take(i as int));
                assert(next.last() == self.received@[i as int]);
                assert(views[i as int] == self.inputs@[i as int]@);
            }
            match &self.received[i] {
                Some(datum) => {
                    fields.push(share(datum));
                    proof {
                        assert(data_of(fields@) =~= before.push(**datum));
                    }
                },
                None => {
                    if self.inputs[i].required {
                        return None;
                    }
                },
            }
            i = i + 1;
        }
        proof {
            assert(self.received@.take(i as int) =~= self.received@);
        }
        Some(fields)
    }

    fn compile_task(&self, image: EncodedImage) -> (r: I2cTaskPacket)
        ensures
            task_of(self.compiled, self.operation, image, r),
    {
        let map: &EncoderMap = &self.compiled.map;
        let pages: Vec<I2cPageWrite> = pages_of(&image.pages, map.write_cycle_ms);
        let task = I2cTaskPacket {
            schema: TASK_SCHEMA.to_owned(),
            operation: self.operation,
            map_id: map.id.clone(),
            map_digest: sha256_hex(self.compiled.description.as_slice()),
            target: I2cTaskTarget {
                bus: map.bus,
                address: map.i2c_address as u16,
                address_width_bytes: map.address_width_bits / 8,
                page_size_bytes: map.page_size_bytes,
                write_cycle_ms: map.write_cycle_ms,
            },
            read_ranges: copy_ranges(&map.read_ranges),
            validation: I2cMapValidationContract { image_bytes: map.image_bytes },
            pages,
            final_image: image.bytes,
            verify_after_write: map.readback_required,
            final_image_digest: String::new(),
        };
        task.with_digest()
    }

    /// The data were encoded, or the words of what went wrong: gives the sealed task, where it
    /// passes its check.
    pub fn encoded(&self, reply: Result<EncodedImage, String>) -> (r: Result<
        I2cTaskPacket,
        NodeError,
    >)
        ensures
            match reply {
                Err(text) => failed(
                    r,
                    NodeErrorView::Precondition("I2C encoder rejected fields: "@ + text@),
                ),
                Ok(image) => exists|task: I2cTaskPacket| #[trigger]
                    task_of(self.compiled, self.operation, image, task) && task_checked(task, r),
            },
    {
        let image: EncodedImage = match reply {
            Ok(image) => image,
            Err(text) => {
                return Err(
                    NodeError::Precondition(
                        concat("I2C encoder rejected fields: ", text.as_str()),
                    ),
                );
            },
        };
        let task: I2cTaskPacket = self.compile_task(image);
        proof {
            assert(task_of(self.compiled, self.operation, image, task));
        }
        match task.validate() {
            Ok(()) => Ok(task),
            Err(fault) => Err(
                NodeError::Precondition(concat("compiled I2C task is invalid: ", fault.describe())),
            ),
        }
    }

    /// The task was written as JSON, or the words of what went wrong: the document goes out.
    pub fn task_written(&self, document: Result<JsonValue, String>, rt: &mut NodeRuntime) -> (r:
        Result<(), NodeError>)
        ensures
            match document {
                Err(text) => failed(r, NodeErrorView::Execution(text@)) && final(rt)@ == old(rt)@,
                Ok(document) => if old(rt)@.accepts(TASK_PORT@) {
                    r is Ok && final(rt)@ == old(rt)@.emitted(
                        TASK_PORT@,
                        PacketView::PacketData(document@),
                    ).reported(NodeRuntimeState::Ready, "I2C task compiled from encoded fields"@)
                } else {
                    failed(r, channel_full()) && final(rt)@ == old(rt)@
                },
            },
    {
        let document: JsonValue = match document {
            Ok(document) => document,
            Err(text) => {
                return Err(NodeError::Execution(text));
            },
        };
        match rt.emit(TASK_PORT, DataPacket::PacketData(Arc::new(document))) {
            Ok(()) => {},
            Err(error) => {
                return Err(error);
            },
        }
        rt.report_state(NodeRuntimeState::Ready, "I2C task compiled from encoded fields");
        Ok(())
    }

    pub fn on_action(&mut self, action: NodeAction, _rt: &mut NodeRuntime) -> (r: Result<
        (),
        NodeError,
    >)
        ensures
            failed(r, NodeErrorView::UnsupportedAction(action.label())),
            *final(self) == *old(self),
            final(_rt)@ == old(_rt)@,
    {
        Err(NodeError::unsupported(&action))
    }

    /// Takes another map and operation and forgets what came in; the inputs stay. A map that is taken
    /// stays taken where the operation is refused.
    pub fn on_config_update(
        &mut self,
        config: JsonValue,
        compiled: Result<CompiledMap, NodeError>,
        rt: &mut NodeRuntime,
    ) -> (r: Result<(), NodeError>)
        requires
            old(self).wf(),
        ensures
            final(self).wf(),
            final(self).inputs == old(self).inputs,
            match compiled {
                Err(error) => failed(r, error@) && *final(self) == *old(self) && final(rt)@ == old(rt)@,
                Ok(compiled) => final(self).compiled == compiled && match configured_operation(
                    config@,
                ) {
                    Err(error) => failed(r, error) && final(self).operation == old(self).operation
                        && final(self).received == old(self).received && final(rt)@ == old(rt)@,
                    Ok(operation) => r is Ok && final(self).operation == operation && final(self).received@ == nothing_received(old(self).inputs@.len()) && final(rt)@ == old(rt)@.reported(
                        NodeRuntimeState::Idle,
                        "I2C encoder configuration updated; send fields again"@,
                    ),
                },
            },
    {
        match compiled {
            Ok(compiled) => {
                self.compiled = compiled;
            },
            Err(error) => {
                return Err(error);
            },
        }
        match parse_operation(&config) {
            Ok(operation) => {
                self.operation = operation;
            },
            Err(error) => {
                return Err(error);
            },
        }
        self.received = empty_slots(self.inputs.len());
        rt.report_state(
            NodeRuntimeState::Idle,
            "I2C encoder configuration updated; send fields again",
        );
        Ok(())
    }

    pub fn on_stop(&mut self, rt: &mut NodeRuntime) -> (r: Result<(), NodeError>)
        ensures
            r is Ok,
            final(self).wf(),
            final(self).received@ == nothing_received(old(self).inputs@.len()),
            final(self).compiled == old(self).compiled,
            final(self).operation == old(self).operation,
            final(self).inputs == old(self).inputs,
            final(rt)@ == old(rt)@.reported(NodeRuntimeState::Idle, "stopped"@),
    {
        self.received = empty_slots(self.inputs.len());
        rt.report_state(NodeRuntimeState::Idle, "stopped");
        Ok(())
    }
}

/// What comes of a compiled task.
pub open spec fn task_checked(task: I2cTaskPacket, r: Result<I2cTaskPacket, NodeError>) -> bool {
    match task.fault() {
        Some(fault) => failed(
            r,
            NodeErrorView::Precondition("compiled I2C task is invalid: "@ + fault.text()),
        ),
        None => r == Ok::<I2cTaskPacket, NodeError>(task),
    }
}

/// What comes of a task that came as JSON.
pub open spec fn task_taken(
    parsed: Result<I2cTaskPacket, String>,
    r: Result<I2cTaskPacket, NodeError>,
) -> bool {
    match parsed {
        Err(why) => failed(r, NodeErrorView::Precondition("invalid I2C task JSON: "@ + why@)),
        Ok(task) => match task.fault() {
            Some(fault) => failed(
                r,
                NodeErrorView::Precondition("invalid I2C task JSON: "@ + fault.text()),
            ),
            None => r == Ok::<I2cTaskPacket, NodeError>(task),
        },
    }
}

/// Takes a task that came as JSON: `parsed` is what it reads as, or why it does not read as a task.
pub fn parse_task(parsed: Result<I2cTaskPacket, String>) -> (r: Result<I2cTaskPacket, NodeError>)
    ensures
        task_taken(parsed, r),
{
    match parsed {
        Err(why) => Err(
            NodeError::Precondition(concat("invalid I2C task JSON: ", why.as_str())),
        ),
        Ok(task) => match task.validate() {
            Ok(()) => Ok(task),
            Err(fault) => Err(
                NodeError::Precondition(concat("invalid I2C task JSON: ", fault.describe())),
            ),
        },
    }
}

/// A read that is to be performed.
#[derive(Debug)]
pub struct I2cReadRequest {
    pub map_id: String,
    pub map_digest: String,
    pub target: I2cTaskTarget,
    pub read_ranges: Vec<I2cReadRange>,
    pub validation: I2cMapValidationContract,
}

/// A guarded write that is to be performed.
#[derive(Debug)]
pub struct I2cWriteRequest {
    pub read: I2cReadRequest,
    pub pages: Vec<I2cPageWrite>,
    pub final_image: Vec<u8>,
    pub verify_after_write: bool,
}

impl I2cReadRequest {
    /// Whether the request is the read of a task.
    pub open spec fn is_of(self, task: I2cTaskPacket) -> bool {
        &&& self.map_id@ == task.map_id@
        &&& self.map_digest@ == task.map_digest@
        &&& self.target == task.target
        &&& self.read_ranges@ == task.read_ranges@
        &&& self.validation == task.validation
    }
}

impl I2cWriteRequest {
    /// Whether the request is the write of a task.
    pub open spec fn is_of(self, task: I2cTaskPacket) -> bool {
        &&& self.read.is_of(task)
        &&& same_pages(self.pages@, task.pages@)
        &&& self.final_image@ == task.final_image@
        &&& self.verify_after_write == task.verify_after_write
    }
}

/// Whether two lists of pages hold the same.
pub open spec fn same_pages(a: Seq<I2cPageWrite>, b: Seq<I2cPageWrite>) -> bool {
    &&& a.len() == b.len()
    &&& forall|i: int|
        0 <= i < a.len() ==> (#[trigger] a[i]).offset == b[i].offset && a[i].bytes@ == b[i].bytes@
            && a[i].settle_ms == b[i].settle_ms
}

fn copy_pages(pages: &Vec<I2cPageWrite>) -> (r: Vec<I2cPageWrite>)
    ensures
        same_pages(r@, pages@),
{
    let mut r: Vec<I2cPageWrite> = Vec::new();
    let mut i: usize = 0;
    while i < pages.len()
        invariant
            i <= pages@.len(),
            r@.len() == i,
            forall|j: int|
                0 <= j < i ==> (#[trigger] r@[j]).offset == pages@[j].offset && r@[j].bytes@
                    == pages@[j].bytes@ && r@[j].settle_ms == pages@[j].settle_ms,
        decreases pages@.len() - i,
    {
        let page: &I2cPageWrite = &pages[i];
        proof {
            assert(page.bytes@.subrange(0, page.bytes@.len() as int) =~= page.bytes@);
        }
        r.push(
            I2cPageWrite {
                offset: page.offset,
                bytes: crate::engine::packet::copy_bytes(&page.bytes, 0, page.bytes.len()),
                settle_ms: page.settle_ms,
            },
        );
        i = i + 1;
    }
    r
}

impl I2cTaskPacket {
    /// The read that the task asks for.
    pub fn read_request(&self) -> (r: I2cReadRequest)
        ensures
            r.is_of(*self),
    {
        I2cReadRequest {
            map_id: self.map_id.clone(),
            map_digest: self.map_digest.clone(),
            target: self.target,
            read_ranges: copy_ranges(&self.read_ranges),
            validation: self.validation,
        }
    }

    /// The guarded write that the task asks for.
    pub fn write_request(&self) -> (r: I2cWriteRequest)
        ensures
            r.is_of(*self),
    {
        proof {
            assert(self.final_image@.subrange(0, self.final_image@.len() as int)
                =~= self.final_image@);
        }
        I2cWriteRequest {
            read: self.read_request(),
            pages: copy_pages(&self.pages),
            final_image: crate::engine::packet::copy_bytes(
                &self.final_image,
                0,
                self.final_image.len(),
            ),
            verify_after_write: self.verify_after_write,
        }
    }
}

/// Why an input of an executor does not fit.
pub open spec fn expected_port_fault(
    inputs: Seq<PortView>,
    id: Seq<char>,
    kind: Seq<char>,
) -> Option<NodeErrorView> {
    match port_index(inputs, id) {
        Some(i) => if inputs[i].kind == kind {
            None
        } else {
            Some(port_expected(id, kind))
        },
        None => Some(port_expected(id, kind)),
    }
}

/// The error of an input that is missing or of another kind.
pub open spec fn port_expected(id: Seq<char>, kind: Seq<char>) -> NodeErrorView {
    NodeErrorView::Config(
        "i2cTaskExecutor requires `"@ + id + "` input of kind `"@ + kind + "`"@,
    )
}

/// Why the inputs of an executor do not fit.
pub open spec fn executor_port_fault(inputs: Seq<PortView>) -> Option<NodeErrorView> {
    match expected_port_fault(inputs, TASK_PORT@, PACKET_PORT_KIND@) {
        Some(error) => Some(error),
        None => match expected_port_fault(inputs, CONNECTION_PORT@, "ssh.connection.v1"@) {
            Some(error) => Some(error),
            None => if inputs.len() != 2 {
                Some(
                    NodeErrorView::Config("i2cTaskExecutor accepts exactly task and connection"@),
                )
            } else {
                None
            },
        },
    }
}

fn expect_port(spec: &NodeSpec, id: &str, kind: &str) -> (r: Result<(), NodeError>)
    ensures
        came_out(r, expected_port_fault(spec@.inputs, id@, kind@)),
{
    match find_port(&spec.inputs, id) {
        Some(port) => {
            if same_text(port.kind.as_str(), kind) {
                return Ok(());
            }
        },
        None => {},
    }
    Err(
        NodeError::Config(
            concat5("i2cTaskExecutor requires `", id, "` input of kind `", kind, "`"),
        ),
    )
}

fn validate_executor_ports(spec: &NodeSpec) -> (r: Result<(), NodeError>)
    ensures
        came_out(r, executor_port_fault(spec@.inputs)),
{
    match expect_port(spec, TASK_PORT, PACKET_PORT_KIND) {
        Ok(()) => {},
        Err(error) => {
            return Err(error);
        },
    }
    match expect_port(spec, CONNECTION_PORT, "ssh.connection.v1") {
        Ok(()) => {},
        Err(error) => {
            return Err(error);
        },
    }
    if spec.inputs.len() != 2 {
        return Err(NodeError::config("i2cTaskExecutor accepts exactly task and connection"));
    }
    Ok(())
}

pub struct I2cTaskExecutorFactory;

impl I2cTaskExecutorFactory {
    pub fn kind(&self) -> (r: &'static str)
        ensures
            r@ == "i2cTaskExecutor"@,
    {
        "i2cTaskExecutor"
    }

    pub fn instantiate(&self, spec: NodeSpec) -> (r: Result<I2cTaskExecutorNode, NodeError>)
        ensures
            match executor_port_fault(spec@.inputs) {
                Some(error) => failed(r, error),
                None => r is Ok && r->Ok_0.task is None && r->Ok_0.connection is None,
            },
    {
        match validate_executor_ports(&spec) {
            Ok(()) => Ok(I2cTaskExecutorNode { task: None, connection: None }),
            Err(error) => Err(error),
        }
    }
}

/// Executes tasks over a connection; it holds nothing else.
pub struct I2cTaskExecutorNode {
    pub task: Option<I2cTaskPacket>,
    pub connection: Option<Arc<SshConnection>>,
}

/// What an executor asks to be performed.
#[derive(Debug)]
pub enum I2cCommand {
    Read { connection: Arc<SshConnection>, request: I2cReadRequest },
    Write { connection: Arc<SshConnection>, request: I2cWriteRequest },
}

impl I2cTaskExecutorNode {
    /// Only tasks that passed their check are held.
    pub open spec fn wf(&self) -> bool {
        self.task is Some ==> self.task->Some_0.fault() is None
    }

    pub fn on_start(&mut self, rt: &mut NodeRuntime) -> (r: Result<(), NodeError>)
        ensures
            r is Ok,
            *final(self) == *old(self),
            final(rt)@ == old(rt)@.reported(
                NodeRuntimeState::Idle,
                "waiting for task and SSH connection"@,
            ),
    {
        rt.report_state(NodeRuntimeState::Idle, "waiting for task and SSH connection");
        Ok(())
    }

    /// Keeps a connection, or gives the document of a task, which is to be read.
    pub fn on_input(&mut self, port: &str, packet: DataPacket, rt: &mut NodeRuntime) -> (r: Result<
        Option<Arc<JsonValue>>,
        NodeError,
    >)
        requires
            old(self).wf(),
        ensures
            final(self).wf(),
            match packet {
                DataPacket::PacketData(document) => if port@ == TASK_PORT@ {
                    r == Ok::<Option<Arc<JsonValue>>, NodeError>(Some(document)) && *final(self)
                        == *old(self) && final(rt)@ == old(rt)@
                } else {
                    refused(*old(self), *final(self), r, old(rt)@, final(rt)@)
                },
                DataPacket::SshConnection(connection) => if port@ == CONNECTION_PORT@ {
                    &&& r == Ok::<Option<Arc<JsonValue>>, NodeError>(None)
                    &&& *final(self) == (I2cTaskExecutorNode {
                        connection: Some(connection),
                        ..*old(self)
                    })
                    &&& final(rt)@ == readied(*final(self), old(rt)@)
                } else {
                    refused(*old(self), *final(self), r, old(rt)@, final(rt)@)
                },
                _ => refused(*old(self), *final(self), r, old(rt)@, final(rt)@),
            },
    {
        match packet {
            DataPacket::PacketData(document) => {
                if same_text(port, TASK_PORT) {
                    return Ok(Some(document));
                }
            },
            DataPacket::SshConnection(connection) => {
                if same_text(port, CONNECTION_PORT) {
                    self.connection = Some(connection);
                    self.report_readiness(rt);
                    return Ok(None);
                }
            },
            _ => {},
        }
        Err(
            NodeError::precondition(
                "i2cTaskExecutor accepts only task PacketData and SSH connection",
            ),
        )
    }

    /// Keeps the task that a document reads as, where it passes its check; `parsed` is what it reads
    /// as, or why it does not read as a task.
    pub fn task_parsed(&mut self, parsed: Result<I2cTaskPacket, String>, rt: &mut NodeRuntime) -> (r:
        Result<(), NodeError>)
        requires
            old(self).wf(),
        ensures
            final(self).wf(),
            match parsed {
                Err(why) => failed(
                    r,
                    NodeErrorView::Precondition("invalid I2C task JSON: "@ + why@),
                ) && *final(self) == *old(self) && final(rt)@ == old(rt)@,
                Ok(task) => match task.fault() {
                    Some(fault) => failed(
                        r,
                        NodeErrorView::Precondition("invalid I2C task JSON: "@ + fault.text()),
                    ) && *final(self) == *old(self) && final(rt)@ == old(rt)@,
                    None => r is Ok && *final(self) == (I2cTaskExecutorNode {
                        task: Some(task),
                        ..*old(self)
                    }) && final(rt)@ == readied(*final(self), old(rt)@),
                },
            },
    {
        match parse_task(parsed) {
            Ok(task) => {
                self.task = Some(task);
            },
            Err(error) => {
                return Err(error);
            },
        }
        self.report_readiness(rt);
        Ok(())
    }

    fn report_readiness(&self, rt: &mut NodeRuntime)
        ensures
            final(rt)@ == readied(*self, old(rt)@),
    {
        if self.task.is_some() && self.connection.is_some() {
            rt.report_state(NodeRuntimeState::Ready, "I2C task is ready to execute");
        }
    }

    /// Begins to execute: a task and a connection are needed. Nothing else than a task that passed
    /// its check is ever performed.
    pub fn on_action(&mut self, action: NodeAction, rt: &mut NodeRuntime) -> (r: Result<
        I2cCommand,
        NodeError,
    >)
        requires
            old(self).wf(),
        ensures
            *final(self) == *old(self),
            final(rt)@ == old(rt)@,
            if action.custom() != Some("execute"@) {
                failed(r, NodeErrorView::UnsupportedAction(action.label()))
            } else {
                match (old(self).task, old(self).connection) {
                    (None, _) => failed(
                        r,
                        NodeErrorView::Precondition("i2cTaskExecutor execute requires task"@),
                    ),
                    (Some(_), None) => failed(
                        r,
                        NodeErrorView::Precondition(
                            "i2cTaskExecutor execute requires SSH connection"@,
                        ),
                    ),
                    (Some(task), Some(connection)) => if !old(rt)@.services.i2c_task_executor {
                        failed(r, service_missing("i2c_task_executor"@))
                    } else {
                        r is Ok && command_of(task, connection, r->Ok_0)
                    },
                }
            },
    {
        let execute: bool = match &action {
            NodeAction::Custom { name, .. } => same_text(name.as_str(), "execute"),
            _ => false,
        };
        if !execute {
            return Err(NodeError::unsupported(&action));
        }
        let task: &I2cTaskPacket = match &self.task {
            Some(task) => task,
            None => {
                return Err(NodeError::precondition("i2cTaskExecutor execute requires task"));
            },
        };
        let connection: &Arc<SshConnection> = match &self.connection {
            Some(connection) => connection,
            None => {
                return Err(
                    NodeError::precondition("i2cTaskExecutor execute requires SSH connection"),
                );
            },
        };
        match require_service(rt.services.i2c_task_executor, "i2c_task_executor") {
            Ok(()) => {},
            Err(error) => {
                return Err(error);
            },
        }
        match task.operation {
            TaskOperation::Read => Ok(
                I2cCommand::Read { connection: share(connection), request: task.read_request() },
            ),
            TaskOperation::GuardedWrite => Ok(
                I2cCommand::Write { connection: share(connection), request: task.write_request() },
            ),
        }
    }

    /// A read ended. A report that is not valid is a warning.
    pub fn read_finished(&self, reply: Result<I2cReadReport, String>, rt: &mut NodeRuntime) -> (r:
        Result<(), NodeError>)
        ensures
            match reply {
                Err(text) => failed(r, NodeErrorView::Execution(text@)) && final(rt)@ == old(rt)@,
                Ok(report) => if old(rt)@.accepts("readReport"@) {
                    r is Ok && final(rt)@ == old(rt)@.emitted(
                        "readReport"@,
                        PacketView::I2cReadReport(report),
                    ).reported(
                        if report.valid {
                            NodeRuntimeState::Ready
                        } else {
                            NodeRuntimeState::Warning
                        },
                        "I2C read completed"@,
                    )
                } else {
                    failed(r, channel_full()) && final(rt)@ == old(rt)@
                },
            },
    {
        let report: I2cReadReport = match reply {
            Ok(report) => report,
            Err(text) => {
                return Err(NodeError::Execution(text));
            },
        };
        let state: NodeRuntimeState = if report.valid {
            NodeRuntimeState::Ready
        } else {
            NodeRuntimeState::Warning
        };
        match rt.emit("readReport", DataPacket::I2cReadReport(Arc::new(report))) {
            Ok(()) => {},
            Err(error) => {
                return Err(error);
            },
        }
        rt.report_state(state, "I2C read completed");
        Ok(())
    }

    /// A guarded write ended. One that was not verified is an error.
    pub fn write_finished(
        &self,
        reply: Result<I2cExecutionReport, String>,
        rt: &mut NodeRuntime,
    ) -> (r: Result<(), NodeError>)
        ensures
            match reply {
                Err(text) => failed(r, NodeErrorView::Execution(text@)) && final(rt)@ == old(rt)@,
                Ok(report) => if old(rt)@.accepts("report"@) {
                    r is Ok && final(rt)@ == old(rt)@.emitted(
                        "report"@,
                        PacketView::I2cExecutionReport(report),
                    ).reported(
                        if report.final_verified {
                            NodeRuntimeState::Ready
                        } else {
                            NodeRuntimeState::Error
                        },
                        "I2C guarded write completed"@,
                    )
                } else {
                    failed(r, channel_full()) && final(rt)@ == old(rt)@
                },
            },
    {
        let report: I2cExecutionReport = match reply {
            Ok(report) => report,
            Err(text) => {
                return Err(NodeError::Execution(text));
            },
        };
        let state: NodeRuntimeState = if report.final_verified {
            NodeRuntimeState::Ready
        } else {
            NodeRuntimeState::Error
        };
        match rt.emit("report", DataPacket::I2cExecutionReport(Arc::new(report))) {
            Ok(()) => {},
            Err(error) => {
                return Err(error);
            },
        }
        rt.report_state(state, "I2C guarded write completed");
        Ok(())
    }

    /// Forgets the task and the connection.
    pub fn on_stop(&mut self, rt: &mut NodeRuntime) -> (r: Result<(), NodeError>)
        ensures
            r is Ok,
            final(self).task is None,
            final(self).connection is None,
            final(rt)@ == old(rt)@.reported(NodeRuntimeState::Idle, "stopped"@),
    {
        self.task = None;
        self.connection = None;
        rt.report_state(NodeRuntimeState::Idle, "stopped");
        Ok(())
    }
}

/// An executor that holds both a task and a connection reports that it is ready.
pub open spec fn readied(node: I2cTaskExecutorNode, rt: RuntimeView) -> RuntimeView {
    if node.task is Some && node.connection is Some {
        rt.reported(NodeRuntimeState::Ready, "I2C task is ready to execute"@)
    } else {
        rt
    }
}

/// A packet that an executor does not take.
pub open spec fn refused(
    before: I2cTaskExecutorNode,
    after: I2cTaskExecutorNode,
    r: Result<Option<Arc<JsonValue>>, NodeError>,
    rt: RuntimeView,
    rt_after: RuntimeView,
) -> bool {
    failed(
        r,
        NodeErrorView::Precondition(
            "i2cTaskExecutor accepts only task PacketData and SSH connection"@,
        ),
    ) && after == before && rt_after == rt
}

/// Whether a command performs a task over a connection.
pub open spec fn command_of(
    task: I2cTaskPacket,
    over: Arc<SshConnection>,
    command: I2cCommand,
) -> bool {
    match command {
        I2cCommand::Read { connection, request } => task.operation == TaskOperation::Read
            && connection == over && request.is_of(task),
        I2cCommand::Write { connection, request } => task.operation == TaskOperation::GuardedWrite
            && connection == over && request.is_of(task),
    }
}

/// The inputs of an encoder are on distinct ports.
pub proof fn law_encoder_inputs_are_distinct(
    inputs: Seq<InputView>,
    slots: Seq<MapSlot>,
    ports: Seq<PortView>,
)
    requires
        inputs_fault(inputs, slots, ports) is None,
    ensures
        forall|i: int, j: int|
            0 <= i < j < inputs.len() ==> (#[trigger] inputs[i]).port_id != (
            #[trigger] inputs[j]).port_id,
    decreases inputs.len(),
{
    if inputs.len() > 0 {
        let init = inputs.drop_last();
        law_encoder_inputs_are_distinct(init, slots, ports);
        lemma_input_index(init, inputs.last().port_id);
        assert forall|i: int, j: int| 0 <= i < j < inputs.len() implies (
        #[trigger] inputs[i]).port_id != (#[trigger] inputs[j]).port_id by {
            assert(inputs[i] == init[i]);
            if j < init.len() {
                assert(inputs[j] == init[j]);
            }
        }
    }
}

/// A task that an encoder gives out is taken as it is where it reads back as it was written.
pub proof fn law_encoded_task_is_taken(
    task: I2cTaskPacket,
    given: Result<I2cTaskPacket, NodeError>,
    taken: Result<I2cTaskPacket, NodeError>,
)
    requires
        task_checked(task, given),
        given is Ok,
        task_taken(Ok(given->Ok_0), taken),
    ensures
        taken == given,
        taken->Ok_0.fault() is None,
{
}

/// A task that carries the digest of its image is never refused for its digest.
pub proof fn law_sealed_task_keeps_its_seal(task: I2cTaskPacket)
    requires
        task.final_image_digest@ == sha256_hex_text(task.final_image@),
    ensures
        task.fault() != Some(crate::engine::i2c_task::I2cTaskFault::ImageDigest),
{
}

/// A task that passed its check never writes beyond its image, and its seal is the digest of the
/// image.
pub proof fn law_checked_task_stays_within_its_image(task: I2cTaskPacket, i: int)
    requires
        task.fault() is None,
        0 <= i < task.pages@.len(),
    ensures
        task.pages@[i].offset + task.pages@[i].bytes@.len() <= task.final_image@.len(),
        task.final_image_digest@ == sha256_hex_text(task.final_image@),
{
    assert(crate::engine::i2c_task::page_inside(
        task.pages@[i],
        task.final_image@.len(),
        task.target.write_cycle_ms,
    ));
}

} // verus!
