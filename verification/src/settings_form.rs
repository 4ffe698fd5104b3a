//! The editable text of the settings form: each field holds what the user
//! typed, an edit message replaces one field, and the integer fields are
//! read back with one error line per field that does not parse, and the
//! whole form is applied to the settings when every field parses and the
//! result keeps the settings' rules.

use crate::settings::{
    lemma_in_concat, settings_errors, Dimensions3, MaterialSettings, PrinterObstructionSettings, PrinterSettings,
    SlicerSettings, SlicingSettings,
};
use crate::text::{parse_unsigned, parsed_unsigned, trim, trimmed};
use vstd::prelude::*;

verus! {

/// The text of every field of the settings form.
#[derive(Clone, Debug)]
pub struct SettingsForm {
    pub layer_height_mm: String,
    pub voxel_x_mm: String,
    pub voxel_y_mm: String,
    pub voxel_z_mm: String,
    pub print_volume_x_mm: String,
    pub print_volume_y_mm: String,
    pub print_volume_z_mm: String,
    pub wall_count: String,
    pub infill_percentage: String,
    pub extrusion_width_mm: String,
    pub filament_diameter_mm: String,
    pub nozzle_temperature_c: String,
    pub bed_temperature_c: String,
    pub fan_speed_percent: String,
    pub global_z_offset_mm: String,
    pub printhead_clearance_height_mm: String,
    pub printhead_clearance_angle_degrees: String,
}

/// An edit of one form field: the field's new text.
#[derive(Clone, Debug)]
pub enum SettingsMessage {
    LayerHeight(String),
    VoxelX(String),
    VoxelY(String),
    VoxelZ(String),
    PrintVolumeX(String),
    PrintVolumeY(String),
    PrintVolumeZ(String),
    WallCount(String),
    InfillPercentage(String),
    ExtrusionWidth(String),
    FilamentDiameter(String),
    NozzleTemperature(String),
    BedTemperature(String),
    FanSpeed(String),
    GlobalZOffset(String),
    PrintheadClearanceHeight(String),
    PrintheadClearanceAngle(String),
}

/// The form after `message`: the one field it names holds its text, every
/// other field is unchanged.
pub open spec fn updated(form: SettingsForm, message: SettingsMessage) -> SettingsForm {
    match message {
        SettingsMessage::LayerHeight(v) => SettingsForm { layer_height_mm: v, ..form },
        SettingsMessage::VoxelX(v) => SettingsForm { voxel_x_mm: v, ..form },
        SettingsMessage::VoxelY(v) => SettingsForm { voxel_y_mm: v, ..form },
        SettingsMessage::VoxelZ(v) => SettingsForm { voxel_z_mm: v, ..form },
        SettingsMessage::PrintVolumeX(v) => SettingsForm { print_volume_x_mm: v, ..form },
        SettingsMessage::PrintVolumeY(v) => SettingsForm { print_volume_y_mm: v, ..form },
        SettingsMessage::PrintVolumeZ(v) => SettingsForm { print_volume_z_mm: v, ..form },
        SettingsMessage::WallCount(v) => SettingsForm { wall_count: v, ..form },
        SettingsMessage::InfillPercentage(v) => SettingsForm { infill_percentage: v, ..form },
        SettingsMessage::ExtrusionWidth(v) => SettingsForm { extrusion_width_mm: v, ..form },
        SettingsMessage::FilamentDiameter(v) => SettingsForm { filament_diameter_mm: v, ..form },
        SettingsMessage::NozzleTemperature(v) => SettingsForm { nozzle_temperature_c: v, ..form },
        SettingsMessage::BedTemperature(v) => SettingsForm { bed_temperature_c: v, ..form },
        SettingsMessage::FanSpeed(v) => SettingsForm { fan_speed_percent: v, ..form },
        SettingsMessage::GlobalZOffset(v) => SettingsForm { global_z_offset_mm: v, ..form },
        SettingsMessage::PrintheadClearanceHeight(v) => SettingsForm {
            printhead_clearance_height_mm: v,
            ..form
        },
        SettingsMessage::PrintheadClearanceAngle(v) => SettingsForm {
            printhead_clearance_angle_degrees: v,
            ..form
        },
    }
}

impl SettingsForm {
    /// Applies one edit to the form.
    pub fn update(&mut self, message: SettingsMessage)
        ensures
            *final(self) == updated(*old(self), message),
    {
        match message {
            SettingsMessage::LayerHeight(value) => self.layer_height_mm = value,
            SettingsMessage::VoxelX(value) => self.voxel_x_mm = value,
            SettingsMessage::VoxelY(value) => self.voxel_y_mm = value,
            SettingsMessage::VoxelZ(value) => self.voxel_z_mm = value,
            SettingsMessage::PrintVolumeX(value) => self.print_volume_x_mm = value,
            SettingsMessage::PrintVolumeY(value) => self.print_volume_y_mm = value,
            SettingsMessage::PrintVolumeZ(value) => self.print_volume_z_mm = value,
            SettingsMessage::WallCount(value) => self.wall_count = value,
            SettingsMessage::InfillPercentage(value) => self.infill_percentage = value,
            SettingsMessage::ExtrusionWidth(value) => self.extrusion_width_mm = value,
            SettingsMessage::FilamentDiameter(value) => self.filament_diameter_mm = value,
            SettingsMessage::NozzleTemperature(value) => self.nozzle_temperature_c = value,
            SettingsMessage::BedTemperature(value) => self.bed_temperature_c = value,
            SettingsMessage::FanSpeed(value) => self.fan_speed_percent = value,
            SettingsMessage::GlobalZOffset(value) => self.global_z_offset_mm = value,
            SettingsMessage::PrintheadClearanceHeight(value) => {
                self.printhead_clearance_height_mm = value;
            },
            SettingsMessage::PrintheadClearanceAngle(value) => {
                self.printhead_clearance_angle_degrees = value;
            },
        }
    }
}

/// The error line for a field named `name` whose text is not a number.
pub open spec fn invalid_number_message(name: Seq<char>) -> Seq<char> {
    name + " must be a valid number"@
}

/// The error lines as text.
pub open spec fn texts(errors: Seq<String>) -> Seq<Seq<char>> {
    errors.map_values(|e: String| e@)
}

/// Reads the trimmed `value` as an unsigned integer no greater than `max`.
/// When it does not parse, the error line for `name` is appended to
/// `errors` and the result is zero.
pub fn parse_value(value: &str, name: &str, errors: &mut Vec<String>, max: u64) -> (r: u64)
    ensures
        parsed_unsigned(trimmed(value@), max as nat) matches Some(n) ==> {
            &&& r == n
            &&& final(errors)@ == old(errors)@
        },
        parsed_unsigned(trimmed(value@), max as nat) is None ==> {
            &&& r == 0
            &&& texts(final(errors)@) == texts(old(errors)@).push(invalid_number_message(name@))
        },
{
    let text = trim(value);
    match parse_unsigned(text.as_str(), max) {
        Some(n) => n,
        None => {
            let mut message = String::from_str(name);
            message.append(" must be a valid number");
            let ghost before = errors@;
            errors.push(message);
            proof {
                assert(texts(errors@) =~= texts(before).push(invalid_number_message(name@)));
            }
            0
        },
    }
}

/// Reads a `usize` field (see `parse_value`).
pub fn parse_usize(value: &str, name: &str, errors: &mut Vec<String>) -> (r: usize)
    ensures
        parsed_unsigned(trimmed(value@), usize::MAX as nat) matches Some(n) ==> {
            &&& r == n
            &&& final(errors)@ == old(errors)@
        },
        parsed_unsigned(trimmed(value@), usize::MAX as nat) is None ==> {
            &&& r == 0
            &&& texts(final(errors)@) == texts(old(errors)@).push(invalid_number_message(name@))
        },
{
    parse_value(value, name, errors, usize::MAX as u64) as usize
}

/// Reads a `u16` field (see `parse_value`).
pub fn parse_u16(value: &str, name: &str, errors: &mut Vec<String>) -> (r: u16)
    ensures
        parsed_unsigned(trimmed(value@), u16::MAX as nat) matches Some(n) ==> {
            &&& r == n
            &&& final(errors)@ == old(errors)@
        },
        parsed_unsigned(trimmed(value@), u16::MAX as nat) is None ==> {
            &&& r == 0
            &&& texts(final(errors)@) == texts(old(errors)@).push(invalid_number_message(name@))
        },
{
    parse_value(value, name, errors, u16::MAX as u64) as u16
}

/// Reads a `u8` field (see `parse_value`).
pub fn parse_u8(value: &str, name: &str, errors: &mut Vec<String>) -> (r: u8)
    ensures
        parsed_unsigned(trimmed(value@), u8::MAX as nat) matches Some(n) ==> {
            &&& r == n
            &&& final(errors)@ == old(errors)@
        },
        parsed_unsigned(trimmed(value@), u8::MAX as nat) is None ==> {
            &&& r == 0
            &&& texts(final(errors)@) == texts(old(errors)@).push(invalid_number_message(name@))
        },
{
    parse_value(value, name, errors, u8::MAX as u64) as u8
}

/// The form's decimal fields as read by the caller: each the bit pattern of
/// the binary64 number that its trimmed text denotes, or absent where the
/// text is not a number.
#[derive(Clone, Copy, Debug)]
pub struct DecimalFields {
    pub layer_height: Option<u64>,
    pub voxel_x: Option<u64>,
    pub voxel_y: Option<u64>,
    pub voxel_z: Option<u64>,
    pub print_volume_x: Option<u64>,
    pub print_volume_y: Option<u64>,
    pub print_volume_z: Option<u64>,
    pub infill_percentage: Option<u64>,
    pub extrusion_width: Option<u64>,
    pub filament_diameter: Option<u64>,
    pub global_z_offset: Option<u64>,
    pub printhead_clearance_height: Option<u64>,
    pub printhead_clearance_angle: Option<u64>,
}

/// The error lines of one field: none when it was read, else the line for
/// `name`.
pub open spec fn field_error(name: Seq<char>, read: bool) -> Seq<Seq<char>> {
    if read {
        Seq::empty()
    } else {
        seq![invalid_number_message(name)]
    }
}

/// The error lines of a decimal field.
pub open spec fn decimal_error(name: Seq<char>, value: Option<u64>) -> Seq<Seq<char>> {
    field_error(name, value is Some)
}

/// The error lines of an integer field with text `text` and maximum `max`.
pub open spec fn integer_error(name: Seq<char>, text: Seq<char>, max: nat) -> Seq<Seq<char>> {
    field_error(name, parsed_unsigned(trimmed(text), max) is Some)
}

/// A decimal field's value, zero where it was not read.
pub open spec fn decimal_or_zero(value: Option<u64>) -> u64 {
    match value {
        Some(bits) => bits,
        None => 0,
    }
}

/// An integer field's value, zero where it does not parse.
pub open spec fn integer_or_zero(text: Seq<char>, max: nat) -> nat {
    match parsed_unsigned(trimmed(text), max) {
        Some(n) => n,
        None => 0,
    }
}

/// The error lines of the whole form, field by field in the form's order.
pub open spec fn form_errors(form: SettingsForm, d: DecimalFields) -> Seq<Seq<char>> {
    decimal_error("slicing.layer_height_mm"@, d.layer_height) + decimal_error(
        "field.voxel_size_mm.x"@,
        d.voxel_x,
    ) + decimal_error("field.voxel_size_mm.y"@, d.voxel_y) + decimal_error(
        "field.voxel_size_mm.z"@,
        d.voxel_z,
    ) + decimal_error("printer.print_volume_mm.x"@, d.print_volume_x) + decimal_error(
        "printer.print_volume_mm.y"@,
        d.print_volume_y,
    ) + decimal_error("printer.print_volume_mm.z"@, d.print_volume_z) + integer_error(
        "slicing.wall_count"@,
        form.wall_count@,
        usize::MAX as nat,
    ) + decimal_error("slicing.infill_percentage"@, d.infill_percentage) + decimal_error(
        "slicing.extrusion_width_mm"@,
        d.extrusion_width,
    ) + decimal_error("material.filament_diameter_mm"@, d.filament_diameter) + integer_error(
        "material.nozzle_temperature_c"@,
        form.nozzle_temperature_c@,
        u16::MAX as nat,
    ) + integer_error(
        "material.bed_temperature_c"@,
        form.bed_temperature_c@,
        u16::MAX as nat,
    ) + integer_error("material.fan_speed_percent"@, form.fan_speed_percent@, u8::MAX as nat)
        + decimal_error("slicing.global_z_offset_mm"@, d.global_z_offset) + decimal_error(
        "printer.obstruction.printhead_clearance_height_mm"@,
        d.printhead_clearance_height,
    ) + decimal_error(
        "printer.obstruction.printhead_clearance_angle_degrees"@,
        d.printhead_clearance_angle,
    )
}

/// The settings that the form describes: `base` with every form field
/// replaced by the field's value (zero where it was not read).
pub open spec fn form_candidate(form: SettingsForm, d: DecimalFields, base: SlicerSettings) -> SlicerSettings {
    SlicerSettings {
        slicing: SlicingSettings {
            layer_height_bits: decimal_or_zero(d.layer_height),
            voxel_size: Dimensions3 {
                x_bits: decimal_or_zero(d.voxel_x),
                y_bits: decimal_or_zero(d.voxel_y),
                z_bits: decimal_or_zero(d.voxel_z),
            },
            padding_voxels: base.slicing.padding_voxels,
            wall_count: integer_or_zero(form.wall_count@, usize::MAX as nat) as usize,
            extrusion_width_bits: decimal_or_zero(d.extrusion_width),
            infill_percentage_bits: decimal_or_zero(d.infill_percentage),
            global_z_offset_bits: decimal_or_zero(d.global_z_offset),
        },
        printer: PrinterSettings {
            print_volume: Dimensions3 {
                x_bits: decimal_or_zero(d.print_volume_x),
                y_bits: decimal_or_zero(d.print_volume_y),
                z_bits: decimal_or_zero(d.print_volume_z),
            },
            obstruction: PrinterObstructionSettings {
                printhead_clearance_height_bits: decimal_or_zero(d.printhead_clearance_height),
                printhead_clearance_angle_bits: decimal_or_zero(d.printhead_clearance_angle),
            },
        },
        material: MaterialSettings {
            filament_diameter_bits: decimal_or_zero(d.filament_diameter),
            nozzle_temperature_c: integer_or_zero(form.nozzle_temperature_c@, u16::MAX as nat) as u16,
            bed_temperature_c: integer_or_zero(form.bed_temperature_c@, u16::MAX as nat) as u16,
            fan_speed_percent: integer_or_zero(form.fan_speed_percent@, u8::MAX as nat) as u8,
        },
        field: base.field,
    }
}

/// A decimal field's value, with its error line appended where it was not
/// read.
fn take_decimal(value: Option<u64>, name: &str, errors: &mut Vec<String>) -> (r: u64)
    ensures
        r == decimal_or_zero(value),
        texts(final(errors)@) == texts(old(errors)@) + decimal_error(name@, value),
{
    match value {
        Some(bits) => {
            assert(texts(errors@) =~= texts(errors@) + decimal_error(name@, value));
            bits
        },
        None => {
            let mut message = String::from_str(name);
            message.append(" must be a valid number");
            let ghost before = errors@;
            errors.push(message);
            proof {
                assert(texts(errors@) =~= texts(before) + decimal_error(name@, value));
            }
            0
        },
    }
}

/// One parsed integer field's error lines, written as an append.
proof fn lemma_integer_step(before: Seq<Seq<char>>, after: Seq<Seq<char>>, name: Seq<char>, read: bool)
    requires
        read ==> after == before,
        !read ==> after == before.push(invalid_number_message(name)),
    ensures
        after == before + field_error(name, read),
{
    if read {
        assert(before + field_error(name, read) =~= before);
    } else {
        assert(before.push(invalid_number_message(name)) =~= before + field_error(name, read));
    }
}

/// A parsed integer field never exceeds its maximum.
proof fn lemma_parsed_within(text: Seq<char>, max: nat)
    ensures
        parsed_unsigned(trimmed(text), max) matches Some(n) ==> n <= max,
{
}

/// Each field of the settings that a fully read form describes comes from
/// its own form field: a decimal field's value, or the integer that the
/// trimmed text of an integer field spells; the settings that the form does
/// not hold (the padding and the field settings) stay as they were.
pub proof fn lemma_candidate_takes_each_field(form: SettingsForm, d: DecimalFields, base: SlicerSettings)
    requires
        form_errors(form, d).len() == 0,
    ensures
        ({
            let c = form_candidate(form, d, base);
            &&& Some(c.slicing.layer_height_bits) == d.layer_height
            &&& Some(c.slicing.voxel_size.x_bits) == d.voxel_x
            &&& Some(c.slicing.voxel_size.y_bits) == d.voxel_y
            &&& Some(c.slicing.voxel_size.z_bits) == d.voxel_z
            &&& Some(c.printer.print_volume.x_bits) == d.print_volume_x
            &&& Some(c.printer.print_volume.y_bits) == d.print_volume_y
            &&& Some(c.printer.print_volume.z_bits) == d.print_volume_z
            &&& Some(c.slicing.infill_percentage_bits) == d.infill_percentage
            &&& Some(c.slicing.extrusion_width_bits) == d.extrusion_width
            &&& Some(c.material.filament_diameter_bits) == d.filament_diameter
            &&& Some(c.slicing.global_z_offset_bits) == d.global_z_offset
            &&& Some(c.printer.obstruction.printhead_clearance_height_bits) == d.printhead_clearance_height
            &&& Some(c.printer.obstruction.printhead_clearance_angle_bits) == d.printhead_clearance_angle
            &&& parsed_unsigned(trimmed(form.wall_count@), usize::MAX as nat) == Some(c.slicing.wall_count as nat)
            &&& parsed_unsigned(trimmed(form.nozzle_temperature_c@), u16::MAX as nat) == Some(
                c.material.nozzle_temperature_c as nat,
            )
            &&& parsed_unsigned(trimmed(form.bed_temperature_c@), u16::MAX as nat) == Some(
                c.material.bed_temperature_c as nat,
            )
            &&& parsed_unsigned(trimmed(form.fan_speed_percent@), u8::MAX as nat) == Some(
                c.material.fan_speed_percent as nat,
            )
            &&& c.slicing.padding_voxels == base.slicing.padding_voxels
            &&& c.field == base.field
        }),
{
    lemma_parsed_within(form.wall_count@, usize::MAX as nat);
    lemma_parsed_within(form.nozzle_temperature_c@, u16::MAX as nat);
    lemma_parsed_within(form.bed_temperature_c@, u16::MAX as nat);
    lemma_parsed_within(form.fan_speed_percent@, u8::MAX as nat);
}

/// A field of the form fails to parse exactly when it has an error line.
pub proof fn lemma_form_errors_name_unread_fields(form: SettingsForm, d: DecimalFields)
    ensures
        form_errors(form, d).len() == 0 <==> {
            &&& d.layer_height is Some
            &&& d.voxel_x is Some
            &&& d.voxel_y is Some
            &&& d.voxel_z is Some
            &&& d.print_volume_x is Some
            &&& d.print_volume_y is Some
            &&& d.print_volume_z is Some
            &&& d.infill_percentage is Some
            &&& d.extrusion_width is Some
            &&& d.filament_diameter is Some
            &&& d.global_z_offset is Some
            &&& d.printhead_clearance_height is Some
            &&& d.printhead_clearance_angle is Some
            &&& parsed_unsigned(trimmed(form.wall_count@), usize::MAX as nat) is Some
            &&& parsed_unsigned(trimmed(form.nozzle_temperature_c@), u16::MAX as nat) is Some
            &&& parsed_unsigned(trimmed(form.bed_temperature_c@), u16::MAX as nat) is Some
            &&& parsed_unsigned(trimmed(form.fan_speed_percent@), u8::MAX as nat) is Some
        },
{
}

/// Each field of the form that cannot be read is reported with its own
/// line, naming the setting.
pub proof fn lemma_unread_fields_reported(form: SettingsForm, d: DecimalFields)
    ensures
        d.layer_height is None ==> form_errors(form, d).contains("slicing.layer_height_mm must be a valid number"@),
        d.voxel_x is None ==> form_errors(form, d).contains("field.voxel_size_mm.x must be a valid number"@),
        d.voxel_y is None ==> form_errors(form, d).contains("field.voxel_size_mm.y must be a valid number"@),
        d.voxel_z is None ==> form_errors(form, d).contains("field.voxel_size_mm.z must be a valid number"@),
        d.print_volume_x is None ==> form_errors(form, d).contains("printer.print_volume_mm.x must be a valid number"@),
        d.print_volume_y is None ==> form_errors(form, d).contains("printer.print_volume_mm.y must be a valid number"@),
        d.print_volume_z is None ==> form_errors(form, d).contains("printer.print_volume_mm.z must be a valid number"@),
        parsed_unsigned(trimmed(form.wall_count@), usize::MAX as nat) is None ==> form_errors(form, d).contains("slicing.wall_count must be a valid number"@),
        d.infill_percentage is None ==> form_errors(form, d).contains("slicing.infill_percentage must be a valid number"@),
        d.extrusion_width is None ==> form_errors(form, d).contains("slicing.extrusion_width_mm must be a valid number"@),
        d.filament_diameter is None ==> form_errors(form, d).contains("material.filament_diameter_mm must be a valid number"@),
        parsed_unsigned(trimmed(form.nozzle_temperature_c@), u16::MAX as nat) is None ==> form_errors(form, d).contains("material.nozzle_temperature_c must be a valid number"@),
        parsed_unsigned(trimmed(form.bed_temperature_c@), u16::MAX as nat) is None ==> form_errors(form, d).contains("material.bed_temperature_c must be a valid number"@),
        parsed_unsigned(trimmed(form.fan_speed_percent@), u8::MAX as nat) is None ==> form_errors(form, d).contains("material.fan_speed_percent must be a valid number"@),
        d.global_z_offset is None ==> form_errors(form, d).contains("slicing.global_z_offset_mm must be a valid number"@),
        d.printhead_clearance_height is None ==> form_errors(form, d).contains("printer.obstruction.printhead_clearance_height_mm must be a valid number"@),
        d.printhead_clearance_angle is None ==> form_errors(form, d).contains("printer.obstruction.printhead_clearance_angle_degrees must be a valid number"@),
{
    reveal_strlit(" must be a valid number");
    reveal_strlit("slicing.layer_height_mm");
    reveal_strlit("slicing.layer_height_mm must be a valid number");
    assert("slicing.layer_height_mm"@ + " must be a valid number"@ =~= "slicing.layer_height_mm must be a valid number"@);
    reveal_strlit("field.voxel_size_mm.x");
    reveal_strlit("field.voxel_size_mm.x must be a valid number");
    assert("field.voxel_size_mm.x"@ + " must be a valid number"@ =~= "field.voxel_size_mm.x must be a valid number"@);
    reveal_strlit("field.voxel_size_mm.y");
    reveal_strlit("field.voxel_size_mm.y must be a valid number");
    assert("field.voxel_size_mm.y"@ + " must be a valid number"@ =~= "field.voxel_size_mm.y must be a valid number"@);
    reveal_strlit("field.voxel_size_mm.z");
    reveal_strlit("field.voxel_size_mm.z must be a valid number");
    assert("field.voxel_size_mm.z"@ + " must be a valid number"@ =~= "field.voxel_size_mm.z must be a valid number"@);
    reveal_strlit("printer.print_volume_mm.x");
    reveal_strlit("printer.print_volume_mm.x must be a valid number");
    assert("printer.print_volume_mm.x"@ + " must be a valid number"@ =~= "printer.print_volume_mm.x must be a valid number"@);
    reveal_strlit("printer.print_volume_mm.y");
    reveal_strlit("printer.print_volume_mm.y must be a valid number");
    assert("printer.print_volume_mm.y"@ + " must be a valid number"@ =~= "printer.print_volume_mm.y must be a valid number"@);
    reveal_strlit("printer.print_volume_mm.z");
    reveal_strlit("printer.print_volume_mm.z must be a valid number");
    assert("printer.print_volume_mm.z"@ + " must be a valid number"@ =~= "printer.print_volume_mm.z must be a valid number"@);
    reveal_strlit("slicing.wall_count");
    reveal_strlit("slicing.wall_count must be a valid number");
    assert("slicing.wall_count"@ + " must be a valid number"@ =~= "slicing.wall_count must be a valid number"@);
    reveal_strlit("slicing.infill_percentage");
    reveal_strlit("slicing.infill_percentage must be a valid number");
    assert("slicing.infill_percentage"@ + " must be a valid number"@ =~= "slicing.infill_percentage must be a valid number"@);
    reveal_strlit("slicing.extrusion_width_mm");
    reveal_strlit("slicing.extrusion_width_mm must be a valid number");
    assert("slicing.extrusion_width_mm"@ + " must be a valid number"@ =~= "slicing.extrusion_width_mm must be a valid number"@);
    reveal_strlit("material.filament_diameter_mm");
    reveal_strlit("material.filament_diameter_mm must be a valid number");
    assert("material.filament_diameter_mm"@ + " must be a valid number"@ =~= "material.filament_diameter_mm must be a valid number"@);
    reveal_strlit("material.nozzle_temperature_c");
    reveal_strlit("material.nozzle_temperature_c must be a valid number");
    assert("material.nozzle_temperature_c"@ + " must be a valid number"@ =~= "material.nozzle_temperature_c must be a valid number"@);
    reveal_strlit("material.bed_temperature_c");
    reveal_strlit("material.bed_temperature_c must be a valid number");
    assert("material.bed_temperature_c"@ + " must be a valid number"@ =~= "material.bed_temperature_c must be a valid number"@);
    reveal_strlit("material.fan_speed_percent");
    reveal_strlit("material.fan_speed_percent must be a valid number");
    assert("material.fan_speed_percent"@ + " must be a valid number"@ =~= "material.fan_speed_percent must be a valid number"@);
    reveal_strlit("slicing.global_z_offset_mm");
    reveal_strlit("slicing.global_z_offset_mm must be a valid number");
    assert("slicing.global_z_offset_mm"@ + " must be a valid number"@ =~= "slicing.global_z_offset_mm must be a valid number"@);
    reveal_strlit("printer.obstruction.printhead_clearance_height_mm");
    reveal_strlit("printer.obstruction.printhead_clearance_height_mm must be a valid number");
    assert("printer.obstruction.printhead_clearance_height_mm"@ + " must be a valid number"@ =~= "printer.obstruction.printhead_clearance_height_mm must be a valid number"@);
    reveal_strlit("printer.obstruction.printhead_clearance_angle_degrees");
    reveal_strlit("printer.obstruction.printhead_clearance_angle_degrees must be a valid number");
    assert("printer.obstruction.printhead_clearance_angle_degrees"@ + " must be a valid number"@ =~= "printer.obstruction.printhead_clearance_angle_degrees must be a valid number"@);
    let parts = seq![
        decimal_error("slicing.layer_height_mm"@, d.layer_height),
        decimal_error("field.voxel_size_mm.x"@, d.voxel_x),
        decimal_error("field.voxel_size_mm.y"@, d.voxel_y),
        decimal_error("field.voxel_size_mm.z"@, d.voxel_z),
        decimal_error("printer.print_volume_mm.x"@, d.print_volume_x),
        decimal_error("printer.print_volume_mm.y"@, d.print_volume_y),
        decimal_error("printer.print_volume_mm.z"@, d.print_volume_z),
        integer_error("slicing.wall_count"@, form.wall_count@, usize::MAX as nat),
        decimal_error("slicing.infill_percentage"@, d.infill_percentage),
        decimal_error("slicing.extrusion_width_mm"@, d.extrusion_width),
        decimal_error("material.filament_diameter_mm"@, d.filament_diameter),
        integer_error("material.nozzle_temperature_c"@, form.nozzle_temperature_c@, u16::MAX as nat),
        integer_error("material.bed_temperature_c"@, form.bed_temperature_c@, u16::MAX as nat),
        integer_error("material.fan_speed_percent"@, form.fan_speed_percent@, u8::MAX as nat),
        decimal_error("slicing.global_z_offset_mm"@, d.global_z_offset),
        decimal_error("printer.obstruction.printhead_clearance_height_mm"@, d.printhead_clearance_height),
        decimal_error("printer.obstruction.printhead_clearance_angle_degrees"@, d.printhead_clearance_angle),
    ];
    assert(form_errors(form, d) == parts[0] + parts[1] + parts[2] + parts[3] + parts[4] + parts[5] + parts[6] + parts[7] + parts[8] + parts[9] + parts[10] + parts[11] + parts[12] + parts[13] + parts[14] + parts[15] + parts[16]);
    assert forall|x: Seq<char>| parts[0].contains(x) || parts[1].contains(x) || parts[2].contains(x) || parts[3].contains(x) || parts[4].contains(x) || parts[5].contains(x) || parts[6].contains(x) || parts[7].contains(x) || parts[8].contains(x) || parts[9].contains(x) || parts[10].contains(x) || parts[11].contains(x) || parts[12].contains(x) || parts[13].contains(x) || parts[14].contains(x) || parts[15].contains(x) || parts[16].contains(x) implies #[trigger] form_errors(form, d).contains(x) by {
        lemma_in_concat(parts[0], parts[1], x);
        lemma_in_concat(parts[0] + parts[1], parts[2], x);
        lemma_in_concat(parts[0] + parts[1] + parts[2], parts[3], x);
        lemma_in_concat(parts[0] + parts[1] + parts[2] + parts[3], parts[4], x);
        lemma_in_concat(parts[0] + parts[1] + parts[2] + parts[3] + parts[4], parts[5], x);
        lemma_in_concat(parts[0] + parts[1] + parts[2] + parts[3] + parts[4] + parts[5], parts[6], x);
        lemma_in_concat(parts[0] + parts[1] + parts[2] + parts[3] + parts[4] + parts[5] + parts[6], parts[7], x);
        lemma_in_concat(parts[0] + parts[1] + parts[2] + parts[3] + parts[4] + parts[5] + parts[6] + parts[7], parts[8], x);
        lemma_in_concat(parts[0] + parts[1] + parts[2] + parts[3] + parts[4] + parts[5] + parts[6] + parts[7] + parts[8], parts[9], x);
        lemma_in_concat(parts[0] + parts[1] + parts[2] + parts[3] + parts[4] + parts[5] + parts[6] + parts[7] + parts[8] + parts[9], parts[10], x);
        lemma_in_concat(parts[0] + parts[1] + parts[2] + parts[3] + parts[4] + parts[5] + parts[6] + parts[7] + parts[8] + parts[9] + parts[10], parts[11], x);
        lemma_in_concat(parts[0] + parts[1] + parts[2] + parts[3] + parts[4] + parts[5] + parts[6] + parts[7] + parts[8] + parts[9] + parts[10] + parts[11], parts[12], x);
        lemma_in_concat(parts[0] + parts[1] + parts[2] + parts[3] + parts[4] + parts[5] + parts[6] + parts[7] + parts[8] + parts[9] + parts[10] + parts[11] + parts[12], parts[13], x);
        lemma_in_concat(parts[0] + parts[1] + parts[2] + parts[3] + parts[4] + parts[5] + parts[6] + parts[7] + parts[8] + parts[9] + parts[10] + parts[11] + parts[12] + parts[13], parts[14], x);
        lemma_in_concat(parts[0] + parts[1] + parts[2] + parts[3] + parts[4] + parts[5] + parts[6] + parts[7] + parts[8] + parts[9] + parts[10] + parts[11] + parts[12] + parts[13] + parts[14], parts[15], x);
        lemma_in_concat(parts[0] + parts[1] + parts[2] + parts[3] + parts[4] + parts[5] + parts[6] + parts[7] + parts[8] + parts[9] + parts[10] + parts[11] + parts[12] + parts[13] + parts[14] + parts[15], parts[16], x);
    }
    assert(parts[0].len() > 0 ==> parts[0].contains(parts[0][0]));
    assert(parts[1].len() > 0 ==> parts[1].contains(parts[1][0]));
    assert(parts[2].len() > 0 ==> parts[2].contains(parts[2][0]));
    assert(parts[3].len() > 0 ==> parts[3].contains(parts[3][0]));
    assert(parts[4].len() > 0 ==> parts[4].contains(parts[4][0]));
    assert(parts[5].len() > 0 ==> parts[5].contains(parts[5][0]));
    assert(parts[6].len() > 0 ==> parts[6].contains(parts[6][0]));
    assert(parts[7].len() > 0 ==> parts[7].contains(parts[7][0]));
    assert(parts[8].len() > 0 ==> parts[8].contains(parts[8][0]));
    assert(parts[9].len() > 0 ==> parts[9].contains(parts[9][0]));
    assert(parts[10].len() > 0 ==> parts[10].contains(parts[10][0]));
    assert(parts[11].len() > 0 ==> parts[11].contains(parts[11][0]));
    assert(parts[12].len() > 0 ==> parts[12].contains(parts[12][0]));
    assert(parts[13].len() > 0 ==> parts[13].contains(parts[13][0]));
    assert(parts[14].len() > 0 ==> parts[14].contains(parts[14][0]));
    assert(parts[15].len() > 0 ==> parts[15].contains(parts[15][0]));
    assert(parts[16].len() > 0 ==> parts[16].contains(parts[16][0]));
}

impl SettingsForm {
    /// Applies the form to `settings`, given its decimal fields as read by
    /// the caller. Fields that do not parse give their error lines, in the
    /// form's order, and leave `settings` as it was; when all parse, the
    /// settings that the form describes are checked, and either replace
    /// `settings` or are refused with their rule errors.
    pub fn apply_parsed(&self, decimals: DecimalFields, settings: &mut SlicerSettings) -> (r: Result<
        (),
        Vec<String>,
    >)
        ensures
            form_errors(*self, decimals).len() > 0 ==> (r matches Err(e) && texts(e@) == form_errors(
                *self,
                decimals,
            )),
            form_errors(*self, decimals).len() == 0 ==> (r is Ok <==> settings_errors(
                form_candidate(*self, decimals, *old(settings)),
            ).len() == 0),
            form_errors(*self, decimals).len() == 0 ==> (r matches Err(e) ==> texts(e@)
                == settings_errors(form_candidate(*self, decimals, *old(settings)))),
            r is Ok ==> *final(settings) == form_candidate(*self, decimals, *old(settings)),
            r is Err ==> *final(settings) == *old(settings),
            r is Ok ==> {
                &&& decimals.layer_height == Some(final(settings).slicing.layer_height_bits)
                &&& decimals.voxel_x == Some(final(settings).slicing.voxel_size.x_bits)
                &&& decimals.voxel_y == Some(final(settings).slicing.voxel_size.y_bits)
                &&& decimals.voxel_z == Some(final(settings).slicing.voxel_size.z_bits)
                &&& decimals.print_volume_x == Some(final(settings).printer.print_volume.x_bits)
                &&& decimals.print_volume_y == Some(final(settings).printer.print_volume.y_bits)
                &&& decimals.print_volume_z == Some(final(settings).printer.print_volume.z_bits)
                &&& decimals.infill_percentage == Some(final(settings).slicing.infill_percentage_bits)
                &&& decimals.extrusion_width == Some(final(settings).slicing.extrusion_width_bits)
                &&& decimals.filament_diameter == Some(final(settings).material.filament_diameter_bits)
                &&& decimals.global_z_offset == Some(final(settings).slicing.global_z_offset_bits)
                &&& decimals.printhead_clearance_height == Some(
                    final(settings).printer.obstruction.printhead_clearance_height_bits,
                )
                &&& decimals.printhead_clearance_angle == Some(
                    final(settings).printer.obstruction.printhead_clearance_angle_bits,
                )
                &&& parsed_unsigned(trimmed(self.wall_count@), usize::MAX as nat) == Some(
                    final(settings).slicing.wall_count as nat,
                )
                &&& parsed_unsigned(trimmed(self.nozzle_temperature_c@), u16::MAX as nat) == Some(
                    final(settings).material.nozzle_temperature_c as nat,
                )
                &&& parsed_unsigned(trimmed(self.bed_temperature_c@), u16::MAX as nat) == Some(
                    final(settings).material.bed_temperature_c as nat,
                )
                &&& parsed_unsigned(trimmed(self.fan_speed_percent@), u8::MAX as nat) == Some(
                    final(settings).material.fan_speed_percent as nat,
                )
            },
    {
        proof {
            lemma_form_errors_name_unread_fields(*self, decimals);
            if form_errors(*self, decimals).len() == 0 {
                lemma_candidate_takes_each_field(*self, decimals, *old(settings));
            }
        }
        let mut errors: Vec<String> = Vec::new();
        let mut parsed: SlicerSettings = *settings;
        let ghost e0 = texts(errors@);
        assert(e0 =~= Seq::<Seq<char>>::empty());
        parsed.slicing.layer_height_bits = take_decimal(decimals.layer_height, "slicing.layer_height_mm", &mut errors);
        parsed.slicing.voxel_size.x_bits = take_decimal(decimals.voxel_x, "field.voxel_size_mm.x", &mut errors);
        parsed.slicing.voxel_size.y_bits = take_decimal(decimals.voxel_y, "field.voxel_size_mm.y", &mut errors);
        parsed.slicing.voxel_size.z_bits = take_decimal(decimals.voxel_z, "field.voxel_size_mm.z", &mut errors);
        parsed.printer.print_volume.x_bits = take_decimal(
            decimals.print_volume_x,
            "printer.print_volume_mm.x",
            &mut errors,
        );
        parsed.printer.print_volume.y_bits = take_decimal(
            decimals.print_volume_y,
            "printer.print_volume_mm.y",
            &mut errors,
        );
        parsed.printer.print_volume.z_bits = take_decimal(
            decimals.print_volume_z,
            "printer.print_volume_mm.z",
            &mut errors,
        );
        let ghost e1 = texts(errors@);
        parsed.slicing.wall_count = parse_usize(self.wall_count.as_str(), "slicing.wall_count", &mut errors);
        proof {
            lemma_integer_step(
                e1,
                texts(errors@),
                "slicing.wall_count"@,
                parsed_unsigned(trimmed(self.wall_count@), usize::MAX as nat) is Some,
            );
        }
        parsed.slicing.infill_percentage_bits = take_decimal(
            decimals.infill_percentage,
            "slicing.infill_percentage",
            &mut errors,
        );
        parsed.slicing.extrusion_width_bits = take_decimal(
            decimals.extrusion_width,
            "slicing.extrusion_width_mm",
            &mut errors,
        );
        parsed.material.filament_diameter_bits = take_decimal(
            decimals.filament_diameter,
            "material.filament_diameter_mm",
            &mut errors,
        );
        let ghost e2 = texts(errors@);
        parsed.material.nozzle_temperature_c = parse_u16(
            self.nozzle_temperature_c.as_str(),
            "material.nozzle_temperature_c",
            &mut errors,
        );
        proof {
            lemma_integer_step(
                e2,
                texts(errors@),
                "material.nozzle_temperature_c"@,
                parsed_unsigned(trimmed(self.nozzle_temperature_c@), u16::MAX as nat) is Some,
            );
        }
        let ghost e3 = texts(errors@);
        parsed.material.bed_temperature_c = parse_u16(
            self.bed_temperature_c.as_str(),
            "material.bed_temperature_c",
            &mut errors,
        );
        proof {
            lemma_integer_step(
                e3,
                texts(errors@),
                "material.bed_temperature_c"@,
                parsed_unsigned(trimmed(self.bed_temperature_c@), u16::MAX as nat) is Some,
            );
        }
        let ghost e4 = texts(errors@);
        parsed.material.fan_speed_percent = parse_u8(
            self.fan_speed_percent.as_str(),
            "material.fan_speed_percent",
            &mut errors,
        );
        proof {
            lemma_integer_step(
                e4,
                texts(errors@),
                "material.fan_speed_percent"@,
                parsed_unsigned(trimmed(self.fan_speed_percent@), u8::MAX as nat) is Some,
            );
        }
        parsed.slicing.global_z_offset_bits = take_decimal(
            decimals.global_z_offset,
            "slicing.global_z_offset_mm",
            &mut errors,
        );
        parsed.printer.obstruction.printhead_clearance_height_bits = take_decimal(
            decimals.printhead_clearance_height,
            "printer.obstruction.printhead_clearance_height_mm",
            &mut errors,
        );
        parsed.printer.obstruction.printhead_clearance_angle_bits = take_decimal(
            decimals.printhead_clearance_angle,
            "printer.obstruction.printhead_clearance_angle_degrees",
            &mut errors,
        );
        assert(texts(errors@) =~= form_errors(*self, decimals));
        assert(parsed == form_candidate(*self, decimals, *old(settings)));
        if errors.len() == 0 {
            match parsed.validate() {
                Ok(()) => {
                    *settings = parsed;
                    Ok(())
                },
                Err(validation_errors) => Err(validation_errors),
            }
        } else {
            Err(errors)
        }
    }
}

} // verus!
