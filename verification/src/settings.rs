//! The slicer's user settings, their defaults, and the rules that a valid
//! set of settings keeps. Decimal settings are held as the bit patterns of
//! their binary64 values.

use crate::binary64::{
    f64_bits_positive_finite, finite, in_closed_range_from_zero, in_half_open_range_from_zero, is_finite,
    non_negative, non_negative_finite, positive_finite,
};
use crate::config::FieldMethod;
use crate::settings_form::texts;
use vstd::prelude::*;

verus! {

/// The bit pattern of `100.0`.
pub const HUNDRED_BITS: u64 = 0x4059_0000_0000_0000;

/// The bit pattern of `90.0`.
pub const NINETY_BITS: u64 = 0x4056_8000_0000_0000;

/// Three lengths along x, y and z (binary64 bit patterns).
#[derive(Clone, Copy, Debug, PartialEq, Eq, Structural)]
pub struct Dimensions3 {
    pub x_bits: u64,
    pub y_bits: u64,
    pub z_bits: u64,
}

impl Dimensions3 {
    /// The same length along every axis.
    pub fn uniform(bits: u64) -> (r: Self)
        ensures
            r == (Dimensions3 { x_bits: bits, y_bits: bits, z_bits: bits }),
    {
        Dimensions3 { x_bits: bits, y_bits: bits, z_bits: bits }
    }
}

/// How layers are cut.
#[derive(Clone, Copy, Debug, PartialEq, Eq, Structural)]
pub struct SlicingSettings {
    pub layer_height_bits: u64,
    pub voxel_size: Dimensions3,
    pub padding_voxels: usize,
    pub wall_count: usize,
    pub extrusion_width_bits: u64,
    pub infill_percentage_bits: u64,
    pub global_z_offset_bits: u64,
}

/// The printhead's clearance above unreached material.
#[derive(Clone, Copy, Debug, PartialEq, Eq, Structural)]
pub struct PrinterObstructionSettings {
    pub printhead_clearance_height_bits: u64,
    pub printhead_clearance_angle_bits: u64,
}

/// The printer's build volume and clearance.
#[derive(Clone, Copy, Debug, PartialEq, Eq, Structural)]
pub struct PrinterSettings {
    pub print_volume: Dimensions3,
    pub obstruction: PrinterObstructionSettings,
}

/// The filament and its temperatures.
#[derive(Clone, Copy, Debug, PartialEq, Eq, Structural)]
pub struct MaterialSettings {
    pub filament_diameter_bits: u64,
    pub nozzle_temperature_c: u16,
    pub bed_temperature_c: u16,
    pub fan_speed_percent: u8,
}

/// How the layer field is computed.
#[derive(Clone, Copy, Debug, PartialEq, Eq, Structural)]
pub struct FieldSettings {
    pub method: FieldMethod,
    pub anisotropic_rate: Dimensions3,
}

/// All user settings.
#[derive(Clone, Copy, Debug, PartialEq, Eq, Structural)]
pub struct SlicerSettings {
    pub slicing: SlicingSettings,
    pub printer: PrinterSettings,
    pub material: MaterialSettings,
    pub field: FieldSettings,
}

/// The default settings: 0.25 mm layers, 0.4 mm voxels, 3 voxels of
/// padding, 6 walls 0.45 mm wide, 11.25 % infill, no Z offset; a 256 mm
/// cubic build volume with a 5 mm, 55 degree printhead clearance; 1.75 mm
/// filament at 215 C on a 60 C bed with the fan at 100 %; trapezoid field
/// propagation with anisotropic rates 3.7, 3.7 and 1.
pub open spec fn default_settings() -> SlicerSettings {
    SlicerSettings {
        slicing: SlicingSettings {
            layer_height_bits: 0x3fd0_0000_0000_0000,
            voxel_size: Dimensions3 {
                x_bits: 0x3fd9_9999_9999_999a,
                y_bits: 0x3fd9_9999_9999_999a,
                z_bits: 0x3fd9_9999_9999_999a,
            },
            padding_voxels: 3,
            wall_count: 6,
            extrusion_width_bits: 0x3fdc_cccc_cccc_cccd,
            infill_percentage_bits: 0x4026_8000_0000_0000,
            global_z_offset_bits: 0,
        },
        printer: PrinterSettings {
            print_volume: Dimensions3 {
                x_bits: 0x4070_0000_0000_0000,
                y_bits: 0x4070_0000_0000_0000,
                z_bits: 0x4070_0000_0000_0000,
            },
            obstruction: PrinterObstructionSettings {
                printhead_clearance_height_bits: 0x4014_0000_0000_0000,
                printhead_clearance_angle_bits: 0x404b_8000_0000_0000,
            },
        },
        material: MaterialSettings {
            filament_diameter_bits: 0x3ffc_0000_0000_0000,
            nozzle_temperature_c: 215,
            bed_temperature_c: 60,
            fan_speed_percent: 100,
        },
        field: FieldSettings {
            method: FieldMethod::Trapezoid,
            anisotropic_rate: Dimensions3 {
                x_bits: 0x400d_9999_9999_999a,
                y_bits: 0x400d_9999_9999_999a,
                z_bits: 0x3ff0_0000_0000_0000,
            },
        },
    }
}

impl Default for SlicerSettings {
    fn default() -> (r: Self)
        ensures
            r == default_settings(),
    {
        SlicerSettings {
            slicing: SlicingSettings {
                layer_height_bits: 0x3fd0_0000_0000_0000,
                voxel_size: Dimensions3::uniform(0x3fd9_9999_9999_999a),
                padding_voxels: 3,
                wall_count: 6,
                extrusion_width_bits: 0x3fdc_cccc_cccc_cccd,
                infill_percentage_bits: 0x4026_8000_0000_0000,
                global_z_offset_bits: 0,
            },
            printer: PrinterSettings {
                print_volume: Dimensions3::uniform(0x4070_0000_0000_0000),
                obstruction: PrinterObstructionSettings {
                    printhead_clearance_height_bits: 0x4014_0000_0000_0000,
                    printhead_clearance_angle_bits: 0x404b_8000_0000_0000,
                },
            },
            material: MaterialSettings {
                filament_diameter_bits: 0x3ffc_0000_0000_0000,
                nozzle_temperature_c: 215,
                bed_temperature_c: 60,
                fan_speed_percent: 100,
            },
            field: FieldSettings {
                method: FieldMethod::Trapezoid,
                anisotropic_rate: Dimensions3 {
                    x_bits: 0x400d_9999_9999_999a,
                    y_bits: 0x400d_9999_9999_999a,
                    z_bits: 0x3ff0_0000_0000_0000,
                },
            },
        }
    }
}

/// The error line for a value `name` that must be finite and positive.
pub open spec fn positive_errors(name: Seq<char>, bits: u64) -> Seq<Seq<char>> {
    if f64_bits_positive_finite(bits) {
        Seq::empty()
    } else {
        seq![name + " must be finite and greater than zero"@]
    }
}

/// The error line for a value `name` that must be finite.
pub open spec fn finite_errors(name: Seq<char>, bits: u64) -> Seq<Seq<char>> {
    if is_finite(bits) {
        Seq::empty()
    } else {
        seq![name + " must be finite"@]
    }
}

/// The error line for a value `name` that must be finite and not negative.
pub open spec fn non_negative_errors(name: Seq<char>, bits: u64) -> Seq<Seq<char>> {
    if non_negative_finite(bits) {
        Seq::empty()
    } else {
        seq![name + " must be finite and greater than or equal to zero"@]
    }
}

/// The error line `message` when `failed`.
pub open spec fn rule_errors(failed: bool, message: Seq<char>) -> Seq<Seq<char>> {
    if failed {
        seq![message]
    } else {
        Seq::empty()
    }
}

/// The error lines for dimensions `name` whose three values must be positive.
pub open spec fn dimensions_errors(name: Seq<char>, d: Dimensions3) -> Seq<Seq<char>> {
    positive_errors(name + ".x"@, d.x_bits) + positive_errors(name + ".y"@, d.y_bits) + positive_errors(
        name + ".z"@,
        d.z_bits,
    )
}

/// The error lines of the slicing settings, in order.
pub open spec fn slicing_errors(s: SlicingSettings) -> Seq<Seq<char>> {
    positive_errors("slicing.layer_height_mm"@, s.layer_height_bits) + dimensions_errors(
        "slicing.voxel_size_mm"@,
        s.voxel_size,
    ) + rule_errors(s.wall_count == 0, "slicing.wall_count must be greater than zero"@) + positive_errors(
        "slicing.extrusion_width_mm"@,
        s.extrusion_width_bits,
    ) + finite_errors("slicing.global_z_offset_mm"@, s.global_z_offset_bits) + rule_errors(
        !in_closed_range_from_zero(s.infill_percentage_bits, HUNDRED_BITS),
        "slicing.infill_percentage must be between 0 and 100"@,
    )
}

/// The error lines of the printer settings, in order.
pub open spec fn printer_errors(p: PrinterSettings) -> Seq<Seq<char>> {
    dimensions_errors("printer.print_volume_mm"@, p.print_volume) + non_negative_errors(
        "printer.obstruction.printhead_clearance_height_mm"@,
        p.obstruction.printhead_clearance_height_bits,
    ) + rule_errors(
        !in_half_open_range_from_zero(p.obstruction.printhead_clearance_angle_bits, NINETY_BITS),
        "printer.obstruction.printhead_clearance_angle_degrees must be in [0, 90)"@,
    )
}

/// The error lines of the material settings, in order.
pub open spec fn material_errors(m: MaterialSettings) -> Seq<Seq<char>> {
    positive_errors("material.filament_diameter_mm"@, m.filament_diameter_bits) + rule_errors(
        m.fan_speed_percent > 100,
        "material.fan_speed_percent must be between 0 and 100"@,
    )
}

/// Every rule the settings break, as error lines in the order the rules
/// are checked: slicing, printer, material, then field settings.
pub open spec fn settings_errors(s: SlicerSettings) -> Seq<Seq<char>> {
    slicing_errors(s.slicing) + printer_errors(s.printer) + material_errors(s.material) + dimensions_errors(
        "field.anisotropic_rate"@,
        s.field.anisotropic_rate,
    )
}

fn push_line(errors: &mut Vec<String>, line: String)
    ensures
        texts(final(errors)@) == texts(old(errors)@).push(line@),
{
    let ghost before = errors@;
    errors.push(line);
    assert(texts(errors@) =~= texts(before).push(line@));
}

fn push_positive(errors: &mut Vec<String>, name: &str, bits: u64)
    ensures
        texts(final(errors)@) == texts(old(errors)@) + positive_errors(name@, bits),
{
    if !positive_finite(bits) {
        let mut line = String::from_str(name);
        line.append(" must be finite and greater than zero");
        push_line(errors, line);
    }
    assert(texts(errors@) =~= texts(old(errors)@) + positive_errors(name@, bits));
}

fn push_finite(errors: &mut Vec<String>, name: &str, bits: u64)
    ensures
        texts(final(errors)@) == texts(old(errors)@) + finite_errors(name@, bits),
{
    if !finite(bits) {
        let mut line = String::from_str(name);
        line.append(" must be finite");
        push_line(errors, line);
    }
    assert(texts(errors@) =~= texts(old(errors)@) + finite_errors(name@, bits));
}

fn push_non_negative(errors: &mut Vec<String>, name: &str, bits: u64)
    ensures
        texts(final(errors)@) == texts(old(errors)@) + non_negative_errors(name@, bits),
{
    if !non_negative(bits) {
        let mut line = String::from_str(name);
        line.append(" must be finite and greater than or equal to zero");
        push_line(errors, line);
    }
    assert(texts(errors@) =~= texts(old(errors)@) + non_negative_errors(name@, bits));
}

fn push_rule(errors: &mut Vec<String>, failed: bool, message: &str)
    ensures
        texts(final(errors)@) == texts(old(errors)@) + rule_errors(failed, message@),
{
    if failed {
        push_line(errors, String::from_str(message));
    }
    assert(texts(errors@) =~= texts(old(errors)@) + rule_errors(failed, message@));
}

fn suffixed_name(name: &str, suffix: &str) -> (r: String)
    ensures
        r@ == name@ + suffix@,
{
    let mut text = String::from_str(name);
    text.append(suffix);
    text
}

impl Dimensions3 {
    fn validate_positive_into(self, errors: &mut Vec<String>, name: &str)
        ensures
            texts(final(errors)@) == texts(old(errors)@) + dimensions_errors(name@, self),
    {
        push_positive(errors, suffixed_name(name, ".x").as_str(), self.x_bits);
        push_positive(errors, suffixed_name(name, ".y").as_str(), self.y_bits);
        push_positive(errors, suffixed_name(name, ".z").as_str(), self.z_bits);
        assert(texts(errors@) =~= texts(old(errors)@) + dimensions_errors(name@, self));
    }
}

impl SlicingSettings {
    fn validate_into(&self, errors: &mut Vec<String>)
        ensures
            texts(final(errors)@) == texts(old(errors)@) + slicing_errors(*self),
    {
        push_positive(errors, "slicing.layer_height_mm", self.layer_height_bits);
        self.voxel_size.validate_positive_into(errors, "slicing.voxel_size_mm");
        push_rule(errors, self.wall_count == 0, "slicing.wall_count must be greater than zero");
        push_positive(errors, "slicing.extrusion_width_mm", self.extrusion_width_bits);
        push_finite(errors, "slicing.global_z_offset_mm", self.global_z_offset_bits);
        let infill = self.infill_percentage_bits;
        push_rule(
            errors,
            !(infill <= HUNDRED_BITS || infill == 0x8000_0000_0000_0000),
            "slicing.infill_percentage must be between 0 and 100",
        );
        assert(texts(errors@) =~= texts(old(errors)@) + slicing_errors(*self));
    }
}

impl PrinterSettings {
    fn validate_into(&self, errors: &mut Vec<String>)
        ensures
            texts(final(errors)@) == texts(old(errors)@) + printer_errors(*self),
    {
        self.print_volume.validate_positive_into(errors, "printer.print_volume_mm");
        push_non_negative(
            errors,
            "printer.obstruction.printhead_clearance_height_mm",
            self.obstruction.printhead_clearance_height_bits,
        );
        let angle = self.obstruction.printhead_clearance_angle_bits;
        push_rule(
            errors,
            !(angle < NINETY_BITS || angle == 0x8000_0000_0000_0000),
            "printer.obstruction.printhead_clearance_angle_degrees must be in [0, 90)",
        );
        assert(texts(errors@) =~= texts(old(errors)@) + printer_errors(*self));
    }
}

impl MaterialSettings {
    fn validate_into(&self, errors: &mut Vec<String>)
        ensures
            texts(final(errors)@) == texts(old(errors)@) + material_errors(*self),
    {
        push_positive(errors, "material.filament_diameter_mm", self.filament_diameter_bits);
        push_rule(errors, self.fan_speed_percent > 100, "material.fan_speed_percent must be between 0 and 100");
        assert(texts(errors@) =~= texts(old(errors)@) + material_errors(*self));
    }
}

impl FieldSettings {
    fn validate_into(&self, errors: &mut Vec<String>)
        ensures
            texts(final(errors)@) == texts(old(errors)@) + dimensions_errors("field.anisotropic_rate"@, self.anisotropic_rate),
    {
        self.anisotropic_rate.validate_positive_into(errors, "field.anisotropic_rate");
    }
}

/// Every rule of valid settings, stated on the values themselves: a
/// positive finite layer height, voxel size (each axis), extrusion width,
/// print volume (each axis), filament diameter and anisotropic rate (each
/// axis); at least one wall; a finite Z offset; an infill percentage in
/// `[0, 100]`; a finite non-negative clearance height; a clearance angle in
/// `[0, 90)`; and a fan speed of at most 100 %.
pub open spec fn keeps_settings_rules(s: SlicerSettings) -> bool {
    &&& f64_bits_positive_finite(s.slicing.layer_height_bits)
    &&& f64_bits_positive_finite(s.slicing.voxel_size.x_bits)
    &&& f64_bits_positive_finite(s.slicing.voxel_size.y_bits)
    &&& f64_bits_positive_finite(s.slicing.voxel_size.z_bits)
    &&& s.slicing.wall_count > 0
    &&& f64_bits_positive_finite(s.slicing.extrusion_width_bits)
    &&& is_finite(s.slicing.global_z_offset_bits)
    &&& in_closed_range_from_zero(s.slicing.infill_percentage_bits, HUNDRED_BITS)
    &&& f64_bits_positive_finite(s.printer.print_volume.x_bits)
    &&& f64_bits_positive_finite(s.printer.print_volume.y_bits)
    &&& f64_bits_positive_finite(s.printer.print_volume.z_bits)
    &&& non_negative_finite(s.printer.obstruction.printhead_clearance_height_bits)
    &&& in_half_open_range_from_zero(s.printer.obstruction.printhead_clearance_angle_bits, NINETY_BITS)
    &&& f64_bits_positive_finite(s.material.filament_diameter_bits)
    &&& s.material.fan_speed_percent <= 100
    &&& f64_bits_positive_finite(s.field.anisotropic_rate.x_bits)
    &&& f64_bits_positive_finite(s.field.anisotropic_rate.y_bits)
    &&& f64_bits_positive_finite(s.field.anisotropic_rate.z_bits)
}

/// Settings are free of errors exactly when they keep every rule; in
/// particular a voxel size that is zero, negative, infinite or NaN on any
/// axis is always reported.
pub proof fn lemma_no_errors_iff_rules_kept(s: SlicerSettings)
    ensures
        settings_errors(s).len() == 0 <==> keeps_settings_rules(s),
{
}

/// `x` is among `a + b` when it is among `a` or among `b`.
pub(crate) proof fn lemma_in_concat(a: Seq<Seq<char>>, b: Seq<Seq<char>>, x: Seq<char>)
    ensures
        a.contains(x) || b.contains(x) ==> (a + b).contains(x),
{
    if a.contains(x) {
        let i = choose|i: int| 0 <= i < a.len() && a[i] == x;
        assert((a + b)[i] == x);
    } else if b.contains(x) {
        let i = choose|i: int| 0 <= i < b.len() && b[i] == x;
        assert((a + b)[a.len() + i] == x);
    }
}

/// Each broken rule is reported with its own line, naming the setting and
/// the rule.
pub proof fn lemma_broken_rules_reported(s: SlicerSettings)
    ensures
        !f64_bits_positive_finite(s.slicing.layer_height_bits) ==> settings_errors(s).contains("slicing.layer_height_mm must be finite and greater than zero"@),
        !f64_bits_positive_finite(s.slicing.voxel_size.x_bits) ==> settings_errors(s).contains("slicing.voxel_size_mm.x must be finite and greater than zero"@),
        !f64_bits_positive_finite(s.slicing.voxel_size.y_bits) ==> settings_errors(s).contains("slicing.voxel_size_mm.y must be finite and greater than zero"@),
        !f64_bits_positive_finite(s.slicing.voxel_size.z_bits) ==> settings_errors(s).contains("slicing.voxel_size_mm.z must be finite and greater than zero"@),
        s.slicing.wall_count == 0 ==> settings_errors(s).contains("slicing.wall_count must be greater than zero"@),
        !f64_bits_positive_finite(s.slicing.extrusion_width_bits) ==> settings_errors(s).contains("slicing.extrusion_width_mm must be finite and greater than zero"@),
        !is_finite(s.slicing.global_z_offset_bits) ==> settings_errors(s).contains("slicing.global_z_offset_mm must be finite"@),
        !in_closed_range_from_zero(s.slicing.infill_percentage_bits, HUNDRED_BITS) ==> settings_errors(s).contains("slicing.infill_percentage must be between 0 and 100"@),
        !f64_bits_positive_finite(s.printer.print_volume.x_bits) ==> settings_errors(s).contains("printer.print_volume_mm.x must be finite and greater than zero"@),
        !f64_bits_positive_finite(s.printer.print_volume.y_bits) ==> settings_errors(s).contains("printer.print_volume_mm.y must be finite and greater than zero"@),
        !f64_bits_positive_finite(s.printer.print_volume.z_bits) ==> settings_errors(s).contains("printer.print_volume_mm.z must be finite and greater than zero"@),
        !non_negative_finite(s.printer.obstruction.printhead_clearance_height_bits) ==> settings_errors(s).contains("printer.obstruction.printhead_clearance_height_mm must be finite and greater than or equal to zero"@),
        !in_half_open_range_from_zero(s.printer.obstruction.printhead_clearance_angle_bits, NINETY_BITS) ==> settings_errors(s).contains("printer.obstruction.printhead_clearance_angle_degrees must be in [0, 90)"@),
        !f64_bits_positive_finite(s.material.filament_diameter_bits) ==> settings_errors(s).contains("material.filament_diameter_mm must be finite and greater than zero"@),
        s.material.fan_speed_percent > 100 ==> settings_errors(s).contains("material.fan_speed_percent must be between 0 and 100"@),
        !f64_bits_positive_finite(s.field.anisotropic_rate.x_bits) ==> settings_errors(s).contains("field.anisotropic_rate.x must be finite and greater than zero"@),
        !f64_bits_positive_finite(s.field.anisotropic_rate.y_bits) ==> settings_errors(s).contains("field.anisotropic_rate.y must be finite and greater than zero"@),
        !f64_bits_positive_finite(s.field.anisotropic_rate.z_bits) ==> settings_errors(s).contains("field.anisotropic_rate.z must be finite and greater than zero"@),
{
    reveal_strlit(".x");
    reveal_strlit(".y");
    reveal_strlit(".z");
    reveal_strlit(" must be finite and greater than zero");
    reveal_strlit("slicing.voxel_size_mm");
    reveal_strlit("printer.print_volume_mm");
    reveal_strlit("field.anisotropic_rate");
    reveal_strlit("slicing.voxel_size_mm.x must be finite and greater than zero");
    reveal_strlit("slicing.voxel_size_mm.y must be finite and greater than zero");
    reveal_strlit("slicing.voxel_size_mm.z must be finite and greater than zero");
    reveal_strlit("printer.print_volume_mm.x must be finite and greater than zero");
    reveal_strlit("printer.print_volume_mm.y must be finite and greater than zero");
    reveal_strlit("printer.print_volume_mm.z must be finite and greater than zero");
    reveal_strlit("field.anisotropic_rate.x must be finite and greater than zero");
    reveal_strlit("field.anisotropic_rate.y must be finite and greater than zero");
    reveal_strlit("field.anisotropic_rate.z must be finite and greater than zero");
    reveal_strlit("slicing.layer_height_mm must be finite and greater than zero");
    reveal_strlit("slicing.layer_height_mm");
    reveal_strlit("slicing.extrusion_width_mm must be finite and greater than zero");
    reveal_strlit("slicing.extrusion_width_mm");
    reveal_strlit("slicing.global_z_offset_mm must be finite");
    reveal_strlit("slicing.global_z_offset_mm");
    reveal_strlit(" must be finite");
    reveal_strlit("printer.obstruction.printhead_clearance_height_mm must be finite and greater than or equal to zero");
    reveal_strlit("printer.obstruction.printhead_clearance_height_mm");
    reveal_strlit(" must be finite and greater than or equal to zero");
    reveal_strlit("material.filament_diameter_mm must be finite and greater than zero");
    reveal_strlit("material.filament_diameter_mm");
    let dims = |name: Seq<char>, d: Dimensions3| {
        let a = positive_errors(name + ".x"@, d.x_bits);
        let b = positive_errors(name + ".y"@, d.y_bits);
        let c = positive_errors(name + ".z"@, d.z_bits);
        (a, b, c)
    };
    let sl = s.slicing;
    let p1 = positive_errors("slicing.layer_height_mm"@, sl.layer_height_bits);
    let d1 = dimensions_errors("slicing.voxel_size_mm"@, sl.voxel_size);
    let r1 = rule_errors(sl.wall_count == 0, "slicing.wall_count must be greater than zero"@);
    let p2 = positive_errors("slicing.extrusion_width_mm"@, sl.extrusion_width_bits);
    let f1 = finite_errors("slicing.global_z_offset_mm"@, sl.global_z_offset_bits);
    let r2 = rule_errors(
        !in_closed_range_from_zero(sl.infill_percentage_bits, HUNDRED_BITS),
        "slicing.infill_percentage must be between 0 and 100"@,
    );
    let (vx, vy, vz) = dims("slicing.voxel_size_mm"@, sl.voxel_size);
    let pr = s.printer;
    let d2 = dimensions_errors("printer.print_volume_mm"@, pr.print_volume);
    let n1 = non_negative_errors(
        "printer.obstruction.printhead_clearance_height_mm"@,
        pr.obstruction.printhead_clearance_height_bits,
    );
    let r3 = rule_errors(
        !in_half_open_range_from_zero(pr.obstruction.printhead_clearance_angle_bits, NINETY_BITS),
        "printer.obstruction.printhead_clearance_angle_degrees must be in [0, 90)"@,
    );
    let (px, py, pz) = dims("printer.print_volume_mm"@, pr.print_volume);
    let m = s.material;
    let p3 = positive_errors("material.filament_diameter_mm"@, m.filament_diameter_bits);
    let r4 = rule_errors(m.fan_speed_percent > 100, "material.fan_speed_percent must be between 0 and 100"@);
    let d3 = dimensions_errors("field.anisotropic_rate"@, s.field.anisotropic_rate);
    let (ax, ay, az) = dims("field.anisotropic_rate"@, s.field.anisotropic_rate);
    let slicing = slicing_errors(sl);
    let printer = printer_errors(pr);
    let material = material_errors(m);
    assert forall|x: Seq<char>| p1.contains(x) || d1.contains(x) || r1.contains(x) || p2.contains(x) || f1.contains(x)
        || r2.contains(x) implies slicing.contains(x) by {
        lemma_in_concat(p1, d1, x);
        lemma_in_concat(p1 + d1, r1, x);
        lemma_in_concat(p1 + d1 + r1, p2, x);
        lemma_in_concat(p1 + d1 + r1 + p2, f1, x);
        lemma_in_concat(p1 + d1 + r1 + p2 + f1, r2, x);
    }
    assert forall|x: Seq<char>| d2.contains(x) || n1.contains(x) || r3.contains(x) implies printer.contains(x) by {
        lemma_in_concat(d2, n1, x);
        lemma_in_concat(d2 + n1, r3, x);
    }
    assert forall|x: Seq<char>| p3.contains(x) || r4.contains(x) implies material.contains(x) by {
        lemma_in_concat(p3, r4, x);
    }
    assert forall|x: Seq<char>| slicing.contains(x) || printer.contains(x) || material.contains(x) || d3.contains(x)
        implies settings_errors(s).contains(x) by {
        lemma_in_concat(slicing, printer, x);
        lemma_in_concat(slicing + printer, material, x);
        lemma_in_concat(slicing + printer + material, d3, x);
    }
    assert forall|x: Seq<char>| vx.contains(x) || vy.contains(x) || vz.contains(x) implies d1.contains(x) by {
        lemma_in_concat(vx, vy, x);
        lemma_in_concat(vx + vy, vz, x);
    }
    assert forall|x: Seq<char>| px.contains(x) || py.contains(x) || pz.contains(x) implies d2.contains(x) by {
        lemma_in_concat(px, py, x);
        lemma_in_concat(px + py, pz, x);
    }
    assert forall|x: Seq<char>| ax.contains(x) || ay.contains(x) || az.contains(x) implies d3.contains(x) by {
        lemma_in_concat(ax, ay, x);
        lemma_in_concat(ax + ay, az, x);
    }
    assert("slicing.voxel_size_mm"@ + ".x"@ + " must be finite and greater than zero"@ =~= "slicing.voxel_size_mm.x must be finite and greater than zero"@);
    assert("slicing.voxel_size_mm"@ + ".y"@ + " must be finite and greater than zero"@ =~= "slicing.voxel_size_mm.y must be finite and greater than zero"@);
    assert("slicing.voxel_size_mm"@ + ".z"@ + " must be finite and greater than zero"@ =~= "slicing.voxel_size_mm.z must be finite and greater than zero"@);
    assert("printer.print_volume_mm"@ + ".x"@ + " must be finite and greater than zero"@ =~= "printer.print_volume_mm.x must be finite and greater than zero"@);
    assert("printer.print_volume_mm"@ + ".y"@ + " must be finite and greater than zero"@ =~= "printer.print_volume_mm.y must be finite and greater than zero"@);
    assert("printer.print_volume_mm"@ + ".z"@ + " must be finite and greater than zero"@ =~= "printer.print_volume_mm.z must be finite and greater than zero"@);
    assert("field.anisotropic_rate"@ + ".x"@ + " must be finite and greater than zero"@ =~= "field.anisotropic_rate.x must be finite and greater than zero"@);
    assert("field.anisotropic_rate"@ + ".y"@ + " must be finite and greater than zero"@ =~= "field.anisotropic_rate.y must be finite and greater than zero"@);
    assert("field.anisotropic_rate"@ + ".z"@ + " must be finite and greater than zero"@ =~= "field.anisotropic_rate.z must be finite and greater than zero"@);
    assert("slicing.layer_height_mm"@ + " must be finite and greater than zero"@ =~= "slicing.layer_height_mm must be finite and greater than zero"@);
    assert("slicing.extrusion_width_mm"@ + " must be finite and greater than zero"@ =~= "slicing.extrusion_width_mm must be finite and greater than zero"@);
    assert("material.filament_diameter_mm"@ + " must be finite and greater than zero"@ =~= "material.filament_diameter_mm must be finite and greater than zero"@);
    assert("slicing.global_z_offset_mm"@ + " must be finite"@ =~= "slicing.global_z_offset_mm must be finite"@);
    assert("printer.obstruction.printhead_clearance_height_mm"@ + " must be finite and greater than or equal to zero"@ =~= "printer.obstruction.printhead_clearance_height_mm must be finite and greater than or equal to zero"@);
    assert(p1.len() > 0 ==> p1.contains(p1[0]));
    assert(vx.len() > 0 ==> vx.contains(vx[0]));
    assert(vy.len() > 0 ==> vy.contains(vy[0]));
    assert(vz.len() > 0 ==> vz.contains(vz[0]));
    assert(r1.len() > 0 ==> r1.contains(r1[0]));
    assert(p2.len() > 0 ==> p2.contains(p2[0]));
    assert(f1.len() > 0 ==> f1.contains(f1[0]));
    assert(r2.len() > 0 ==> r2.contains(r2[0]));
    assert(px.len() > 0 ==> px.contains(px[0]));
    assert(py.len() > 0 ==> py.contains(py[0]));
    assert(pz.len() > 0 ==> pz.contains(pz[0]));
    assert(n1.len() > 0 ==> n1.contains(n1[0]));
    assert(r3.len() > 0 ==> r3.contains(r3[0]));
    assert(p3.len() > 0 ==> p3.contains(p3[0]));
    assert(r4.len() > 0 ==> r4.contains(r4[0]));
    assert(ax.len() > 0 ==> ax.contains(ax[0]));
    assert(ay.len() > 0 ==> ay.contains(ay[0]));
    assert(az.len() > 0 ==> az.contains(az[0]));
}

impl SlicerSettings {
    /// Checks every rule of the settings: `Ok` when none is broken, and
    /// otherwise every broken rule's error line, in order.
    pub fn validate(&self) -> (r: Result<(), Vec<String>>)
        ensures
            r is Ok <==> settings_errors(*self).len() == 0,
            r is Ok <==> keeps_settings_rules(*self),
            r matches Err(errors) ==> texts(errors@) == settings_errors(*self),
    {
        proof {
            lemma_no_errors_iff_rules_kept(*self);
        }
        let mut errors: Vec<String> = Vec::new();
        assert(texts(errors@) =~= Seq::<Seq<char>>::empty());
        self.slicing.validate_into(&mut errors);
        self.printer.validate_into(&mut errors);
        self.material.validate_into(&mut errors);
        self.field.validate_into(&mut errors);
        assert(texts(errors@) =~= settings_errors(*self));
        if errors.len() == 0 {
            Ok(())
        } else {
            Err(errors)
        }
    }
}

/// The default settings keep every rule.
pub proof fn lemma_default_settings_valid()
    ensures
        settings_errors(default_settings()).len() == 0,
{
    let d = default_settings();
    assert(slicing_errors(d.slicing) =~= Seq::<Seq<char>>::empty());
    assert(printer_errors(d.printer) =~= Seq::<Seq<char>>::empty());
    assert(material_errors(d.material) =~= Seq::<Seq<char>>::empty());
    assert(dimensions_errors("field.anisotropic_rate"@, d.field.anisotropic_rate) =~= Seq::<Seq<char>>::empty());
}

} // verus!
