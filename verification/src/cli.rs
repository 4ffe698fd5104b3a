//! The grammar of the slicer's command line: which flags exist, how many
//! values each one takes, which integer and method values are accepted, and
//! the error each malformed argument list is answered with. Numeric values
//! are handed on as text; they are read as numbers where they are applied.

use crate::config::{method_name, FieldMethod};
use crate::text::{parse_unsigned, parsed_unsigned, str_eq};
use vstd::prelude::*;

verus! {

/// The usage text printed for `--help` and after an unknown argument.
pub const USAGE: &'static str = "usage: field-gen <input.stl> [--config <settings.json>] [--voxel <x-mm> <y-mm> <z-mm>] [--size <x-mm> <y-mm> <z-mm>] [--padding-voxels <n>] [--origin <x-mm> <y-mm> <z-mm>] [--field] [--field-method <anisotropic|trapezoid>] [--field-rate <x> <y> <z>] [--kernel <kernel.json>] [--max-unreached-below <mm>] [--unreached-cone-angle <degrees>] [--iso-spacing <distance>] [--export-ply] [--gcode] [--wall-count <n>] [--extrusion-width <mm>] [--filament-diameter <mm>] [--infill-spacing <mm>] [--infill-percentage <percent>] [--output <prefix>]\n\nSTL coordinates are assumed to be millimeters. Defaults come from SlicerSettings or --config when provided.\nIf --size is provided, it is treated as a maximum grid size; otherwise printer.print_volume_mm is used.\n--field propagates an anisotropic field through occupied voxels from the lowest occupied Z slice.\n--field-method trapezoid generates a native radial trapezoid SDF kernel from the active voxel size.\n--kernel propagates the field using an explicit JSON kernel instead of --field-rate.\n--max-unreached-below prevents reaching high voxels while lower occupied voxels remain unreached.\n--unreached-cone-angle reserves access cones above unreached occupied voxels. Use 0 to disable this constraint.\n--iso-spacing controls the spacing between exported isosurface levels when --field is enabled.\n--export-ply writes unclipped and clipped isosurface PLY files; PLY output is disabled by default.\n--gcode writes experimental Marlin G-code from clipped isosurfaces and implies --field.\nUse --infill-spacing 0 or --infill-percentage 0 to disable infill.\nVoxel size takes priority: grid dimensions are ceil(size / voxel), so actual size may expand slightly.";

/// The usage text.
pub fn usage() -> (r: String)
    ensures
        r@ == USAGE@,
{
    String::from_str(USAGE)
}

/// One recognised command-line setting, in the order given. Values that
/// are numbers with a fraction are kept as the text the user typed.
#[derive(Clone, Debug)]
pub enum CliOption {
    Voxel(String, String, String),
    Size(String, String, String),
    PaddingVoxels(usize),
    Origin(String, String, String),
    Field,
    FieldRate(String, String, String),
    FieldMethod(FieldMethod),
    Kernel(String),
    MaxUnreachedBelow(String),
    UnreachedConeAngle(String),
    IsoSpacing(String),
    Gcode,
    ExportPly,
    WallCount(usize),
    ExtrusionWidth(String),
    FilamentDiameter(String),
    InfillSpacing(String),
    InfillPercentage(String),
    Output(String),
}

/// A command line read by the grammar: the input model, the settings file
/// named by `--config`, the settings in order, and the error that stopped
/// the reading, if one did (the settings before it were read).
#[derive(Clone, Debug)]
pub struct CommandLine {
    pub input: String,
    pub settings_path: Option<String>,
    pub options: Vec<CliOption>,
    pub stopped: Option<String>,
}

/// What the grammar does with the argument at one position: record a
/// setting (or none) and move past it and `extra` values, or fail.
pub enum ArgStep {
    Next(Option<CliOption>, nat),
    Fail(Seq<char>),
}

/// The step taken by a flag that needs one value.
pub open spec fn one_value_step(args: Seq<String>, i: int, option: CliOption, missing: Seq<char>) -> ArgStep {
    if i + 1 < args.len() {
        ArgStep::Next(Some(option), 1)
    } else {
        ArgStep::Fail(missing)
    }
}

/// The step taken by a flag that needs a non-negative integer.
pub open spec fn integer_step(args: Seq<String>, i: int, missing: Seq<char>, invalid: Seq<char>, wall: bool) -> ArgStep {
    if i + 1 < args.len() {
        match parsed_unsigned(args[i + 1]@, usize::MAX as nat) {
            Some(n) => ArgStep::Next(
                Some(
                    if wall {
                        CliOption::WallCount(n as usize)
                    } else {
                        CliOption::PaddingVoxels(n as usize)
                    },
                ),
                1,
            ),
            None => ArgStep::Fail(invalid),
        }
    } else {
        ArgStep::Fail(missing)
    }
}

/// The step taken by a flag that needs three values.
pub open spec fn three_value_step(args: Seq<String>, i: int, option: CliOption, missing: Seq<char>) -> ArgStep {
    if i + 3 < args.len() {
        ArgStep::Next(Some(option), 3)
    } else {
        ArgStep::Fail(missing)
    }
}

/// The three values after position `i`, as a vector setting of kind `kind`
/// (0 voxel, 1 size, 2 origin, 3 field rate).
pub open spec fn vector_option(args: Seq<String>, i: int, kind: int) -> CliOption {
    let (x, y, z) = (args[i + 1], args[i + 2], args[i + 3]);
    if kind == 0 {
        CliOption::Voxel(x, y, z)
    } else if kind == 1 {
        CliOption::Size(x, y, z)
    } else if kind == 2 {
        CliOption::Origin(x, y, z)
    } else {
        CliOption::FieldRate(x, y, z)
    }
}

/// The step taken by `--field-method`.
pub open spec fn method_step(args: Seq<String>, i: int) -> ArgStep {
    if i + 1 < args.len() {
        let value = args[i + 1]@;
        if value == "anisotropic"@ {
            ArgStep::Next(Some(CliOption::FieldMethod(FieldMethod::Anisotropic)), 1)
        } else if value == "trapezoid"@ {
            ArgStep::Next(Some(CliOption::FieldMethod(FieldMethod::Trapezoid)), 1)
        } else {
            ArgStep::Fail("--field-method must be `anisotropic` or `trapezoid`, got `"@ + value + "`"@)
        }
    } else {
        ArgStep::Fail("--field-method requires a method name"@)
    }
}

/// The step the grammar takes at position `i` (`1 <= i < args.len()`).
pub open spec fn arg_step(args: Seq<String>, i: int) -> ArgStep {
    let flag = args[i]@;
    let next = if i + 1 < args.len() { args[i + 1] } else { args[i] };
    if flag == "--config"@ {
        if i + 1 < args.len() {
            ArgStep::Next(None, 1)
        } else {
            ArgStep::Fail("--config"@ + " requires a value"@)
        }
    } else if flag == "--voxel"@ {
        three_value_step(args, i, vector_option(args, i, 0), "--voxel requires three numeric values"@)
    } else if flag == "--size"@ {
        three_value_step(args, i, vector_option(args, i, 1), "--size requires three numeric values"@)
    } else if flag == "--padding-voxels"@ {
        integer_step(
            args,
            i,
            "--padding-voxels requires a non-negative integer"@,
            "--padding-voxels must be a non-negative integer"@,
            false,
        )
    } else if flag == "--origin"@ {
        three_value_step(args, i, vector_option(args, i, 2), "--origin requires three numeric values"@)
    } else if flag == "--field"@ {
        ArgStep::Next(Some(CliOption::Field), 0)
    } else if flag == "--field-rate"@ {
        three_value_step(args, i, vector_option(args, i, 3), "--field-rate requires three numeric values"@)
    } else if flag == "--field-method"@ {
        method_step(args, i)
    } else if flag == "--kernel"@ {
        one_value_step(args, i, CliOption::Kernel(next), "--kernel requires a JSON kernel path"@)
    } else if flag == "--max-unreached-below"@ {
        one_value_step(
            args,
            i,
            CliOption::MaxUnreachedBelow(next),
            "--max-unreached-below requires a non-negative numeric value"@,
        )
    } else if flag == "--unreached-cone-angle"@ {
        one_value_step(
            args,
            i,
            CliOption::UnreachedConeAngle(next),
            "--unreached-cone-angle requires an angle in degrees"@,
        )
    } else if flag == "--iso-spacing"@ {
        one_value_step(args, i, CliOption::IsoSpacing(next), "--iso-spacing requires a positive numeric value"@)
    } else if flag == "--gcode"@ {
        ArgStep::Next(Some(CliOption::Gcode), 0)
    } else if flag == "--export-ply"@ {
        ArgStep::Next(Some(CliOption::ExportPly), 0)
    } else if flag == "--wall-count"@ {
        integer_step(
            args,
            i,
            "--wall-count requires a non-negative integer"@,
            "--wall-count must be a non-negative integer"@,
            true,
        )
    } else if flag == "--extrusion-width"@ {
        one_value_step(
            args,
            i,
            CliOption::ExtrusionWidth(next),
            "--extrusion-width requires a positive numeric value"@,
        )
    } else if flag == "--filament-diameter"@ {
        one_value_step(
            args,
            i,
            CliOption::FilamentDiameter(next),
            "--filament-diameter requires a positive numeric value"@,
        )
    } else if flag == "--infill-spacing"@ {
        one_value_step(
            args,
            i,
            CliOption::InfillSpacing(next),
            "--infill-spacing requires a non-negative numeric value"@,
        )
    } else if flag == "--infill-percentage"@ {
        one_value_step(
            args,
            i,
            CliOption::InfillPercentage(next),
            "--infill-percentage requires a non-negative numeric value"@,
        )
    } else if flag == "--output"@ || flag == "-o"@ {
        one_value_step(args, i, CliOption::Output(next), "--output requires a path"@)
    } else {
        ArgStep::Fail("unknown argument `"@ + flag + "`\n\n"@ + USAGE@)
    }
}

/// The settings read from position `i` on, and the error that stopped the
/// reading, if any.
pub open spec fn scan_from(args: Seq<String>, i: int) -> (Seq<CliOption>, Option<Seq<char>>)
    decreases args.len() - i,
{
    if i < 1 || i >= args.len() {
        (Seq::empty(), None)
    } else {
        match arg_step(args, i) {
            ArgStep::Next(option, extra) => {
                let rest = scan_from(args, i + 1 + extra);
                match option {
                    Some(o) => (seq![o] + rest.0, rest.1),
                    None => rest,
                }
            },
            ArgStep::Fail(message) => (Seq::empty(), Some(message)),
        }
    }
}

/// Whether the arguments ask for help.
pub open spec fn asks_for_help(args: Seq<String>) -> bool {
    exists|k: int| 0 <= k < args.len() && (args[k]@ == "--help"@ || args[k]@ == "-h"@)
}

/// The settings file named by the last `--config` at or after position `i`
/// (`current` when there is none), or the error for a `--config` without a
/// value. Every position is looked at, except the value of a `--config`.
pub open spec fn settings_path_from(args: Seq<String>, i: int, current: Option<String>) -> Result<Option<String>, Seq<char>>
    decreases args.len() - i,
{
    if i < 0 || i >= args.len() {
        Ok(current)
    } else if args[i]@ == "--config"@ {
        if i + 1 < args.len() {
            settings_path_from(args, i + 2, Some(args[i + 1]))
        } else {
            Err("--config requires a settings JSON path"@)
        }
    } else {
        settings_path_from(args, i + 1, current)
    }
}

fn wants_help(args: &Vec<String>) -> (r: bool)
    ensures
        r == asks_for_help(args@),
{
    let mut k: usize = 0;
    while k < args.len()
        invariant
            k <= args@.len(),
            forall|j: int| 0 <= j < k ==> !(args@[j]@ == "--help"@ || args@[j]@ == "-h"@),
        decreases args@.len() - k,
    {
        if str_eq(args[k].as_str(), "--help") || str_eq(args[k].as_str(), "-h") {
            return true;
        }
        k += 1;
    }
    false
}

/// Finds the settings file named with `--config`: the value after the last
/// `--config`, looking at every argument after the input.
pub fn find_settings_path(args: &Vec<String>) -> (r: Result<Option<String>, String>)
    ensures
        r matches Ok(p) ==> settings_path_from(args@, 1, None) == Ok::<Option<String>, Seq<char>>(p),
        r matches Err(e) ==> settings_path_from(args@, 1, None) == Err::<Option<String>, Seq<char>>(e@),
{
    let mut index: usize = 1;
    let mut settings_path: Option<String> = None;
    while index < args.len()
        invariant
            1 <= index,
            settings_path_from(args@, 1, None) == settings_path_from(args@, index as int, settings_path),
        decreases args@.len() - index,
    {
        if str_eq(args[index].as_str(), "--config") {
            index += 1;
            if index >= args.len() {
                return Err(String::from_str("--config requires a settings JSON path"));
            }
            settings_path = Some(args[index].clone());
        }
        index += 1;
    }
    Ok(settings_path)
}

/// The value of `flag` at position `index`, or the error `<flag> requires a
/// value` when the arguments end before it.
pub fn require_flag_value<'a>(flag: &str, args: &'a Vec<String>, index: usize) -> (r: Result<&'a str, String>)
    ensures
        index < args@.len() ==> (r matches Ok(v) && v@ == args@[index as int]@),
        index >= args@.len() ==> (r matches Err(e) && e@ == flag@ + " requires a value"@),
{
    if index < args.len() {
        Ok(args[index].as_str())
    } else {
        let mut message = String::from_str(flag);
        message.append(" requires a value");
        Err(message)
    }
}

fn next_value(missing: &str, args: &Vec<String>, index: usize) -> (r: Result<String, String>)
    ensures
        index + 1 < args@.len() ==> r == Ok::<String, String>(args@[index + 1]),
        index + 1 >= args@.len() ==> (r matches Err(e) && e@ == missing@),
{
    if index < args.len() && index + 1 < args.len() {
        Ok(args[index + 1].clone())
    } else {
        Err(String::from_str(missing))
    }
}

fn three_values(missing: &str, args: &Vec<String>, index: usize) -> (r: Result<(String, String, String), String>)
    ensures
        index + 3 < args@.len() ==> r == Ok::<(String, String, String), String>(
            (args@[index + 1], args@[index + 2], args@[index + 3]),
        ),
        index + 3 >= args@.len() ==> (r matches Err(e) && e@ == missing@),
{
    if index < args.len() && args.len() - index > 3 {
        Ok((args[index + 1].clone(), args[index + 2].clone(), args[index + 3].clone()))
    } else {
        Err(String::from_str(missing))
    }
}

fn integer_value(missing: &str, invalid: &str, args: &Vec<String>, index: usize) -> (r: Result<usize, String>)
    ensures
        index + 1 >= args@.len() ==> (r matches Err(e) && e@ == missing@),
        index + 1 < args@.len() ==> match parsed_unsigned(args@[index + 1]@, usize::MAX as nat) {
            Some(n) => r == Ok::<usize, String>(n as usize),
            None => r matches Err(e) && e@ == invalid@,
        },
{
    if !(index < args.len() && index + 1 < args.len()) {
        return Err(String::from_str(missing));
    }
    match parse_unsigned(args[index + 1].as_str(), usize::MAX as u64) {
        Some(n) => Ok(n as usize),
        None => Err(String::from_str(invalid)),
    }
}

/// Reads the value of `--field-method` after position `index`.
pub fn parse_field_method(args: &Vec<String>, index: usize) -> (r: Result<FieldMethod, String>)
    requires
        index < args@.len(),
    ensures
        method_step(args@, index as int) matches ArgStep::Next(Some(CliOption::FieldMethod(m)), _) ==> r == Ok::<
            FieldMethod,
            String,
        >(m),
        method_step(args@, index as int) matches ArgStep::Fail(message) ==> (r matches Err(e) && e@ == message),
{
    let count = args.len();
    if index + 1 >= count {
        return Err(String::from_str("--field-method requires a method name"));
    }
    let value = args[index + 1].as_str();
    if str_eq(value, "anisotropic") {
        Ok(FieldMethod::Anisotropic)
    } else if str_eq(value, "trapezoid") {
        Ok(FieldMethod::Trapezoid)
    } else {
        let mut message = String::from_str("--field-method must be `anisotropic` or `trapezoid`, got `");
        message.append(value);
        message.append("`");
        Err(message)
    }
}

fn vector_value(kind: u8, missing: &str, args: &Vec<String>, index: usize) -> (r: Result<
    (Option<CliOption>, usize),
    String,
>)
    requires
        kind < 4,
        index < args@.len(),
    ensures
        three_value_step(args@, index as int, vector_option(args@, index as int, kind as int), missing@) matches ArgStep::Next(o, extra) ==> r == Ok::<
            (Option<CliOption>, usize),
            String,
        >((o, (index + 1 + extra) as usize)),
        three_value_step(args@, index as int, vector_option(args@, index as int, kind as int), missing@) matches ArgStep::Fail(m) ==> (r matches Err(e) && e@ == m),
{
    let count = args.len();
    let (x, y, z) = match three_values(missing, args, index) {
        Ok(values) => values,
        Err(e) => return Err(e),
    };
    let option = if kind == 0 {
        CliOption::Voxel(x, y, z)
    } else if kind == 1 {
        CliOption::Size(x, y, z)
    } else if kind == 2 {
        CliOption::Origin(x, y, z)
    } else {
        CliOption::FieldRate(x, y, z)
    };
    Ok((Some(option), index + 4))
}

fn text_value(missing: &str, args: &Vec<String>, index: usize) -> (r: Result<(String, usize), String>)
    requires
        index < args@.len(),
    ensures
        index + 1 < args@.len() ==> r == Ok::<(String, usize), String>((args@[index + 1], (index + 2) as usize)),
        index + 1 >= args@.len() ==> (r matches Err(e) && e@ == missing@),
{
    let count = args.len();
    match next_value(missing, args, index) {
        Ok(value) => Ok((value, index + 2)),
        Err(e) => Err(e),
    }
}

/// Reads the argument at position `index`: the setting it records (if any)
/// and the position after it and its values, or the error it is answered
/// with.
pub fn scan_argument(args: &Vec<String>, index: usize) -> (r: Result<(Option<CliOption>, usize), String>)
    requires
        1 <= index < args@.len(),
    ensures
        arg_step(args@, index as int) matches ArgStep::Next(o, extra) ==> r == Ok::<
            (Option<CliOption>, usize),
            String,
        >((o, (index + 1 + extra) as usize)),
        arg_step(args@, index as int) matches ArgStep::Fail(m) ==> (r matches Err(e) && e@ == m),
{
    let count = args.len();
    let flag = args[index].as_str();
    if str_eq(flag, "--config") {
        return match require_flag_value("--config", args, index + 1) {
            Ok(_) => Ok((None, index + 2)),
            Err(e) => Err(e),
        };
    }
    if str_eq(flag, "--voxel") {
        return vector_value(0, "--voxel requires three numeric values", args, index);
    }
    if str_eq(flag, "--size") {
        return vector_value(1, "--size requires three numeric values", args, index);
    }
    if str_eq(flag, "--padding-voxels") {
        return match integer_value(
            "--padding-voxels requires a non-negative integer",
            "--padding-voxels must be a non-negative integer",
            args,
            index,
        ) {
            Ok(n) => Ok((Some(CliOption::PaddingVoxels(n)), index + 2)),
            Err(e) => Err(e),
        };
    }
    if str_eq(flag, "--origin") {
        return vector_value(2, "--origin requires three numeric values", args, index);
    }
    if str_eq(flag, "--field") {
        return Ok((Some(CliOption::Field), index + 1));
    }
    if str_eq(flag, "--field-rate") {
        return vector_value(3, "--field-rate requires three numeric values", args, index);
    }
    if str_eq(flag, "--field-method") {
        return match parse_field_method(args, index) {
            Ok(method) => Ok((Some(CliOption::FieldMethod(method)), index + 2)),
            Err(e) => Err(e),
        };
    }
    if str_eq(flag, "--kernel") {
        return match text_value("--kernel requires a JSON kernel path", args, index) {
            Ok((value, next)) => Ok((Some(CliOption::Kernel(value)), next)),
            Err(e) => Err(e),
        };
    }
    if str_eq(flag, "--max-unreached-below") {
        return match text_value("--max-unreached-below requires a non-negative numeric value", args, index) {
            Ok((value, next)) => Ok((Some(CliOption::MaxUnreachedBelow(value)), next)),
            Err(e) => Err(e),
        };
    }
    if str_eq(flag, "--unreached-cone-angle") {
        return match text_value("--unreached-cone-angle requires an angle in degrees", args, index) {
            Ok((value, next)) => Ok((Some(CliOption::UnreachedConeAngle(value)), next)),
            Err(e) => Err(e),
        };
    }
    if str_eq(flag, "--iso-spacing") {
        return match text_value("--iso-spacing requires a positive numeric value", args, index) {
            Ok((value, next)) => Ok((Some(CliOption::IsoSpacing(value)), next)),
            Err(e) => Err(e),
        };
    }
    if str_eq(flag, "--gcode") {
        return Ok((Some(CliOption::Gcode), index + 1));
    }
    if str_eq(flag, "--export-ply") {
        return Ok((Some(CliOption::ExportPly), index + 1));
    }
    if str_eq(flag, "--wall-count") {
        return match integer_value(
            "--wall-count requires a non-negative integer",
            "--wall-count must be a non-negative integer",
            args,
            index,
        ) {
            Ok(n) => Ok((Some(CliOption::WallCount(n)), index + 2)),
            Err(e) => Err(e),
        };
    }
    if str_eq(flag, "--extrusion-width") {
        return match text_value("--extrusion-width requires a positive numeric value", args, index) {
            Ok((value, next)) => Ok((Some(CliOption::ExtrusionWidth(value)), next)),
            Err(e) => Err(e),
        };
    }
    if str_eq(flag, "--filament-diameter") {
        return match text_value("--filament-diameter requires a positive numeric value", args, index) {
            Ok((value, next)) => Ok((Some(CliOption::FilamentDiameter(value)), next)),
            Err(e) => Err(e),
        };
    }
    if str_eq(flag, "--infill-spacing") {
        return match text_value("--infill-spacing requires a non-negative numeric value", args, index) {
            Ok((value, next)) => Ok((Some(CliOption::InfillSpacing(value)), next)),
            Err(e) => Err(e),
        };
    }
    if str_eq(flag, "--infill-percentage") {
        return match text_value("--infill-percentage requires a non-negative numeric value", args, index) {
            Ok((value, next)) => Ok((Some(CliOption::InfillPercentage(value)), next)),
            Err(e) => Err(e),
        };
    }
    if str_eq(flag, "--output") || str_eq(flag, "-o") {
        return match text_value("--output requires a path", args, index) {
            Ok((value, next)) => Ok((Some(CliOption::Output(value)), next)),
            Err(e) => Err(e),
        };
    }
    let mut message = String::from_str("unknown argument `");
    message.append(flag);
    message.append("`\n\n");
    message.append(USAGE);
    Err(message)
}

/// Reads the settings after the input, in order, until the arguments end or
/// one of them is malformed.
pub fn scan_options(args: &Vec<String>) -> (r: (Vec<CliOption>, Option<String>))
    ensures
        r.0@ == scan_from(args@, 1).0,
        r.1 is None <==> scan_from(args@, 1).1 is None,
        r.1 matches Some(e) ==> scan_from(args@, 1).1 == Some(e@),
{
    let mut options: Vec<CliOption> = Vec::new();
    let mut index: usize = 1;
    while index < args.len()
        invariant
            1 <= index,
            scan_from(args@, 1).0 == options@ + scan_from(args@, index as int).0,
            scan_from(args@, 1).1 == scan_from(args@, index as int).1,
        decreases args@.len() - index,
    {
        match scan_argument(args, index) {
            Ok((option, next)) => {
                match option {
                    Some(o) => {
                        proof {
                            assert(scan_from(args@, 1).0 == options@.push(o) + scan_from(args@, next as int).0);
                        }
                        options.push(o);
                    },
                    None => {},
                }
                index = next;
            },
            Err(e) => {
                proof {
                    assert(scan_from(args@, index as int).0 =~= Seq::<CliOption>::empty());
                    assert(options@ + Seq::<CliOption>::empty() =~= options@);
                }
                return (options, Some(e));
            },
        }
    }
    assert(options@ + Seq::<CliOption>::empty() =~= options@);
    (options, None)
}

/// Reads a command line `args` (the input model first): `Err` with the usage
/// text when there are no arguments or help is asked for, `Err` when a
/// `--config` has no value, and otherwise the input, the settings file and
/// the settings in order, with the error that stopped the reading, if any.
pub fn parse_command_line(args: &Vec<String>) -> (r: Result<CommandLine, String>)
    ensures
        (args@.len() == 0 || asks_for_help(args@)) ==> (r matches Err(e) && e@ == USAGE@),
        !(args@.len() == 0 || asks_for_help(args@)) ==> match settings_path_from(args@, 1, None) {
            Err(m) => r matches Err(e) && e@ == m,
            Ok(path) => r matches Ok(line) && {
                &&& line.input == args@[0]
                &&& line.settings_path == path
                &&& line.options@ == scan_from(args@, 1).0
                &&& (line.stopped is None <==> scan_from(args@, 1).1 is None)
                &&& (line.stopped matches Some(e) ==> scan_from(args@, 1).1 == Some(e@))
            },
        },
{
    if args.len() == 0 || wants_help(args) {
        return Err(usage());
    }
    let input = args[0].clone();
    let settings_path = match find_settings_path(args) {
        Ok(path) => path,
        Err(e) => return Err(e),
    };
    let (options, stopped) = scan_options(args);
    Ok(CommandLine { input, settings_path, options, stopped })
}

/// Naming a method after `--field-method` selects that method: when the
/// value after the flag is `method_name(m)`, the grammar reads `m`.
pub proof fn lemma_method_name_selects(args: Seq<String>, i: int, m: FieldMethod)
    requires
        0 <= i,
        i + 1 < args.len(),
        args[i + 1]@ == method_name(m),
    ensures
        method_step(args, i) == ArgStep::Next(Some(CliOption::FieldMethod(m)), 1),
{
    reveal_strlit("anisotropic");
    reveal_strlit("trapezoid");
    assert("anisotropic"@ != "trapezoid"@ ) by {
        assert("anisotropic"@[0] != "trapezoid"@[0]);
    }
}

/// What a run computes and writes, as the command line's switches set it:
/// the output prefix, the padding, whether the field is computed and how,
/// the kernel file, the PLY and G-code outputs, and the wall count.
#[derive(Clone, Debug)]
pub struct RunSwitches {
    pub output_prefix: String,
    pub padding_voxels: usize,
    pub field_enabled: bool,
    pub field_method: FieldMethod,
    pub kernel_path: Option<String>,
    pub export_ply: bool,
    pub gcode_enabled: bool,
    pub wall_count: usize,
}

/// The switches as values: the paths as text.
pub struct SwitchesView {
    pub output_prefix: Seq<char>,
    pub padding_voxels: usize,
    pub field_enabled: bool,
    pub field_method: FieldMethod,
    pub kernel_path: Option<Seq<char>>,
    pub export_ply: bool,
    pub gcode_enabled: bool,
    pub wall_count: usize,
}

impl View for RunSwitches {
    type V = SwitchesView;

    open spec fn view(&self) -> SwitchesView {
        SwitchesView {
            output_prefix: self.output_prefix@,
            padding_voxels: self.padding_voxels,
            field_enabled: self.field_enabled,
            field_method: self.field_method,
            kernel_path: match self.kernel_path {
                Some(path) => Some(path@),
                None => None,
            },
            export_ply: self.export_ply,
            gcode_enabled: self.gcode_enabled,
            wall_count: self.wall_count,
        }
    }
}

/// The switches after one setting: an output that needs the field, a
/// kernel and a method each turn the field on as well.
pub open spec fn switched(s: SwitchesView, option: CliOption) -> SwitchesView {
    match option {
        CliOption::PaddingVoxels(n) => SwitchesView { padding_voxels: n, ..s },
        CliOption::Field => SwitchesView { field_enabled: true, ..s },
        CliOption::FieldMethod(m) => SwitchesView { field_method: m, field_enabled: true, ..s },
        CliOption::Kernel(path) => SwitchesView { kernel_path: Some(path@), field_enabled: true, ..s },
        CliOption::Gcode => SwitchesView { gcode_enabled: true, field_enabled: true, ..s },
        CliOption::ExportPly => SwitchesView { export_ply: true, field_enabled: true, ..s },
        CliOption::WallCount(n) => SwitchesView { wall_count: n, ..s },
        CliOption::Output(path) => SwitchesView { output_prefix: path@, ..s },
        _ => s,
    }
}

/// The switches after the settings `options`, applied in order to `start`.
pub open spec fn switched_by(start: SwitchesView, options: Seq<CliOption>) -> SwitchesView
    decreases options.len(),
{
    if options.len() == 0 {
        start
    } else {
        switched(switched_by(start, options.drop_last()), options.last())
    }
}

/// The switches before any setting: output prefix `occupancy`, no field, no
/// kernel, no PLY or G-code, and the padding, method and wall count of the
/// settings in force.
pub open spec fn initial_switches(padding_voxels: usize, field_method: FieldMethod, wall_count: usize) -> SwitchesView {
    SwitchesView {
        output_prefix: "occupancy"@,
        padding_voxels,
        field_enabled: false,
        field_method,
        kernel_path: None,
        export_ply: false,
        gcode_enabled: false,
        wall_count,
    }
}

/// Whether every output that needs the field, and a kernel, comes with the
/// field turned on.
pub open spec fn field_follows_outputs(s: SwitchesView) -> bool {
    (s.gcode_enabled || s.export_ply || s.kernel_path is Some) ==> s.field_enabled
}

/// The switches that the settings `options` set, over the padding, method
/// and wall count of the settings in force. G-code, PLY export and a kernel
/// each imply the field.
pub fn run_switches(options: &Vec<CliOption>, padding_voxels: usize, field_method: FieldMethod, wall_count: usize) -> (r: RunSwitches)
    ensures
        r@ == switched_by(initial_switches(padding_voxels, field_method, wall_count), options@),
        field_follows_outputs(r@),
        r.field_enabled <==> exists|i: int| 0 <= i < options@.len() && turns_on_field(#[trigger] options@[i]),
        r.gcode_enabled <==> exists|i: int| 0 <= i < options@.len() && #[trigger] options@[i] is Gcode,
        r.export_ply <==> exists|i: int| 0 <= i < options@.len() && #[trigger] options@[i] is ExportPly,
        forall|i: int| #[trigger] last_method_at(options@, i) ==> r.field_method == options@[i]->FieldMethod_0,
        forall|i: int| #[trigger] last_wall_count_at(options@, i) ==> r.wall_count == options@[i]->WallCount_0,
        forall|i: int| #[trigger] last_padding_at(options@, i) ==> r.padding_voxels == options@[i]->PaddingVoxels_0,
        forall|i: int| #[trigger] last_output_at(options@, i) ==> r.output_prefix@ == options@[i]->Output_0@,
{
    proof {
        lemma_switches_follow_settings(initial_switches(padding_voxels, field_method, wall_count), options@);
    }
    let ghost start = initial_switches(padding_voxels, field_method, wall_count);
    let mut s = RunSwitches {
        output_prefix: String::from_str("occupancy"),
        padding_voxels,
        field_enabled: false,
        field_method,
        kernel_path: None,
        export_ply: false,
        gcode_enabled: false,
        wall_count,
    };
    let mut i: usize = 0;
    proof {
        reveal_strlit("occupancy");
    }
    assert(options@.take(0) =~= Seq::<CliOption>::empty());
    while i < options.len()
        invariant
            i <= options.len(),
            s@ == switched_by(start, options@.take(i as int)),
            field_follows_outputs(s@),
        decreases options.len() - i,
    {
        match &options[i] {
            CliOption::PaddingVoxels(n) => s.padding_voxels = *n,
            CliOption::Field => s.field_enabled = true,
            CliOption::FieldMethod(m) => {
                s.field_method = *m;
                s.field_enabled = true;
            },
            CliOption::Kernel(path) => {
                s.kernel_path = Some(path.clone());
                s.field_enabled = true;
            },
            CliOption::Gcode => {
                s.gcode_enabled = true;
                s.field_enabled = true;
            },
            CliOption::ExportPly => {
                s.export_ply = true;
                s.field_enabled = true;
            },
            CliOption::WallCount(n) => s.wall_count = *n,
            CliOption::Output(path) => s.output_prefix = path.clone(),
            _ => {},
        }
        assert(options@.take(i + 1).drop_last() =~= options@.take(i as int));
        i = i + 1;
    }
    assert(options@.take(options@.len() as int) =~= options@);
    s
}

/// Whether a setting turns the field on: `--field` itself, or a field
/// method, a kernel, G-code or PLY output, each of which needs the field.
pub open spec fn turns_on_field(option: CliOption) -> bool {
    option is Field || option is FieldMethod || option is Kernel || option is Gcode || option is ExportPly
}

/// Whether setting `i` of `options` is the last field-method setting.
pub open spec fn last_method_at(options: Seq<CliOption>, i: int) -> bool {
    &&& 0 <= i < options.len()
    &&& options[i] is FieldMethod
    &&& forall|j: int| i < j < options.len() ==> !(#[trigger] options[j] is FieldMethod)
}

/// Whether setting `i` of `options` is the last wall-count setting.
pub open spec fn last_wall_count_at(options: Seq<CliOption>, i: int) -> bool {
    &&& 0 <= i < options.len()
    &&& options[i] is WallCount
    &&& forall|j: int| i < j < options.len() ==> !(#[trigger] options[j] is WallCount)
}

/// Whether setting `i` of `options` is the last output-prefix setting.
pub open spec fn last_output_at(options: Seq<CliOption>, i: int) -> bool {
    &&& 0 <= i < options.len()
    &&& options[i] is Output
    &&& forall|j: int| i < j < options.len() ==> !(#[trigger] options[j] is Output)
}

/// Whether setting `i` of `options` is the last padding setting.
pub open spec fn last_padding_at(options: Seq<CliOption>, i: int) -> bool {
    &&& 0 <= i < options.len()
    &&& options[i] is PaddingVoxels
    &&& forall|j: int| i < j < options.len() ==> !(#[trigger] options[j] is PaddingVoxels)
}

/// Whether setting `i` of `options` is the last kernel setting.
pub open spec fn last_kernel_at(options: Seq<CliOption>, i: int) -> bool {
    &&& 0 <= i < options.len()
    &&& options[i] is Kernel
    &&& forall|j: int| i < j < options.len() ==> !(#[trigger] options[j] is Kernel)
}

/// The laws of the switches: the field is on exactly when it was on before
/// or some setting turns it on; G-code and PLY output are on exactly when
/// they were before or some setting asks for them; and the field method,
/// the wall count, the output prefix, the padding and the kernel file are
/// those of the last setting that gives one, or unchanged when none does.
pub proof fn lemma_switches_follow_settings(start: SwitchesView, options: Seq<CliOption>)
    ensures
        switched_by(start, options).field_enabled <==> start.field_enabled || exists|i: int|
            0 <= i < options.len() && turns_on_field(#[trigger] options[i]),
        switched_by(start, options).gcode_enabled <==> start.gcode_enabled || exists|i: int|
            0 <= i < options.len() && #[trigger] options[i] is Gcode,
        switched_by(start, options).export_ply <==> start.export_ply || exists|i: int|
            0 <= i < options.len() && #[trigger] options[i] is ExportPly,
        forall|i: int| #[trigger] last_method_at(options, i) ==> switched_by(start, options).field_method
            == options[i]->FieldMethod_0,
        (forall|i: int| 0 <= i < options.len() ==> !(#[trigger] options[i] is FieldMethod)) ==> switched_by(
            start,
            options,
        ).field_method == start.field_method,
        forall|i: int| #[trigger] last_wall_count_at(options, i) ==> switched_by(start, options).wall_count
            == options[i]->WallCount_0,
        (forall|i: int| 0 <= i < options.len() ==> !(#[trigger] options[i] is WallCount)) ==> switched_by(
            start,
            options,
        ).wall_count == start.wall_count,
        forall|i: int| #[trigger] last_output_at(options, i) ==> switched_by(start, options).output_prefix
            == options[i]->Output_0@,
        (forall|i: int| 0 <= i < options.len() ==> !(#[trigger] options[i] is Output)) ==> switched_by(
            start,
            options,
        ).output_prefix == start.output_prefix,
        forall|i: int| #[trigger] last_padding_at(options, i) ==> switched_by(start, options).padding_voxels
            == options[i]->PaddingVoxels_0,
        (forall|i: int| 0 <= i < options.len() ==> !(#[trigger] options[i] is PaddingVoxels)) ==> switched_by(
            start,
            options,
        ).padding_voxels == start.padding_voxels,
        forall|i: int| #[trigger] last_kernel_at(options, i) ==> switched_by(start, options).kernel_path
            == Some(options[i]->Kernel_0@),
        (forall|i: int| 0 <= i < options.len() ==> !(#[trigger] options[i] is Kernel)) ==> switched_by(
            start,
            options,
        ).kernel_path == start.kernel_path,
    decreases options.len(),
{
    if options.len() > 0 {
        let prefix = options.drop_last();
        let last = options.last();
        let n = options.len() - 1;
        lemma_switches_follow_settings(start, prefix);
        assert forall|i: int| 0 <= i < n implies #[trigger] prefix[i] == options[i] by {}
        if exists|i: int| 0 <= i < options.len() && turns_on_field(#[trigger] options[i]) {
            let i = choose|i: int| 0 <= i < options.len() && turns_on_field(#[trigger] options[i]);
            if i < n {
                assert(turns_on_field(prefix[i]));
            }
        }
        if exists|i: int| 0 <= i < prefix.len() && turns_on_field(#[trigger] prefix[i]) {
            let i = choose|i: int| 0 <= i < prefix.len() && turns_on_field(#[trigger] prefix[i]);
            assert(turns_on_field(options[i]));
        }
        if exists|i: int| 0 <= i < options.len() && #[trigger] options[i] is Gcode {
            let i = choose|i: int| 0 <= i < options.len() && #[trigger] options[i] is Gcode;
            if i < n {
                assert(prefix[i] is Gcode);
            }
        }
        if exists|i: int| 0 <= i < prefix.len() && #[trigger] prefix[i] is Gcode {
            let i = choose|i: int| 0 <= i < prefix.len() && #[trigger] prefix[i] is Gcode;
            assert(options[i] is Gcode);
        }
        if exists|i: int| 0 <= i < options.len() && #[trigger] options[i] is ExportPly {
            let i = choose|i: int| 0 <= i < options.len() && #[trigger] options[i] is ExportPly;
            if i < n {
                assert(prefix[i] is ExportPly);
            }
        }
        if exists|i: int| 0 <= i < prefix.len() && #[trigger] prefix[i] is ExportPly {
            let i = choose|i: int| 0 <= i < prefix.len() && #[trigger] prefix[i] is ExportPly;
            assert(options[i] is ExportPly);
        }
        assert forall|i: int| #[trigger] last_method_at(options, i) implies switched_by(start, options).field_method
            == options[i]->FieldMethod_0 by {
            if i < n {
                assert(!(options[n] is FieldMethod));
                assert(last_method_at(prefix, i));
            }
        }
        if forall|i: int| 0 <= i < options.len() ==> !(#[trigger] options[i] is FieldMethod) {
            assert(!(options[n] is FieldMethod));
        }
        assert forall|i: int| #[trigger] last_wall_count_at(options, i) implies switched_by(start, options).wall_count
            == options[i]->WallCount_0 by {
            if i < n {
                assert(!(options[n] is WallCount));
                assert(last_wall_count_at(prefix, i));
            }
        }
        if forall|i: int| 0 <= i < options.len() ==> !(#[trigger] options[i] is WallCount) {
            assert(!(options[n] is WallCount));
        }
        assert forall|i: int| #[trigger] last_output_at(options, i) implies switched_by(start, options).output_prefix
            == options[i]->Output_0@ by {
            if i < n {
                assert(!(options[n] is Output));
                assert(last_output_at(prefix, i));
            }
        }
        if forall|i: int| 0 <= i < options.len() ==> !(#[trigger] options[i] is Output) {
            assert(!(options[n] is Output));
        }
        assert forall|i: int| #[trigger] last_padding_at(options, i) implies switched_by(start, options).padding_voxels
            == options[i]->PaddingVoxels_0 by {
            if i < n {
                assert(!(options[n] is PaddingVoxels));
                assert(last_padding_at(prefix, i));
            }
        }
        if forall|i: int| 0 <= i < options.len() ==> !(#[trigger] options[i] is PaddingVoxels) {
            assert(!(options[n] is PaddingVoxels));
        }
        assert forall|i: int| #[trigger] last_kernel_at(options, i) implies switched_by(start, options).kernel_path
            == Some(options[i]->Kernel_0@) by {
            if i < n {
                assert(!(options[n] is Kernel));
                assert(last_kernel_at(prefix, i));
            }
        }
        if forall|i: int| 0 <= i < options.len() ==> !(#[trigger] options[i] is Kernel) {
            assert(!(options[n] is Kernel));
        }
    }
}

/// The error of a run that writes G-code without walls.
pub open spec fn gcode_walls_message() -> Seq<char> {
    "--wall-count must be greater than zero when --gcode is enabled"@
}

/// Refuses a run that writes G-code with a wall count of zero.
pub fn check_gcode_walls(switches: &RunSwitches) -> (r: Result<(), String>)
    ensures
        r is Err <==> switches.gcode_enabled && switches.wall_count == 0,
        r matches Err(e) ==> e@ == gcode_walls_message(),
{
    if switches.gcode_enabled && switches.wall_count == 0 {
        Err(String::from_str("--wall-count must be greater than zero when --gcode is enabled"))
    } else {
        Ok(())
    }
}

} // verus!
