use field_gen::cli::{
    check_gcode_walls, find_settings_path, parse_command_line, parse_field_method, require_flag_value, run_switches,
    scan_options, usage, CliOption, USAGE,
};
use field_gen::clip::{classify_point_from_ray, classify_triangle_state, indexed_classifications, keeps_point, ClippingState, MeshTriangleClassification, PointClassification};
use field_gen::config::FieldMethod;
use field_gen::kernel::{ExplicitKernelPropagation, KernelPathCheck};
use field_gen::kernel_file::{
    kernel_moves_from_document, kernel_moves_from_text, KernelDocument, KernelFileError, KernelLoadError, KernelMoveDocument,
};
use field_gen::progress::{cancellation_outcome, check_cancelled, CancellationToken, ProgressLine, SliceError, SlicePhase, StderrProgress};
use field_gen::settings::SlicerSettings;
use field_gen::settings_form::{parse_u16, parse_u8, parse_usize, DecimalFields, SettingsForm, SettingsMessage};

fn args(values: &[&str]) -> Vec<String> {
    values.iter().map(|value| value.to_string()).collect()
}

#[test]
fn help_and_empty_arguments_print_usage() {
    assert_eq!(parse_command_line(&args(&[])).unwrap_err(), USAGE);
    assert_eq!(parse_command_line(&args(&["part.stl", "--gcode", "-h"])).unwrap_err(), USAGE);
    assert_eq!(parse_command_line(&args(&["--help"])).unwrap_err(), usage());
}

#[test]
fn command_line_settings_are_read_in_order() {
    let line = parse_command_line(&args(&[
        "part.stl",
        "--config",
        "a.json",
        "--voxel",
        "1",
        "2",
        "3",
        "--padding-voxels",
        "+4",
        "--field-method",
        "anisotropic",
        "--wall-count",
        "2",
        "-o",
        "out",
        "--config",
        "b.json",
        "--gcode",
    ]))
    .unwrap();

    assert_eq!(line.input, "part.stl");
    assert_eq!(line.settings_path, Some("b.json".to_string()));
    assert!(line.stopped.is_none());
    assert_eq!(line.options.len(), 6);
    assert!(matches!(&line.options[0], CliOption::Voxel(x, y, z) if x == "1" && y == "2" && z == "3"));
    assert!(matches!(line.options[1], CliOption::PaddingVoxels(4)));
    assert!(matches!(line.options[2], CliOption::FieldMethod(FieldMethod::Anisotropic)));
    assert!(matches!(line.options[3], CliOption::WallCount(2)));
    assert!(matches!(&line.options[4], CliOption::Output(path) if path == "out"));
    assert!(matches!(line.options[5], CliOption::Gcode));
}

#[test]
fn malformed_arguments_stop_the_reading() {
    let (options, stopped) = scan_options(&args(&["part.stl", "--field", "--voxel", "1", "2"]));
    assert_eq!(options.len(), 1);
    assert_eq!(stopped, Some("--voxel requires three numeric values".to_string()));

    let (_, stopped) = scan_options(&args(&["part.stl", "--padding-voxels", "-1"]));
    assert_eq!(stopped, Some("--padding-voxels must be a non-negative integer".to_string()));

    let (_, stopped) = scan_options(&args(&["part.stl", "--wall-count"]));
    assert_eq!(stopped, Some("--wall-count requires a non-negative integer".to_string()));

    let (_, stopped) = scan_options(&args(&["part.stl", "--field-method", "voronoi"]));
    assert_eq!(
        stopped,
        Some("--field-method must be `anisotropic` or `trapezoid`, got `voronoi`".to_string())
    );

    let (options, stopped) = scan_options(&args(&["part.stl", "--export-ply", "--bogus", "--gcode"]));
    assert_eq!(options.len(), 1);
    assert_eq!(stopped, Some(format!("unknown argument `--bogus`\n\n{}", USAGE)));

    let (_, stopped) = scan_options(&args(&["part.stl", "--iso-spacing"]));
    assert_eq!(stopped, Some("--iso-spacing requires a positive numeric value".to_string()));
}

#[test]
fn config_flag_without_value_is_an_error() {
    assert_eq!(
        parse_command_line(&args(&["part.stl", "--config"])).unwrap_err(),
        "--config requires a settings JSON path"
    );
    assert_eq!(find_settings_path(&args(&["part.stl"])), Ok(None));
    assert_eq!(
        find_settings_path(&args(&["part.stl", "--output", "--config", "s.json"])),
        Ok(Some("s.json".to_string()))
    );
}

#[test]
fn field_method_values_and_flag_values() {
    assert_eq!(parse_field_method(&args(&["a", "--field-method", "trapezoid"]), 1), Ok(FieldMethod::Trapezoid));
    assert_eq!(
        parse_field_method(&args(&["a", "--field-method"]), 1),
        Err("--field-method requires a method name".to_string())
    );
    let line = args(&["a", "--config", "k.json"]);
    assert_eq!(require_flag_value("--config", &line, 2), Ok("k.json"));
    let line = args(&["a", "--config"]);
    assert_eq!(require_flag_value("--config", &line, 2), Err("--config requires a value".to_string()));
}

fn form() -> SettingsForm {
    let text = |value: &str| value.to_string();
    SettingsForm {
        layer_height_mm: text("0.25"),
        voxel_x_mm: text("0.4"),
        voxel_y_mm: text("0.4"),
        voxel_z_mm: text("0.4"),
        print_volume_x_mm: text("256"),
        print_volume_y_mm: text("256"),
        print_volume_z_mm: text("256"),
        wall_count: text("6"),
        infill_percentage: text("11.25"),
        extrusion_width_mm: text("0.45"),
        filament_diameter_mm: text("1.75"),
        nozzle_temperature_c: text("215"),
        bed_temperature_c: text("60"),
        fan_speed_percent: text("100"),
        global_z_offset_mm: text("0"),
        printhead_clearance_height_mm: text("5"),
        printhead_clearance_angle_degrees: text("55"),
    }
}

#[test]
fn form_update_replaces_one_field() {
    let mut edited = form();
    edited.update(SettingsMessage::WallCount("3".to_string()));
    edited.update(SettingsMessage::PrintheadClearanceAngle("45".to_string()));

    assert_eq!(edited.wall_count, "3");
    assert_eq!(edited.printhead_clearance_angle_degrees, "45");
    assert_eq!(edited.layer_height_mm, "0.25");
    assert_eq!(edited.fan_speed_percent, "100");
}

#[test]
fn integer_fields_parse_trimmed_text_or_record_an_error() {
    let mut errors = Vec::new();

    assert_eq!(parse_usize(" 12 ", "slicing.wall_count", &mut errors), 12);
    assert_eq!(parse_u16("70000", "material.bed_temperature_c", &mut errors), 0);
    assert_eq!(parse_u8("255", "material.fan_speed_percent", &mut errors), 255);
    assert_eq!(parse_u8("abc", "material.fan_speed_percent", &mut errors), 0);

    assert_eq!(
        errors,
        vec![
            "material.bed_temperature_c must be a valid number".to_string(),
            "material.fan_speed_percent must be a valid number".to_string(),
        ]
    );
}

#[test]
fn progress_prints_every_five_percent_and_completion() {
    let mut progress = StderrProgress::new("field");
    assert_eq!(progress.next_percent, 0);

    assert_eq!(progress.update(0, 100, false), ProgressLine::Reached);
    assert_eq!(progress.next_percent, 5);
    assert_eq!(progress.update(3, 100, false), ProgressLine::Quiet);
    assert_eq!(progress.update(3, 100, true), ProgressLine::Reached);
    assert_eq!(progress.next_percent, 8);
    assert_eq!(progress.update(9, 100, false), ProgressLine::Reached);
    assert_eq!(progress.next_percent, 14);
    assert_eq!(progress.update(100, 100, false), ProgressLine::Reached);
    assert_eq!(progress.next_percent, 105);
    assert_eq!(progress.update(100, 100, false), ProgressLine::Reached);
}

#[test]
fn empty_propagation_is_reported_once() {
    let mut progress = StderrProgress::new("field");

    assert_eq!(progress.update(0, 0, true), ProgressLine::NothingToReach);
    assert_eq!(progress.next_percent, 101);
    assert_eq!(progress.update(0, 0, true), ProgressLine::Quiet);
}

#[test]
fn cancellation_is_shared_between_clones() {
    let token = CancellationToken::default();
    let clone = token.clone();

    assert!(!token.is_cancelled());
    assert!(check_cancelled(&token).is_ok());
    clone.cancel();
    assert!(token.is_cancelled());
    assert!(matches!(check_cancelled(&token), Err(SliceError::Cancelled)));
    assert_eq!(SliceError::Cancelled.message(), "slicing was cancelled");
    assert_eq!(SliceError::from("bad".to_string()).message(), "bad");
    assert_ne!(SlicePhase::LoadModel, SlicePhase::WriteGcode);
}

#[test]
fn ray_parity_and_triangle_states() {
    assert_eq!(classify_point_from_ray(true, 3), PointClassification::Boundary);
    assert_eq!(classify_point_from_ray(false, 1), PointClassification::Inside);
    assert_eq!(classify_point_from_ray(false, 2), PointClassification::Outside);
    assert_eq!(classify_point_from_ray(false, 0), PointClassification::Outside);
    assert!(keeps_point(PointClassification::Boundary));
    assert!(!keeps_point(PointClassification::Outside));
    assert_eq!(classify_triangle_state(true, PointClassification::Outside), ClippingState::Boundary);
    assert_eq!(classify_triangle_state(false, PointClassification::Boundary), ClippingState::Inside);
    assert_eq!(classify_triangle_state(false, PointClassification::Outside), ClippingState::Outside);
    assert_eq!(
        indexed_classifications(&vec![ClippingState::Outside, ClippingState::Inside]),
        vec![
            MeshTriangleClassification { triangle_index: 0, state: ClippingState::Outside },
            MeshTriangleClassification { triangle_index: 1, state: ClippingState::Inside },
        ]
    );
}

fn document(kind: &str, path_check: Option<&str>, moves: Option<Vec<KernelMoveDocument>>) -> KernelDocument {
    KernelDocument {
        kind: Some(kind.to_string()),
        path_check: path_check.map(|value| value.to_string()),
        moves,
    }
}

fn move_document(offset: &[i64], cost: f64) -> KernelMoveDocument {
    KernelMoveDocument {
        offset: Some(offset.iter().map(|value| Some(*value)).collect()),
        cost_bits: Some(cost.to_bits()),
    }
}

#[test]
fn loads_explicit_kernel_json() {
    let text = r#"{
  "type": "explicit",
  "path_check": "endpoint_occupied",
  "moves": [
    { "offset": [1, 0, 0], "cost": 0.5 }
  ]
}"#;

    let (moves, path_check) = kernel_moves_from_text(text).unwrap();
    let kernel = ExplicitKernelPropagation::new(moves, vec![vec![]], path_check).unwrap();

    assert_eq!(kernel.move_count(), 1);
    assert_eq!(kernel.path_check(), KernelPathCheck::EndpointOccupied);
    assert_eq!(kernel.cost_bits().to_vec(), vec![0.5f64.to_bits()]);
}

#[test]
fn rejects_invalid_kernel_type() {
    let error = kernel_moves_from_text(r#"{ "type": "generated", "moves": [] }"#).unwrap_err().message();

    assert!(error.contains("type"));
}

#[test]
fn rejects_invalid_kernel_path_check() {
    let error = kernel_moves_from_text(r#"{ "type": "explicit", "path_check": "bad", "moves": [] }"#)
        .unwrap_err()
        .message();

    assert!(error.contains("path_check"));
    assert_eq!(
        error,
        "kernel path_check must be endpoint_occupied or swept_occupied, got \"bad\""
    );
}

#[test]
fn rejects_missing_kernel_moves() {
    let error = kernel_moves_from_text(r#"{ "type": "explicit" }"#).unwrap_err().message();

    assert!(error.contains("moves array"));
}

#[test]
fn rejects_malformed_kernel_offset() {
    let error = kernel_moves_from_text(r#"{ "type": "explicit", "moves": [{ "offset": [1, 0], "cost": 1.0 }] }"#)
        .unwrap_err()
        .message();

    assert!(error.contains("three values"));
}

#[test]
fn kernel_text_that_is_not_json_is_a_parse_error() {
    let error = kernel_moves_from_text("{ \"type\": ").unwrap_err();
    assert!(matches!(error, KernelFileError::Parse(_)));
    assert!(!error.message().is_empty());
    let error = kernel_moves_from_text(r#"{ "type": "explicit", "moves": [{ "offset": [1, 0.5, 0], "cost": 1 }] }"#)
        .unwrap_err();
    assert!(matches!(error, KernelFileError::Invalid(KernelLoadError::OffsetNotInteger(0))));
    let (moves, path_check) =
        kernel_moves_from_text(r#"{ "type": "explicit", "moves": [{ "offset": [0, -1, 2], "cost": 3 }] }"#).unwrap();
    assert_eq!(path_check, KernelPathCheck::SweptOccupied);
    assert_eq!(moves[0].offset, [0, -1, 2]);
    assert_eq!(moves[0].cost_bits, 3.0f64.to_bits());
}

#[test]
fn kernel_document_errors_name_the_move() {
    let missing_cost = KernelMoveDocument {
        offset: Some(vec![Some(1), Some(0), Some(0)]),
        cost_bits: None,
    };
    let doc = document("explicit", None, Some(vec![move_document(&[0, 1, 0], 1.0), missing_cost]));
    assert_eq!(kernel_moves_from_document(&doc).unwrap_err(), KernelLoadError::MissingCost(1));
    assert_eq!(KernelLoadError::MissingCost(1).message(), "kernel move 1 must contain a numeric cost");

    let not_integer = KernelMoveDocument {
        offset: Some(vec![Some(1), None, Some(0)]),
        cost_bits: Some(1.0f64.to_bits()),
    };
    let doc = document("explicit", None, Some(vec![not_integer]));
    assert_eq!(kernel_moves_from_document(&doc).unwrap_err(), KernelLoadError::OffsetNotInteger(0));

    let doc = document("explicit", None, Some(vec![move_document(&[0, 0, 2], 2.0)]));
    let (moves, path_check) = kernel_moves_from_document(&doc).unwrap();
    assert_eq!(path_check, KernelPathCheck::SweptOccupied);
    assert_eq!(moves[0].offset, [0, 0, 2]);
    assert_eq!(moves[0].cost_bits, 2.0f64.to_bits());
}

#[test]
fn method_names_select_their_methods() {
    for method in [FieldMethod::Anisotropic, FieldMethod::Trapezoid] {
        let line = args(&["part.stl", "--field-method", method.name()]);
        assert_eq!(parse_field_method(&line, 1), Ok(method));
    }
}

#[test]
fn integer_fields_trim_unicode_whitespace() {
    let mut errors = Vec::new();

    assert_eq!(parse_usize("\u{3000}\t7\u{a0}\n", "slicing.wall_count", &mut errors), 7);
    assert_eq!(parse_usize("7\u{200b}", "slicing.wall_count", &mut errors), 0);
    assert_eq!(errors, vec!["slicing.wall_count must be a valid number".to_string()]);
}

#[test]
fn io_errors_keep_their_text() {
    let error = SliceError::Io(std::io::Error::new(std::io::ErrorKind::Other, "disk full"));

    assert_eq!(error.message(), "disk full");
}

#[test]
fn kernel_move_without_offset_is_rejected() {
    let no_offset = KernelMoveDocument {
        offset: None,
        cost_bits: Some(1.0f64.to_bits()),
    };
    let doc = document("explicit", Some("swept_occupied"), Some(vec![move_document(&[1, 0, 0], 1.0), no_offset]));

    let error = kernel_moves_from_document(&doc).unwrap_err();

    assert_eq!(error, KernelLoadError::MissingOffset(1));
    assert_eq!(error.message(), "kernel move 1 must contain an offset array");
}

#[test]
fn cancellation_outcome_follows_the_flag() {
    assert!(cancellation_outcome(false).is_ok());
    assert!(matches!(cancellation_outcome(true), Err(SliceError::Cancelled)));
}

fn decimals_of_form() -> DecimalFields {
    let bits = |value: f64| Some(value.to_bits());
    DecimalFields {
        layer_height: bits(0.25),
        voxel_x: bits(0.4),
        voxel_y: bits(0.4),
        voxel_z: bits(0.4),
        print_volume_x: bits(256.0),
        print_volume_y: bits(256.0),
        print_volume_z: bits(256.0),
        infill_percentage: bits(11.25),
        extrusion_width: bits(0.45),
        filament_diameter: bits(1.75),
        global_z_offset: bits(0.0),
        printhead_clearance_height: bits(5.0),
        printhead_clearance_angle: bits(55.0),
    }
}

#[test]
fn applying_the_form_replaces_the_settings() {
    let mut edited = form();
    edited.update(SettingsMessage::WallCount(" 3 ".to_string()));
    edited.update(SettingsMessage::FanSpeed("40".to_string()));
    let mut decimals = decimals_of_form();
    decimals.layer_height = Some(0.3f64.to_bits());
    let mut settings = SlicerSettings::default();
    settings.slicing.padding_voxels = 7;
    assert_eq!(edited.apply_parsed(decimals, &mut settings), Ok(()));
    assert_eq!(settings.slicing.wall_count, 3);
    assert_eq!(settings.material.fan_speed_percent, 40);
    assert_eq!(settings.slicing.layer_height_bits, 0.3f64.to_bits());
    assert_eq!(settings.slicing.padding_voxels, 7);
}

#[test]
fn applying_a_form_with_unreadable_fields_lists_them_in_order() {
    let mut edited = form();
    edited.update(SettingsMessage::BedTemperature("warm".to_string()));
    edited.update(SettingsMessage::WallCount("-1".to_string()));
    let mut decimals = decimals_of_form();
    decimals.voxel_y = None;
    decimals.printhead_clearance_angle = None;
    let mut settings = SlicerSettings::default();
    let before = settings;
    assert_eq!(
        edited.apply_parsed(decimals, &mut settings),
        Err(vec![
            "field.voxel_size_mm.y must be a valid number".to_string(),
            "slicing.wall_count must be a valid number".to_string(),
            "material.bed_temperature_c must be a valid number".to_string(),
            "printer.obstruction.printhead_clearance_angle_degrees must be a valid number".to_string(),
        ])
    );
    assert_eq!(settings, before);
}

#[test]
fn applying_a_form_that_breaks_a_rule_keeps_the_settings() {
    let mut edited = form();
    edited.update(SettingsMessage::WallCount("0".to_string()));
    edited.update(SettingsMessage::FanSpeed("120".to_string()));
    let mut settings = SlicerSettings::default();
    let before = settings;
    assert_eq!(
        edited.apply_parsed(decimals_of_form(), &mut settings),
        Err(vec![
            "slicing.wall_count must be greater than zero".to_string(),
            "material.fan_speed_percent must be between 0 and 100".to_string(),
        ])
    );
    assert_eq!(settings, before);
}

#[test]
fn gcode_and_ply_switches_imply_the_field() {
    let options = vec![
        CliOption::Gcode,
        CliOption::WallCount(2),
        CliOption::Output("out/part".to_string()),
        CliOption::PaddingVoxels(5),
    ];
    let switches = run_switches(&options, 3, FieldMethod::Trapezoid, 6);
    assert!(switches.gcode_enabled);
    assert!(switches.field_enabled);
    assert!(!switches.export_ply);
    assert_eq!(switches.wall_count, 2);
    assert_eq!(switches.padding_voxels, 5);
    assert_eq!(switches.output_prefix, "out/part");
    assert_eq!(switches.field_method, FieldMethod::Trapezoid);
    assert_eq!(check_gcode_walls(&switches), Ok(()));

    let options = vec![CliOption::Kernel("k.json".to_string()), CliOption::FieldMethod(FieldMethod::Anisotropic)];
    let switches = run_switches(&options, 3, FieldMethod::Trapezoid, 6);
    assert!(switches.field_enabled);
    assert_eq!(switches.kernel_path, Some("k.json".to_string()));
    assert_eq!(switches.field_method, FieldMethod::Anisotropic);
    assert_eq!(switches.output_prefix, "occupancy");

    let switches = run_switches(&vec![CliOption::ExportPly], 3, FieldMethod::Trapezoid, 6);
    assert!(switches.export_ply && switches.field_enabled && !switches.gcode_enabled);

    let switches = run_switches(&vec![], 3, FieldMethod::Trapezoid, 6);
    assert!(!switches.field_enabled);
}

#[test]
fn gcode_without_walls_is_refused() {
    let switches = run_switches(&vec![CliOption::WallCount(0), CliOption::Gcode], 3, FieldMethod::Trapezoid, 6);
    assert_eq!(
        check_gcode_walls(&switches),
        Err("--wall-count must be greater than zero when --gcode is enabled".to_string())
    );
    let switches = run_switches(&vec![CliOption::WallCount(0)], 3, FieldMethod::Trapezoid, 6);
    assert_eq!(check_gcode_walls(&switches), Ok(()));
}
