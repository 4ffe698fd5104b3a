use field_gen::grid::cell_index;
use field_gen::job::{cancellation_result, check_cancelled, output_steps, OutputStep, SliceDebugOutput, SliceJobRequest};
use field_gen::mesh::vertex_neighbors;
use field_gen::paths::{temporary_path, SliceOutputPaths};
use field_gen::progress::CancellationToken;
use field_gen::settings::{Dimensions3, SlicerSettings};
use field_gen::stl::{read_stl, StlContents, StlReadError};
use field_gen::toolpath::ToolpathRole;

fn bits(value: f64) -> u64 {
    value.to_bits()
}

#[test]
fn lib_defaults_match_current_slicer_behavior() {
    let settings = SlicerSettings::default();

    assert_eq!(f64::from_bits(settings.slicing.layer_height_bits), 0.25);
    assert_eq!(settings.slicing.voxel_size, Dimensions3::uniform(bits(0.4)));
    assert_eq!(settings.slicing.padding_voxels, 3);
    assert_eq!(settings.slicing.wall_count, 6);
    assert_eq!(f64::from_bits(settings.slicing.extrusion_width_bits), 0.45);
    assert_eq!(f64::from_bits(settings.slicing.infill_percentage_bits), 11.25);
    assert_eq!(f64::from_bits(settings.printer.print_volume.x_bits), 256.0);
    assert_eq!(f64::from_bits(settings.printer.obstruction.printhead_clearance_height_bits), 5.0);
    assert_eq!(f64::from_bits(settings.printer.obstruction.printhead_clearance_angle_bits), 55.0);
    assert_eq!(f64::from_bits(settings.material.filament_diameter_bits), 1.75);
    assert_eq!(settings.material.nozzle_temperature_c, 215);
    assert_eq!(settings.material.bed_temperature_c, 60);
    assert_eq!(settings.material.fan_speed_percent, 100);
    assert_eq!(f64::from_bits(settings.field.anisotropic_rate.x_bits), 3.7);
    assert_eq!(f64::from_bits(settings.field.anisotropic_rate.z_bits), 1.0);
    assert_eq!(settings.validate(), Ok(()));
}

#[test]
fn lib_validates_user_facing_settings() {
    let mut settings = SlicerSettings::default();
    settings.slicing.layer_height_bits = bits(0.0);
    settings.slicing.infill_percentage_bits = bits(150.0);
    settings.printer.print_volume.z_bits = bits(f64::NAN);
    settings.printer.obstruction.printhead_clearance_angle_bits = bits(90.0);

    let errors = settings.validate().unwrap_err();

    assert!(errors.iter().any(|error| error.contains("layer_height")));
    assert!(errors.iter().any(|error| error.contains("infill_percentage")));
    assert!(errors.iter().any(|error| error.contains("print_volume")));
    assert!(errors.iter().any(|error| error.contains("clearance_angle")));
    assert_eq!(
        errors,
        vec![
            "slicing.layer_height_mm must be finite and greater than zero".to_string(),
            "slicing.infill_percentage must be between 0 and 100".to_string(),
            "printer.print_volume_mm.z must be finite and greater than zero".to_string(),
            "printer.obstruction.printhead_clearance_angle_degrees must be in [0, 90)".to_string(),
        ]
    );
}

#[test]
fn range_rules_follow_floating_point_comparison() {
    for (value, valid) in [
        (0.0, true),
        (-0.0, true),
        (100.0, true),
        (100.00000000000001, false),
        (-1.0e-300, false),
        (f64::INFINITY, false),
        (f64::NAN, false),
    ] {
        let mut settings = SlicerSettings::default();
        settings.slicing.infill_percentage_bits = bits(value);
        assert_eq!(settings.validate().is_ok(), valid, "infill {value}");
    }
    for (value, valid) in [(0.0, true), (-0.0, true), (89.99999999999999, true), (90.0, false), (-2.0, false)] {
        let mut settings = SlicerSettings::default();
        settings.printer.obstruction.printhead_clearance_angle_bits = bits(value);
        assert_eq!(settings.validate().is_ok(), valid, "angle {value}");
    }
    for (value, valid) in [(0.0, true), (-0.0, true), (1.0e-320, true), (-1.0e-320, false), (f64::INFINITY, false)] {
        let mut settings = SlicerSettings::default();
        settings.printer.obstruction.printhead_clearance_height_bits = bits(value);
        assert_eq!(settings.validate().is_ok(), valid, "height {value}");
    }
    for (value, valid) in [(1.0e-320, true), (0.0, false), (-0.0, false), (f64::NEG_INFINITY, false)] {
        let mut settings = SlicerSettings::default();
        settings.material.filament_diameter_bits = bits(value);
        assert_eq!(settings.validate().is_ok(), valid, "diameter {value}");
    }
    for (value, valid) in [(-1.0e300, true), (f64::NEG_INFINITY, false), (f64::NAN, false)] {
        let mut settings = SlicerSettings::default();
        settings.slicing.global_z_offset_bits = bits(value);
        assert_eq!(settings.validate().is_ok(), valid, "offset {value}");
    }
}

#[test]
fn integer_rules_are_checked() {
    let mut settings = SlicerSettings::default();
    settings.slicing.wall_count = 0;
    settings.material.fan_speed_percent = 101;
    settings.field.anisotropic_rate.y_bits = bits(-3.0);

    assert_eq!(
        settings.validate().unwrap_err(),
        vec![
            "slicing.wall_count must be greater than zero".to_string(),
            "material.fan_speed_percent must be between 0 and 100".to_string(),
            "field.anisotropic_rate.y must be finite and greater than zero".to_string(),
        ]
    );
}

#[test]
fn output_plan_follows_requested_outputs() {
    let paths = SliceOutputPaths::from_prefix("part", true, true, true);
    let debug = SliceDebugOutput { export_ply: true, gcode: true };
    assert_eq!(
        output_steps(&paths, true, debug),
        vec![
            OutputStep::WriteVolume,
            OutputStep::CheckCancelled,
            OutputStep::WriteImage,
            OutputStep::CheckCancelled,
            OutputStep::BeginExtractLayers,
            OutputStep::CheckCancelled,
            OutputStep::ExtractLayers,
            OutputStep::CheckCancelled,
            OutputStep::WriteMesh,
            OutputStep::CheckCancelled,
            OutputStep::BeginClipLayers,
            OutputStep::CheckCancelled,
            OutputStep::ClipLayers,
            OutputStep::CheckCancelled,
            OutputStep::WriteClippedMesh,
            OutputStep::CheckCancelled,
            OutputStep::BeginGeneratePaths,
            OutputStep::CheckCancelled,
            OutputStep::GeneratePaths,
            OutputStep::CheckCancelled,
            OutputStep::WriteGcode,
            OutputStep::CheckCancelled,
            OutputStep::WriteMetadata,
        ]
    );

    let gcode_only = SliceOutputPaths::from_prefix("part", true, false, true);
    let debug = SliceDebugOutput { export_ply: false, gcode: true };
    assert_eq!(
        output_steps(&gcode_only, true, debug),
        vec![
            OutputStep::WriteVolume,
            OutputStep::CheckCancelled,
            OutputStep::WriteImage,
            OutputStep::CheckCancelled,
            OutputStep::BeginExtractLayers,
            OutputStep::CheckCancelled,
            OutputStep::ExtractLayers,
            OutputStep::CheckCancelled,
            OutputStep::BeginClipLayers,
            OutputStep::CheckCancelled,
            OutputStep::ClipLayers,
            OutputStep::CheckCancelled,
            OutputStep::BeginGeneratePaths,
            OutputStep::CheckCancelled,
            OutputStep::GeneratePaths,
            OutputStep::CheckCancelled,
            OutputStep::WriteGcode,
            OutputStep::CheckCancelled,
            OutputStep::WriteMetadata,
        ]
    );

    let no_field = SliceOutputPaths::from_prefix("part", false, true, true);
    assert_eq!(
        output_steps(&no_field, false, SliceDebugOutput { export_ply: true, gcode: true }),
        vec![
            OutputStep::WriteVolume,
            OutputStep::CheckCancelled,
            OutputStep::WriteImage,
            OutputStep::CheckCancelled,
            OutputStep::WriteMetadata,
        ]
    );

    let request = SliceJobRequest {
        input: "part.stl".to_string(),
        output_prefix: "part".to_string(),
        debug_output: SliceDebugOutput { export_ply: false, gcode: false },
        kernel_path: None,
    };
    assert_eq!(request.debug_output.gcode, false);
}

#[test]
fn job_cancellation_error_text() {
    let token = CancellationToken::default();
    assert_eq!(check_cancelled(&token), Ok(()));
    token.cancel();
    assert_eq!(check_cancelled(&token), Err("cancelled".to_string()));
}

#[test]
fn temporary_path_sits_beside_the_output() {
    assert_eq!(temporary_path("/tmp/out/part.gcode", 42), "/tmp/out/part.gcode.tmp-42");
    assert_eq!(temporary_path("/", 7), "/output.tmp-7");
}

#[test]
fn cell_index_is_x_fastest() {
    assert_eq!(cell_index([3, 4, 5], 1, 2, 3), 1 + 2 * 3 + 3 * 12);
    assert_eq!(cell_index([3, 4, 0], 0, 0, 0), 0);
}

#[test]
fn vertex_neighbours_follow_triangle_sides() {
    let adjacency = vertex_neighbors(4, &[[0, 1, 2], [0, 2, 3]]).unwrap();

    assert_eq!(adjacency, vec![vec![1, 2, 2, 3], vec![0, 2], vec![1, 0, 0, 3], vec![2, 0]]);
    assert!(vertex_neighbors(2, &[[0, 1, 2]]).is_err());
}

#[test]
fn ascii_stl_vertex_lines_are_tokenised() {
    let text = "solid cube\n  facet normal 0 0 1\n    outer loop\n      vertex 0 0 0\n      vertex 1 0\n\tvertex  1 1 0 extra\r\n    endloop\nendsolid\n";

    let contents = read_stl(text.as_bytes()).unwrap();

    let StlContents::Ascii(fields) = contents else {
        panic!("expected ASCII contents");
    };
    let text_of = |field: &Option<String>| field.clone();
    assert_eq!(fields.len(), 3);
    assert_eq!(
        fields[0].iter().map(text_of).collect::<Vec<_>>(),
        vec![Some("0".to_string()), Some("0".to_string()), Some("0".to_string())]
    );
    assert_eq!(
        fields[1].iter().map(text_of).collect::<Vec<_>>(),
        vec![Some("1".to_string()), Some("0".to_string()), None]
    );
    assert_eq!(
        fields[2].iter().map(text_of).collect::<Vec<_>>(),
        vec![Some("1".to_string()), Some("1".to_string()), Some("0".to_string())]
    );
}

#[test]
fn non_text_non_binary_stl_is_rejected() {
    let bytes = vec![0xffu8, 0xfe, 0x00];

    assert_eq!(read_stl(&bytes).unwrap_err(), StlReadError::NotText);
    assert_eq!(
        StlReadError::NotText.message(),
        "STL is neither valid binary STL nor UTF-8 ASCII STL"
    );
}

#[test]
fn vertex_neighbours_are_symmetric() {
    let triangles = [[0, 1, 2], [2, 1, 3], [3, 4, 2]];
    let adjacency = vertex_neighbors(5, &triangles).unwrap();

    for v in 0..5 {
        for w in 0..5 {
            let forward = adjacency[v].iter().filter(|n| **n == w).count();
            let backward = adjacency[w].iter().filter(|n| **n == v).count();
            assert_eq!(forward, backward);
        }
    }
}

#[test]
fn ascii_stl_words_are_split_at_unicode_whitespace() {
    let contents = read_stl("vertex\u{a0}1\u{2003}2 3\nvertexx 4 5 6\n".as_bytes()).unwrap();

    let StlContents::Ascii(fields) = contents else {
        panic!("expected ASCII contents");
    };
    assert_eq!(fields.len(), 1);
    assert_eq!(fields[0][0].as_deref(), Some("1"));
    assert_eq!(fields[0][1].as_deref(), Some("2"));
    assert_eq!(fields[0][2].as_deref(), Some("3"));
}

#[test]
fn cancellation_result_follows_the_flag() {
    assert_eq!(cancellation_result(false), Ok(()));
    assert_eq!(cancellation_result(true), Err("cancelled".to_string()));
}

#[test]
fn output_plan_checks_cancellation_after_each_file() {
    let paths = SliceOutputPaths::from_prefix("part", true, true, false);
    let steps = output_steps(&paths, true, SliceDebugOutput { export_ply: true, gcode: false });
    for (index, step) in steps.iter().enumerate() {
        let writes = matches!(
            step,
            OutputStep::WriteVolume | OutputStep::WriteImage | OutputStep::WriteMesh | OutputStep::WriteClippedMesh
        );
        if writes {
            assert_eq!(steps[index + 1], OutputStep::CheckCancelled);
        }
    }
    assert_eq!(steps.last(), Some(&OutputStep::WriteMetadata));
}

#[test]
fn toolpaths_are_perimeters_by_default() {
    assert_eq!(ToolpathRole::default(), ToolpathRole::Perimeter);
    assert_ne!(ToolpathRole::Infill, ToolpathRole::Travel);
}

#[test]
fn ascii_stl_lines_end_at_newlines_with_optional_carriage_returns() {
    let contents = read_stl("solid s\r\n  vertex 1 2 3\r\nvertex 4 5 6\r\n\r\nvertex 7 8\r".as_bytes()).unwrap();

    let StlContents::Ascii(fields) = contents else {
        panic!("expected ASCII contents");
    };
    assert_eq!(fields.len(), 3);
    assert_eq!(fields[0][2].as_deref(), Some("3"));
    assert_eq!(fields[1][0].as_deref(), Some("4"));
    assert_eq!(fields[1][2].as_deref(), Some("6"));
    assert_eq!(fields[2][1].as_deref(), Some("8"));
    assert_eq!(fields[2][2].as_deref(), None);
}
