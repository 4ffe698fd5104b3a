use std::path::PathBuf;

use field_gen::config::{settings_path, settings_path_in_config_dir, FieldMethod, APP_DIR_NAME, SETTINGS_FILE_NAME};
use field_gen::paths::{suffixed_output_path, SliceOutputPaths};

#[test]
fn lib_settings_path_uses_app_subdirectory() {
    let path = settings_path_in_config_dir("/tmp/config-root");

    assert_eq!(
        PathBuf::from(path),
        PathBuf::from("/tmp/config-root")
            .join(APP_DIR_NAME)
            .join(SETTINGS_FILE_NAME)
    );
}

#[test]
fn tests_settings_path_uses_app_subdirectory() {
    let path = settings_path_in_config_dir("/tmp/config-root");

    assert_eq!(
        PathBuf::from(path),
        PathBuf::from("/tmp/config-root")
            .join(APP_DIR_NAME)
            .join(SETTINGS_FILE_NAME)
    );
}

#[test]
fn settings_path_is_built_under_the_config_dir() {
    assert_eq!(
        settings_path(Some("/home/user/.config".to_string())),
        Ok("/home/user/.config/shockwave-slicer/settings.json".to_string())
    );
}

#[test]
fn settings_path_without_config_dir_is_an_error() {
    assert_eq!(
        settings_path(None),
        Err("could not determine platform config directory".to_string())
    );
}

#[test]
fn derives_compatible_output_paths_from_prefix() {
    let paths = SliceOutputPaths::from_prefix("/tmp/part", true, true, true);

    assert_eq!(PathBuf::from(&paths.volume), PathBuf::from("/tmp/part.occ"));
    assert_eq!(PathBuf::from(&paths.image), PathBuf::from("/tmp/part.bmp"));
    assert_eq!(paths.mesh.map(PathBuf::from), Some(PathBuf::from("/tmp/part.ply")));
    assert_eq!(
        paths.clipped_mesh.map(PathBuf::from),
        Some(PathBuf::from("/tmp/part-clipped.ply"))
    );
    assert_eq!(paths.gcode.map(PathBuf::from), Some(PathBuf::from("/tmp/part.gcode")));
    assert_eq!(PathBuf::from(&paths.metadata), PathBuf::from("/tmp/part.json"));
}

#[test]
fn output_paths_without_field_have_no_meshes() {
    let paths = SliceOutputPaths::from_prefix("out/part", false, true, false);

    assert_eq!(paths.volume, "out/part.occ");
    assert_eq!(paths.image, "out/part.bmp");
    assert_eq!(paths.mesh, None);
    assert_eq!(paths.clipped_mesh, None);
    assert_eq!(paths.gcode, None);
    assert_eq!(paths.metadata, "out/part.json");
}

#[test]
fn output_paths_without_ply_export_have_no_meshes_but_gcode() {
    let paths = SliceOutputPaths::from_prefix("part", true, false, true);

    assert_eq!(paths.mesh, None);
    assert_eq!(paths.clipped_mesh, None);
    assert_eq!(paths.gcode, Some("part.gcode".to_string()));
}

#[test]
fn prefix_extension_is_replaced() {
    let paths = SliceOutputPaths::from_prefix("/tmp/part.stl", true, true, false);

    assert_eq!(paths.volume, "/tmp/part.occ");
    assert_eq!(paths.mesh, Some("/tmp/part.ply".to_string()));
    assert_eq!(paths.clipped_mesh, Some("/tmp/part-clipped.ply".to_string()));
}

#[test]
fn suffixed_path_of_a_prefix_without_file_name_uses_default_stem() {
    assert_eq!(suffixed_output_path("/", "clipped", "ply"), "/occupancy-clipped.ply");
    assert_eq!(suffixed_output_path("out/part", "clipped", "ply"), "out/part-clipped.ply");
}

#[test]
fn field_methods_have_their_names() {
    assert_eq!(FieldMethod::Anisotropic.name(), "anisotropic");
    assert_eq!(FieldMethod::Trapezoid.name(), "trapezoid");
}

#[test]
fn every_output_of_a_prefix_is_a_distinct_file() {
    for prefix in ["/tmp/part", "/tmp/part.v1", "/tmp/part.occ", "part", ".hidden", "/tmp/run:2.v1"] {
        let paths = SliceOutputPaths::from_prefix(prefix, true, true, true);
        let mut all = vec![paths.volume.clone(), paths.image.clone(), paths.metadata.clone()];
        all.push(paths.mesh.clone().unwrap());
        all.push(paths.clipped_mesh.clone().unwrap());
        all.push(paths.gcode.clone().unwrap());
        for i in 0..all.len() {
            for j in (i + 1)..all.len() {
                assert_ne!(all[i], all[j], "{prefix}");
            }
        }
    }
}

#[test]
fn prefix_with_extension_keeps_the_meshes_apart() {
    let paths = SliceOutputPaths::from_prefix("/tmp/part.v1", true, true, false);
    assert_eq!(paths.volume, "/tmp/part.occ");
    assert_eq!(paths.mesh, Some("/tmp/part.ply".to_string()));
    assert_eq!(paths.clipped_mesh, Some("/tmp/part-clipped.ply".to_string()));
}

#[test]
fn suffixed_path_drops_an_existing_extension() {
    assert_eq!(suffixed_output_path("out/part.stl", "clipped", "ply"), "out/part-clipped.ply");
    assert_eq!(suffixed_output_path("out/.hidden", "clipped", "ply"), "out/.hidden-clipped.ply");
    assert_eq!(suffixed_output_path("out/part.", "clipped", "ply"), "out/part-clipped.ply");
}
