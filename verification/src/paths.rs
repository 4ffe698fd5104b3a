//! File-system paths as text, with the standard library's path rules for
//! joining components and replacing file names and extensions, and the
//! output file names that a slice derives from its prefix.

use crate::text::{decimal, decimal_string};
use std::path::{Path, PathBuf};
use vstd::prelude::*;

verus! {

/// What `Path::join` returns for `base` and `component`, as text.
pub uninterp spec fn path_joined(base: Seq<char>, component: Seq<char>) -> Seq<char>;

/// What `Path::with_extension` returns for `path` and `extension`, as text.
pub uninterp spec fn path_with_extension(path: Seq<char>, extension: Seq<char>) -> Seq<char>;

/// What `Path::file_name` returns for `path`, as text.
pub uninterp spec fn path_file_name(path: Seq<char>) -> Option<Seq<char>>;

/// The path that `PathBuf::set_file_name` leaves for `path` and `name`, as text.
pub uninterp spec fn path_set_file_name(path: Seq<char>, name: Seq<char>) -> Seq<char>;

/// Whether `c` separates path components on a platform that the standard
/// library supports: `/` everywhere, and `\` as well on Windows.
pub open spec fn is_separator_char(c: char) -> bool {
    c == '/' || c == '\\'
}

/// Whether `text` holds no path separator of any supported platform.
pub open spec fn has_no_separator(text: Seq<char>) -> bool {
    forall|i: int| 0 <= i < text.len() ==> !is_separator_char(#[trigger] text[i])
}

/// Whether `name` can be a final path component: not empty, without `/`,
/// and neither `.` nor `..`.
pub open spec fn is_component_name(name: Seq<char>) -> bool {
    &&& name.len() > 0
    &&& forall|i: int| 0 <= i < name.len() ==> #[trigger] name[i] != '/'
    &&& name != "."@
    &&& name != ".."@
}

/// Whether `name` is a final path component on every supported platform:
/// a component name without `\\`, and without a `:` as its second
/// character (a name such as `c:x` would begin with a drive on Windows).
pub open spec fn is_portable_name(name: Seq<char>) -> bool {
    &&& is_component_name(name)
    &&& forall|i: int| 0 <= i < name.len() ==> #[trigger] name[i] != '\\'
    &&& !(name.len() >= 2 && name[1] == ':')
}

/// The index of the last `.` in `name`, if it holds one.
pub open spec fn last_dot(name: Seq<char>) -> Option<int>
    decreases name.len(),
{
    if name.len() == 0 {
        None
    } else if name.last() == '.' {
        Some(name.len() - 1)
    } else {
        last_dot(name.drop_last())
    }
}

/// The stem of a file name, as `Path::file_stem` documents it: the part
/// before the last `.`, or the whole name when it holds no `.` but a
/// leading one.
pub open spec fn name_stem(name: Seq<char>) -> Seq<char> {
    match last_dot(name) {
        Some(i) => if i > 0 {
            name.take(i)
        } else {
            name
        },
        None => name,
    }
}

/// `Path::join`: `component` appended to `base` under the platform's path
/// rules (an absolute component replaces the base); the result is named
/// `path_joined`.
#[verifier::external_body]
pub(crate) fn join_path(base: &str, component: &str) -> (r: String)
    ensures
        r@ == path_joined(base@, component@),
{
    Path::new(base).join(component).to_string_lossy().into_owned()
}

/// `Path::with_extension`: the path with its extension replaced by (or
/// extended with) `extension`; the result is named `path_with_extension`.
/// The standard library panics on an extension that holds a separator. As
/// it documents: a path without a file name comes back unchanged, and
/// otherwise the new file name is the old one's stem, a `.` and the
/// extension.
#[verifier::external_body]
pub(crate) fn with_extension(path: &str, extension: &str) -> (r: String)
    requires
        has_no_separator(extension@),
    ensures
        r@ == path_with_extension(path@, extension@),
        path_file_name(path@) is None ==> r@ == path@,
        extension@.len() > 0 ==> (path_file_name(path@) matches Some(name) ==> path_file_name(r@)
            == Some(name_stem(name) + "."@ + extension@)),
{
    Path::new(path).with_extension(extension).to_string_lossy().into_owned()
}

/// `Path::file_name`: the final component of the path, absent when the path
/// ends in `..` or has no components; the result is named `path_file_name`.
/// A final component is never empty, holds no `/`, and is neither `.` nor
/// `..`.
#[verifier::external_body]
pub(crate) fn file_name(path: &str) -> (r: Option<String>)
    ensures
        r is None <==> path_file_name(path@) is None,
        r matches Some(name) ==> path_file_name(path@) == Some(name@),
        r matches Some(name) ==> is_component_name(name@),
{
    match Path::new(path).file_name() {
        Some(name) => Some(name.to_string_lossy().into_owned()),
        None => None,
    }
}

/// `PathBuf::set_file_name`: the path with its final component replaced by
/// `name`; the result is named `path_set_file_name`. As documented, a name
/// that is a final component on every platform becomes the path's file name.
#[verifier::external_body]
pub(crate) fn set_file_name(path: &str, name: &str) -> (r: String)
    ensures
        r@ == path_set_file_name(path@, name@),
        is_portable_name(name@) ==> path_file_name(r@) == Some(name@),
{
    let mut buffer = PathBuf::from(path);
    buffer.set_file_name(name);
    buffer.to_string_lossy().into_owned()
}

/// `Path::file_stem`: the stem of the path's file name, which is, as
/// documented, the name without its extension (see `name_stem`), and absent
/// when the path has no file name.
#[verifier::external_body]
pub(crate) fn file_stem(path: &str) -> (r: Option<String>)
    ensures
        r is None <==> path_file_name(path@) is None,
        r matches Some(stem) ==> path_file_name(path@) matches Some(name) && stem@ == name_stem(name),
{
    match Path::new(path).file_stem() {
        Some(stem) => Some(stem.to_string_lossy().into_owned()),
        None => None,
    }
}

/// The file stem used for derived outputs when the prefix has no file name.
pub open spec fn default_stem() -> Seq<char> {
    "occupancy"@
}

/// The file name `<stem>-<suffix>.<extension>`.
pub open spec fn suffixed_name(stem: Seq<char>, suffix: Seq<char>, extension: Seq<char>) -> Seq<char> {
    stem + "-"@ + suffix + "."@ + extension
}

/// The path `prefix` with its file name replaced by
/// `<stem>-<suffix>.<extension>`, where `<stem>` is the stem of the prefix's
/// file name (the name without its extension), or `occupancy` when it has
/// none. Keeping the prefix's extension out of the name keeps the result
/// apart from `prefix` with its extension replaced.
pub open spec fn suffixed_path(prefix: Seq<char>, suffix: Seq<char>, extension: Seq<char>) -> Seq<char> {
    let stem = match path_file_name(prefix) {
        Some(name) => name_stem(name),
        None => default_stem(),
    };
    path_set_file_name(prefix, suffixed_name(stem, suffix, extension))
}

/// Derives the path of a secondary output from the slice prefix, e.g.
/// `part` or `part.v1` gives `part-clipped.ply` for suffix `clipped` and
/// extension `ply`.
pub fn suffixed_output_path(prefix: &str, suffix: &str, extension: &str) -> (r: String)
    ensures
        r@ == suffixed_path(prefix@, suffix@, extension@),
        path_file_name(prefix@) matches Some(name) ==> (is_portable_name(
            suffixed_name(name_stem(name), suffix@, extension@),
        ) ==> path_file_name(r@) == Some(suffixed_name(name_stem(name), suffix@, extension@))),
{
    let mut name = match file_stem(prefix) {
        Some(stem) => stem,
        None => String::from_str("occupancy"),
    };
    proof {
        reveal_strlit("occupancy");
    }
    name.append("-");
    name.append(suffix);
    name.append(".");
    name.append(extension);
    set_file_name(prefix, name.as_str())
}

/// Whether the outputs derived from `prefix` are told apart by their file
/// names: the prefix has a file name that means the same on every supported
/// platform (see `is_portable_name`).
pub open spec fn has_portable_file_name(prefix: Seq<char>) -> bool {
    path_file_name(prefix) matches Some(name) && is_portable_name(name)
}

/// Whether no two of the files in `paths` are the same file.
pub open spec fn outputs_distinct(paths: SliceOutputPaths) -> bool {
    let fixed = seq![paths.volume@, paths.image@, paths.metadata@];
    let optional = seq![paths.mesh, paths.clipped_mesh, paths.gcode];
    &&& forall|i: int, j: int| 0 <= i < j < 3 ==> fixed[i] != fixed[j]
    &&& forall|i: int, j: int|
        0 <= i < 3 && 0 <= j < 3 && optional[i] is Some ==> fixed[j] != optional[i]->Some_0@
    &&& forall|i: int, j: int|
        0 <= i < j < 3 && optional[i] is Some && optional[j] is Some ==> optional[i]->Some_0@
            != optional[j]->Some_0@
}

/// The last `.` of a name lies within it.
proof fn lemma_last_dot_within(name: Seq<char>)
    ensures
        last_dot(name) matches Some(i) ==> 0 <= i < name.len(),
    decreases name.len(),
{
    if name.len() > 0 && name.last() != '.' {
        lemma_last_dot_within(name.drop_last());
    }
}

/// The stem of a name is a non-empty start of it.
proof fn lemma_stem_within(name: Seq<char>)
    requires
        name.len() > 0,
    ensures
        name_stem(name).len() > 0,
        name_stem(name).len() <= name.len(),
        forall|i: int| 0 <= i < name_stem(name).len() ==> #[trigger] name_stem(name)[i] == name[i],
{
    lemma_last_dot_within(name);
}

/// The files a slice writes, all derived from one output prefix.
#[derive(Clone, Debug, PartialEq, Eq)]
pub struct SliceOutputPaths {
    pub volume: String,
    pub image: String,
    pub mesh: Option<String>,
    pub clipped_mesh: Option<String>,
    pub gcode: Option<String>,
    pub metadata: String,
}

impl SliceOutputPaths {
    /// The output paths for `prefix`: the occupancy volume (`.occ`), the
    /// atlas image (`.bmp`) and the metadata (`.json`) always; the field
    /// meshes (`.ply` and `-clipped.ply`) when a field is computed and PLY
    /// export is on; the G-code (`.gcode`) when G-code is enabled.
    pub fn from_prefix(prefix: &str, has_field: bool, export_ply: bool, gcode_enabled: bool) -> (r: Self)
        ensures
            r.volume@ == path_with_extension(prefix@, "occ"@),
            r.image@ == path_with_extension(prefix@, "bmp"@),
            r.mesh is Some <==> has_field && export_ply,
            r.mesh matches Some(m) ==> m@ == path_with_extension(prefix@, "ply"@),
            r.clipped_mesh is Some <==> has_field && export_ply,
            r.clipped_mesh matches Some(m) ==> m@ == suffixed_path(prefix@, "clipped"@, "ply"@),
            r.gcode is Some <==> gcode_enabled,
            r.gcode matches Some(g) ==> g@ == path_with_extension(prefix@, "gcode"@),
            r.metadata@ == path_with_extension(prefix@, "json"@),
            has_portable_file_name(prefix@) ==> outputs_distinct(r),
    {
        proof {
            reveal_strlit("occ");
            reveal_strlit("bmp");
            reveal_strlit("ply");
            reveal_strlit("gcode");
            reveal_strlit("json");
            reveal_strlit("clipped");
        }
        let meshes = has_field && export_ply;
        let volume = with_extension(prefix, "occ");
        let image = with_extension(prefix, "bmp");
        let mesh = if meshes {
            Some(with_extension(prefix, "ply"))
        } else {
            None
        };
        let clipped_mesh = if meshes {
            Some(suffixed_output_path(prefix, "clipped", "ply"))
        } else {
            None
        };
        let gcode = if gcode_enabled {
            Some(with_extension(prefix, "gcode"))
        } else {
            None
        };
        let metadata = with_extension(prefix, "json");
        let r = SliceOutputPaths { volume, image, mesh, clipped_mesh, gcode, metadata };
        proof {
            if has_portable_file_name(prefix@) {
                reveal_strlit("clipped");
                reveal_strlit("ply");
                let name = path_file_name(prefix@)->Some_0;
                lemma_stem_within(name);
                lemma_suffixed_name_portable(name_stem(name), "clipped"@, "ply"@);
                lemma_separated_outputs_distinct(prefix@, r);
            }
        }
        r
    }
}

/// The name `<stem>-<suffix>.<extension>` is portable when the stem is
/// not empty, none of the three parts holds a `/` or `\\`, and the stem has
/// no `:` as its second character.
proof fn lemma_suffixed_name_portable(stem: Seq<char>, suffix: Seq<char>, extension: Seq<char>)
    requires
        stem.len() > 0,
        forall|i: int| 0 <= i < stem.len() ==> #[trigger] stem[i] != '/' && stem[i] != '\\',
        !(stem.len() >= 2 && stem[1] == ':'),
        forall|i: int| 0 <= i < suffix.len() ==> #[trigger] suffix[i] != '/' && suffix[i] != '\\',
        forall|i: int|
            0 <= i < extension.len() ==> #[trigger] extension[i] != '/' && extension[i] != '\\',
    ensures
        is_portable_name(suffixed_name(stem, suffix, extension)),
{
    reveal_strlit("-");
    reveal_strlit(".");
    reveal_strlit("..");
    let full = suffixed_name(stem, suffix, extension);
    let k = stem.len() as int;
    let d = k + 1 + suffix.len();
    assert(full[k] == '-');
    assert(full != "."@ && full != ".."@) by {
        if full == "."@ || full == ".."@ {
            assert(full.len() >= 2);
            assert(k == 1);
            assert(full[1] == '-');
        }
    }
    if k >= 2 {
        assert(full[1] == stem[1]);
    }
    assert forall|i: int| 0 <= i < full.len() implies #[trigger] full[i] != '/' && full[i] != '\\' by {
        if i < k {
            assert(full[i] == stem[i]);
        } else if k < i < d {
            assert(full[i] == suffix[i - k - 1]);
        } else if i > d {
            assert(full[i] == extension[i - d - 1]);
        } else if i == d {
            assert(full[i] == '.');
        }
    }
}

/// The file names of the derived outputs differ, so the outputs do: the
/// plain outputs differ in the first letter of their extensions, and the
/// clipped mesh carries `-` where the others carry `.`.
proof fn lemma_separated_outputs_distinct(prefix: Seq<char>, r: SliceOutputPaths)
    requires
        has_portable_file_name(prefix),
        path_file_name(r.volume@) == Some(name_stem(path_file_name(prefix)->Some_0) + "."@ + "occ"@),
        path_file_name(r.image@) == Some(name_stem(path_file_name(prefix)->Some_0) + "."@ + "bmp"@),
        path_file_name(r.metadata@) == Some(
            name_stem(path_file_name(prefix)->Some_0) + "."@ + "json"@,
        ),
        r.mesh matches Some(m) ==> path_file_name(m@) == Some(
            name_stem(path_file_name(prefix)->Some_0) + "."@ + "ply"@,
        ),
        r.gcode matches Some(g) ==> path_file_name(g@) == Some(
            name_stem(path_file_name(prefix)->Some_0) + "."@ + "gcode"@,
        ),
        r.clipped_mesh matches Some(c) ==> path_file_name(c@) == Some(
            suffixed_name(name_stem(path_file_name(prefix)->Some_0), "clipped"@, "ply"@),
        ),
    ensures
        outputs_distinct(r),
{
    reveal_strlit("occ");
    reveal_strlit("bmp");
    reveal_strlit("ply");
    reveal_strlit("gcode");
    reveal_strlit("json");
    reveal_strlit("clipped");
    reveal_strlit("-");
    reveal_strlit(".");
    let n = name_stem(path_file_name(prefix)->Some_0);
    let k: int = n.len() as int;
    let clipped_name = suffixed_name(n, "clipped"@, "ply"@);
    let names = seq![
        n + "."@ + "occ"@,
        n + "."@ + "bmp"@,
        n + "."@ + "json"@,
        n + "."@ + "ply"@,
        n + "."@ + "gcode"@,
    ];
    assert forall|i: int, j: int| 0 <= i < j < 5 implies names[i] != names[j] by {
        assert(names[i][k + 1] != names[j][k + 1]);
    }
    assert forall|i: int| 0 <= i < 5 implies clipped_name != names[i] by {
        assert(clipped_name[k] == '-');
        assert(names[i][k] == '.');
    }
    assert(r.volume@ != r.image@);
    assert(r.volume@ != r.metadata@);
    assert(r.image@ != r.metadata@);
    assert(outputs_distinct(r)) by {
        if let Some(m) = r.mesh {
            assert(m@ != r.volume@ && m@ != r.image@ && m@ != r.metadata@);
        }
        if let Some(g) = r.gcode {
            assert(g@ != r.volume@ && g@ != r.image@ && g@ != r.metadata@);
            if let Some(m) = r.mesh {
                assert(g@ != m@);
            }
        }
        if let Some(c) = r.clipped_mesh {
            assert(c@ != r.volume@ && c@ != r.image@ && c@ != r.metadata@);
            if let Some(m) = r.mesh {
                assert(c@ != m@);
            }
            if let Some(g) = r.gcode {
                assert(c@ != g@);
            }
        }
    }
}

/// The temporary file that an output is written to before it is renamed
/// into place: `<name>.tmp-<process id>` beside `path`, where `<name>` is
/// the path's file name, or `output` when it has none.
pub open spec fn temporary_file(path: Seq<char>, process_id: u32) -> Seq<char> {
    let name = match path_file_name(path) {
        Some(name) => name,
        None => "output"@,
    };
    path_set_file_name(path, name + ".tmp-"@ + decimal(process_id as nat))
}

/// The temporary path for writing `path` atomically from process `process_id`.
pub fn temporary_path(path: &str, process_id: u32) -> (r: String)
    ensures
        r@ == temporary_file(path@, process_id),
{
    let mut name = match file_name(path) {
        Some(name) => name,
        None => String::from_str("output"),
    };
    name.append(".tmp-");
    name.append(decimal_string(process_id as usize).as_str());
    set_file_name(path, name.as_str())
}

} // verus!
