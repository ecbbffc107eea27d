//! Shader descriptions: where the source comes from, its entry points, and stage visibility.
use std::path::PathBuf;
use vstd::prelude::*;

verus! {

/// Makes `std::path::PathBuf` usable in fields; its contents stay opaque.
#[verifier::external_type_specification]
#[verifier::external_body]
pub struct ExPathBuf(PathBuf);

/// Specifies `<PathBuf as Clone>::clone` (used by the derived `Clone` of [`ShaderSource`]).
/// Nothing is claimed of the copy.
pub assume_specification[ <PathBuf as Clone>::clone ](path: &PathBuf) -> PathBuf;

/// Calls `Path::file_name` and converts the name to a `String` (lossily, as
/// `to_string_lossy` does). Nothing is claimed of the result: what the last component of a path
/// is, and how a file name decodes, depend on the platform's path syntax and encoding.
#[verifier::external_body]
fn path_file_name(path: &PathBuf) -> Option<String> {
    match path.file_name() {
        Some(name) => Some(name.to_string_lossy().into_owned()),
        None => None,
    }
}

/// Reported when a shader module lacks the stage that was asked of it.
#[derive(Debug)]
pub struct ShaderTypeMismatch {
    pub expected: ShaderStage,
    pub found: ShaderStage,
}

/// Which shader stage(s) a binding is visible from.
#[derive(Clone, Copy, Debug, PartialEq, Eq, Hash)]
pub enum ShaderStage {
    Vertex,
    Fragment,
    Both,
}

/// The WGSL entry point(s) a shader module exposes.
#[derive(Clone, Debug, PartialEq, Eq, Hash)]
pub enum ShaderEntryPoint {
    Vertex(String),
    Fragment(String),
    Both { vs_entry_point: String, fs_entry_point: String },
}

impl ShaderEntryPoint {
    /// The vertex entry point; fails for a fragment-only module.
    pub fn vertex_entry_point(&self) -> (r: Result<&String, ShaderTypeMismatch>)
        ensures
            match *self {
                ShaderEntryPoint::Vertex(e) => r matches Ok(x) && *x == e,
                ShaderEntryPoint::Both { vs_entry_point, .. } => r matches Ok(x) && *x
                    == vs_entry_point,
                ShaderEntryPoint::Fragment(_) => r matches Err(m) && m.expected
                    == ShaderStage::Vertex && m.found == ShaderStage::Fragment,
            },
    {
        match self {
            ShaderEntryPoint::Vertex(entry_point) => Ok(entry_point),
            ShaderEntryPoint::Both { vs_entry_point, .. } => Ok(vs_entry_point),
            ShaderEntryPoint::Fragment(_) => Err(
                ShaderTypeMismatch { expected: ShaderStage::Vertex, found: ShaderStage::Fragment },
            ),
        }
    }

    /// The fragment entry point; fails for a vertex-only module.
    pub fn fragment_entry_point(&self) -> (r: Result<&String, ShaderTypeMismatch>)
        ensures
            match *self {
                ShaderEntryPoint::Fragment(e) => r matches Ok(x) && *x == e,
                ShaderEntryPoint::Both { fs_entry_point, .. } => r matches Ok(x) && *x
                    == fs_entry_point,
                ShaderEntryPoint::Vertex(_) => r matches Err(m) && m.expected
                    == ShaderStage::Fragment && m.found == ShaderStage::Vertex,
            },
    {
        match self {
            ShaderEntryPoint::Fragment(entry_point) => Ok(entry_point),
            ShaderEntryPoint::Both { fs_entry_point, .. } => Ok(fs_entry_point),
            ShaderEntryPoint::Vertex(_) => Err(
                ShaderTypeMismatch { expected: ShaderStage::Fragment, found: ShaderStage::Vertex },
            ),
        }
    }
}

/// Where shader source comes from: a file, or text embedded in the program.
#[derive(Clone, Debug, PartialEq, Eq, Hash)]
pub enum ShaderSource {
    File(PathBuf),
    Inline(String),
}

/// A shader source with its entry points: one hashable unit, used as a cache key.
#[derive(Clone, Debug, PartialEq, Eq, Hash)]
pub struct ShaderInfo {
    pub source: ShaderSource,
    pub entry_point: ShaderEntryPoint,
}

/// The label of a file shader with file name `name`: the name, or "Shader" when the path has
/// none.
pub fn label_from_file_name(name: Option<String>) -> (r: String)
    ensures
        r@ == match name {
            Some(n) => n@,
            None => "Shader"@,
        },
{
    match name {
        Some(n) => n,
        None => "Shader".to_owned(),
    }
}

/// A label for a shader: the file name for a file source ("Shader" when the path has none),
/// "Inline shader" for embedded source.
pub fn source_label(source: &ShaderSource) -> (r: String)
    ensures
        source is Inline ==> r@ == "Inline shader"@,
{
    match source {
        ShaderSource::File(path) => label_from_file_name(path_file_name(path)),
        ShaderSource::Inline(_) => "Inline shader".to_owned(),
    }
}

} // verus!
