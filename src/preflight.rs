use vstd::prelude::*;

use crate::manifest::{lemma_missing_required_field_fails, manifest_of_doc, red_manifesto, ItemSpec, Manifest, ManifestError, ManifestItem};
use crate::toml_doc::{toml_diagnostic, toml_doc, TomlShape};

verus! {

/// The name of the manifest file at the root of a settings directory.
pub const MANIFEST_FILE_NAME: &'static str = "manifest.toml";

/// What the filesystem says about a candidate settings directory.
#[derive(Debug)]
pub struct DirectoryFacts {
    /// The path exists.
    pub exists: bool,
    /// The path is a directory.
    pub is_dir: bool,
    /// The names of the directory's entries.
    pub entry_names: Vec<String>,
    /// The text of the directory's manifest file, or why it could not be read.
    pub manifest_text: Result<String, String>,
}

/// Why a settings directory cannot be installed from.
#[derive(Debug)]
pub enum PreflightError {
    /// The path does not exist.
    NotFound(String),
    /// The path is not a directory.
    NotADirectory(String),
    /// The directory has no entries.
    EmptyDirectory(String),
    /// The directory has no manifest file.
    ManifestMissing(String),
    /// The manifest file is the directory's only entry.
    NothingToInstall(String),
    /// The manifest file could not be read; the reason.
    ManifestUnreadable(String),
    /// The manifest file of the directory at this path is empty.
    EmptyManifest(String),
    /// The manifest text does not describe a manifest.
    ManifestParseError(ManifestError),
}

/// A `PreflightError` with its texts seen as character sequences.
pub enum PreflightFailure {
    NotFound(Seq<char>),
    NotADirectory(Seq<char>),
    EmptyDirectory(Seq<char>),
    ManifestMissing(Seq<char>),
    NothingToInstall(Seq<char>),
    ManifestUnreadable(Seq<char>),
    EmptyManifest(Seq<char>),
    ManifestParseError(ManifestError),
}

impl View for PreflightError {
    type V = PreflightFailure;

    open spec fn view(&self) -> PreflightFailure {
        match self {
            PreflightError::NotFound(p) => PreflightFailure::NotFound(p@),
            PreflightError::NotADirectory(p) => PreflightFailure::NotADirectory(p@),
            PreflightError::EmptyDirectory(p) => PreflightFailure::EmptyDirectory(p@),
            PreflightError::ManifestMissing(p) => PreflightFailure::ManifestMissing(p@),
            PreflightError::NothingToInstall(p) => PreflightFailure::NothingToInstall(p@),
            PreflightError::ManifestUnreadable(m) => PreflightFailure::ManifestUnreadable(m@),
            PreflightError::EmptyManifest(p) => PreflightFailure::EmptyManifest(p@),
            PreflightError::ManifestParseError(e) => PreflightFailure::ManifestParseError(*e),
        }
    }
}

/// A validated settings directory: its path and the text of its manifest.
#[derive(Debug)]
pub struct WeAreReadyMaybe {
    pub settings_dir_path: String,
    pub manifest_content: String,
}

/// Some entry of the directory is named like the manifest file.
pub open spec fn has_manifest(names: Seq<String>) -> bool {
    exists|i: int| 0 <= i < names.len() && (#[trigger] names[i])@ == MANIFEST_FILE_NAME@
}

/// The outcome of the directory checks, in order, on the directory at `path`:
/// the manifest text, or the first check that fails.
pub open spec fn takeoff_of(path: Seq<char>, facts: DirectoryFacts) -> Result<Seq<char>, PreflightFailure> {
    if !facts.exists {
        Err(PreflightFailure::NotFound(path))
    } else if !facts.is_dir {
        Err(PreflightFailure::NotADirectory(path))
    } else if facts.entry_names@.len() == 0 {
        Err(PreflightFailure::EmptyDirectory(path))
    } else if !has_manifest(facts.entry_names@) {
        Err(PreflightFailure::ManifestMissing(path))
    } else if facts.entry_names@.len() == 1 {
        Err(PreflightFailure::NothingToInstall(path))
    } else {
        match facts.manifest_text {
            Err(reason) => Err(PreflightFailure::ManifestUnreadable(reason@)),
            Ok(text) => if text@.len() == 0 {
                Err(PreflightFailure::EmptyManifest(path))
            } else {
                Ok(text@)
            },
        }
    }
}

/// The outcome of the directory checks as a validated directory's view: its
/// path and manifest text.
pub open spec fn ready_view(r: Result<WeAreReadyMaybe, PreflightError>) -> Result<(Seq<char>, Seq<char>), PreflightFailure> {
    match r {
        Ok(w) => Ok((w.settings_dir_path@, w.manifest_content@)),
        Err(e) => Err(e@),
    }
}

/// Whether some name in the list is the manifest file's.
fn lists_manifest(names: &Vec<String>) -> (r: bool)
    ensures
        r == has_manifest(names@),
{
    let manifest_name = MANIFEST_FILE_NAME.to_owned();
    let mut i: usize = 0;
    while i < names.len()
        invariant
            i <= names@.len(),
            manifest_name@ == MANIFEST_FILE_NAME@,
            forall|j: int| 0 <= j < i ==> (#[trigger] names@[j])@ != MANIFEST_FILE_NAME@,
        decreases names@.len() - i,
    {
        if names[i] == manifest_name {
            return true;
        }
        i = i + 1;
    }
    false
}

/// Checks, in order and stopping at the first failure, that the settings
/// directory exists, is a directory, is not empty, holds the manifest file,
/// holds something besides it, and that the manifest text could be read and is
/// not empty.
pub fn are_we_ready_for_takeoff(settings_directory: &str, facts: &DirectoryFacts) -> (r: Result<WeAreReadyMaybe, PreflightError>)
    ensures
        match takeoff_of(settings_directory@, *facts) {
            Ok(text) => ready_view(r) == Ok::<(Seq<char>, Seq<char>), PreflightFailure>((settings_directory@, text)),
            Err(f) => ready_view(r) == Err::<(Seq<char>, Seq<char>), PreflightFailure>(f),
        },
{
    if !facts.exists {
        return Err(PreflightError::NotFound(settings_directory.to_owned()));
    }
    if !facts.is_dir {
        return Err(PreflightError::NotADirectory(settings_directory.to_owned()));
    }
    if facts.entry_names.len() == 0 {
        return Err(PreflightError::EmptyDirectory(settings_directory.to_owned()));
    }
    if !lists_manifest(&facts.entry_names) {
        return Err(PreflightError::ManifestMissing(settings_directory.to_owned()));
    }
    if facts.entry_names.len() == 1 {
        return Err(PreflightError::NothingToInstall(settings_directory.to_owned()));
    }
    match &facts.manifest_text {
        Err(reason) => Err(PreflightError::ManifestUnreadable(reason.clone())),
        Ok(text) => {
            if text.as_str().is_empty() {
                Err(PreflightError::EmptyManifest(settings_directory.to_owned()))
            } else {
                Ok(WeAreReadyMaybe { settings_dir_path: settings_directory.to_owned(), manifest_content: text.clone() })
            }
        },
    }
}

/// The outcome of `checks` seen as the directory's path and the items.
pub open spec fn checks_view(r: Result<(String, Manifest), PreflightError>) -> Result<(Seq<char>, Seq<ItemSpec>), PreflightFailure> {
    match r {
        Ok((path, manifest)) => Ok((path@, manifest.manifest_items@.map_values(|i: ManifestItem| i@))),
        Err(e) => Err(e@),
    }
}

/// The outcome of `checks` on the directory at `path` once its manifest
/// document has decoded to `decoded`.
pub open spec fn validated(path: Seq<char>, decoded: Result<Seq<ItemSpec>, ManifestError>) -> Result<(Seq<char>, Seq<ItemSpec>), PreflightFailure> {
    match decoded {
        Ok(items) => Ok((path, items)),
        Err(e) => Err(PreflightFailure::ManifestParseError(e)),
    }
}

/// A manifest document with a table in `manifest_items` that lacks `source`
/// or `destination` (or both) makes validation fail with a parse error, so
/// no installation starts.
pub proof fn lemma_validation_fails_on_missing_field(path: Seq<char>, doc: Map<Seq<char>, TomlShape>, k: int)
    requires
        doc.contains_key("manifest_items"@),
        doc["manifest_items"@] matches TomlShape::Array(values) && 0 <= k < values.len() && (
        values[k] matches TomlShape::Table(t) && (!t.contains_key("source"@) || !t.contains_key(
            "destination"@,
        ))),
    ensures
        validated(path, manifest_of_doc(doc)) matches Err(PreflightFailure::ManifestParseError(_)),
{
    lemma_missing_required_field_fails(doc, k);
}

/// Validates a settings directory and parses its manifest: fails with the
/// first directory check that fails; else with a syntax error carrying the
/// parser's message when the manifest text is not TOML; else with what the
/// document describes: its decoding error, or the directory's path and the
/// items. Nothing is installed on any failure.
pub fn checks(settings_directory: &str, facts: &DirectoryFacts) -> (r: Result<(String, Manifest), PreflightError>)
    ensures
        match takeoff_of(settings_directory@, *facts) {
            Err(f) => checks_view(r) == Err::<(Seq<char>, Seq<ItemSpec>), PreflightFailure>(f),
            Ok(text) => match toml_doc(text) {
                None => r is Err && r->Err_0 is ManifestParseError
                    && r->Err_0->ManifestParseError_0 is Syntax
                    && r->Err_0->ManifestParseError_0->Syntax_0@ == toml_diagnostic(text),
                Some(doc) => checks_view(r) == validated(settings_directory@, manifest_of_doc(doc)),
            },
        },
{
    let ready = match are_we_ready_for_takeoff(settings_directory, facts) {
        Ok(ready) => ready,
        Err(e) => return Err(e),
    };
    match red_manifesto(ready.manifest_content) {
        Ok(manifest) => Ok((ready.settings_dir_path, manifest)),
        Err(e) => Err(PreflightError::ManifestParseError(e)),
    }
}

} // verus!
