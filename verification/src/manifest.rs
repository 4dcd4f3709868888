//! Reading the project manifest: only files whose name opens with the
//! manifest prefix are consulted, and only the `environment.sdk` constraint
//! is interpreted. The YAML document is read through the outside parser,
//! whose extraction is deterministic in the document text and therefore
//! named; the constraint grammar is this crate's own and fully checked.

use vstd::prelude::*;

use crate::error::Failure;
use crate::error::FailureView;
use crate::version_spec::parse_constraint_chars;
use crate::version_spec::wf_version_spec;
use crate::version_spec::VersionSpec;

verus! {

/// The manifest's environment block; only the SDK constraint is read.
pub struct PubspecYamlEnvField {
    pub sdk: Option<String>,
}

/// The manifest fields this engine touches: the name is required but never
/// interpreted, and the environment block is optional.
pub struct PubspecYaml {
    pub name: String,
    pub environment: Option<PubspecYamlEnvField>,
}

/// The SDK constraint text the manifest document carries, as a function of
/// the document text alone. `Err` stands for a document the extraction
/// refuses: text that is not well-formed YAML, a document without a
/// top-level string `name`, an `environment` that is neither a mapping nor
/// null, or an `sdk` that is neither a string nor null. `Ok(None)` stands
/// for a manifest without the field (or with it null); `Ok(Some(text))`
/// carries the field's text.
pub uninterp spec fn manifest_sdk_text(content: Seq<char>) -> Result<Option<Seq<char>>, ()>;

/// The SDK constraint text behind an extracted manifest value.
pub open spec fn pubspec_sdk_text(p: PubspecYaml) -> Option<Seq<char>> {
    match p.environment {
        Option::Some(e) => match e.sdk {
            Option::Some(t) => Some(t@),
            Option::None => None,
        },
        Option::None => None,
    }
}

/// Relies on serde_yml::from_str and serde_yml::Value's accessors (get,
/// as_str, is_null, is_mapping): reads the document once and extracts the
/// manifest fields. The extraction depends on the document text alone.
#[verifier::external_body]
fn read_manifest(content: &str) -> (r: Result<PubspecYaml, ()>)
    ensures
        match r {
            Result::Ok(p) => manifest_sdk_text(content@) == Ok::<Option<Seq<char>>, ()>(
                pubspec_sdk_text(p),
            ),
            Result::Err(()) => manifest_sdk_text(content@) is Err,
        },
{
    let doc: serde_yml::Value = serde_yml::from_str(content).map_err(|_| ())?;
    let name = doc.get("name").and_then(serde_yml::Value::as_str).ok_or(())?.to_owned();
    let environment = match doc.get("environment") {
        None => None, Some(e) if e.is_null() => None,
        Some(e) if !e.is_mapping() => return Err(()),
        Some(e) => Some(PubspecYamlEnvField {
            sdk: match e.get("sdk") {
                None => None, Some(s) if s.is_null() => None,
                Some(s) => Some(s.as_str().ok_or(())?.to_owned()),
            },
        }),
    };
    Ok(PubspecYaml { name, environment })
}

/// Read the manifest fields out of a YAML document: exactly the documents
/// whose extraction fails are refused, with the parse failure.
pub fn parse_pubspec(content: &str) -> (r: Result<PubspecYaml, Failure>)
    ensures
        match r {
            Result::Ok(p) => manifest_sdk_text(content@) == Ok::<Option<Seq<char>>, ()>(
                pubspec_sdk_text(p),
            ),
            Result::Err(f) => f@ == FailureView::Parse && manifest_sdk_text(content@) is Err,
        },
{
    match read_manifest(content) {
        Result::Ok(p) => Ok(p),
        Result::Err(()) => Err(Failure::Parse),
    }
}

/// Whether the file name opens with the manifest prefix.
pub open spec fn starts_with_pubspec(s: Seq<char>) -> bool {
    s.len() >= 7 && s.subrange(0, 7) == "pubspec"@
}

pub fn file_is_pubspec(file: &str) -> (r: bool)
    ensures
        r == starts_with_pubspec(file@),
{
    let n = file.unicode_len();
    if n < 7 {
        return false;
    }
    let head = file.substring_char(0, 7);
    crate::version::str_eq(head, "pubspec")
}

/// Extract the SDK constraint from a manifest. A file not named like a
/// manifest yields no constraint, and so does a manifest without the field;
/// a document the extraction refuses, or a constraint outside the grammar,
/// is a parse failure — each case owed exactly.
pub fn parse_version_file(file: &str, content: &str) -> (r: Result<Option<VersionSpec>, Failure>)
    ensures
        !starts_with_pubspec(file@) ==> (r matches Result::Ok(o) && o is None),
        starts_with_pubspec(file@) ==> match manifest_sdk_text(content@) {
            Result::Err(()) => (r matches Result::Err(f) && f@ == FailureView::Parse),
            Result::Ok(opt) => match opt {
                Option::None => (r matches Result::Ok(o) && o is None),
                Option::Some(text) => match parse_constraint_chars(text) {
                    Option::Some(sp) => (r matches Result::Ok(o) && o matches Option::Some(x)
                        && x@ == sp && wf_version_spec(sp)),
                    Option::None => (r matches Result::Err(f) && f@ == FailureView::Parse),
                },
            },
        },
{
    if !file_is_pubspec(file) {
        return Ok(None);
    }
    let pubspec = match parse_pubspec(content) {
        Result::Ok(p) => p,
        Result::Err(f) => {
            return Err(f);
        },
    };
    let ghost gp = pubspec;
    match pubspec.environment {
        Option::None => {
            proof {
                assert(pubspec_sdk_text(gp) is None);
            }
            Ok(None)
        },
        Option::Some(env) => {
            match env.sdk {
                Option::None => {
                    proof {
                        assert(pubspec_sdk_text(gp) is None);
                    }
                    Ok(None)
                },
                Option::Some(constraint) => {
                    proof {
                        assert(pubspec_sdk_text(gp) == Some(constraint@));
                    }
                    match VersionSpec::parse_constraint(constraint.as_str()) {
                        Option::Some(sp) => Ok(Some(sp)),
                        Option::None => Err(Failure::Parse),
                    }
                },
            }
        },
    }
}

} // verus!
