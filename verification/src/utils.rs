//! Helpers around the engine: module identifiers, the staging area and the
//! directories it needs.

use vstd::prelude::*;
use crate::defs::{MODULE_ID_PATTERN, TMP_PARENT};
use crate::error::EngineError;
use crate::text::{push_char, views};

verus! {

/// `regex_lite::Error`: why a pattern did not compile. It is passed on
/// unopened.
#[verifier::external_type_specification]
#[verifier::external_body]
pub struct ExRegexError(regex_lite::Error);

/// Whether `regex_lite::Regex::new` accepts `pattern`.
pub uninterp spec fn regex_compiles(pattern: Seq<char>) -> bool;

/// What `regex_lite::Regex::is_match` answers for the regular expression
/// compiled from `pattern` and the haystack `text`.
pub uninterp spec fn regex_matches(pattern: Seq<char>, text: Seq<char>) -> bool;

/// Compiles `pattern` with `regex_lite::Regex::new` and asks the compiled
/// expression, with `Regex::is_match`, whether it matches anywhere in `text`.
/// Both answers depend on the two texts alone: the contract gives them their
/// names and claims nothing else of them. A pattern that does not compile
/// gives the crate's error.
#[verifier::external_body]
fn pattern_matches(pattern: &str, text: &str) -> (r: Result<bool, regex_lite::Error>)
    ensures
        r is Ok <==> regex_compiles(pattern@),
        r matches Ok(m) ==> m == regex_matches(pattern@, text@),
{
    match regex_lite::Regex::new(pattern) {
        Ok(re) => Ok(re.is_match(text)),
        Err(e) => Err(e),
    }
}

/// The verdict on a module identifier, given whether it matched the pattern
/// for identifiers.
pub fn module_id_verdict(module_id: &str, matched: bool) -> (r: Result<(), EngineError>)
    ensures
        matched ==> r is Ok,
        !matched ==> (r matches Err(EngineError::InvalidModuleId { id }) && id@ == module_id@),
{
    if matched {
        Ok(())
    } else {
        Err(EngineError::InvalidModuleId { id: String::from_str(module_id) })
    }
}

/// Accepts `module_id` where it matches the pattern for module identifiers:
/// a letter, then one or more letters, digits, dots, underscores or hyphens.
pub fn validate_module_id(module_id: &str) -> (r: Result<(), EngineError>)
    ensures
        r is Ok <==> regex_compiles(MODULE_ID_PATTERN@) && regex_matches(
            MODULE_ID_PATTERN@,
            module_id@,
        ),
        r is Err && regex_compiles(MODULE_ID_PATTERN@) ==> (r matches Err(
            EngineError::InvalidModuleId { id },
        ) && id@ == module_id@),
        !regex_compiles(MODULE_ID_PATTERN@) ==> r matches Err(EngineError::PatternRejected),
{
    match pattern_matches(MODULE_ID_PATTERN, module_id) {
        Ok(matched) => module_id_verdict(module_id, matched),
        Err(_) => Err(EngineError::PatternRejected),
    }
}

/// A letter of either case or a digit, of the ASCII range.
pub open spec fn is_alphanumeric(c: char) -> bool {
    ('a' <= c && c <= 'z') || ('A' <= c && c <= 'Z') || ('0' <= c && c <= '9')
}

/// The length of the random part of a staging path.
pub const TMP_NAME_LEN: usize = 10;

/// A name as `generate_tmp` draws it.
pub open spec fn is_tmp_name(name: Seq<char>) -> bool {
    name.len() == TMP_NAME_LEN && forall|i: int|
        0 <= i < name.len() ==> is_alphanumeric(#[trigger] name[i])
}

/// The staging path with the name `name`.
pub open spec fn tmp_path(name: Seq<char>) -> Seq<char> {
    TMP_PARENT@ + "/"@ + name
}

/// `fastrand::alphanumeric` draws a character from `a` to `z`, `A` to `Z`
/// or `0` to `9`. Which one is left open.
pub assume_specification[ fastrand::alphanumeric ]() -> (c: char)
    ensures
        is_alphanumeric(c),
;

/// The staging path for a given name.
pub fn tmp_path_for(name: &str) -> (path: String)
    ensures
        path@ == tmp_path(name@),
{
    String::from_str(TMP_PARENT).concat("/").concat(name)
}

/// A fresh staging path: the staging parent, a slash, and a random name of
/// letters and digits.
pub fn generate_tmp() -> (path: String)
    ensures
        exists|name: Seq<char>| is_tmp_name(name) && path@ == tmp_path(name),
{
    let mut name = String::new();
    let mut i: usize = 0;
    while i < TMP_NAME_LEN
        invariant
            0 <= i <= TMP_NAME_LEN,
            name@.len() == i,
            forall|j: int| 0 <= j < name@.len() ==> is_alphanumeric(#[trigger] name@[j]),
        decreases TMP_NAME_LEN - i,
    {
        let c = fastrand::alphanumeric();
        push_char(&mut name, c);
        i += 1;
    }
    tmp_path_for(name.as_str())
}

/// Whether a directory is there after the attempt to make it: it is where
/// the making succeeded (`created`) and a directory stands at the path
/// (`is_dir`).
pub fn ensure_dir_exists(dir: &str, created: bool, is_dir: bool) -> (r: Result<(), EngineError>)
    ensures
        r is Ok <==> created && is_dir,
        r is Err ==> (r matches Err(EngineError::NotADirectory { path }) && path@ == dir@),
{
    if is_dir && created {
        Ok(())
    } else {
        Err(EngineError::NotADirectory { path: String::from_str(dir) })
    }
}

/// What listing a directory gave.
#[derive(Clone, Copy, PartialEq, Eq, Structural, Debug)]
pub enum DirListing {
    /// The directory could not be listed.
    Unreadable,
    /// The listing has no entry.
    Empty,
    /// The listing has a first entry, readable or not.
    Occupied,
}

/// A candidate for the staging area with what a look at it found.
#[derive(Debug, Clone, PartialEq, Eq)]
pub struct TmpfsCandidate {
    pub path: String,
    pub exists: bool,
    pub listing: DirListing,
}

impl TmpfsCandidate {
    /// The candidate can host the staging area: it exists and is an empty
    /// directory.
    pub open spec fn usable(&self) -> bool {
        self.exists && self.listing == DirListing::Empty
    }
}

/// The paths of a list of candidates, candidate by candidate.
pub open spec fn candidate_paths(v: Seq<TmpfsCandidate>) -> Seq<Seq<char>> {
    Seq::new(v.len(), |i: int| v[i].path@)
}

/// Was the directory listed, and found empty?
pub fn is_ok_empty(listing: DirListing) -> (r: bool)
    ensures
        r == (listing == DirListing::Empty),
{
    listing == DirListing::Empty
}

/// Picks the staging area: the first candidate, in the order given, that
/// exists and is an empty directory. Fails, naming all candidates, where
/// there is none.
pub fn select_temp_dir(candidates: &Vec<TmpfsCandidate>) -> (r: Result<String, EngineError>)
    ensures
        match r {
            Ok(path) => exists|i: int|
                0 <= i < candidates@.len() && (#[trigger] candidates@[i]).usable() && path@
                    == candidates@[i].path@ && forall|j: int|
                    0 <= j < i ==> !(#[trigger] candidates@[j]).usable(),
            Err(e) => (forall|j: int|
                0 <= j < candidates@.len() ==> !(#[trigger] candidates@[j]).usable()) && (
            e matches EngineError::StagingUnavailable { candidates: named } && views(named@)
                == candidate_paths(candidates@)),
        },
{
    let mut i: usize = 0;
    while i < candidates.len()
        invariant
            0 <= i <= candidates.len(),
            forall|j: int| 0 <= j < i ==> !(#[trigger] candidates@[j]).usable(),
        decreases candidates.len() - i,
    {
        if candidates[i].exists && is_ok_empty(candidates[i].listing) {
            return Ok(candidates[i].path.clone());
        }
        i += 1;
    }
    let mut named: Vec<String> = Vec::new();
    let mut k: usize = 0;
    while k < candidates.len()
        invariant
            0 <= k <= candidates.len(),
            named@.len() == k,
            forall|j: int| 0 <= j < k ==> (#[trigger] named@[j])@ == candidates@[j].path@,
        decreases candidates.len() - k,
    {
        named.push(candidates[k].path.clone());
        k += 1;
    }
    Err(EngineError::StagingUnavailable { candidates: named })
}

} // verus!
