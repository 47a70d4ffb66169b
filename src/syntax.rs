//! Validation of a set of source files against a grammar.
use vstd::prelude::*;
use std::path::PathBuf;
use crate::engine::verdict;
use crate::notation::{FILE, notation_rules};
use crate::rule::{Failure, Grammar, RuleView};

verus! {

#[verifier::external_type_specification]
#[verifier::external_body]
pub struct ExPathBuf(std::path::PathBuf);

#[verifier::external_type_specification]
#[verifier::external_body]
pub struct ExIoError(std::io::Error);

/// Why a set of files failed to validate.
pub enum SyntaxError {
    /// A file could not be read.
    IoError(std::io::Error),
    /// A file does not follow the grammar: its path, its text and the failure.
    MetaError(PathBuf, String, Failure),
}

impl From<std::io::Error> for SyntaxError {
    fn from(error: std::io::Error) -> (r: SyntaxError)
        ensures
            r == SyntaxError::IoError(error),
    {
        SyntaxError::IoError(error)
    }
}

impl vstd::std_specs::convert::FromSpecImpl<std::io::Error> for SyntaxError {
    open spec fn obeys_from_spec() -> bool {
        true
    }

    open spec fn from_spec(error: std::io::Error) -> SyntaxError {
        SyntaxError::IoError(error)
    }
}

/// A set of source files that all follow the grammar.
pub struct Syntax {
    /// The source files.
    pub files: Vec<PathBuf>,
}

/// Relies on `str::chars`: the characters of a string, in order.
#[verifier::external_body]
pub(crate) fn chars_of(text: &str) -> (r: Vec<char>)
    ensures
        r@ == text@,
{
    text.chars().collect()
}

/// What validating `sources` (the texts of `files`) against rule `top` of
/// `g` gives: success with the same files when every text is accepted, and
/// otherwise the first text that is not, with its path and failure.
pub open spec fn files_outcome(g: Seq<RuleView>, top: usize, files: Seq<PathBuf>, sources: Seq<String>,
    r: Result<Syntax, SyntaxError>) -> bool {
    match r {
        Ok(syntax) => syntax.files@ == files
            && forall|i: int| 0 <= i < sources.len() ==> (#[trigger] verdict(g, top, sources[i]@)) is Ok,
        Err(SyntaxError::MetaError(path, text, failure)) => exists|k: int|
            #[trigger] first_failure_at(g, top, files, sources, k, path, text, failure),
        Err(SyntaxError::IoError(_)) => false,
    }
}

/// The text at `k` is the first of `sources` that rule `top` of `g` does not
/// accept, failing with `failure`; `path` and `text` are its path and text.
pub open spec fn first_failure_at(g: Seq<RuleView>, top: usize, files: Seq<PathBuf>, sources: Seq<String>, k: int,
    path: PathBuf, text: String, failure: Failure) -> bool {
    0 <= k < sources.len()
        && (forall|i: int| 0 <= i < k ==> (#[trigger] verdict(g, top, sources[i]@)) is Ok)
        && verdict(g, top, sources[k]@) == Err::<(), Failure>(failure)
        && path == files[k]
        && text@ == sources[k]@
}

impl Syntax {
    /// Validates the texts `sources` of `files` against rule `top` of
    /// `grammar`, stopping at the first that fails.
    pub fn check(grammar: &Grammar, top: usize, files: Vec<PathBuf>, sources: Vec<String>) -> (r: Result<Syntax, SyntaxError>)
        requires
            grammar.wf(),
            top < grammar.table().len(),
            files@.len() == sources@.len(),
        ensures
            files_outcome(grammar.table(), top, files@, sources@, r),
    {
        let ghost files0 = files@;
        let ghost sources0 = sources@;
        let mut paths = files;
        let mut texts = sources;
        let n = texts.len();
        let mut i: usize = 0;
        while i < n
            invariant
                grammar.wf(),
                top < grammar.table().len(),
                n == sources0.len(),
                paths@ == files0,
                files@ == files0,
                sources@ == sources0,
                texts@ == sources0,
                files0.len() == sources0.len(),
                i <= n,
                forall|j: int| 0 <= j < i ==> (#[trigger] verdict(grammar.table(), top, sources0[j]@)) is Ok,
            decreases n - i,
        {
            let chars = chars_of(texts[i].as_str());
            match grammar.check(top, &chars) {
                Ok(()) => {},
                Err(failure) => {
                    let path = paths.remove(i);
                    let text = texts.remove(i);
                    assert(chars@ == sources0[i as int]@);
                    assert(verdict(grammar.table(), top, sources0[i as int]@) == Err::<(), Failure>(failure));
                    assert(text@ == sources0[i as int]@);
                    assert(path == files0[i as int]);
                    assert(first_failure_at(grammar.table(), top, files0, sources0, i as int, path, text, failure));
                    let r = Err(SyntaxError::MetaError(path, text, failure));
                    assert(r matches Err(SyntaxError::MetaError(p, t, f)) && p == path && t == text && f == failure);
                    return r;
                },
            }
            i = i + 1;
        }
        Ok(Syntax { files: paths })
    }

    /// Validates the texts `sources` of `files` as files of the notation
    /// language.
    pub fn new(files: Vec<PathBuf>, sources: Vec<String>) -> (r: Result<Syntax, SyntaxError>)
        requires
            files@.len() == sources@.len(),
        ensures
            files_outcome(notation_rules(), FILE, files@, sources@, r),
    {
        let grammar = Grammar::notation();
        Syntax::check(&grammar, FILE, files, sources)
    }
}

/// Validating the same files with the same texts twice gives the same
/// result: success with the same files on both, or the same failing file,
/// text and failure on both.
pub proof fn lemma_validation_repeatable(files: Seq<PathBuf>, sources: Seq<String>,
    r1: Result<Syntax, SyntaxError>, r2: Result<Syntax, SyntaxError>)
    requires
        files_outcome(notation_rules(), FILE, files, sources, r1),
        files_outcome(notation_rules(), FILE, files, sources, r2),
    ensures
        r1 is Ok <==> r2 is Ok,
        r1 is Ok ==> r1->Ok_0.files@ == r2->Ok_0.files@,
        r1 matches Err(SyntaxError::MetaError(p1, t1, f1)) ==> r2 matches Err(SyntaxError::MetaError(p2, t2, f2))
            && p1 == p2 && t1@ == t2@ && f1 == f2,
{
    let g = notation_rules();
    if let Err(SyntaxError::MetaError(p1, t1, f1)) = r1 {
        let k1 = choose|k: int| #[trigger] first_failure_at(g, FILE, files, sources, k, p1, t1, f1);
        assert(verdict(g, FILE, sources[k1]@) is Err);
        if let Err(SyntaxError::MetaError(p2, t2, f2)) = r2 {
            let k2 = choose|k: int| #[trigger] first_failure_at(g, FILE, files, sources, k, p2, t2, f2);
            assert(verdict(g, FILE, sources[k2]@) is Err);
            if k1 < k2 {
                assert(verdict(g, FILE, sources[k1]@) is Ok);
            } else if k2 < k1 {
                assert(verdict(g, FILE, sources[k2]@) is Ok);
            }
        }
    }
    if let Err(SyntaxError::MetaError(p2, t2, f2)) = r2 {
        let k2 = choose|k: int| #[trigger] first_failure_at(g, FILE, files, sources, k, p2, t2, f2);
        assert(verdict(g, FILE, sources[k2]@) is Err);
    }
}

} // verus!
