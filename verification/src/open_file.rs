//! Resolution of a request path to a file beneath the document root.
//!
//! The library touches no filesystem. A resolution is a dialogue: given what
//! the filesystem has said so far about the root and the candidate path,
//! `Root::file_path` either names the next thing to ask or gives the
//! outcome. The caller asks, records the answer in `Observed`, and calls
//! again. The root may be given through a link or with `..` in it: the
//! candidate is held against the resolved form of the root. Nothing but
//! its resolved form is asked about a path before that form is known to lie
//! within the resolved root.

use vstd::prelude::*;
use vstd::utf8::*;
use crate::containment::{path_within, starts_with};

verus! {

/// What a file's metadata says, as far as a response needs it.
#[derive(Clone, Copy, Debug, PartialEq, Eq)]
pub struct FileMeta {
    /// Length of the file in bytes.
    pub len: u64,
    /// Whether the metadata describes a regular file.
    pub is_file: bool,
    /// Time of the last modification in whole seconds since the start of
    /// 1970 (UTC), where the filesystem reports one.
    pub modified: Option<i64>,
}

impl FileMeta {
    /// Whether the metadata describes a regular file.
    pub fn is_file(&self) -> (r: bool)
        ensures
            r == self.is_file,
    {
        self.is_file
    }

    /// Length of the file in bytes.
    pub fn len(&self) -> (r: u64)
        ensures
            r == self.len,
    {
        self.len
    }
}

/// A file that was found: its metadata and its place.
#[derive(Clone, Debug, PartialEq, Eq)]
pub struct ResolvedFile {
    pub metadata: FileMeta,
    /// The resolved form of the path that the file was found at.
    pub path: String,
}

/// How a resolution ended.
#[derive(Clone, Debug, PartialEq, Eq)]
pub enum ResolutionOutcome {
    /// A regular file within the root, opened for reading.
    Found(ResolvedFile),
    /// Nothing to serve: the path is absent, cannot be resolved, or resolves
    /// to a place outside the root. The three are not told apart.
    NotFound,
    /// The path exists and is not a regular file; the text says why.
    Forbidden(String),
    /// The path exists, and its metadata could not be read or it could not
    /// be opened; the text names the path.
    IoError(String),
}

/// A question to the filesystem: the first about the root, the others
/// about the candidate path.
#[derive(Clone, Copy, Debug, PartialEq, Eq)]
pub enum Probe {
    /// The fully resolved absolute form of the root, symbolic links
    /// followed.
    CanonicalizeRoot,
    /// Its fully resolved absolute form, symbolic links followed.
    Canonicalize,
    /// Whether it exists.
    Exists,
    /// Whether it is a regular file, symbolic links followed.
    IsFile,
    /// Its metadata.
    Metadata,
    /// To open it for reading.
    Open,
}

/// What the filesystem has answered so far about the root and one
/// candidate path. A field is `None` until its question has been asked.
#[derive(Clone, Debug, PartialEq, Eq)]
pub struct Observed {
    /// The resolved form of the root; `Some(None)` where it has none.
    pub root: Option<Option<String>>,
    /// The resolved form of the path; `Some(None)` where it has none.
    pub canonical: Option<Option<String>>,
    pub exists: Option<bool>,
    pub is_file: Option<bool>,
    /// The metadata; `Some(None)` where it could not be read.
    pub metadata: Option<Option<FileMeta>>,
    /// Whether the file could be opened.
    pub opened: Option<bool>,
}

/// The next move of a resolution.
#[derive(Clone, Debug, PartialEq, Eq)]
pub enum Step {
    /// Ask the filesystem, record the answer, and call again.
    Ask(Probe),
    /// The resolution is over.
    Done(ResolutionOutcome),
}

/// A found file, with its path as text.
pub struct ResolvedFileView {
    pub metadata: FileMeta,
    pub path: Seq<char>,
}

/// An outcome, with its texts as sequences of characters.
pub enum OutcomeView {
    Found(ResolvedFileView),
    NotFound,
    Forbidden(Seq<char>),
    IoError(Seq<char>),
}

/// The answers so far, with the resolved paths as text.
pub struct ObservedView {
    pub root: Option<Option<Seq<char>>>,
    pub canonical: Option<Option<Seq<char>>>,
    pub exists: Option<bool>,
    pub is_file: Option<bool>,
    pub metadata: Option<Option<FileMeta>>,
    pub opened: Option<bool>,
}

/// A move, with the outcome as its view.
pub enum StepView {
    Ask(Probe),
    Done(OutcomeView),
}

impl View for ResolvedFile {
    type V = ResolvedFileView;

    open spec fn view(&self) -> ResolvedFileView {
        ResolvedFileView { metadata: self.metadata, path: self.path@ }
    }
}

impl View for ResolutionOutcome {
    type V = OutcomeView;

    open spec fn view(&self) -> OutcomeView {
        match self {
            ResolutionOutcome::Found(file) => OutcomeView::Found(file@),
            ResolutionOutcome::NotFound => OutcomeView::NotFound,
            ResolutionOutcome::Forbidden(why) => OutcomeView::Forbidden(why@),
            ResolutionOutcome::IoError(why) => OutcomeView::IoError(why@),
        }
    }
}

impl View for Observed {
    type V = ObservedView;

    open spec fn view(&self) -> ObservedView {
        ObservedView {
            root: match self.root {
                Some(Some(base)) => Some(Some(base@)),
                Some(None) => Some(None),
                None => None,
            },
            canonical: match self.canonical {
                Some(Some(resolved)) => Some(Some(resolved@)),
                Some(None) => Some(None),
                None => None,
            },
            exists: self.exists,
            is_file: self.is_file,
            metadata: self.metadata,
            opened: self.opened,
        }
    }
}

impl View for Step {
    type V = StepView;

    open spec fn view(&self) -> StepView {
        match self {
            Step::Ask(probe) => StepView::Ask(*probe),
            Step::Done(outcome) => StepView::Done(outcome@),
        }
    }
}

/// Whether the resolved path `resolved` lies within the directory whose
/// resolved form is `base`.
pub open spec fn within_root(base: Seq<char>, resolved: Seq<char>) -> bool {
    path_within(encode_utf8(resolved), encode_utf8(base))
}

/// The path that a request for `uri_path` is looked for at: the root and
/// the request path, one after the other as they stand.
pub open spec fn candidate_path(root: Seq<char>, uri_path: Seq<char>) -> Seq<char> {
    root + uri_path
}

/// The next move of the resolution of `uri_path` under `root`, given what
/// the filesystem has answered so far. The root is resolved first; a root
/// that has no resolved form holds nothing.
pub open spec fn resolution(root: Seq<char>, uri_path: Seq<char>, seen: ObservedView) -> StepView {
    match seen.root {
        None => StepView::Ask(Probe::CanonicalizeRoot),
        Some(None) => StepView::Done(OutcomeView::NotFound),
        Some(Some(base)) => resolution_within(base, candidate_path(root, uri_path), seen),
    }
}

/// The next move of the resolution of the candidate `path` under the root
/// whose resolved form is `base`.
pub open spec fn resolution_within(base: Seq<char>, path: Seq<char>, seen: ObservedView) -> StepView {
    match seen.canonical {
        None => StepView::Ask(Probe::Canonicalize),
        Some(None) => StepView::Done(OutcomeView::NotFound),
        Some(Some(resolved)) => if !within_root(base, resolved) {
            StepView::Done(OutcomeView::NotFound)
        } else {
            match seen.exists {
                None => StepView::Ask(Probe::Exists),
                Some(false) => StepView::Done(OutcomeView::NotFound),
                Some(true) => match seen.is_file {
                    None => StepView::Ask(Probe::IsFile),
                    Some(false) => StepView::Done(OutcomeView::Forbidden("not a regular file"@)),
                    Some(true) => match seen.metadata {
                        None => StepView::Ask(Probe::Metadata),
                        Some(None) => StepView::Done(OutcomeView::IoError("path "@ + path)),
                        Some(Some(meta)) => match seen.opened {
                            None => StepView::Ask(Probe::Open),
                            Some(false) => StepView::Done(OutcomeView::IoError("path "@ + path)),
                            Some(true) => StepView::Done(
                                OutcomeView::Found(
                                    ResolvedFileView { metadata: meta, path: resolved },
                                ),
                            ),
                        },
                    },
                },
            }
        },
    }
}

impl Observed {
    /// Nothing asked yet.
    pub fn new() -> (seen: Self)
        ensures
            seen@ == (ObservedView {
                root: None,
                canonical: None,
                exists: None,
                is_file: None,
                metadata: None,
                opened: None,
            }),
    {
        Observed {
            root: None,
            canonical: None,
            exists: None,
            is_file: None,
            metadata: None,
            opened: None,
        }
    }
}

/// The document root: the directory outside which no file is served.
pub struct Root {
    root: String,
}

impl View for Root {
    type V = Seq<char>;

    closed spec fn view(&self) -> Seq<char> {
        self.root@
    }
}

impl Root {
    /// A root at the directory `path`.
    pub fn new(path: &str) -> (root: Self)
        ensures
            root@ == path@,
    {
        Root { root: path.to_owned() }
    }

    /// The root as it was given.
    pub fn path(&self) -> (path: &str)
        ensures
            path@ == self@,
    {
        self.root.as_str()
    }

    /// Whether the resolved path `resolved` lies within the root whose
    /// resolved form is `resolved_root`, component by component.
    pub fn validate(&self, resolved_root: &str, resolved: &str) -> (r: bool)
        ensures
            r == within_root(resolved_root@, resolved@),
    {
        starts_with(resolved.as_bytes(), resolved_root.as_bytes())
    }

    /// The path that a request for `uri_path` is looked for at.
    pub fn candidate(&self, uri_path: &str) -> (path: String)
        ensures
            path@ == candidate_path(self@, uri_path@),
    {
        self.root.clone().concat(uri_path)
    }

    /// The next move in resolving `uri_path`, which begins with `/`, given
    /// what the filesystem has answered so far about the root and about
    /// `candidate(uri_path)`.
    ///
    /// The questions come in a fixed order, each only while the answers
    /// before it leave the outcome open: the resolved form of the root; the
    /// resolved form of the path; whether it exists; whether it is a regular
    /// file; its metadata; to open it. Where the root cannot be resolved,
    /// and for a path that cannot be resolved, resolves outside the
    /// resolved root or does not exist, the outcome is `NotFound`; one that is not a regular file is
    /// `Forbidden`; one whose metadata cannot be read or that cannot be
    /// opened is `IoError`; otherwise the file is `Found`, at the resolved
    /// form of its path.
    pub fn file_path(&self, uri_path: &str, seen: &Observed) -> (step: Step)
        requires
            uri_path@.len() > 0,
            uri_path@[0] == '/',
        ensures
            step@ == resolution(self@, uri_path@, seen@),
    {
        let base = match &seen.root {
            None => {
                return Step::Ask(Probe::CanonicalizeRoot);
            },
            Some(None) => {
                return Step::Done(ResolutionOutcome::NotFound);
            },
            Some(Some(base)) => base,
        };
        let resolved = match &seen.canonical {
            None => {
                return Step::Ask(Probe::Canonicalize);
            },
            Some(None) => {
                return Step::Done(ResolutionOutcome::NotFound);
            },
            Some(Some(resolved)) => resolved,
        };
        if !self.validate(base.as_str(), resolved.as_str()) {
            return Step::Done(ResolutionOutcome::NotFound);
        }
        match seen.exists {
            None => {
                return Step::Ask(Probe::Exists);
            },
            Some(false) => {
                return Step::Done(ResolutionOutcome::NotFound);
            },
            Some(true) => {},
        }
        match seen.is_file {
            None => {
                return Step::Ask(Probe::IsFile);
            },
            Some(false) => {
                return Step::Done(
                    ResolutionOutcome::Forbidden(String::from_str("not a regular file")),
                );
            },
            Some(true) => {},
        }
        let metadata = match seen.metadata {
            None => {
                return Step::Ask(Probe::Metadata);
            },
            Some(None) => {
                return Step::Done(self.io_error(uri_path));
            },
            Some(Some(metadata)) => metadata,
        };
        match seen.opened {
            None => Step::Ask(Probe::Open),
            Some(false) => Step::Done(self.io_error(uri_path)),
            Some(true) => Step::Done(
                ResolutionOutcome::Found(ResolvedFile { metadata, path: resolved.clone() }),
            ),
        }
    }

    /// The outcome for a path that exists and could not be read.
    fn io_error(&self, uri_path: &str) -> (outcome: ResolutionOutcome)
        ensures
            outcome@ == OutcomeView::IoError("path "@ + candidate_path(self@, uri_path@)),
    {
        let path = self.candidate(uri_path);
        ResolutionOutcome::IoError(String::from_str("path ").concat(path.as_str()))
    }
}

/// Containment: a file is found only at the resolved form that the
/// filesystem gave for the path, and only where that form lies within the
/// resolved form of the root. However many `..` the request path holds and
/// wherever they lead, a path that has no resolved form, or whose resolved
/// form lies outside the resolved root, is not found, whatever else was
/// observed about it; and a root that has no resolved form holds nothing.
pub proof fn containment(root: Seq<char>, uri_path: Seq<char>, seen: ObservedView)
    ensures
        resolution(root, uri_path, seen) matches StepView::Done(OutcomeView::Found(file)) ==> (
        seen.canonical == Some(Some(file.path)) && (seen.root matches Some(Some(base))
            && within_root(base, file.path))),
        seen.root == Some(None::<Seq<char>>) ==> resolution(root, uri_path, seen)
            == StepView::Done(OutcomeView::NotFound),
        (seen.root is Some && seen.canonical == Some(None::<Seq<char>>)) ==> resolution(
            root,
            uri_path,
            seen,
        ) == StepView::Done(OutcomeView::NotFound),
        (seen.root matches Some(Some(base)) && (seen.canonical matches Some(Some(resolved))
            && !within_root(base, resolved))) ==> resolution(root, uri_path, seen)
            == StepView::Done(OutcomeView::NotFound),
{
}

/// The root is held to its resolved form, not to the way it was written:
/// two roots with the same resolved form serve the same files, each found
/// file at the same place.
pub proof fn root_is_held_resolved(
    root: Seq<char>,
    other: Seq<char>,
    uri_path: Seq<char>,
    other_path: Seq<char>,
    seen: ObservedView,
)
    ensures
        resolution(root, uri_path, seen) is Ask <==> resolution(other, other_path, seen) is Ask,
        resolution(root, uri_path, seen) is Ask ==> resolution(root, uri_path, seen)
            == resolution(other, other_path, seen),
        resolution(root, uri_path, seen) matches StepView::Done(OutcomeView::Found(file))
            ==> resolution(other, other_path, seen) == StepView::Done(OutcomeView::Found(file)),
        resolution(root, uri_path, seen) == StepView::Done(OutcomeView::NotFound)
            <==> resolution(other, other_path, seen) == StepView::Done(OutcomeView::NotFound),
{
}

/// Nothing but resolved forms is asked for until the resolved form of the
/// path is known to lie within the resolved root.
pub proof fn nothing_asked_outside_root(
    root: Seq<char>,
    uri_path: Seq<char>,
    seen: ObservedView,
    probe: Probe,
)
    requires
        resolution(root, uri_path, seen) == StepView::Ask(probe),
        probe != Probe::CanonicalizeRoot,
        probe != Probe::Canonicalize,
    ensures
        seen.root matches Some(Some(base)) && (seen.canonical matches Some(Some(resolved))
            && within_root(base, resolved)),
{
}

/// Once every question has its answer the resolution is over, so it ends
/// after six questions at most.
pub proof fn resolution_ends(root: Seq<char>, uri_path: Seq<char>, seen: ObservedView)
    requires
        seen.root is Some,
        seen.canonical is Some,
        seen.exists is Some,
        seen.is_file is Some,
        seen.metadata is Some,
        seen.opened is Some,
    ensures
        resolution(root, uri_path, seen) is Done,
{
}

} // verus!
