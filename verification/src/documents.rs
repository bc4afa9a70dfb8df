//! The open document of the texture sheet and animation clip editors: which asset a
//! selection opens, when an edit is saved, and what the header and status line say.
use vstd::prelude::*;
use crate::text::{chars_of, seq_eq, ends_with, append_str, owned, seq_ends_with};
use crate::paths::{spec_file_name, spec_extension, file_name, extension};
use crate::explorer::{same_path, paths_equal};

verus! {

/// The kind of asset an editor panel works on.
#[derive(Debug, Clone, Copy, PartialEq, Eq, Structural)]
pub enum DocumentKind {
    TextureSheet,
    AnimationClip,
}

pub open spec fn spec_document_suffix(kind: DocumentKind) -> Seq<char> {
    match kind {
        DocumentKind::TextureSheet => ".texturesheet.json"@,
        DocumentKind::AnimationClip => ".animationclip.json"@,
    }
}

pub open spec fn spec_document_noun(kind: DocumentKind) -> Seq<char> {
    match kind {
        DocumentKind::TextureSheet => "texture sheet"@,
        DocumentKind::AnimationClip => "animation clip"@,
    }
}

pub open spec fn spec_placeholder(kind: DocumentKind) -> Seq<char> {
    match kind {
        DocumentKind::TextureSheet => "No sheet open"@,
        DocumentKind::AnimationClip => "No animation clip open"@,
    }
}

fn document_suffix(kind: DocumentKind) -> (s: &'static str)
    ensures
        s@ == spec_document_suffix(kind),
{
    match kind {
        DocumentKind::TextureSheet => ".texturesheet.json",
        DocumentKind::AnimationClip => ".animationclip.json",
    }
}

fn document_noun(kind: DocumentKind) -> (s: &'static str)
    ensures
        s@ == spec_document_noun(kind),
{
    match kind {
        DocumentKind::TextureSheet => "texture sheet",
        DocumentKind::AnimationClip => "animation clip",
    }
}

/// Whether `path` names an asset of `kind`: its file name ends with the kind's suffix (and,
/// for a texture sheet, its extension is `json`).
pub open spec fn spec_is_document(kind: DocumentKind, path: Seq<char>) -> bool {
    &&& match spec_file_name(path) {
        Some(n) => seq_ends_with(n, spec_document_suffix(kind)),
        None => false,
    }
    &&& (kind == DocumentKind::TextureSheet ==> spec_extension(path) == Some("json"@))
}

pub fn is_document(kind: DocumentKind, path: &str) -> (b: bool)
    ensures
        b == spec_is_document(kind, path@),
{
    let name_ok = match file_name(path) {
        Some(n) => {
            let nc = chars_of(n.as_str());
            let sc = chars_of(document_suffix(kind));
            ends_with(nc.as_slice(), sc.as_slice())
        },
        None => false,
    };
    let ext_ok = match kind {
        DocumentKind::TextureSheet => match extension(path) {
            Some(e) => {
                let ec = chars_of(e.as_str());
                let json = chars_of("json");
                seq_eq(ec.as_slice(), json.as_slice())
            },
            None => false,
        },
        DocumentKind::AnimationClip => true,
    };
    name_ok && ext_ok
}

/// `prefix` followed by `rest`.
fn prefixed(prefix: &str, rest: &str) -> (s: String)
    ensures
        s@ == prefix@ + rest@,
{
    let mut out = chars_of(prefix);
    append_str(&mut out, rest);
    crate::text::string_of(out.as_slice())
}

/// A failure message: `lead` (what failed to happen), the kind of asset, then the error.
pub open spec fn spec_failure(lead: Seq<char>, kind: DocumentKind, error: Seq<char>) -> Seq<char> {
    lead + spec_document_noun(kind) + ": "@ + error
}

/// The document an editor panel has open and the state of its edits.
#[derive(Debug, Clone)]
pub struct DocumentState {
    pub kind: DocumentKind,
    /// The path of the open asset.
    pub current_path: Option<String>,
    /// Whether there are edits not yet written.
    pub dirty: bool,
    /// The last load or save failure, shown under the header.
    pub status: Option<String>,
}

impl DocumentState {
    /// A panel with nothing open.
    pub fn new(kind: DocumentKind) -> (s: DocumentState)
        ensures
            s.kind == kind,
            s.current_path is None,
            !s.dirty,
            s.status is None,
    {
        DocumentState { kind, current_path: None, dirty: false, status: None }
    }

    /// Whether selecting the asset at `selected` should open it: it is an asset of this
    /// panel's kind and not the one already open (paths compared as paths).
    pub fn should_open(&self, selected: &str) -> (b: bool)
        ensures
            b == (spec_is_document(self.kind, selected@) && !(match self.current_path {
                Some(p) => same_path(p@, selected@),
                None => false,
            })),
    {
        if !is_document(self.kind, selected) {
            return false;
        }
        match &self.current_path {
            Some(p) => !paths_equal(p.as_str(), selected),
            None => true,
        }
    }

    /// Records the outcome of loading `path`: on success it becomes the open document with
    /// no pending edits; on failure the open document stays and the status says why.
    pub fn opened(&mut self, path: String, result: Result<(), String>)
        ensures
            final(self).kind == old(self).kind,
            match result {
                Ok(_) => final(self).current_path == Some(path) && !final(self).dirty
                    && final(self).status is None,
                Err(e) => {
                    &&& final(self).current_path == old(self).current_path
                    &&& final(self).dirty == old(self).dirty
                    &&& final(self).status matches Some(s) && s@ == spec_failure("Failed to load "@, old(self).kind, e@)
                },
            },
    {
        match result {
            Ok(()) => {
                self.current_path = Some(path);
                self.dirty = false;
                self.status = None;
            },
            Err(e) => {
                let head = prefixed("Failed to load ", document_noun(self.kind));
                let with_colon = prefixed(head.as_str(), ": ");
                let msg = prefixed(with_colon.as_str(), e.as_str());
                self.status = Some(msg);
            },
        }
    }

    /// Whether the pending edits should be written now: there are some, nothing in the panel
    /// is being dragged or has keyboard focus (`settled`), and a document is open and loaded.
    pub fn autosave_due(&self, settled: bool, loaded: bool) -> (b: bool)
        ensures
            b == (self.dirty && settled && self.current_path is Some && loaded),
    {
        self.dirty && settled && self.current_path.is_some() && loaded
    }

    /// Records the outcome of writing the document.
    pub fn saved(&mut self, result: Result<(), String>)
        ensures
            final(self).kind == old(self).kind,
            final(self).current_path == old(self).current_path,
            match result {
                Ok(_) => !final(self).dirty && final(self).status is None,
                Err(e) => {
                    &&& final(self).dirty == old(self).dirty
                    &&& final(self).status matches Some(s) && s@ == spec_failure("Failed to save "@, old(self).kind, e@)
                },
            },
    {
        match result {
            Ok(()) => {
                self.dirty = false;
                self.status = None;
            },
            Err(e) => {
                let head = prefixed("Failed to save ", document_noun(self.kind));
                let with_colon = prefixed(head.as_str(), ": ");
                let msg = prefixed(with_colon.as_str(), e.as_str());
                self.status = Some(msg);
            },
        }
    }

    /// The header: the open document's file name, or a placeholder.
    pub fn header_label(&self) -> (s: String)
        ensures
            s@ == match self.current_path {
                Some(p) => match spec_file_name(p@) {
                    Some(n) => n,
                    None => spec_placeholder(self.kind),
                },
                None => spec_placeholder(self.kind),
            },
    {
        let name = match &self.current_path {
            Some(p) => file_name(p.as_str()),
            None => None,
        };
        match name {
            Some(n) => n,
            None => match self.kind {
                DocumentKind::TextureSheet => owned("No sheet open"),
                DocumentKind::AnimationClip => owned("No animation clip open"),
            },
        }
    }
}

} // verus!
