//! The event normaliser: decides, for each raw notification, whether the pipeline sees it.
//!
//! It keeps no state between calls. A notification is dropped when its path is
//! malformed, when the path lies under an excluded directory (the output directory is
//! always one, so that the transcoder's own files never come back as input), when the
//! path is a directory, or when its extension is not on the allow-list. Removals skip
//! the last two tests, so that a tracked path can always be retired. A path counts as
//! a directory when the source says so or when it ends in `/`. Extensions are compared
//! as written.

use vstd::prelude::*;
use vstd::string::*;
use crate::event::{EventKind, NormalizedEvent, NormalizedEventView, RawEvent, RawEventView};
use crate::path::{chars_of, extension, find_extension, is_malformed, is_under, malformed, tail_equals, under};

verus! {

/// The filters of the normaliser.
#[derive(Debug)]
pub struct Normalizer {
    /// Extensions, without the dot, of the files that are transcoded.
    pub extensions: Vec<Vec<char>>,
    /// Directories whose content is never looked at.
    pub excluded: Vec<Vec<char>>,
}

/// Mathematical content of a [`Normalizer`].
pub struct FilterView {
    pub extensions: Seq<Seq<char>>,
    pub excluded: Seq<Seq<char>>,
}

/// The sequences that a vector of character vectors holds.
pub open spec fn rows(v: Seq<Vec<char>>) -> Seq<Seq<char>> {
    Seq::new(v.len(), |i: int| v[i]@)
}

/// The views of a sequence of strings.
pub open spec fn string_views(v: Seq<String>) -> Seq<Seq<char>> {
    Seq::new(v.len(), |i: int| v[i]@)
}

impl View for Normalizer {
    type V = FilterView;

    open spec fn view(&self) -> FilterView {
        FilterView { extensions: rows(self.extensions@), excluded: rows(self.excluded@) }
    }
}

impl FilterView {
    /// Whether `path` lies under one of the excluded directories.
    pub open spec fn excludes(self, path: Seq<char>) -> bool {
        exists|i: int| 0 <= i < self.excluded.len() && is_under(path, #[trigger] self.excluded[i])
    }

    /// Whether `path` has an extension and the allow-list holds it.
    pub open spec fn allows_extension(self, path: Seq<char>) -> bool {
        match extension(path) {
            Some(e) => exists|i: int| 0 <= i < self.extensions.len() && #[trigger] self.extensions[i] == e,
            None => false,
        }
    }

    /// Whether a notification of `kind` for `path` passes; `directory` says whether the
    /// source knows the path to be a directory.
    pub open spec fn accepts(self, path: Seq<char>, kind: EventKind, directory: bool) -> bool {
        &&& !is_malformed(path)
        &&& !self.excludes(path)
        &&& (kind == EventKind::Removed || (!directory && self.allows_extension(path)))
    }

    /// The normalised event for `raw`: the same path, kind and time if it passes,
    /// nothing otherwise.
    pub open spec fn normalized(self, raw: RawEventView) -> Option<NormalizedEventView> {
        if self.accepts(raw.path, raw.kind, raw.directory) {
            Some(NormalizedEventView { path: raw.path, kind: raw.kind, at: raw.observed_at })
        } else {
            None
        }
    }
}

/// The extensions that are transcoded when none are configured.
pub open spec fn audio_extensions() -> Seq<Seq<char>> {
    seq!["flac"@, "wav"@, "mp3"@, "m4a"@, "ogg"@, "aiff"@]
}

/// The extensions that are transcoded when none are configured.
pub fn default_extensions() -> (v: Vec<String>)
    ensures
        string_views(v@) == audio_extensions(),
{
    let mut v: Vec<String> = Vec::new();
    v.push(String::from_str("flac"));
    v.push(String::from_str("wav"));
    v.push(String::from_str("mp3"));
    v.push(String::from_str("m4a"));
    v.push(String::from_str("ogg"));
    v.push(String::from_str("aiff"));
    assert(string_views(v@) =~= audio_extensions());
    v
}

impl Normalizer {
    /// A normaliser that allows the given extensions and excludes the output directory.
    pub fn new(extensions: &Vec<String>, output_dir: &str) -> (n: Normalizer)
        ensures
            n@.extensions == string_views(extensions@),
            n@.excluded == seq![output_dir@],
    {
        let mut exts: Vec<Vec<char>> = Vec::new();
        let mut i: usize = 0;
        while i < extensions.len()
            invariant
                i <= extensions.len(),
                exts.len() == i,
                forall|k: int| 0 <= k < i ==> exts@[k]@ == extensions@[k]@,
            decreases extensions.len() - i,
        {
            exts.push(chars_of(extensions[i].as_str()));
            i = i + 1;
        }
        let mut excluded: Vec<Vec<char>> = Vec::new();
        excluded.push(chars_of(output_dir));
        let n = Normalizer { extensions: exts, excluded };
        assert(n@.extensions =~= string_views(extensions@));
        assert(n@.excluded =~= seq![output_dir@]);
        n
    }

    /// Excludes one more directory.
    pub fn exclude(&mut self, dir: &str)
        ensures
            final(self)@.extensions == old(self)@.extensions,
            final(self)@.excluded == old(self)@.excluded.push(dir@),
    {
        self.excluded.push(chars_of(dir));
        assert(self@.excluded =~= old(self)@.excluded.push(dir@));
    }

    /// Whether `path` lies under an excluded directory.
    pub fn excludes(&self, path: &Vec<char>) -> (r: bool)
        ensures
            r == self@.excludes(path@),
    {
        let mut i: usize = 0;
        while i < self.excluded.len()
            invariant
                i <= self.excluded.len(),
                forall|k: int| 0 <= k < i ==> !is_under(path@, #[trigger] self@.excluded[k]),
            decreases self.excluded.len() - i,
        {
            if under(path, &self.excluded[i]) {
                assert(is_under(path@, self@.excluded[i as int]));
                return true;
            }
            i = i + 1;
        }
        false
    }

    /// Whether `path` has an extension that is on the allow-list.
    pub fn allows_extension(&self, path: &Vec<char>) -> (r: bool)
        ensures
            r == self@.allows_extension(path@),
    {
        match find_extension(path) {
            None => false,
            Some(start) => {
                let ghost e = path@.skip(start as int);
                let mut i: usize = 0;
                while i < self.extensions.len()
                    invariant
                        i <= self.extensions.len(),
                        start <= path.len(),
                        e == path@.skip(start as int),
                        extension(path@) == Some(e),
                        forall|k: int| 0 <= k < i ==> #[trigger] self@.extensions[k] != e,
                    decreases self.extensions.len() - i,
                {
                    if tail_equals(path, start, &self.extensions[i]) {
                        assert(self@.extensions[i as int] == e);
                        return true;
                    }
                    i = i + 1;
                }
                false
            },
        }
    }

    /// Filters one raw notification.
    pub fn normalize(&self, raw: &RawEvent) -> (r: Option<NormalizedEvent>)
        ensures
            match r {
                Some(e) => self@.normalized(raw@) == Some(e@),
                None => self@.normalized(raw@) is None,
            },
    {
        let path = chars_of(raw.path.as_str());
        if malformed(&path) || self.excludes(&path) {
            return None;
        }
        let passes = match raw.kind {
            EventKind::Removed => true,
            _ => !raw.directory && self.allows_extension(&path),
        };
        if passes {
            Some(NormalizedEvent { path: raw.path.clone(), kind: raw.kind, at: raw.observed_at })
        } else {
            None
        }
    }
}

} // verus!
