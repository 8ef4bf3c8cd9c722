use vstd::prelude::*;
use crate::text::{has_infix, text_contains};

verus! {

/// The command line of `cxt`.
#[derive(Debug, Default)]
pub struct Args {
    /// File and/or directory paths to aggregate.
    pub paths: Vec<String>,
    /// Print content to stdout.
    pub print: bool,
    /// Write content to this file.
    pub write: Option<String>,
    /// Use relative paths in headers.
    pub relative: bool,
    /// Disable file path headers.
    pub no_path: bool,
    /// Include hidden files when walking directories.
    pub hidden: bool,
    /// Non-interactive mode: no clipboard.
    pub ci: bool,
    /// Launch the interactive file picker.
    pub tui: bool,
    /// Files or directories to leave out.
    pub ignore: Vec<String>,
}

/// How the output reaches the clipboard.
#[derive(PartialEq, Eq, Structural, Clone, Copy, Debug)]
pub enum ClipboardUse {
    /// Not at all.
    Skip,
    /// It is the only output: a failure is an error.
    Required,
    /// Besides printing: a failure is only a warning.
    BestEffort,
}

/// True when the path holds `*`, `?` or `[` and so is a pattern to expand.
pub fn has_wildcards(path: &String) -> (r: bool)
    ensures
        r == (has_infix(path@, "*"@) || has_infix(path@, "?"@) || has_infix(path@, "["@)),
{
    text_contains(path.as_str(), "*") || text_contains(path.as_str(), "?") || text_contains(path.as_str(), "[")
}

pub open spec fn conflict_message() -> Seq<char> {
    "Cannot use --relative and --no-path together"@
}

pub open spec fn missing_ignore_message(path: Seq<char>) -> Seq<char> {
    "Ignore path does not exist: "@ + path
}

/// `i` is the first index whose ignore path does not exist.
pub open spec fn first_missing(exists: Seq<bool>, i: int) -> bool {
    0 <= i < exists.len() && !exists[i] && forall|j: int| 0 <= j < i ==> #[trigger] exists[j]
}

impl Args {
    /// Checks that conflicting flags are not used together and that every ignore path
    /// exists; `ignore_exists[i]` tells whether `ignore[i]` exists.
    pub fn validate(&self, ignore_exists: &Vec<bool>) -> (r: Result<(), String>)
        requires
            ignore_exists.len() == self.ignore.len(),
        ensures
            self.relative && self.no_path ==> (r matches Err(m) && m@ == conflict_message()),
            !(self.relative && self.no_path) ==> match r {
                Ok(()) => forall|j: int| 0 <= j < ignore_exists.len() ==> #[trigger] ignore_exists@[j],
                Err(m) => exists|i: int| #[trigger] first_missing(ignore_exists@, i) && m@
                    == missing_ignore_message(self.ignore@[i]@),
            },
    {
        if self.relative && self.no_path {
            return Err(String::from_str("Cannot use --relative and --no-path together"));
        }
        let mut i: usize = 0;
        while i < self.ignore.len()
            invariant
                i <= self.ignore.len(),
                ignore_exists.len() == self.ignore.len(),
                !(self.relative && self.no_path),
                forall|j: int| 0 <= j < i ==> #[trigger] ignore_exists@[j],
            decreases self.ignore.len() - i,
        {
            if !ignore_exists[i] {
                let mut m = String::from_str("Ignore path does not exist: ");
                m.append(self.ignore[i].as_str());
                assert(first_missing(ignore_exists@, i as int));
                return Err(m);
            }
            i = i + 1;
        }
        Ok(())
    }

    /// The picker opens when asked for or when no path is given.
    pub fn wants_picker(&self) -> (r: bool)
        ensures
            r == (self.tui || self.paths.len() == 0),
    {
        self.tui || self.paths.len() == 0
    }

    /// The clipboard is the output when neither printing nor a file is asked for; with
    /// printing it is used as well, on a best-effort basis; in CI mode never.
    pub fn clipboard_use(&self) -> (r: ClipboardUse)
        ensures
            r == if self.ci {
                ClipboardUse::Skip
            } else if !self.print && self.write is None {
                ClipboardUse::Required
            } else if self.print {
                ClipboardUse::BestEffort
            } else {
                ClipboardUse::Skip
            },
    {
        if self.ci {
            ClipboardUse::Skip
        } else if !self.print && self.write.is_none() {
            ClipboardUse::Required
        } else if self.print {
            ClipboardUse::BestEffort
        } else {
            ClipboardUse::Skip
        }
    }
}

} // verus!
