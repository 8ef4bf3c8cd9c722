use vstd::prelude::*;
use crate::path::copy_text;

verus! {

/// The path of `path` relative to `base`, as `pathdiff` computes it, if there is one.
pub uninterp spec fn relative_to(path: Seq<char>, base: Seq<char>) -> Option<Seq<char>>;

/// Relies on `pathdiff::diff_paths`: the path of `path` relative to `base`, or `None`
/// when it has none; the result depends on the two paths alone.
#[verifier::external_body]
fn diff_paths(path: &str, base: &str) -> (r: Option<String>)
    ensures
        match r {
            Some(t) => relative_to(path@, base@) == Some(t@),
            None => relative_to(path@, base@) is None,
        },
{
    pathdiff::diff_paths(path, base).map(|p| p.display().to_string())
}

/// The characters of an optional text.
pub open spec fn opt_view(o: Option<String>) -> Option<Seq<char>> {
    match o {
        Some(s) => Some(s@),
        None => None,
    }
}

/// The path shown in a header: relative to the working directory `cwd` when asked and
/// possible, else the canonical path when it is known, else the path as given.
pub open spec fn shown_path(
    relative: bool,
    path: Seq<char>,
    canonical: Option<Seq<char>>,
    cwd: Option<Seq<char>>,
) -> Seq<char> {
    if relative {
        match cwd {
            Some(c) => match relative_to(path, c) {
                Some(r) => r,
                None => path,
            },
            None => path,
        }
    } else {
        match canonical {
            Some(c) => c,
            None => path,
        }
    }
}

/// The header line put before the content of a file.
pub open spec fn header(shown: Seq<char>) -> Seq<char> {
    "--- File: "@ + shown + " ---\n"@
}

/// How paths are written in the headers of the output.
#[derive(Debug)]
pub struct PathFormatter {
    /// Paths relative to the working directory.
    relative: bool,
    /// No headers at all.
    no_path: bool,
}

impl PathFormatter {
    pub fn new(relative: bool, no_path: bool) -> (r: Self)
        ensures
            r.is_relative() == relative,
            r.has_no_path() == no_path,
    {
        Self { relative, no_path }
    }

    pub closed spec fn is_relative(&self) -> bool {
        self.relative
    }

    pub closed spec fn has_no_path(&self) -> bool {
        self.no_path
    }

    /// The header for `path`: empty without headers, else the shown path between
    /// `--- File: ` and ` ---` and a line break. `canonical` is the canonical form of the
    /// path, when the file system gave one; `cwd` is the working directory, when known.
    pub fn format_path(&self, path: &String, canonical: &Option<String>, cwd: &Option<String>) -> (r: String)
        ensures
            r@ == if self.has_no_path() {
                Seq::<char>::empty()
            } else {
                header(shown_path(self.is_relative(), path@, opt_view(*canonical), opt_view(*cwd)))
            },
    {
        if self.no_path {
            return String::new();
        }
        let formatted = if self.relative {
            self.get_relative_path(path, cwd)
        } else {
            self.get_absolute_path(path, canonical)
        };
        let mut r = String::from_str("--- File: ");
        r.append(formatted.as_str());
        r.append(" ---\n");
        r
    }

    /// The canonical path when known, else the path as given.
    fn get_absolute_path(&self, path: &String, canonical: &Option<String>) -> (r: String)
        ensures
            r@ == shown_path(false, path@, opt_view(*canonical), None),
    {
        match canonical {
            Some(c) => copy_text(c),
            None => copy_text(path),
        }
    }

    /// The path relative to the working directory when both are known and it has one,
    /// else the path as given.
    fn get_relative_path(&self, path: &String, cwd: &Option<String>) -> (r: String)
        ensures
            r@ == shown_path(true, path@, None, opt_view(*cwd)),
    {
        match cwd {
            Some(c) => match diff_paths(path.as_str(), c.as_str()) {
                Some(rel) => rel,
                None => copy_text(path),
            },
            None => copy_text(path),
        }
    }
}

} // verus!
