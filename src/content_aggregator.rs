use vstd::prelude::*;
use crate::path::{NodePath, copy_text, texts};
use crate::path_formatter::{PathFormatter, header, shown_path, opt_view};
use crate::listing::{WalkItem, well_placed, below_root, walk_rel_parts, walk_tree};
use crate::text::ends_with_char;
use crate::selection::{path_set, beneath_any, beneath_some, lemma_path_set_push};

verus! {

/// Whether two paths have the same components, as `Path`'s `==` decides.
pub uninterp spec fn same_path(a: Seq<char>, b: Seq<char>) -> bool;

/// Whether the components of `base` begin the components of `path`, as
/// `Path::starts_with` decides.
pub uninterp spec fn path_has_prefix(path: Seq<char>, base: Seq<char>) -> bool;

/// The last component of a path, as `Path::file_name` gives it.
pub uninterp spec fn file_name_of(path: Seq<char>) -> Option<Seq<char>>;

/// Relies on `==` for `std::path::Path`: paths are equal when their components are.
#[verifier::external_body]
fn paths_equal(a: &str, b: &str) -> (r: bool)
    ensures
        r == same_path(a@, b@),
{
    std::path::Path::new(a) == std::path::Path::new(b)
}

/// Relies on `Path::starts_with`: whether `base` is a prefix of `path`, by whole
/// components.
#[verifier::external_body]
fn path_starts_with(path: &str, base: &str) -> (r: bool)
    ensures
        r == path_has_prefix(path@, base@),
{
    std::path::Path::new(path).starts_with(base)
}

/// Relies on `Path::file_name`: the final component of the path, if there is one.
#[verifier::external_body]
fn path_file_name(path: &str) -> (r: Option<String>)
    ensures
        match r {
            Some(n) => file_name_of(path@) == Some(n@),
            None => file_name_of(path@) is None,
        },
{
    std::path::Path::new(path).file_name().map(|n| n.to_string_lossy().into_owned())
}

/// What a command-line path names on disk.
#[derive(PartialEq, Eq, Structural, Clone, Copy, Debug)]
pub enum PathKind {
    /// Nothing exists there.
    Missing,
    File,
    Dir,
    /// Something that is neither a file nor a directory.
    Other,
}

pub open spec fn missing_message(path: Seq<char>) -> Seq<char> {
    "Path does not exist: "@ + path
}

/// A path is hidden when its file name starts with a dot.
pub open spec fn hidden(path: Seq<char>) -> bool {
    match file_name_of(path) {
        Some(n) => n.len() > 0 && n[0] == '.',
        None => false,
    }
}

/// `k` is the first index whose path is missing.
pub open spec fn first_missing_kind(kinds: Seq<PathKind>, k: int) -> bool {
    0 <= k < kinds.len() && kinds[k] == PathKind::Missing && forall|j: int| 0 <= j < k ==> #[trigger] kinds[j] != PathKind::Missing
}

/// The text added for a file: its header when headers are on, its content, and a line
/// break when the content does not end with one.
pub open spec fn file_block(head: Seq<char>, with_header: bool, text: Seq<char>) -> Seq<char> {
    (if with_header { head } else { Seq::empty() }) + text + (if text.len() > 0 && text.last() == '\n' {
        Seq::empty()
    } else {
        seq!['\n']
    })
}

/// Collects the contents of files and directories into one text.
#[derive(Debug)]
pub struct ContentAggregator {
    path_formatter: PathFormatter,
    /// False under `--no-path`.
    include_headers: bool,
    /// True under `--hidden`.
    include_hidden_in_dirs: bool,
    /// Files added so far.
    file_count: usize,
    /// Paths left out, with everything beneath them.
    ignore: Vec<String>,
}

impl ContentAggregator {
    pub closed spec fn headers(&self) -> bool {
        self.include_headers
    }

    pub closed spec fn relative_headers(&self) -> bool {
        self.path_formatter.is_relative()
    }

    pub closed spec fn with_hidden(&self) -> bool {
        self.include_hidden_in_dirs
    }

    pub closed spec fn count(&self) -> nat {
        self.file_count as nat
    }

    pub closed spec fn ignored_paths(&self) -> Seq<Seq<char>> {
        self.ignore@.map_values(|s: String| s@)
    }

    /// `path` is an ignored path or lies beneath one.
    pub open spec fn ignores(&self, path: Seq<char>) -> bool {
        exists|i: int| 0 <= i < self.ignored_paths().len() && (same_path(path, #[trigger] self.ignored_paths()[i])
            || path_has_prefix(path, self.ignored_paths()[i]))
    }

    pub fn new(use_relative: bool, no_path: bool, include_hidden_in_dirs: bool, ignore: Vec<String>) -> (r: Self)
        ensures
            r.headers() == !no_path,
            r.relative_headers() == use_relative,
            r.with_hidden() == include_hidden_in_dirs,
            r.count() == 0,
            r.ignored_paths() == ignore@.map_values(|s: String| s@),
            r.wf(),
    {
        Self {
            path_formatter: PathFormatter::new(use_relative, no_path),
            include_headers: !no_path,
            include_hidden_in_dirs,
            file_count: 0,
            ignore,
        }
    }

    /// The number of files added so far.
    pub fn file_count(&self) -> (r: usize)
        ensures
            r == self.count(),
    {
        self.file_count
    }

    /// True when `path` is ignored: it is an ignored path or lies beneath one.
    fn is_ignored(&self, path: &String) -> (r: bool)
        ensures
            r == self.ignores(path@),
    {
        let mut i: usize = 0;
        while i < self.ignore.len()
            invariant
                i <= self.ignore.len(),
                forall|k: int| 0 <= k < i ==> !(same_path(path@, #[trigger] self.ignored_paths()[k])
                    || path_has_prefix(path@, self.ignored_paths()[k])),
            decreases self.ignore.len() - i,
        {
            let ig = self.ignore[i].as_str();
            assert(self.ignored_paths()[i as int] == ig@);
            if paths_equal(path.as_str(), ig) || path_starts_with(path.as_str(), ig) {
                return true;
            }
            i = i + 1;
        }
        false
    }

    /// True when `path` is one of the command-line paths.
    fn is_explicit_path(&self, path: &String, input_paths: &Vec<String>) -> (r: bool)
        ensures
            r == exists|i: int| 0 <= i < input_paths.len() && same_path(#[trigger] input_paths@[i]@, path@),
    {
        let mut i: usize = 0;
        while i < input_paths.len()
            invariant
                i <= input_paths.len(),
                forall|k: int| 0 <= k < i ==> !same_path(#[trigger] input_paths@[k]@, path@),
            decreases input_paths.len() - i,
        {
            if paths_equal(input_paths[i].as_str(), path.as_str()) {
                return true;
            }
            i = i + 1;
        }
        false
    }

    /// True when the file name of `path` starts with a dot.
    fn is_hidden_file(&self, path: &String) -> (r: bool)
        ensures
            r == hidden(path@),
    {
        match path_file_name(path.as_str()) {
            Some(name) => crate::text::starts_with_char(&name, '.'),
            None => false,
        }
    }

    /// Walk item `w` cuts its subtree off: it is ignored, or it is a hidden directory
    /// below the root while hidden entries are left out.
    pub open spec fn cuts(&self, w: WalkItem) -> bool {
        self.ignores(w.text@) || (w.depth > 0 && w.is_dir && hidden(w.text@) && !self.with_hidden())
    }

    /// The paths below the root of the items among the first `n` that cut their subtree off.
    pub open spec fn cut_set(&self, walk: Seq<WalkItem>, n: int) -> Set<Seq<Seq<char>>> {
        Set::new(|q: Seq<Seq<char>>| exists|k: int| 0 <= k < n && well_placed(walk[k]) && self.cuts(#[trigger] walk[k]) && below_root(walk[k]) == q)
    }

    /// Item `j` of the walk is a file to aggregate: it is not cut off, nor beneath an
    /// item that is, and it is a file that is not hidden unless hidden entries are taken.
    pub open spec fn takes(&self, walk: Seq<WalkItem>, j: int) -> bool {
        &&& well_placed(walk[j])
        &&& !self.cuts(walk[j])
        &&& !beneath_any(self.cut_set(walk, walk.len() as int), below_root(walk[j]))
        &&& !walk[j].is_dir
        &&& !(hidden(walk[j].text@) && !self.with_hidden())
    }

    /// The paths of the files taken among the first `n` items, in the order of the walk.
    pub open spec fn dir_files(&self, walk: Seq<WalkItem>, n: int) -> Seq<Seq<char>>
        decreases n,
    {
        if n <= 0 {
            Seq::empty()
        } else if self.takes(walk, n - 1) {
            self.dir_files(walk, n - 1).push(walk[n - 1].text@)
        } else {
            self.dir_files(walk, n - 1)
        }
    }

    fn cuts_off(&self, w: &WalkItem) -> (r: bool)
        ensures
            r == self.cuts(*w),
    {
        self.is_ignored(&w.text) || (w.depth > 0 && w.is_dir && !self.include_hidden_in_dirs && self.is_hidden_file(&w.text))
    }

    /// The files to aggregate from the walk of a directory: what remains once ignored
    /// entries and, unless asked for, hidden ones are left out with their subtrees.
    pub fn directory_files(&self, walk: &Vec<WalkItem>) -> (r: Vec<String>)
        ensures
            texts(r@) == self.dir_files(walk@, walk.len() as int),
    {
        let mut cut: Vec<NodePath> = Vec::new();
        let mut i: usize = 0;
        assert(path_set(cut@) =~= self.cut_set(walk@, 0));
        while i < walk.len()
            invariant
                i <= walk.len(),
                path_set(cut@) == self.cut_set(walk@, i as int),
            decreases walk.len() - i,
        {
            let ghost c0 = cut@;
            if walk[i].depth <= walk[i].parts.len() && self.cuts_off(&walk[i]) {
                let rel = NodePath::from_parts(walk_rel_parts(&walk[i]));
                cut.push(rel);
                proof {
                    lemma_path_set_push(c0, cut@[cut.len() - 1]);
                    assert(cut@ =~= c0.push(cut@[cut.len() - 1]));
                }
                assert(self.cut_set(walk@, i + 1) =~= self.cut_set(walk@, i as int).insert(below_root(walk@[i as int])));
            } else {
                assert(self.cut_set(walk@, i + 1) =~= self.cut_set(walk@, i as int));
            }
            i = i + 1;
        }
        let mut r: Vec<String> = Vec::new();
        let mut j: usize = 0;
        while j < walk.len()
            invariant
                j <= walk.len(),
                path_set(cut@) == self.cut_set(walk@, walk.len() as int),
                texts(r@) == self.dir_files(walk@, j as int),
            decreases walk.len() - j,
        {
            let w = &walk[j];
            let ghost r0 = r@;
            if w.depth <= w.parts.len() && !self.cuts_off(w) && !w.is_dir {
                let rel = NodePath::from_parts(walk_rel_parts(w));
                if !beneath_some(&cut, &rel) && (self.include_hidden_in_dirs || !self.is_hidden_file(&w.text)) {
                    r.push(copy_text(&w.text));
                    assert(texts(r@) =~= texts(r0).push(w.text@));
                }
            }
            j = j + 1;
        }
        r
    }

    /// A directory named on the command line is walked: it is not ignored, and it is not
    /// hidden unless hidden entries are taken or it is one of `paths`.
    pub open spec fn walks_dir(&self, paths: Seq<String>, p: Seq<char>) -> bool {
        &&& !self.ignores(p)
        &&& !(!self.with_hidden() && hidden(p) && !(exists|i: int| 0 <= i < paths.len() && same_path(#[trigger] paths[i]@, p)))
    }

    /// The files that path `i` stands for, given the walk of it when it is a directory: an
    /// ignored path none, a file itself, a walked directory the files of its walk.
    pub open spec fn contribution(&self, paths: Seq<String>, kinds: Seq<PathKind>, walks: Seq<Vec<WalkItem>>, i: int) -> Seq<Seq<char>> {
        let p = paths[i]@;
        if kinds[i] == PathKind::File && !self.ignores(p) {
            seq![p]
        } else if kinds[i] == PathKind::Dir && self.walks_dir(paths, p) {
            self.dir_files(walks[i]@, walks[i].len() as int)
        } else {
            Seq::empty()
        }
    }

    /// The files that the first `n` paths stand for, in order.
    pub open spec fn planned(&self, paths: Seq<String>, kinds: Seq<PathKind>, walks: Seq<Vec<WalkItem>>, n: int) -> Seq<Seq<char>>
        decreases n,
    {
        if n <= 0 {
            Seq::empty()
        } else {
            self.planned(paths, kinds, walks, n - 1) + self.contribution(paths, kinds, walks, n - 1)
        }
    }

    fn walks_into(&self, path: &String, paths: &Vec<String>) -> (r: bool)
        ensures
            r == self.walks_dir(paths@, path@),
    {
        !self.is_ignored(path) && !(!self.include_hidden_in_dirs && self.is_hidden_file(path) && !self.is_explicit_path(path, paths))
    }

    /// The files that the command-line paths stand for, in order; `kinds[i]` tells what
    /// `paths[i]` names on disk and `walks[i]` is the walk of it when it is a directory
    /// to walk. The first missing path is an error.
    pub fn plan_paths(&self, paths: &Vec<String>, kinds: &Vec<PathKind>, walks: &Vec<Vec<WalkItem>>) -> (r: Result<Vec<String>, String>)
        requires
            kinds.len() == paths.len(),
            walks.len() == paths.len(),
        ensures
            match r {
                Err(m) => exists|k: int| #[trigger] first_missing_kind(kinds@, k) && m@ == missing_message(paths@[k]@),
                Ok(files) => {
                    &&& forall|k: int| 0 <= k < kinds.len() ==> #[trigger] kinds@[k] != PathKind::Missing
                    &&& texts(files@) == self.planned(paths@, kinds@, walks@, paths.len() as int)
                },
            },
    {
        let mut files: Vec<String> = Vec::new();
        let mut i: usize = 0;
        while i < paths.len()
            invariant
                i <= paths.len(),
                kinds.len() == paths.len(),
                walks.len() == paths.len(),
                forall|k: int| 0 <= k < i ==> #[trigger] kinds@[k] != PathKind::Missing,
                texts(files@) == self.planned(paths@, kinds@, walks@, i as int),
            decreases paths.len() - i,
        {
            let path = &paths[i];
            let ghost f0 = texts(files@);
            match kinds[i] {
                PathKind::Missing => {
                    let mut m = String::from_str("Path does not exist: ");
                    m.append(path.as_str());
                    assert(first_missing_kind(kinds@, i as int));
                    return Err(m);
                },
                PathKind::File => {
                    if !self.is_ignored(path) {
                        files.push(copy_text(path));
                    }
                },
                PathKind::Dir => {
                    if self.walks_into(path, paths) {
                        let more = self.directory_files(&walks[i]);
                        let mut k: usize = 0;
                        while k < more.len()
                            invariant
                                k <= more.len(),
                                texts(files@) == f0 + texts(more@).subrange(0, k as int),
                            decreases more.len() - k,
                        {
                            let ghost fb = files@;
                            files.push(copy_text(&more[k]));
                            assert(texts(files@) =~= texts(fb).push(more@[k as int]@));
                            assert(texts(more@).subrange(0, k + 1) =~= texts(more@).subrange(0, k as int).push(more@[k as int]@));
                            assert(texts(files@) =~= f0 + texts(more@).subrange(0, k + 1));
                            k = k + 1;
                        }
                        assert(texts(more@).subrange(0, k as int) =~= texts(more@));
                    }
                },
                PathKind::Other => {},
            }
            assert(texts(files@) =~= self.planned(paths@, kinds@, walks@, i + 1));
            i = i + 1;
        }
        Ok(files)
    }

    /// Decides which files the command-line paths stand for, in order; `kinds[i]` tells
    /// what `paths[i]` names on disk. A missing path is an error. An ignored path is left
    /// out. A file stands for itself; a directory for the files of its tree, found by
    /// walking it, except that a hidden directory is left out unless hidden entries are
    /// taken or it was named on the command line.
    pub fn aggregate_paths(&self, paths: &Vec<String>, kinds: &Vec<PathKind>) -> (r: Result<Vec<String>, String>)
        requires
            kinds.len() == paths.len(),
        ensures
            match r {
                Err(m) => exists|k: int| #[trigger] first_missing_kind(kinds@, k) && m@ == missing_message(paths@[k]@),
                Ok(files) => {
                    &&& forall|k: int| 0 <= k < kinds.len() ==> #[trigger] kinds@[k] != PathKind::Missing
                    &&& exists|walks: Seq<Vec<WalkItem>>| walks.len() == paths.len()
                        && texts(files@) == #[trigger] self.planned(paths@, kinds@, walks, paths.len() as int)
                },
            },
    {
        let mut walks: Vec<Vec<WalkItem>> = Vec::new();
        let mut i: usize = 0;
        while i < paths.len()
            invariant
                i <= paths.len(),
                kinds.len() == paths.len(),
                walks.len() == i,
                forall|k: int| 0 <= k < i ==> #[trigger] kinds@[k] != PathKind::Missing,
            decreases paths.len() - i,
        {
            if kinds[i] == PathKind::Missing {
                let mut m = String::from_str("Path does not exist: ");
                m.append(paths[i].as_str());
                assert(first_missing_kind(kinds@, i as int));
                return Err(m);
            }
            if kinds[i] == PathKind::Dir && self.walks_into(&paths[i], paths) {
                walks.push(walk_tree(paths[i].as_str()));
            } else {
                walks.push(Vec::new());
            }
            i = i + 1;
        }
        let r = self.plan_paths(paths, kinds, &walks);
        proof {
            if r is Err {
                let k = choose|k: int| #[trigger] first_missing_kind(kinds@, k);
                assert(kinds@[k] != PathKind::Missing);
            }
        }
        r
    }

    /// The formatter and the header flag agree.
    pub closed spec fn wf(&self) -> bool {
        self.include_headers == !self.path_formatter.has_no_path()
    }

    /// Appends the file at `path`, whose content is `file_content`, to `content`: its
    /// header when headers are on, the content, and a line break when the content does not
    /// end with one; the file is counted. `canonical` and `cwd` are as for `format_path`.
    pub fn aggregate_file(
        &mut self,
        path: &String,
        file_content: &String,
        canonical: &Option<String>,
        cwd: &Option<String>,
        content: &mut String,
    )
        requires
            old(self).wf(),
            old(self).count() < usize::MAX,
        ensures
            final(self).wf(),
            final(self).count() == old(self).count() + 1,
            final(self).headers() == old(self).headers(),
            final(self).relative_headers() == old(self).relative_headers(),
            final(self).with_hidden() == old(self).with_hidden(),
            final(self).ignored_paths() == old(self).ignored_paths(),
            final(content)@ == old(content)@ + file_block(
                header(shown_path(old(self).relative_headers(), path@, opt_view(*canonical), opt_view(*cwd))),
                old(self).headers(),
                file_content@,
            ),
    {
        if self.include_headers {
            let h = self.path_formatter.format_path(path, canonical, cwd);
            content.append(h.as_str());
        }
        content.append(file_content.as_str());
        if !ends_with_char(file_content, '\n') {
            content.append("\n");
            proof {
                reveal_strlit("\n");
            }
        }
        self.file_count = self.file_count + 1;
        assert(content@ =~= old(content)@ + file_block(
            header(shown_path(self.relative_headers(), path@, opt_view(*canonical), opt_view(*cwd))),
            self.headers(),
            file_content@,
        ));
    }
}

} // verus!
