use vstd::prelude::*;
use crate::path::{NodePath, copy_text};
use crate::listing::{Entry, EntryView, DirItem, WalkItem, entry_views, sort_listing, listed_entry,
    is_ordered, views_ordered, lemma_ordered_views, walk_tree, stable_sorted};
use crate::path::path_text;
use crate::text::{push_char, without_last_char};
use crate::selection::{Selection, SelectionView, TreeWalk, toggled, within_selection, walks_of,
    final_paths, path_set, effective, beneath_any, lemma_toggle_parity, toggled_times};
use crate::history::{Memory, memory_map, remember, recall, forget};
use crate::search::{rank_matches, search_hits, lemma_hits_follow_lowercase_query};
use crate::text::lower_of;
use crate::viewport::{fit_view, fitted_scroll, clamped_cursor};

verus! {

broadcast use vstd::seq_lib::group_to_multiset_ensures;

/// Rows assumed visible before the first frame is drawn.
pub const INITIAL_HEIGHT: usize = 10;

/// How keys are read: browsing the directory, typing a search query, or moving among
/// search results.
#[derive(PartialEq, Eq, Structural, Clone, Copy, Debug)]
pub enum Mode {
    Browse,
    SearchInput,
    SearchNav,
}

/// A key press, as the picker reads it.
#[derive(PartialEq, Eq, Structural, Clone, Copy, Debug)]
pub enum Key {
    Char(char),
    /// `c` with the control modifier.
    CtrlC,
    Enter,
    Esc,
    Backspace,
    Up,
    Down,
    Left,
    Right,
    Other,
}

/// What the session does after a key.
#[derive(Debug, PartialEq, Eq)]
pub enum Step {
    /// Draw again and wait for the next key.
    Continue,
    /// The current directory changed or must be read again: list it and hand the result
    /// to `receive_listing`.
    Relist,
    /// The user quit: the result is empty.
    Cancelled,
    /// The user confirmed: the selected files.
    Confirmed(Vec<String>),
}

/// Everything the picker shows and remembers, as values.
pub struct BrowserView {
    pub current_dir: Seq<Seq<char>>,
    pub entries: Seq<EntryView>,
    pub cursor: int,
    pub scroll: int,
    pub visible_height: int,
    pub selection: SelectionView,
    pub relative: bool,
    pub no_path: bool,
    /// Cursor and scroll offset remembered per directory.
    pub positions: Map<Seq<Seq<char>>, (usize, usize)>,
    /// Query and results remembered per directory.
    pub searches: Map<Seq<Seq<char>>, (Seq<char>, Seq<EntryView>)>,
    pub mode: Mode,
    pub query: Seq<char>,
    pub results: Seq<EntryView>,
    pub cursor_before_search: int,
    pub scroll_before_search: int,
    pub message: Seq<char>,
}

/// The view of remembered searches.
pub open spec fn search_memory_view(v: Seq<Memory<(String, Vec<Entry>)>>) -> Map<Seq<Seq<char>>, (Seq<char>, Seq<EntryView>)> {
    memory_map(v).map_values(|x: (String, Vec<Entry>)| (x.0@, entry_views(x.1@)))
}

/// The list that the cursor moves in: search results in a search, else the entries.
pub open spec fn active_list(v: BrowserView) -> Seq<EntryView> {
    if v.mode == Mode::Browse {
        v.entries
    } else {
        v.results
    }
}

/// The state of one session of the picker.
pub struct AppState {
    current_dir: NodePath,
    entries: Vec<Entry>,
    cursor: usize,
    scroll_offset: usize,
    visible_height: usize,
    selection: Selection,
    relative: bool,
    no_path: bool,
    directory_history: Vec<Memory<(usize, usize)>>,
    search_history: Vec<Memory<(String, Vec<Entry>)>>,
    mode: Mode,
    search_query: String,
    search_results: Vec<Entry>,
    cursor_before_search: usize,
    scroll_before_search: usize,
    message: String,
}

impl View for AppState {
    type V = BrowserView;

    closed spec fn view(&self) -> BrowserView {
        BrowserView {
            current_dir: self.current_dir@,
            entries: entry_views(self.entries@),
            cursor: self.cursor as int,
            scroll: self.scroll_offset as int,
            visible_height: self.visible_height as int,
            selection: self.selection@,
            relative: self.relative,
            no_path: self.no_path,
            positions: memory_map(self.directory_history@),
            searches: search_memory_view(self.search_history@),
            mode: self.mode,
            query: self.search_query@,
            results: entry_views(self.search_results@),
            cursor_before_search: self.cursor_before_search as int,
            scroll_before_search: self.scroll_before_search as int,
            message: self.message@,
        }
    }
}

/// Copies of a list of entries.
fn copy_entries(v: &Vec<Entry>) -> (r: Vec<Entry>)
    ensures
        entry_views(r@) == entry_views(v@),
{
    let mut r: Vec<Entry> = Vec::new();
    let mut i: usize = 0;
    while i < v.len()
        invariant
            i <= v.len(),
            r.len() == i,
            forall|k: int| 0 <= k < i ==> #[trigger] r@[k]@ == v@[k]@,
        decreases v.len() - i,
    {
        r.push(v[i].copy());
        i = i + 1;
    }
    assert(entry_views(r@) =~= entry_views(v@));
    r
}

/// The footer warning after a confirmation with nothing selected.
pub open spec fn nothing_selected_message() -> Seq<char> {
    "No files or directories selected!"@
}

/// The cursor one row up, if there is a row above.
pub open spec fn moved_up(v: BrowserView) -> BrowserView {
    BrowserView { cursor: if v.cursor > 0 { v.cursor - 1 } else { v.cursor }, ..v }
}

/// The cursor one row down, if there is a row below in the active list.
pub open spec fn moved_down(v: BrowserView) -> BrowserView {
    BrowserView { cursor: if v.cursor + 1 < active_list(v).len() { v.cursor + 1 } else { v.cursor }, ..v }
}

/// The cursor stands on a row of the active list.
pub open spec fn on_row(v: BrowserView) -> bool {
    0 <= v.cursor < active_list(v).len()
}

/// The cursor stands on a directory of the active list.
pub open spec fn on_dir(v: BrowserView) -> bool {
    on_row(v) && active_list(v)[v.cursor].is_dir
}

/// The selection after toggling the row under the cursor, if there is one.
pub open spec fn toggled_at_cursor(v: BrowserView) -> BrowserView {
    if on_row(v) {
        BrowserView { selection: toggled(v.selection, active_list(v)[v.cursor].path), ..v }
    } else {
        v
    }
}

/// The position and search of the current directory remembered, before leaving it.
pub open spec fn left_dir(v: BrowserView) -> BrowserView {
    BrowserView {
        positions: v.positions.insert(v.current_dir, (v.cursor as usize, v.scroll as usize)),
        searches: if v.mode != Mode::Browse {
            v.searches.insert(v.current_dir, (v.query, v.results))
        } else {
            v.searches
        },
        ..v
    }
}

/// Browsing `dir` with the cursor at `cursor` and `scroll`, its entries not listed yet.
pub open spec fn arrived(v: BrowserView, dir: Seq<Seq<char>>, cursor: int, scroll: int) -> BrowserView {
    BrowserView {
        current_dir: dir,
        entries: Seq::empty(),
        mode: Mode::Browse,
        query: Seq::empty(),
        results: Seq::empty(),
        cursor,
        scroll,
        ..v
    }
}

/// After entering `target`: a fresh view at the top.
pub open spec fn entered(v: BrowserView, target: Seq<Seq<char>>) -> BrowserView {
    arrived(left_dir(v), target, 0, 0)
}

/// After going to the parent: the position remembered for it, else the top; at the root
/// nothing changes.
pub open spec fn went_up(v: BrowserView) -> BrowserView {
    if v.current_dir.len() == 0 {
        v
    } else {
        let w = left_dir(v);
        let p = v.current_dir.drop_last();
        if w.positions.contains_key(p) {
            arrived(w, p, w.positions[p].0 as int, w.positions[p].1 as int)
        } else {
            arrived(w, p, 0, 0)
        }
    }
}

/// Search mode entered: the query is empty, the results are the entries, and the cursor
/// position is kept for the return.
pub open spec fn entered_search(v: BrowserView) -> BrowserView {
    BrowserView {
        mode: Mode::SearchInput,
        cursor_before_search: v.cursor,
        scroll_before_search: v.scroll,
        query: Seq::empty(),
        results: v.entries,
        cursor: 0,
        scroll: 0,
        ..v
    }
}

/// Search mode left: query and results dropped, the search remembered for this directory
/// forgotten, and the cursor back where it was.
pub open spec fn exited_search(v: BrowserView) -> BrowserView {
    BrowserView {
        mode: Mode::Browse,
        query: Seq::empty(),
        results: Seq::empty(),
        cursor: v.cursor_before_search,
        scroll: v.scroll_before_search,
        searches: v.searches.remove(v.current_dir),
        ..v
    }
}

/// `w` is `v` with its search results computed afresh from a walk `walk` of the current
/// directory: with an empty query the results are the entries; otherwise they are the
/// ranked hits of the walk, and in a search they are remembered for the directory. The
/// cursor goes to the top.
pub open spec fn searched(v: BrowserView, w: BrowserView, walk: Seq<WalkItem>) -> bool {
    if v.query.len() == 0 {
        w == BrowserView { results: v.entries, cursor: 0, scroll: 0, ..v }
    } else {
        &&& w == BrowserView {
            results: w.results,
            cursor: 0,
            scroll: 0,
            searches: if v.mode != Mode::Browse {
                v.searches.insert(v.current_dir, (v.query, w.results))
            } else {
                v.searches
            },
            ..v
        }
        &&& w.results == stable_sorted(search_hits(v.current_dir, v.query, walk), true)
        &&& w.results.to_multiset() == search_hits(v.current_dir, v.query, walk).to_multiset()
        &&& views_ordered(w.results, true)
    }
}

/// The query with `c` typed at its end.
pub open spec fn typed(v: BrowserView, c: char) -> BrowserView {
    BrowserView { query: v.query.push(c), ..v }
}

/// The query with its last character erased, if it has one.
pub open spec fn erased(v: BrowserView) -> BrowserView {
    BrowserView { query: if v.query.len() > 0 { v.query.drop_last() } else { v.query }, ..v }
}

/// Quitting: nothing stays selected.
pub open spec fn cancelled(v: BrowserView, w: BrowserView, step: Step) -> bool {
    &&& w == BrowserView {
        selection: SelectionView { selected: Set::empty(), deselected: Set::empty() },
        ..v
    }
    &&& step == Step::Cancelled
}

/// `f` is the path text of a file of the effective selection.
pub open spec fn selected_file(s: SelectionView, f: Seq<char>) -> bool {
    exists|p: Seq<Seq<char>>| #[trigger] within_selection(s, p) && f == path_text(p)
}

/// Confirming: with nothing selected, a warning and the session goes on; otherwise the
/// session ends with files of the effective selection, each given by its path text.
pub open spec fn confirmed(v: BrowserView, w: BrowserView, step: Step) -> bool {
    if v.selection.selected == Set::<Seq<Seq<char>>>::empty() {
        w == BrowserView { message: nothing_selected_message(), ..v } && step == Step::Continue
    } else {
        &&& w == v
        &&& step matches Step::Confirmed(files) && (forall|k: int| 0 <= k < files.len() ==>
            #[trigger] selected_file(v.selection, files@[k]@)) && exists|walks: Seq<TreeWalk>, ps: Seq<Seq<Seq<char>>>|
            #[trigger] resolved_files(v.selection, walks, ps, files@)
    }
}

/// `files` are the path texts of `ps`, distinct paths that make up exactly the final
/// selection given by `walks`, one walk for each selected path that is not excepted:
/// so each is a file met by a walk, and none is an exception or beneath one.
pub open spec fn resolved_files(s: SelectionView, walks: Seq<TreeWalk>, ps: Seq<Seq<Seq<char>>>, files: Seq<String>) -> bool {
    &&& walks_of(s, walks)
    &&& ps.to_set() == final_paths(s.deselected, walks)
    &&& forall|i: int, j: int| 0 <= i < j < ps.len() ==> ps[i] != ps[j]
    &&& files.len() == ps.len()
    &&& forall|k: int| 0 <= k < files.len() ==> #[trigger] files[k]@ == path_text(ps[k])
}

/// Nothing changes.
pub open spec fn unchanged(v: BrowserView, w: BrowserView, step: Step) -> bool {
    w == v && step == Step::Continue
}

/// Going into the directory under the cursor, if it is one.
pub open spec fn opened(v: BrowserView, w: BrowserView, step: Step) -> bool {
    if on_dir(v) {
        w == entered(v, active_list(v)[v.cursor].path) && step == Step::Relist
    } else {
        unchanged(v, w, step)
    }
}

/// Going to the parent directory, unless at the root.
pub open spec fn went_up_step(v: BrowserView, w: BrowserView, step: Step) -> bool {
    if v.current_dir.len() > 0 {
        w == went_up(v) && step == Step::Relist
    } else {
        unchanged(v, w, step)
    }
}

/// A key while browsing.
pub open spec fn browse_step(v: BrowserView, key: Key, w: BrowserView, step: Step) -> bool {
    match key {
        Key::Char('q') | Key::CtrlC => cancelled(v, w, step),
        Key::Char('c') => confirmed(v, w, step),
        Key::Char('/') => w == entered_search(v) && step == Step::Continue,
        Key::Up | Key::Char('k') => w == moved_up(v) && step == Step::Continue,
        Key::Down | Key::Char('j') => w == moved_down(v) && step == Step::Continue,
        Key::Char(' ') => w == toggled_at_cursor(v) && step == Step::Continue,
        Key::Enter | Key::Char('l') | Key::Right => opened(v, w, step),
        Key::Backspace | Key::Char('h') | Key::Left => went_up_step(v, w, step),
        Key::Char('r') => w == BrowserView { relative: if v.no_path { v.relative } else { !v.relative }, ..v }
            && step == Step::Continue,
        Key::Char('n') => w == BrowserView {
            no_path: !v.no_path,
            relative: if !v.no_path { false } else { v.relative },
            ..v
        } && step == Step::Continue,
        _ => unchanged(v, w, step),
    }
}

/// A key while typing the query. Control-C types a `c`.
pub open spec fn input_step(v: BrowserView, key: Key, w: BrowserView, step: Step) -> bool {
    match key {
        Key::Esc => w == exited_search(v) && step == Step::Relist,
        Key::Backspace => step == Step::Continue && exists|walk: Seq<WalkItem>| #[trigger] searched(
            erased(v),
            w,
            walk,
        ),
        Key::Enter | Key::Up | Key::Down => w == BrowserView { mode: Mode::SearchNav, ..v } && step == Step::Continue,
        Key::Char(c) => step == Step::Continue && exists|walk: Seq<WalkItem>| #[trigger] searched(
            typed(v, c),
            w,
            walk,
        ),
        Key::CtrlC => step == Step::Continue && exists|walk: Seq<WalkItem>| #[trigger] searched(
            typed(v, 'c'),
            w,
            walk,
        ),
        _ => unchanged(v, w, step),
    }
}

/// A key while moving among search results.
pub open spec fn results_step(v: BrowserView, key: Key, w: BrowserView, step: Step) -> bool {
    match key {
        Key::Char('q') | Key::CtrlC => cancelled(v, w, step),
        Key::Char('c') => confirmed(v, w, step),
        Key::Char('/') => w == BrowserView { mode: Mode::SearchInput, ..v } && step == Step::Continue,
        Key::Esc => w == exited_search(v) && step == Step::Relist,
        Key::Up | Key::Char('k') => w == moved_up(v) && step == Step::Continue,
        Key::Down | Key::Char('j') => w == moved_down(v) && step == Step::Continue,
        Key::Char(' ') => w == toggled_at_cursor(v) && step == Step::Continue,
        Key::Enter | Key::Char('l') | Key::Right => opened(v, w, step),
        Key::Char('h') | Key::Left => went_up_step(v, w, step),
        _ => unchanged(v, w, step),
    }
}

/// The effect of a key press in the current mode.
pub open spec fn key_step(v: BrowserView, key: Key, w: BrowserView, step: Step) -> bool {
    match v.mode {
        Mode::Browse => browse_step(v, key, w, step),
        Mode::SearchInput => input_step(v, key, w, step),
        Mode::SearchNav => results_step(v, key, w, step),
    }
}

impl AppState {
    /// A session that starts in `current_dir`, whose children are `listing`.
    pub fn new(current_dir: NodePath, listing: &Vec<DirItem>) -> (r: AppState)
        ensures
            r@.current_dir == current_dir@,
            r@.entries.len() == listing.len(),
            children(r@),
            r@.entries == stable_sorted(listing@.map_values(|d: DirItem| listed_entry(current_dir@, d)), false),
            views_ordered(r@.entries, false),
            r@.entries.to_multiset() == listing@.map_values(|d: DirItem| listed_entry(current_dir@, d)).to_multiset(),
            is_ordered(r.entries_of(), false),
            r@.cursor == 0,
            r@.scroll == 0,
            r@.visible_height == INITIAL_HEIGHT,
            r@.selection.selected == Set::<Seq<Seq<char>>>::empty(),
            r@.selection.deselected == Set::<Seq<Seq<char>>>::empty(),
            !r@.relative,
            !r@.no_path,
            r@.positions == Map::<Seq<Seq<char>>, (usize, usize)>::empty(),
            r@.searches == Map::<Seq<Seq<char>>, (Seq<char>, Seq<EntryView>)>::empty(),
            r@.mode == Mode::Browse,
            r@.query.len() == 0,
            r@.results.len() == 0,
            r@.cursor_before_search == 0,
            r@.scroll_before_search == 0,
            r@.message.len() == 0,
    {
        let entries = sort_listing(&current_dir, listing);
        let r = AppState {
            current_dir,
            entries,
            cursor: 0,
            scroll_offset: 0,
            visible_height: INITIAL_HEIGHT,
            selection: Selection::new(),
            relative: false,
            no_path: false,
            directory_history: Vec::new(),
            search_history: Vec::new(),
            mode: Mode::Browse,
            search_query: String::new(),
            search_results: Vec::new(),
            cursor_before_search: 0,
            scroll_before_search: 0,
            message: String::new(),
        };
        assert(r@.positions =~= Map::<Seq<Seq<char>>, (usize, usize)>::empty());
        assert(r@.searches =~= Map::<Seq<Seq<char>>, (Seq<char>, Seq<EntryView>)>::empty());
        assert(r@.results =~= Seq::<EntryView>::empty());
        proof {
            lemma_listing_children(current_dir@, listing@, r@);
        }
        r
    }

    /// The entries of the current directory, as held.
    pub closed spec fn entries_of(&self) -> Seq<Entry> {
        self.entries@
    }

    /// The search results, as held.
    pub closed spec fn results_of(&self) -> Seq<Entry> {
        self.search_results@
    }

    pub fn current_dir(&self) -> (r: &NodePath)
        ensures
            r@ == self@.current_dir,
    {
        &self.current_dir
    }

    pub fn entries(&self) -> (r: &Vec<Entry>)
        ensures
            entry_views(r@) == self@.entries,
    {
        &self.entries
    }

    pub fn search_results(&self) -> (r: &Vec<Entry>)
        ensures
            entry_views(r@) == self@.results,
    {
        &self.search_results
    }

    pub fn cursor(&self) -> (r: usize)
        ensures
            r == self@.cursor,
    {
        self.cursor
    }

    pub fn scroll_offset(&self) -> (r: usize)
        ensures
            r == self@.scroll,
    {
        self.scroll_offset
    }

    pub fn mode(&self) -> (r: Mode)
        ensures
            r == self@.mode,
    {
        self.mode
    }

    pub fn search_query(&self) -> (r: &String)
        ensures
            r@ == self@.query,
    {
        &self.search_query
    }

    pub fn selection(&self) -> (r: &Selection)
        ensures
            r@ == self@.selection,
    {
        &self.selection
    }

    /// The warning shown in the footer, empty when there is none.
    pub fn message(&self) -> (r: &String)
        ensures
            r@ == self@.message,
    {
        &self.message
    }

    pub fn relative(&self) -> (r: bool)
        ensures
            r == self@.relative,
    {
        self.relative
    }

    pub fn no_path(&self) -> (r: bool)
        ensures
            r == self@.no_path,
    {
        self.no_path
    }

    /// True when `entry` is effectively selected.
    pub fn is_selected(&self, entry: &Entry) -> (r: bool)
        ensures
            r == crate::selection::effective(self@.selection, entry@.path),
    {
        self.selection.is_effectively_selected(&entry.path)
    }

    /// Length of the list the cursor moves in.
    fn active_len(&self) -> (r: usize)
        ensures
            r == active_list(self@).len(),
    {
        if self.mode == Mode::Browse {
            self.entries.len()
        } else {
            self.search_results.len()
        }
    }

    /// Brings the cursor and the scroll offset into bounds for a list area of
    /// `visible_height` rows.
    pub fn ensure_cursor_visible(&mut self, visible_height: usize)
        ensures
            final(self)@ == (BrowserView {
                visible_height: visible_height as int,
                cursor: clamped_cursor(active_list(old(self)@).len() as int, old(self)@.cursor),
                scroll: fitted_scroll(
                    active_list(old(self)@).len() as int,
                    visible_height as int,
                    clamped_cursor(active_list(old(self)@).len() as int, old(self)@.cursor),
                    old(self)@.scroll,
                ),
                ..old(self)@
            }),
            ({
                let len = active_list(old(self)@).len();
                &&& 0 <= final(self)@.scroll <= if len > visible_height { len - visible_height } else { 0 }
                &&& len > visible_height && visible_height >= 1 ==> final(self)@.scroll <= final(self)@.cursor
                    <= final(self)@.scroll + visible_height - 1
            }),
    {
        self.visible_height = visible_height;
        let len = self.active_len();
        let (c, s) = fit_view(len, visible_height, self.cursor, self.scroll_offset);
        self.cursor = c;
        self.scroll_offset = s;
    }

    pub fn move_cursor_up(&mut self)
        ensures
            final(self)@ == moved_up(old(self)@),
    {
        if self.cursor > 0 {
            self.cursor = self.cursor - 1;
        }
    }

    /// Moves the cursor down within the active list.
    pub fn move_cursor_down(&mut self)
        ensures
            final(self)@ == moved_down(old(self)@),
    {
        let len = self.active_len();
        if self.cursor < len && self.cursor + 1 < len {
            self.cursor = self.cursor + 1;
        }
    }

    pub fn reset_cursor(&mut self)
        ensures
            final(self)@ == (BrowserView { cursor: 0, scroll: 0, ..old(self)@ }),
    {
        self.cursor = 0;
        self.scroll_offset = 0;
    }

    /// Remembers the position in the current directory.
    pub fn save_directory_state(&mut self)
        ensures
            final(self)@ == (BrowserView {
                positions: old(self)@.positions.insert(
                    old(self)@.current_dir,
                    (old(self)@.cursor as usize, old(self)@.scroll as usize),
                ),
                ..old(self)@
            }),
    {
        remember(&mut self.directory_history, self.current_dir.copy(), (self.cursor, self.scroll_offset));
    }

    /// Puts the cursor where it was last in the current directory, or at the top.
    pub fn restore_directory_state(&mut self)
        ensures
            final(self)@ == (if old(self)@.positions.contains_key(old(self)@.current_dir) {
                BrowserView {
                    cursor: old(self)@.positions[old(self)@.current_dir].0 as int,
                    scroll: old(self)@.positions[old(self)@.current_dir].1 as int,
                    ..old(self)@
                }
            } else {
                BrowserView { cursor: 0, scroll: 0, ..old(self)@ }
            }),
    {
        match recall(&self.directory_history, &self.current_dir) {
            Some(pos) => {
                self.cursor = pos.0;
                self.scroll_offset = pos.1;
            },
            None => {
                self.reset_cursor();
            },
        }
    }

    /// In a search, remembers its query and results for the current directory.
    pub fn save_search_state(&mut self)
        ensures
            final(self)@ == (BrowserView {
                searches: if old(self)@.mode != Mode::Browse {
                    old(self)@.searches.insert(old(self)@.current_dir, (old(self)@.query, old(self)@.results))
                } else {
                    old(self)@.searches
                },
                ..old(self)@
            }),
    {
        if self.mode != Mode::Browse {
            let ghost before = self.search_history@;
            let saved = (copy_text(&self.search_query), copy_entries(&self.search_results));
            remember(&mut self.search_history, self.current_dir.copy(), saved);
            assert(search_memory_view(self.search_history@) =~= search_memory_view(before).insert(
                self.current_dir@,
                (self.search_query@, entry_views(self.search_results@)),
            ));
        }
    }

    /// Starts a search: the query is empty and the results are the entries.
    pub fn enter_search_mode(&mut self)
        ensures
            final(self)@ == entered_search(old(self)@),
    {
        self.mode = Mode::SearchInput;
        self.cursor_before_search = self.cursor;
        self.scroll_before_search = self.scroll_offset;
        self.search_query = String::new();
        self.search_results = copy_entries(&self.entries);
        self.reset_cursor();
    }

    /// Leaves the search. The entries are listed again: hand the listing to
    /// `receive_listing`; when the directory cannot be read the entries stay as they are.
    pub fn exit_search_mode(&mut self)
        ensures
            final(self)@ == exited_search(old(self)@),
    {
        self.mode = Mode::Browse;
        self.search_query = String::new();
        self.cursor = self.cursor_before_search;
        self.scroll_offset = self.scroll_before_search;
        self.search_results = Vec::new();
        let ghost before = self.search_history@;
        forget(&mut self.search_history, &self.current_dir);
        assert(search_memory_view(self.search_history@) =~= search_memory_view(before).remove(self.current_dir@));
        assert(self@.results =~= Seq::<EntryView>::empty());
    }

    /// Recomputes the search results from a walk of the current directory.
    pub fn apply_search(&mut self, walk: &Vec<WalkItem>)
        ensures
            searched(old(self)@, final(self)@, walk@),
    {
        if self.search_query.as_str().is_empty() {
            self.search_results = copy_entries(&self.entries);
            self.reset_cursor();
            return;
        }
        let results = rank_matches(&self.current_dir, &self.search_query, walk);
        proof {
            lemma_ordered_views(results@, true);
        }
        self.search_results = results;
        self.reset_cursor();
        self.save_search_state();
    }

    /// Recomputes the search results, walking the tree under the current directory when
    /// the query is not empty.
    pub fn update_search(&mut self)
        ensures
            exists|walk: Seq<WalkItem>| #[trigger] searched(old(self)@, final(self)@, walk),
    {
        if self.search_query.as_str().is_empty() {
            let none: Vec<WalkItem> = Vec::new();
            self.apply_search(&none);
            return;
        }
        let walk = walk_tree(self.current_dir.to_text().as_str());
        self.apply_search(&walk);
    }

    /// Replaces the entries with the listing of the current directory.
    pub fn receive_listing(&mut self, listing: &Vec<DirItem>)
        ensures
            final(self)@ == (BrowserView { entries: final(self)@.entries, ..old(self)@ }),
            final(self)@.entries.len() == listing.len(),
            children(final(self)@),
            final(self)@.entries == stable_sorted(listing@.map_values(|d: DirItem| listed_entry(old(self)@.current_dir, d)), false),
            views_ordered(final(self)@.entries, false),
            final(self)@.entries.to_multiset() == listing@.map_values(
                |d: DirItem| listed_entry(old(self)@.current_dir, d),
            ).to_multiset(),
            is_ordered(final(self).entries_of(), false),
    {
        self.entries = sort_listing(&self.current_dir, listing);
        proof {
            lemma_listing_children(self@.current_dir, listing@, self@);
        }
    }

    /// Remembers the current directory's position and search, then browses `target`
    /// from the top. Its entries must then be listed and handed to `receive_listing`;
    /// until then, and when it cannot be read, the list is empty.
    pub fn enter_directory(&mut self, target: NodePath)
        ensures
            final(self)@ == entered(old(self)@, target@),
    {
        self.save_directory_state();
        self.save_search_state();
        self.current_dir = target;
        self.entries = Vec::new();
        self.mode = Mode::Browse;
        self.search_query = String::new();
        self.search_results = Vec::new();
        self.reset_cursor();
        assert(self@.entries =~= Seq::<EntryView>::empty());
        assert(self@.results =~= Seq::<EntryView>::empty());
    }

    /// Remembers the current directory's position and search, then browses its parent
    /// where the cursor was last there. Returns false, changing nothing, at the root.
    pub fn go_to_parent(&mut self) -> (r: bool)
        ensures
            r == (old(self)@.current_dir.len() > 0),
            final(self)@ == went_up(old(self)@),
    {
        match self.current_dir.parent() {
            None => false,
            Some(parent) => {
                self.save_directory_state();
                self.save_search_state();
                self.current_dir = parent;
                self.entries = Vec::new();
                self.mode = Mode::Browse;
                self.search_query = String::new();
                self.search_results = Vec::new();
                self.restore_directory_state();
                assert(self@.entries =~= Seq::<EntryView>::empty());
                assert(self@.results =~= Seq::<EntryView>::empty());
                true
            },
        }
    }

    /// Toggles the selection of the row under the cursor.
    pub fn toggle_at_cursor(&mut self)
        ensures
            final(self)@ == toggled_at_cursor(old(self)@),
    {
        if self.mode == Mode::Browse {
            if self.cursor < self.entries.len() {
                self.selection.toggle(&self.entries[self.cursor].path);
            }
        } else if self.cursor < self.search_results.len() {
            self.selection.toggle(&self.search_results[self.cursor].path);
        }
    }

    /// Enters the directory under the cursor, if it is one.
    fn open_at_cursor(&mut self) -> (r: Step)
        ensures
            opened(old(self)@, final(self)@, r),
    {
        let target = if self.mode == Mode::Browse {
            if self.cursor < self.entries.len() && self.entries[self.cursor].is_dir {
                Some(self.entries[self.cursor].path.copy())
            } else {
                None
            }
        } else if self.cursor < self.search_results.len() && self.search_results[self.cursor].is_dir {
            Some(self.search_results[self.cursor].path.copy())
        } else {
            None
        };
        match target {
            Some(t) => {
                self.enter_directory(t);
                Step::Relist
            },
            None => Step::Continue,
        }
    }

    fn parent_step(&mut self) -> (r: Step)
        ensures
            went_up_step(old(self)@, final(self)@, r),
    {
        if self.go_to_parent() {
            Step::Relist
        } else {
            Step::Continue
        }
    }

    /// Ends the session with the files of the effective selection, or warns when nothing
    /// is selected.
    pub fn confirm(&mut self) -> (r: Step)
        ensures
            confirmed(old(self)@, final(self)@, r),
    {
        if self.selection.is_empty() {
            self.message = String::from_str("No files or directories selected!");
            return Step::Continue;
        }
        let paths = self.selection.resolve_final_selection();
        let ghost walks = choose|walks: Seq<TreeWalk>| #[trigger] walks_of(self@.selection, walks) && path_set(paths@) == final_paths(
            self@.selection.deselected,
            walks,
        );
        let mut files: Vec<String> = Vec::new();
        let mut i: usize = 0;
        while i < paths.len()
            invariant
                i <= paths.len(),
                walks_of(self@.selection, walks),
                path_set(paths@) == final_paths(self@.selection.deselected, walks),
                forall|a: int, b: int| 0 <= a < b < paths.len() ==> paths@[a]@ != paths@[b]@,
                files.len() == i,
                forall|k: int| 0 <= k < paths.len() ==> within_selection(self@.selection, #[trigger] paths@[k]@),
                forall|k: int| 0 <= k < i ==> #[trigger] files@[k]@ == path_text(paths@[k]@),
            decreases paths.len() - i,
        {
            files.push(paths[i].to_text());
            i = i + 1;
        }
        proof {
            assert forall|k: int| 0 <= k < files.len() implies #[trigger] selected_file(self@.selection, files@[k]@) by {
                assert(within_selection(self@.selection, paths@[k]@) && files@[k]@ == path_text(paths@[k]@));
            }
            let ps = paths@.map_values(|p: NodePath| p@);
            assert(ps.to_set() =~= path_set(paths@)) by {
                assert forall|q: Seq<Seq<char>>| ps.to_set().contains(q) implies path_set(paths@).contains(q) by {
                    let i = choose|i: int| 0 <= i < ps.len() && ps[i] == q;
                    assert(paths@[i]@ == q);
                }
                assert forall|q: Seq<Seq<char>>| path_set(paths@).contains(q) implies ps.to_set().contains(q) by {
                    let i = choose|i: int| 0 <= i < paths.len() && #[trigger] paths@[i]@ == q;
                    assert(ps[i] == q);
                }
            }
            assert forall|a: int, b: int| 0 <= a < b < ps.len() implies ps[a] != ps[b] by {
                assert(ps[a] == paths@[a]@ && ps[b] == paths@[b]@);
            }
            assert forall|k: int| 0 <= k < files.len() implies #[trigger] files@[k]@ == path_text(ps[k]) by {
                assert(ps[k] == paths@[k]@);
            }
            assert(resolved_files(self@.selection, walks, ps, files@));
        }
        let r = Step::Confirmed(files);
        assert(r matches Step::Confirmed(f) && f@ == files@);
        assert(self@.selection.selected != Set::<Seq<Seq<char>>>::empty());
        r
    }

    /// Quits: the selection is dropped.
    pub fn cancel(&mut self) -> (r: Step)
        ensures
            cancelled(old(self)@, final(self)@, r),
    {
        self.selection.clear();
        Step::Cancelled
    }

    /// Appends `c` to the query and searches again.
    fn type_char(&mut self, c: char)
        ensures
            exists|walk: Seq<WalkItem>| #[trigger] searched(typed(old(self)@, c), final(self)@, walk),
    {
        push_char(&mut self.search_query, c);
        self.update_search();
    }

    /// Drops the last character of the query and searches again.
    fn erase_char(&mut self)
        ensures
            exists|walk: Seq<WalkItem>| #[trigger] searched(erased(old(self)@), final(self)@, walk),
    {
        self.search_query = without_last_char(&self.search_query);
        self.update_search();
    }

    /// Handles one key press.
    pub fn handle_key(&mut self, key: Key) -> (r: Step)
        ensures
            key_step(old(self)@, key, final(self)@, r),
    {
        match self.mode {
            Mode::Browse => match key {
                Key::Char('q') | Key::CtrlC => self.cancel(),
                Key::Char('c') => self.confirm(),
                Key::Char('/') => {
                    self.enter_search_mode();
                    Step::Continue
                },
                Key::Up | Key::Char('k') => {
                    self.move_cursor_up();
                    Step::Continue
                },
                Key::Down | Key::Char('j') => {
                    self.move_cursor_down();
                    Step::Continue
                },
                Key::Char(' ') => {
                    self.toggle_at_cursor();
                    Step::Continue
                },
                Key::Enter | Key::Char('l') | Key::Right => self.open_at_cursor(),
                Key::Backspace | Key::Char('h') | Key::Left => self.parent_step(),
                Key::Char('r') => {
                    if !self.no_path {
                        self.relative = !self.relative;
                    }
                    Step::Continue
                },
                Key::Char('n') => {
                    self.no_path = !self.no_path;
                    if self.no_path {
                        self.relative = false;
                    }
                    Step::Continue
                },
                _ => Step::Continue,
            },
            Mode::SearchInput => match key {
                Key::Esc => {
                    self.exit_search_mode();
                    Step::Relist
                },
                Key::Backspace => {
                    self.erase_char();
                    Step::Continue
                },
                Key::Enter | Key::Up | Key::Down => {
                    self.mode = Mode::SearchNav;
                    Step::Continue
                },
                Key::Char(c) => {
                    self.type_char(c);
                    Step::Continue
                },
                Key::CtrlC => {
                    self.type_char('c');
                    Step::Continue
                },
                _ => Step::Continue,
            },
            Mode::SearchNav => match key {
                Key::Char('q') | Key::CtrlC => self.cancel(),
                Key::Char('c') => self.confirm(),
                Key::Char('/') => {
                    self.mode = Mode::SearchInput;
                    Step::Continue
                },
                Key::Esc => {
                    self.exit_search_mode();
                    Step::Relist
                },
                Key::Up | Key::Char('k') => {
                    self.move_cursor_up();
                    Step::Continue
                },
                Key::Down | Key::Char('j') => {
                    self.move_cursor_down();
                    Step::Continue
                },
                Key::Char(' ') => {
                    self.toggle_at_cursor();
                    Step::Continue
                },
                Key::Enter | Key::Char('l') | Key::Right => self.open_at_cursor(),
                Key::Char('h') | Key::Left => self.parent_step(),
                _ => Step::Continue,
            },
        }
    }

    /// Handles a key event: only presses act; other kinds of event, such as releases,
    /// change nothing.
    pub fn handle_event(&mut self, key: Key, is_press: bool) -> (r: Step)
        ensures
            is_press ==> key_step(old(self)@, key, final(self)@, r),
            !is_press ==> unchanged(old(self)@, final(self)@, r),
    {
        if is_press {
            self.handle_key(key)
        } else {
            Step::Continue
        }
    }
}

/// Entering a child directory and then going back to the parent lands in the parent
/// again, with the cursor and scroll offset that were there before entering.
pub proof fn lemma_enter_then_parent(s: AppState, name: Seq<char>)
    ensures
        went_up(entered(s@, s@.current_dir.push(name))).current_dir == s@.current_dir,
        went_up(entered(s@, s@.current_dir.push(name))).cursor == s@.cursor,
        went_up(entered(s@, s@.current_dir.push(name))).scroll == s@.scroll,
{
    let v = s@;
    let child = v.current_dir.push(name);
    let e = entered(v, child);
    assert(child.drop_last() =~= v.current_dir);
    assert(child != v.current_dir);
    assert(left_dir(e).positions[v.current_dir] == (v.cursor as usize, v.scroll as usize));
}

/// Quitting with `q` or Control-C while browsing or among search results ends the session
/// with an empty result and drops the whole selection.
pub proof fn lemma_quit_leaves_nothing(v: BrowserView, key: Key, w: BrowserView, step: Step)
    requires
        key == Key::Char('q') || key == Key::CtrlC,
        v.mode != Mode::SearchInput,
        key_step(v, key, w, step),
    ensures
        step == Step::Cancelled,
        w.selection.selected.is_empty(),
        w.selection.deselected.is_empty(),
{
}

/// Cursor and scroll offset are values of `usize`.
pub open spec fn bounded(v: BrowserView) -> bool {
    0 <= v.cursor <= usize::MAX && 0 <= v.scroll <= usize::MAX
}

/// Every entry is a child of the current directory, named by its last component.
pub open spec fn children(v: BrowserView) -> bool {
    forall|i: int| 0 <= i < v.entries.len() ==> #[trigger] v.entries[i].path == v.current_dir.push(v.entries[i].name)
}

/// The view of every session keeps its cursor and scroll offset within `usize`.
pub proof fn lemma_view_bounded(s: AppState)
    ensures
        bounded(s@),
{
}

/// Entries listed from a directory are its children.
pub proof fn lemma_listing_children(dir: Seq<Seq<char>>, listing: Seq<DirItem>, v: BrowserView)
    requires
        v.current_dir == dir,
        v.entries.to_multiset() == listing.map_values(|d: DirItem| listed_entry(dir, d)).to_multiset(),
    ensures
        children(v),
{
    let m = listing.map_values(|d: DirItem| listed_entry(dir, d));
    assert forall|i: int| 0 <= i < v.entries.len() implies #[trigger] v.entries[i].path == v.current_dir.push(
        v.entries[i].name,
    ) by {
        assert(v.entries.contains(v.entries[i]));
        assert(m.to_multiset().count(v.entries[i]) > 0);
        assert(m.contains(v.entries[i]));
        let j = choose|j: int| 0 <= j < m.len() && m[j] == v.entries[i];
        assert(m[j] == listed_entry(dir, listing[j]));
    }
}

/// A key press keeps the entries children of the current directory.
pub proof fn lemma_key_keeps_children(v: BrowserView, key: Key, w: BrowserView, step: Step)
    requires
        children(v),
        key_step(v, key, w, step),
    ensures
        children(w),
{
    if w.entries.len() > 0 {
        assert(w.entries == v.entries && w.current_dir == v.current_dir);
    }
}

/// Opening the directory under the cursor while browsing, receiving its listing, and
/// going back to the parent lands in the same directory, browsing, with the cursor and
/// scroll offset it had before.
pub proof fn lemma_open_then_back(
    v: BrowserView,
    k1: Key,
    w: BrowserView,
    s1: Step,
    w2: BrowserView,
    k2: Key,
    u: BrowserView,
    s2: Step,
)
    requires
        bounded(v),
        children(v),
        v.mode == Mode::Browse,
        on_dir(v),
        k1 == Key::Enter || k1 == Key::Char('l') || k1 == Key::Right,
        key_step(v, k1, w, s1),
        w2 == (BrowserView { entries: w2.entries, ..w }),
        k2 == Key::Backspace || k2 == Key::Char('h') || k2 == Key::Left,
        key_step(w2, k2, u, s2),
    ensures
        s1 == Step::Relist,
        s2 == Step::Relist,
        u.mode == Mode::Browse,
        u.current_dir == v.current_dir,
        u.cursor == v.cursor,
        u.scroll == v.scroll,
{
    let target = v.entries[v.cursor].path;
    assert(target == v.current_dir.push(v.entries[v.cursor].name));
    assert(w == entered(v, target));
    assert(target.drop_last() =~= v.current_dir);
    assert(target != v.current_dir);
    assert(w2.current_dir.len() > 0);
    assert(u == went_up(w2));
}

/// The state after `n` toggles of the row under the cursor.
proof fn lemma_space_steps(vs: Seq<BrowserView>, steps: Seq<Step>, p: Seq<Seq<char>>, n: int)
    requires
        1 <= vs.len(),
        steps.len() == vs.len() - 1,
        0 <= n < vs.len(),
        vs[0].mode != Mode::SearchInput,
        on_row(vs[0]),
        active_list(vs[0])[vs[0].cursor].path == p,
        forall|i: int| 0 <= i < vs.len() - 1 ==> #[trigger] key_step(vs[i], Key::Char(' '), vs[i + 1], steps[i]),
    ensures
        vs[n] == (BrowserView { selection: toggled_times(vs[0].selection, p, n as nat), ..vs[0] }),
    decreases n,
{
    if n > 0 {
        lemma_space_steps(vs, steps, p, n - 1);
        let i = n - 1;
        assert(key_step(vs[i], Key::Char(' '), vs[i + 1], steps[i]));
        assert(i + 1 == n);
    } else {
        assert(vs[0] == (BrowserView { selection: toggled_times(vs[0].selection, p, 0), ..vs[0] }));
    }
}

/// Pressing Space `n` times on a row whose path has no selected ancestor, while browsing
/// or among search results, leaves the path effectively selected exactly when it was
/// not and `n` is odd, or it was and `n` is even.
pub proof fn lemma_space_presses(vs: Seq<BrowserView>, steps: Seq<Step>, p: Seq<Seq<char>>)
    requires
        1 <= vs.len(),
        steps.len() == vs.len() - 1,
        vs[0].mode != Mode::SearchInput,
        on_row(vs[0]),
        active_list(vs[0])[vs[0].cursor].path == p,
        !beneath_any(vs[0].selection.selected, p),
        forall|i: int| 0 <= i < vs.len() - 1 ==> #[trigger] key_step(vs[i], Key::Char(' '), vs[i + 1], steps[i]),
    ensures
        effective(vs.last().selection, p) == (effective(vs[0].selection, p) != ((vs.len() - 1) % 2 == 1)),
{
    let n = vs.len() - 1;
    lemma_space_steps(vs, steps, p, n);
    lemma_toggle_parity(vs[0].selection, p, n as nat);
}

/// With the same walk, queries with the same lowercase form give the same results,
/// whatever results were shown before.
pub proof fn lemma_search_follows_lowercase_query(
    v1: BrowserView,
    v2: BrowserView,
    w1: BrowserView,
    w2: BrowserView,
    walk: Seq<WalkItem>,
)
    requires
        v1.query.len() > 0,
        v2.query.len() > 0,
        lower_of(v1.query) == lower_of(v2.query),
        v1.current_dir == v2.current_dir,
        searched(v1, w1, walk),
        searched(v2, w2, walk),
    ensures
        w1.results == w2.results,
        w1.cursor == w2.cursor,
        w1.scroll == w2.scroll,
{
    lemma_hits_follow_lowercase_query(v1.current_dir, v1.query, v2.query, walk);
}

} // verus!
