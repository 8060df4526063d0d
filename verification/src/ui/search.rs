//! The search screen's state and how it reacts to what the user does: the
//! query and its debounced search, the results and the selected one, and
//! the status line.
//!
//! Each reaction updates the state and returns what the caller has to do
//! next (wait before searching, run the search, open a file, load a
//! preview); the caller reports the outcome back.
use vstd::prelude::*;

use crate::paths::{file_name_of, path_file_name};
use crate::preview::loader::message_view;
use crate::text::{concat, decimal, decimal_string, owned};

verus! {

/// Whether `c` is a white space character (the Unicode `White_Space`
/// property, as `char::is_whitespace` tests it).
pub open spec fn is_white_space(c: char) -> bool {
    let u = c as u32;
    ||| 0x09 <= u <= 0x0D
    ||| u == 0x20 || u == 0x85 || u == 0xA0 || u == 0x1680
    ||| 0x2000 <= u <= 0x200A
    ||| u == 0x2028 || u == 0x2029 || u == 0x202F || u == 0x205F || u == 0x3000
}

/// The text is empty or white space only, so that trimming it leaves
/// nothing.
pub open spec fn is_blank(s: Seq<char>) -> bool {
    forall|i: int| 0 <= i < s.len() ==> is_white_space(#[trigger] s[i])
}

fn white_space(c: char) -> (r: bool)
    ensures
        r == is_white_space(c),
{
    let u = c as u32;
    (0x09 <= u && u <= 0x0D) || u == 0x20 || u == 0x85 || u == 0xA0 || u == 0x1680 || (0x2000 <= u
        && u <= 0x200A) || u == 0x2028 || u == 0x2029 || u == 0x202F || u == 0x205F || u == 0x3000
}

/// Returns whether `s` is empty or white space only.
pub fn blank(s: &str) -> (r: bool)
    ensures
        r == is_blank(s@),
{
    let n = s.unicode_len();
    let mut i: usize = 0;
    while i < n
        invariant
            n == s@.len(),
            i <= n,
            forall|k: int| 0 <= k < i ==> is_white_space(#[trigger] s@[k]),
        decreases n - i,
    {
        if !white_space(s.get_char(i)) {
            return false;
        }
        i += 1;
    }
    true
}

/// The status after a search found `count` results.
pub open spec fn found_message(count: nat) -> Seq<char> {
    "Found "@ + decimal(count) + " result"@ + (if count == 1 { ""@ } else { "s"@ })
}

/// What the caller does after a reaction.
#[derive(Debug, Clone, PartialEq, Eq)]
pub enum UiAction {
    /// Nothing.
    Nothing,
    /// Wait for the debounce delay, then report it with `search_debounced`.
    ScheduleDebounce,
    /// Run a search for this query and report its outcome.
    Search(String),
    /// Open this file with the default application and report the outcome.
    Open(String),
    /// Load a preview of this file for this query.
    LoadPreview(String, String),
    /// Clear the list of recent searches.
    ClearRecentSearches,
}

/// The search screen's state.
pub struct SearchState {
    /// The current search query text.
    pub query: String,
    /// The paths of the most recent search results.
    pub results: Vec<String>,
    /// Index of the currently selected result, if any.
    pub selected_index: Option<usize>,
    /// Status message displayed in the status bar.
    pub status: String,
    /// Whether a debounced search is pending.
    pub search_pending: bool,
    /// The query for which a debounced search is pending.
    pub pending_query: String,
    /// Whether the recent searches dropdown is visible.
    pub recent_searches_open: bool,
    /// Whether a preview is being loaded.
    pub preview_loading: bool,
    /// The error of the last preview, if it failed.
    pub preview_error: Option<String>,
}

/// The selection after moving up: one result earlier, staying on the first,
/// or the first when nothing was selected; nothing without results.
pub open spec fn moved_up(selected: Option<usize>, len: nat) -> Option<usize> {
    if len == 0 {
        selected
    } else {
        match selected {
            Some(i) => if i > 0 { Some((i - 1) as usize) } else { Some(i) },
            None => Some(0),
        }
    }
}

/// The selection after moving down: one result later, staying on the last,
/// or the first when nothing was selected; nothing without results.
pub open spec fn moved_down(selected: Option<usize>, len: nat) -> Option<usize> {
    if len == 0 {
        selected
    } else {
        match selected {
            Some(i) => if i + 1 < len { Some((i + 1) as usize) } else { Some(i) },
            None => Some(0),
        }
    }
}

/// The status shown for a selected result: its file name, or the whole path
/// when it has none.
pub open spec fn selection_status(path: Seq<char>) -> Seq<char> {
    match path_file_name(path) {
        Some(n) => n,
        None => path,
    }
}

/// `after` has the pending search, the recent-searches flag and the preview
/// fields of `before`.
pub open spec fn keeps_search_and_preview(after: SearchState, before: SearchState) -> bool {
    &&& after.search_pending == before.search_pending
    &&& after.pending_query@ == before.pending_query@
    &&& after.recent_searches_open == before.recent_searches_open
    &&& after.preview_loading == before.preview_loading
    &&& message_view(after.preview_error) == message_view(before.preview_error)
}

/// The texts of `v`.
pub open spec fn path_texts(v: Seq<String>) -> Seq<Seq<char>> {
    v.map_values(|s: String| s@)
}

fn copy_paths(v: &Vec<String>) -> (r: Vec<String>)
    ensures
        path_texts(r@) == path_texts(v@),
{
    let mut out: Vec<String> = Vec::new();
    let mut i: usize = 0;
    while i < v.len()
        invariant
            i <= v@.len(),
            out@.len() == i,
            forall|k: int| 0 <= k < i ==> (#[trigger] out@[k])@ == v@[k]@,
        decreases v.len() - i,
    {
        out.push(v[i].clone());
        i += 1;
    }
    assert(path_texts(out@) =~= path_texts(v@));
    out
}

fn selection_status_of(path: &str) -> (r: String)
    ensures
        r@ == selection_status(path@),
{
    match file_name_of(path) {
        Some(n) => n,
        None => owned(path),
    }
}

impl SearchState {
    /// An empty search screen showing `status`.
    pub fn new(status: String) -> (r: Self)
        ensures
            r.query@ == Seq::<char>::empty(),
            r.results@.len() == 0,
            r.selected_index is None,
            r.status@ == status@,
            !r.search_pending,
            r.pending_query@ == Seq::<char>::empty(),
            !r.recent_searches_open,
            !r.preview_loading,
            r.preview_error is None,
    {
        SearchState {
            query: String::new(),
            results: Vec::new(),
            selected_index: None,
            status,
            search_pending: false,
            pending_query: String::new(),
            recent_searches_open: false,
            preview_loading: false,
            preview_error: None,
        }
    }

    /// The query text changed: a blank query clears the results at once;
    /// another one waits for the debounce delay before it is searched.
    pub fn search_changed(&mut self, query: String) -> (r: UiAction)
        ensures
            final(self).query@ == query@,
            !final(self).recent_searches_open,
            final(self).status@ == old(self).status@,
            is_blank(query@) ==> {
                &&& r == UiAction::Nothing
                &&& final(self).results@.len() == 0
                &&& final(self).selected_index is None
                &&& !final(self).search_pending
                &&& final(self).pending_query@ == Seq::<char>::empty()
            },
            !is_blank(query@) ==> {
                &&& r == UiAction::ScheduleDebounce
                &&& final(self).search_pending
                &&& final(self).pending_query@ == query@
                &&& final(self).results@ == old(self).results@
                &&& final(self).selected_index == old(self).selected_index
            },
    {
        let is_blank_query = blank(query.as_str());
        self.query = query;
        self.recent_searches_open = false;
        if is_blank_query {
            self.results = Vec::new();
            self.selected_index = None;
            self.search_pending = false;
            self.pending_query = String::new();
            return UiAction::Nothing;
        }
        self.search_pending = true;
        self.pending_query = self.query.clone();
        UiAction::ScheduleDebounce
    }

    /// The debounce delay passed: the pending query, unless blank, is
    /// searched now; without a pending search nothing happens.
    pub fn search_debounced(&mut self) -> (r: UiAction)
        ensures
            !old(self).search_pending ==> r == UiAction::Nothing && final(self).pending_query@
                == old(self).pending_query@,
            old(self).search_pending ==> {
                &&& !final(self).search_pending
                &&& final(self).pending_query@ == Seq::<char>::empty()
                &&& (is_blank(old(self).pending_query@) ==> r == UiAction::Nothing)
                &&& (!is_blank(old(self).pending_query@) ==> (r matches UiAction::Search(q) && q@
                    == old(self).pending_query@))
            },
            final(self).query@ == old(self).query@,
            final(self).results@ == old(self).results@,
            final(self).selected_index == old(self).selected_index,
            final(self).status@ == old(self).status@,
    {
        if !self.search_pending {
            return UiAction::Nothing;
        }
        self.search_pending = false;
        let query = self.pending_query.clone();
        self.pending_query = String::new();
        if blank(query.as_str()) {
            return UiAction::Nothing;
        }
        UiAction::Search(query)
    }

    /// A search found the files `results`.
    pub fn search_completed(&mut self, results: Vec<String>)
        ensures
            path_texts(final(self).results@) == path_texts(results@),
            final(self).selected_index is None,
            final(self).status@ == found_message(results@.len()),
            final(self).query@ == old(self).query@,
    {
        let count = results.len();
        let mut status = concat("Found ", decimal_string(count as u64).as_str());
        status = concat(status.as_str(), " result");
        if count != 1 {
            status = concat(status.as_str(), "s");
        }
        proof {
            reveal_strlit("");
        }
        assert(status@ =~= found_message(results@.len()));
        self.results = results;
        self.selected_index = None;
        self.status = status;
        assert(path_texts(self.results@) =~= path_texts(results@));
    }

    /// A search failed with `message`.
    pub fn search_failed(&mut self, message: &str)
        ensures
            final(self).results@.len() == 0,
            final(self).selected_index is None,
            final(self).status@ == "Search error: "@ + message@,
            final(self).query@ == old(self).query@,
    {
        self.results = Vec::new();
        self.selected_index = None;
        self.status = concat("Search error: ", message);
    }

    /// An error was reported for the search screen.
    pub fn search_error(&mut self, message: &str)
        ensures
            final(self).results@.len() == 0,
            final(self).selected_index is None,
            final(self).status@ == "Error: "@ + message@,
            final(self).query@ == old(self).query@,
    {
        self.results = Vec::new();
        self.selected_index = None;
        self.status = concat("Error: ", message);
    }

    fn select(&mut self, index: usize)
        requires
            index < old(self).results@.len(),
        ensures
            final(self).selected_index == Some(index),
            final(self).status@ == selection_status(old(self).results@[index as int]@),
            final(self).results@ == old(self).results@,
            final(self).query@ == old(self).query@,
            keeps_search_and_preview(*final(self), *old(self)),
    {
        self.selected_index = Some(index);
        self.status = selection_status_of(self.results[index].as_str());
    }

    /// The selection moves up one result.
    pub fn navigate_up(&mut self)
        requires
            old(self).results@.len() > 0 ==> (old(self).selected_index matches Some(i) ==> i
                <= old(self).results@.len()),
        ensures
            final(self).selected_index == moved_up(old(self).selected_index, old(self).results@.len()),
            final(self).results@ == old(self).results@,
            final(self).query@ == old(self).query@,
            keeps_search_and_preview(*final(self), *old(self)),
            old(self).results@.len() > 0 ==> final(self).status@ == selection_status(
                old(self).results@[final(self).selected_index->0 as int]@,
            ),
            old(self).results@.len() == 0 ==> final(self).status@ == old(self).status@,
    {
        if self.results.len() == 0 {
            return;
        }
        let index = match self.selected_index {
            Some(i) => if i > 0 { i - 1 } else { i },
            None => 0,
        };
        self.select(index);
    }

    /// The selection moves down one result.
    pub fn navigate_down(&mut self)
        requires
            old(self).results@.len() > 0 ==> (old(self).selected_index matches Some(i) ==> i
                < old(self).results@.len()),
        ensures
            final(self).selected_index == moved_down(old(self).selected_index, old(self).results@.len()),
            final(self).results@ == old(self).results@,
            final(self).query@ == old(self).query@,
            keeps_search_and_preview(*final(self), *old(self)),
            old(self).results@.len() > 0 ==> final(self).status@ == selection_status(
                old(self).results@[final(self).selected_index->0 as int]@,
            ),
            old(self).results@.len() == 0 ==> final(self).status@ == old(self).status@,
    {
        if self.results.len() == 0 {
            return;
        }
        let index = match self.selected_index {
            Some(i) => if i + 1 < self.results.len() { i + 1 } else { i },
            None => 0,
        };
        self.select(index);
    }

    /// A result was clicked: it is selected and its preview loaded for the
    /// current query; an index past the results changes nothing.
    pub fn result_selected(&mut self, index: usize) -> (r: UiAction)
        ensures
            index < old(self).results@.len() ==> {
                &&& final(self).selected_index == Some(index)
                &&& final(self).status@ == selection_status(old(self).results@[index as int]@)
                &&& r matches UiAction::LoadPreview(p, q) && p@ == old(self).results@[index as int]@
                    && q@ == old(self).query@
            },
            index < old(self).results@.len() ==> final(self).preview_loading
                && final(self).preview_error is None,
            index >= old(self).results@.len() ==> r == UiAction::Nothing && final(self).selected_index
                == old(self).selected_index,
            final(self).results@ == old(self).results@,
    {
        if index >= self.results.len() {
            return UiAction::Nothing;
        }
        self.select(index);
        self.preview_loading = true;
        self.preview_error = None;
        UiAction::LoadPreview(self.results[index].clone(), self.query.clone())
    }

    /// A preview was loaded; when it carries an error, the error is kept
    /// and shown in the status.
    pub fn preview_loaded(&mut self, error: Option<&str>)
        ensures
            !final(self).preview_loading,
            match error {
                Some(e) => (final(self).preview_error matches Some(m) && m@ == e@)
                    && final(self).status@ == "Preview error: "@ + e@,
                None => final(self).preview_error is None && final(self).status@ == old(self).status@,
            },
            final(self).results@ == old(self).results@,
            final(self).selected_index == old(self).selected_index,
    {
        self.preview_loading = false;
        match error {
            Some(e) => {
                self.preview_error = Some(owned(e));
                self.status = concat("Preview error: ", e);
            },
            None => {
                self.preview_error = None;
            },
        }
    }

    /// Loading a preview failed with `message`.
    pub fn preview_failed(&mut self, message: &str)
        ensures
            !final(self).preview_loading,
            final(self).preview_error matches Some(m) && m@ == message@,
            final(self).status@ == "Preview failed: "@ + message@,
            final(self).results@ == old(self).results@,
            final(self).selected_index == old(self).selected_index,
    {
        self.preview_loading = false;
        self.preview_error = Some(owned(message));
        self.status = concat("Preview failed: ", message);
    }

    /// A result was activated (double-clicked): its file is opened.
    pub fn result_activated(&self, index: usize) -> (r: UiAction)
        ensures
            index < self.results@.len() ==> (r matches UiAction::Open(p) && p@
                == self.results@[index as int]@),
            index >= self.results@.len() ==> r == UiAction::Nothing,
    {
        if index >= self.results.len() {
            return UiAction::Nothing;
        }
        UiAction::Open(self.results[index].clone())
    }

    /// The query was submitted: the selected result is opened, or, with
    /// nothing selected, the first result is selected and opened.
    pub fn search_submitted(&mut self) -> (r: UiAction)
        ensures
            old(self).selected_index matches Some(i) ==> final(self).selected_index
                == old(self).selected_index && (if i < old(self).results@.len() {
                r matches UiAction::Open(p) && p@ == old(self).results@[i as int]@
            } else {
                r == UiAction::Nothing
            }),
            old(self).selected_index is None ==> (if old(self).results@.len() > 0 {
                final(self).selected_index == Some(0usize) && (r matches UiAction::Open(p) && p@
                    == old(self).results@[0]@)
            } else {
                r == UiAction::Nothing && final(self).selected_index is None
            }),
            final(self).results@ == old(self).results@,
            final(self).status@ == old(self).status@,
    {
        match self.selected_index {
            Some(i) => self.result_activated(i),
            None => {
                if self.results.len() == 0 {
                    return UiAction::Nothing;
                }
                self.selected_index = Some(0);
                UiAction::Open(self.results[0].clone())
            },
        }
    }

    /// A file was opened: the status names it.
    pub fn file_opened(&mut self, path: &str)
        ensures
            final(self).status@ == "Opened: "@ + match path_file_name(path@) {
                Some(n) => n,
                None => Seq::<char>::empty(),
            },
            final(self).results@ == old(self).results@,
            final(self).selected_index == old(self).selected_index,
    {
        let name = match file_name_of(path) {
            Some(n) => n,
            None => String::new(),
        };
        self.status = concat("Opened: ", name.as_str());
    }

    /// Opening a file failed with `message`.
    pub fn open_failed(&mut self, message: &str)
        ensures
            final(self).status@ == "Failed to open: "@ + message@,
            final(self).results@ == old(self).results@,
            final(self).selected_index == old(self).selected_index,
    {
        self.status = concat("Failed to open: ", message);
    }

    /// A recent search was picked: it becomes the query and is searched
    /// after the debounce delay.
    pub fn recent_search_selected(&mut self, query: String) -> (r: UiAction)
        ensures
            r == UiAction::ScheduleDebounce,
            final(self).query@ == query@,
            final(self).pending_query@ == query@,
            final(self).search_pending,
            !final(self).recent_searches_open,
    {
        self.pending_query = query.clone();
        self.query = query;
        self.recent_searches_open = false;
        self.search_pending = true;
        UiAction::ScheduleDebounce
    }

    /// The recent searches are cleared.
    pub fn clear_recent_searches(&mut self) -> (r: UiAction)
        ensures
            r == UiAction::ClearRecentSearches,
            !final(self).recent_searches_open,
            final(self).status@ == "Recent searches cleared."@,
    {
        self.recent_searches_open = false;
        self.status = owned("Recent searches cleared.");
        UiAction::ClearRecentSearches
    }

    /// The paths of the current results.
    pub fn result_paths(&self) -> (r: Vec<String>)
        ensures
            path_texts(r@) == path_texts(self.results@),
    {
        copy_paths(&self.results)
    }
}

/// Moving up and then down from a selected result that is neither the first
/// nor the last comes back to it, and so does moving down then up.
pub proof fn law_navigation_round_trip(i: usize, len: nat)
    requires
        0 < i,
        i + 1 < len,
        len <= usize::MAX,
    ensures
        moved_down(moved_up(Some(i), len), len) == Some(i),
        moved_up(moved_down(Some(i), len), len) == Some(i),
{
    assert(((i - 1) as usize) + 1 == i);
    assert(((i + 1) as usize) - 1 == i);
}

/// The selection never leaves the results: moving from a valid selection,
/// or from none, selects a result when there are any.
pub proof fn law_navigation_stays_in_results(selected: Option<usize>, len: nat)
    requires
        len > 0,
        selected matches Some(i) ==> i < len,
    ensures
        moved_up(selected, len) matches Some(j) && j < len,
        moved_down(selected, len) matches Some(j) && j < len,
{
}

} // verus!
