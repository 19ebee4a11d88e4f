//! The picker controller: a paginated, searchable list of rows fed by an
//! asynchronous page source. The controller owns pagination state, the
//! deduplicated accumulated rows, the filtered view, selection and scroll
//! bookkeeping, and the single-outstanding-request protocol with its
//! token-based staleness detection. It performs no I/O itself: page fetches
//! it decides on are recorded as requests for the surrounding event loop to
//! dispatch, and completions come back through `handle_background_event`.

use vstd::prelude::*;
use crate::rows::{row_models, models_of_items, rows_from_items, Row, RowModel, SourceItem};
use crate::text::{chars_of, contains_chars, contains_seq, lower_of, lowercase};

verus! {

/// How close to the end of the filtered view the selection may come before a
/// further page is fetched.
pub const LOAD_NEAR_THRESHOLD: usize = 5;

/// How many items one page request asks the source for.
pub const PAGE_SIZE: usize = 25;

/// An opaque continuation token, handed back to the source to resume
/// iteration where the previous page ended; never parsed here.
#[derive(Debug, PartialEq, Eq)]
pub struct Cursor {
    pub token: String,
}

impl Clone for Cursor {
    fn clone(&self) -> (r: Self)
        ensures
            r == *self,
    {
        Cursor { token: self.token.clone() }
    }
}

impl Cursor {
    /// A cursor wrapping the given opaque token text.
    pub fn new(token: String) -> (r: Self)
        ensures
            r.token == token,
    {
        Cursor { token }
    }
}

/// One batch from the source: its items, the continuation cursor (absent on
/// exhaustion), how many underlying records the source examined so far, and
/// whether it stopped early on an internal scan budget.
pub struct Page {
    pub items: Vec<SourceItem>,
    pub next_cursor: Option<Cursor>,
    pub num_scanned_files: usize,
    pub reached_scan_cap: bool,
}

/// The identity of the single outstanding page request.
#[derive(Clone, Copy, Debug)]
pub struct PendingLoad {
    pub request_token: usize,
    pub search_token: Option<usize>,
}

/// Whether a page fetch is outstanding, and if so which one.
#[derive(Clone, Copy, Debug)]
pub enum LoadingState {
    Idle,
    Pending(PendingLoad),
}

impl LoadingState {
    /// Whether a fetch is outstanding.
    pub fn is_pending(&self) -> (r: bool)
        ensures
            r == (*self is Pending),
    {
        matches!(self, LoadingState::Pending(_))
    }
}

/// Whether the current query is still waiting for background data to find a
/// match, tagged with the token of that search.
#[derive(Clone, Copy, Debug)]
pub enum SearchState {
    Idle,
    Active { token: usize },
}

impl SearchState {
    /// The active search's token, when one is active.
    pub fn active_token(&self) -> (r: Option<usize>)
        ensures
            r == (match *self {
                SearchState::Idle => None::<usize>,
                SearchState::Active { token } => Some(token),
            }),
    {
        match self {
            SearchState::Idle => None,
            SearchState::Active { token } => Some(*token),
        }
    }

    /// Whether a search is active.
    pub fn is_active(&self) -> (r: bool)
        ensures
            r == (*self is Active),
    {
        matches!(self, SearchState::Active { .. })
    }
}

/// Why a fetch is being issued: the user scrolling near the end, or an
/// active search pulling further pages.
pub(crate) enum LoadTrigger {
    Scroll,
    Search { token: usize },
}

/// The search token a trigger carries, if any.
pub(crate) open spec fn trigger_token(t: LoadTrigger) -> Option<usize> {
    match t {
        LoadTrigger::Scroll => None,
        LoadTrigger::Search { token } => Some(token),
    }
}

/// Continuation and progress bookkeeping for the paged source.
pub struct PaginationState {
    pub next_cursor: Option<Cursor>,
    pub num_scanned_files: usize,
    pub reached_scan_cap: bool,
    pub loading: LoadingState,
}

/// One page request the controller has decided on; the surrounding event
/// loop performs it and reports back with a tagged background event.
#[derive(Debug)]
pub struct PageLoadRequest {
    pub cursor: Option<Cursor>,
    pub request_token: usize,
    pub search_token: Option<usize>,
}

impl Clone for PageLoadRequest {
    fn clone(&self) -> (r: Self)
        ensures
            r == *self,
    {
        PageLoadRequest {
            cursor: match &self.cursor {
                Some(c) => Some(c.clone()),
                None => None,
            },
            request_token: self.request_token,
            search_token: self.search_token,
        }
    }
}

/// The terminal outcome of the picker.
#[derive(Debug)]
pub enum ResumeSelection {
    StartFresh,
    Resume(String),
    Exit,
}

/// A failed page fetch, as reported by the surrounding loop.
#[derive(Debug)]
pub struct LoadError {
    pub message: String,
}

/// A completion of a background page fetch, tagged with the identity of the
/// request it answers.
pub enum BackgroundEvent {
    PageLoaded {
        request_token: usize,
        search_token: Option<usize>,
        page: Result<Page, LoadError>,
    },
}

/// What an empty filtered view should say: the renderer maps each notice
/// to its message.
#[derive(Clone, Copy, Debug, PartialEq, Eq, Structural)]
pub enum EmptyStateNotice {
    Searching,
    ScanCapped { num_scanned_files: usize },
    NoResults,
    NoSessionsYet,
    Loading,
}

/// One key press, already normalized from the terminal event stream.
#[derive(Clone, Copy, Debug)]
pub enum KeyPress {
    Esc,
    CtrlC,
    Enter,
    Up,
    Down,
    PageUp,
    PageDown,
    Backspace,
    Char(char),
    Other,
}

/// A row matches a query when the query is empty or its lowercase form
/// occurs in the lowercase form of the row's preview.
pub open spec fn row_matches(r: RowModel, q: Seq<char>) -> bool {
    q.len() == 0 || contains_seq(lower_of(r.preview), lower_of(q))
}

/// The rows of `rows` that match `q`, in order.
pub open spec fn filter_models(rows: Seq<RowModel>, q: Seq<char>) -> Seq<RowModel>
    decreases rows.len(),
{
    if rows.len() == 0 {
        Seq::empty()
    } else {
        let pre = filter_models(rows.drop_last(), q);
        if row_matches(rows.last(), q) {
            pre.push(rows.last())
        } else {
            pre
        }
    }
}

/// Some row in `rows` has identity `p`.
pub open spec fn models_contain_path(rows: Seq<RowModel>, p: Seq<char>) -> bool {
    exists|i: int| 0 <= i < rows.len() && rows[i].path == p
}

/// No two rows share an identity.
pub open spec fn paths_distinct(rows: Seq<RowModel>) -> bool {
    forall|i: int, j: int| 0 <= i < j < rows.len() ==> rows[i].path != rows[j].path
}

/// The accumulated rows after ingesting `new` on top of `rows`: each new row
/// is appended unless its identity was already seen.
pub open spec fn ingest_models(rows: Seq<RowModel>, new: Seq<RowModel>) -> Seq<RowModel>
    decreases new.len(),
{
    if new.len() == 0 {
        rows
    } else {
        let pre = ingest_models(rows, new.drop_last());
        if models_contain_path(pre, new.last().path) {
            pre
        } else {
            pre.push(new.last())
        }
    }
}

/// Saturating addition within the machine range.
pub open spec fn sat_add_usize(a: int, b: int) -> int {
    if a + b > usize::MAX {
        usize::MAX as int
    } else {
        a + b
    }
}

/// Saturating subtraction, floored at zero.
pub open spec fn sat_sub(a: int, b: int) -> int {
    if a >= b {
        a - b
    } else {
        0
    }
}

/// The next value of a wrapping token counter.
pub open spec fn wrap_inc(t: usize) -> usize {
    if t == usize::MAX {
        0
    } else {
        (t + 1) as usize
    }
}

/// The selection index clamped into a view of length `len`.
pub open spec fn clamp_sel(sel: int, len: int) -> int {
    if sel >= len {
        if len == 0 {
            0
        } else {
            len - 1
        }
    } else {
        sel
    }
}

/// The viewport capacity in effect: the known rendered height, the whole
/// filtered view when no height is known yet, and never less than one.
pub open spec fn view_capacity(view_rows: Option<usize>, filtered_len: nat) -> nat {
    let c = match view_rows {
        Some(n) => n as nat,
        None => filtered_len,
    };
    if c == 0 {
        1nat
    } else {
        c
    }
}

/// The scroll offset that restores "selection visible" with minimal
/// movement: up exactly to the selection when it lies above the window, down
/// exactly enough when it lies below, then clamped so the window does not
/// hang past the end of the list.
pub open spec fn scroll_after(len: int, sel: int, top: int, cap: int) -> int {
    let t1 = if sel < top {
        sel
    } else if sel > sat_add_usize(top, cap - 1) {
        sat_sub(sel, cap - 1)
    } else {
        top
    };
    let max_start = sat_sub(len, cap);
    if t1 > max_start {
        max_start
    } else {
        t1
    }
}

pub proof fn lemma_scroll_window(len: int, sel: int, top: int, cap: int)
    requires
        1 <= cap,
        0 <= sel < len,
        sel <= usize::MAX,
        0 <= top <= usize::MAX,
    ensures
        scroll_after(len, sel, top, cap) <= sel,
        sel < scroll_after(len, sel, top, cap) + cap,
        0 <= scroll_after(len, sel, top, cap),
{
}

/// The picker controller's whole state.
pub struct PickerState {
    pub pagination: PaginationState,
    pub all_rows: Vec<Row>,
    pub filtered_rows: Vec<Row>,
    pub selected: usize,
    pub scroll_top: usize,
    pub query: String,
    pub search_state: SearchState,
    pub next_request_token: usize,
    pub next_search_token: usize,
    pub view_rows: Option<usize>,
    pub frame_requested: bool,
    pub dispatched: Vec<PageLoadRequest>,
}

impl PickerState {
    /// The models of the accumulated rows.
    pub open spec fn models(self) -> Seq<RowModel> {
        row_models(self.all_rows@)
    }

    /// The models of the filtered, visible rows.
    pub open spec fn filtered_models(self) -> Seq<RowModel> {
        row_models(self.filtered_rows@)
    }

    /// The viewport capacity in effect for this state.
    pub open spec fn cap(self) -> nat {
        view_capacity(self.view_rows, self.filtered_rows@.len())
    }

    /// Well-formedness: the filtered view is exactly the accumulated rows
    /// filtered by the query, identities are unique, and selection and
    /// scroll lie within the view.
    pub open spec fn wf(self) -> bool {
        &&& self.filtered_models() == filter_models(self.models(), self.query@)
        &&& paths_distinct(self.models())
        &&& (self.filtered_rows@.len() == 0 ==> self.selected == 0 && self.scroll_top == 0)
        &&& (self.filtered_rows@.len() > 0 ==> self.selected < self.filtered_rows@.len()
            && self.scroll_top <= self.selected && self.selected < self.scroll_top + self.cap())
    }

    /// A fresh, empty picker: nothing loaded, nothing outstanding.
    pub fn new() -> (s: Self)
        ensures
            s.wf(),
            s.pagination.next_cursor is None,
            s.pagination.num_scanned_files == 0,
            !s.pagination.reached_scan_cap,
            s.pagination.loading is Idle,
            s.all_rows@.len() == 0,
            s.filtered_rows@.len() == 0,
            s.selected == 0,
            s.scroll_top == 0,
            s.query@.len() == 0,
            s.search_state is Idle,
            s.next_request_token == 0,
            s.next_search_token == 0,
            s.view_rows is None,
            !s.frame_requested,
            s.dispatched@.len() == 0,
    {
        let s = PickerState {
            pagination: PaginationState {
                next_cursor: None,
                num_scanned_files: 0,
                reached_scan_cap: false,
                loading: LoadingState::Idle,
            },
            all_rows: Vec::new(),
            filtered_rows: Vec::new(),
            selected: 0,
            scroll_top: 0,
            query: String::new(),
            search_state: SearchState::Idle,
            next_request_token: 0,
            next_search_token: 0,
            view_rows: None,
            frame_requested: false,
            dispatched: Vec::new(),
        };
        proof {
            assert(s.models() =~= Seq::<RowModel>::empty());
            assert(s.filtered_models() =~= filter_models(s.models(), s.query@));
        }
        s
    }

    /// Marks the pending frame request as taken; the surrounding loop calls
    /// this when it schedules a redraw.
    pub fn take_frame_request(&mut self) -> (r: bool)
        ensures
            r == old(self).frame_requested,
            *final(self) == (PickerState { frame_requested: false, ..*old(self) }),
    {
        let r = self.frame_requested;
        self.frame_requested = false;
        r
    }

    /// The scroll offset `ensure_selected_visible` will move to.
    pub open spec fn scroll_target(s: PickerState) -> int {
        if s.filtered_rows@.len() == 0 {
            0
        } else {
            scroll_after(
                s.filtered_rows@.len() as int,
                s.selected as int,
                s.scroll_top as int,
                s.cap() as int,
            )
        }
    }

    /// Restores the invariant that the selection lies within the visible
    /// window, moving the scroll offset as little as possible.
    pub fn ensure_selected_visible(&mut self)
        requires
            old(self).filtered_rows@.len() > 0 ==> old(self).selected < old(
                self,
            ).filtered_rows@.len(),
        ensures
            *final(self) == (PickerState { scroll_top: final(self).scroll_top, ..*old(self) }),
            final(self).scroll_top == Self::scroll_target(*old(self)),
            final(self).filtered_rows@.len() > 0 ==> final(self).scroll_top <= final(self).selected
                && final(self).selected < final(self).scroll_top + final(self).cap(),
    {
        if self.filtered_rows.len() == 0 {
            self.scroll_top = 0;
            return ;
        }
        let len = self.filtered_rows.len();
        let capacity0 = match self.view_rows {
            Some(n) => n,
            None => len,
        };
        let capacity: usize = if capacity0 == 0 {
            1
        } else {
            capacity0
        };
        if self.selected < self.scroll_top {
            self.scroll_top = self.selected;
        } else {
            let last_visible = self.scroll_top.saturating_add(capacity - 1);
            if self.selected > last_visible {
                self.scroll_top = self.selected.saturating_sub(capacity - 1);
            }
        }
        let max_start = len.saturating_sub(capacity);
        if self.scroll_top > max_start {
            self.scroll_top = max_start;
        }
        proof {
            lemma_scroll_window(
                old(self).filtered_rows@.len() as int,
                old(self).selected as int,
                old(self).scroll_top as int,
                old(self).cap() as int,
            );
        }
    }

    /// Records the rendered height of the list area and re-derives the
    /// scroll window; a height of zero means "unknown, show everything".
    pub fn update_view_rows(&mut self, rows: usize)
        requires
            old(self).wf(),
        ensures
            final(self).wf(),
            final(self).view_rows == (if rows == 0 {
                None::<usize>
            } else {
                Some(rows)
            }),
            *final(self) == (PickerState {
                view_rows: final(self).view_rows,
                scroll_top: final(self).scroll_top,
                ..*old(self)
            }),
            final(self).scroll_top == Self::scroll_target(
                (PickerState {
                    view_rows: if rows == 0 {
                        None::<usize>
                    } else {
                        Some(rows)
                    },
                    ..*old(self)
                }),
            ),
    {
        self.view_rows = if rows == 0 {
            None
        } else {
            Some(rows)
        };
        self.ensure_selected_visible();
    }

    /// Recomputes the filtered view from the accumulated rows and the
    /// current query, clamps the selection, and restores the scroll window.
    fn apply_filter(&mut self)
        requires
            paths_distinct(old(self).models()),
        ensures
            final(self).wf(),
            *final(self) == (PickerState {
                filtered_rows: final(self).filtered_rows,
                selected: final(self).selected,
                scroll_top: final(self).scroll_top,
                frame_requested: true,
                ..*old(self)
            }),
            final(self).filtered_models() == filter_models(old(self).models(), old(self).query@),
            final(self).selected == clamp_sel(
                old(self).selected as int,
                final(self).filtered_rows@.len() as int,
            ),
            final(self).scroll_top == Self::scroll_target(
                (PickerState {
                    filtered_rows: final(self).filtered_rows,
                    selected: final(self).selected,
                    ..*old(self)
                }),
            ),
    {
        let mut filtered: Vec<Row> = Vec::new();
        if self.query.as_str().is_empty() {
            let mut i: usize = 0;
            while i < self.all_rows.len()
                invariant
                    i <= self.all_rows@.len(),
                    self.query@.len() == 0,
                    row_models(filtered@) == filter_models(
                        row_models(self.all_rows@.subrange(0, i as int)),
                        self.query@,
                    ),
                decreases self.all_rows@.len() - i,
            {
                let row = self.all_rows[i].clone();
                let ghost prev = filtered@;
                filtered.push(row);
                proof {
                    Self::lemma_filter_step(self.all_rows@, self.query@, prev, filtered@, i as int);
                }
                i += 1;
            }
            proof {
                assert(self.all_rows@.subrange(0, self.all_rows@.len() as int) =~= self.all_rows@);
            }
        } else {
            let q = lowercase(self.query.as_str());
            let qv = chars_of(q.as_str());
            let mut i: usize = 0;
            while i < self.all_rows.len()
                invariant
                    i <= self.all_rows@.len(),
                    self.query@.len() > 0,
                    qv@ == lower_of(self.query@),
                    row_models(filtered@) == filter_models(
                        row_models(self.all_rows@.subrange(0, i as int)),
                        self.query@,
                    ),
                decreases self.all_rows@.len() - i,
            {
                let pl = lowercase(self.all_rows[i].preview.as_str());
                let pv = chars_of(pl.as_str());
                if contains_chars(&pv, &qv) {
                    let row = self.all_rows[i].clone();
                    let ghost prev = filtered@;
                    filtered.push(row);
                    proof {
                        Self::lemma_filter_step(
                            self.all_rows@,
                            self.query@,
                            prev,
                            filtered@,
                            i as int,
                        );
                    }
                } else {
                    proof {
                        Self::lemma_filter_skip(self.all_rows@, self.query@, filtered@, i as int);
                    }
                }
                i += 1;
            }
            proof {
                assert(self.all_rows@.subrange(0, self.all_rows@.len() as int) =~= self.all_rows@);
            }
        }
        self.filtered_rows = filtered;
        if self.selected >= self.filtered_rows.len() {
            self.selected = self.filtered_rows.len().saturating_sub(1);
        }
        if self.filtered_rows.len() == 0 {
            self.scroll_top = 0;
        }
        self.ensure_selected_visible();
        self.frame_requested = true;
    }

    proof fn lemma_filter_step(
        all: Seq<Row>,
        q: Seq<char>,
        prev: Seq<Row>,
        cur: Seq<Row>,
        i: int,
    )
        requires
            0 <= i < all.len(),
            cur == prev.push(all[i]),
            row_matches(all[i]@, q),
            row_models(prev) == filter_models(row_models(all.subrange(0, i)), q),
        ensures
            row_models(cur) == filter_models(row_models(all.subrange(0, i + 1)), q),
    {
        let pre_m = row_models(all.subrange(0, i));
        let cur_m = row_models(all.subrange(0, i + 1));
        assert(cur_m.drop_last() =~= pre_m);
        assert(cur_m.last() == all[i]@);
        assert(row_models(cur) =~= row_models(prev).push(all[i]@));
    }

    proof fn lemma_filter_skip(all: Seq<Row>, q: Seq<char>, cur: Seq<Row>, i: int)
        requires
            0 <= i < all.len(),
            !row_matches(all[i]@, q),
            row_models(cur) == filter_models(row_models(all.subrange(0, i)), q),
        ensures
            row_models(cur) == filter_models(row_models(all.subrange(0, i + 1)), q),
    {
        let pre_m = row_models(all.subrange(0, i));
        let cur_m = row_models(all.subrange(0, i + 1));
        assert(cur_m.drop_last() =~= pre_m);
        assert(cur_m.last() == all[i]@);
    }

    /// How ingesting a page transforms the controller: the cursor is
    /// replaced, the scan count accumulates (saturating), the scan-cap flag
    /// is sticky, new rows are deduplicated and appended in source order,
    /// the filtered view is recomputed, and everything else stays.
    pub open spec fn ingest_rel(pre: PickerState, page: Page, post: PickerState) -> bool {
        let new_models = ingest_models(pre.models(), models_of_items(page.items@));
        let flen = filter_models(new_models, pre.query@).len();
        &&& post.pagination.next_cursor == page.next_cursor
        &&& post.pagination.num_scanned_files as int == sat_add_usize(
            pre.pagination.num_scanned_files as int,
            page.num_scanned_files as int,
        )
        &&& post.pagination.reached_scan_cap == (pre.pagination.reached_scan_cap
            || page.reached_scan_cap)
        &&& post.pagination.loading == pre.pagination.loading
        &&& post.models() == new_models
        &&& post.filtered_models() == filter_models(new_models, pre.query@)
        &&& post.selected == clamp_sel(pre.selected as int, flen as int)
        &&& post.scroll_top == Self::scroll_target(
            (PickerState {
                filtered_rows: post.filtered_rows,
                selected: post.selected,
                ..pre
            }),
        )
        &&& post.query == pre.query
        &&& post.search_state == pre.search_state
        &&& post.next_request_token == pre.next_request_token
        &&& post.next_search_token == pre.next_search_token
        &&& post.view_rows == pre.view_rows
        &&& post.frame_requested
        &&& post.dispatched == pre.dispatched
    }

    /// Merges one successfully fetched page: pagination metadata, then the
    /// new rows (deduplicated by identity, order kept), then the view.
    pub fn ingest_page(&mut self, page: Page)
        requires
            old(self).wf(),
        ensures
            final(self).wf(),
            Self::ingest_rel(*old(self), page, *final(self)),
    {
        let Page { items, next_cursor, num_scanned_files, reached_scan_cap } = page;
        match next_cursor {
            Some(cursor) => {
                self.pagination.next_cursor = Some(cursor);
            },
            None => {
                self.pagination.next_cursor = None;
            },
        }
        self.pagination.num_scanned_files = self.pagination.num_scanned_files.saturating_add(
            num_scanned_files,
        );
        if reached_scan_cap {
            self.pagination.reached_scan_cap = true;
        }
        let rows = rows_from_items(&items);
        let ghost base = old(self).models();
        let ghost news = models_of_items(items@);
        let ghost mid = *self;
        let mut i: usize = 0;
        while i < rows.len()
            invariant
                i <= rows@.len(),
                row_models(rows@) == news,
                *self == (PickerState { all_rows: self.all_rows, ..mid }),
                row_models(self.all_rows@) == ingest_models(base, news.subrange(0, i as int)),
            decreases rows@.len() - i,
        {
            let row = rows[i].clone();
            let ghost pre_m = row_models(self.all_rows@);
            proof {
                assert(news.subrange(0, i + 1).drop_last() =~= news.subrange(0, i as int));
                assert(news.subrange(0, i + 1).last() == news[i as int]);
            }
            if !contains_path_exec(&self.all_rows, &row.path) {
                let ghost prev = self.all_rows@;
                self.all_rows.push(row);
                proof {
                    assert(row_models(self.all_rows@) =~= row_models(prev).push(row@));
                    assert(row@ == news[i as int]);
                }
            }
            i += 1;
        }
        proof {
            assert(news.subrange(0, news.len() as int) =~= news);
            lemma_ingest_distinct(base, news);
        }
        self.apply_filter();
    }

    /// Clears pagination back to its freshly opened state.
    pub fn reset_pagination(&mut self)
        ensures
            *final(self) == (PickerState {
                pagination: (PaginationState {
                    next_cursor: None,
                    num_scanned_files: 0,
                    reached_scan_cap: false,
                    loading: LoadingState::Idle,
                }),
                ..*old(self)
            }),
    {
        self.pagination.next_cursor = None;
        self.pagination.num_scanned_files = 0;
        self.pagination.reached_scan_cap = false;
        self.pagination.loading = LoadingState::Idle;
    }

    /// Installs the first fetched page: pagination and accumulated rows are
    /// rebuilt from scratch, the query is kept, and any active search is
    /// cancelled.
    pub fn apply_initial_page(&mut self, page: Page)
        requires
            old(self).wf(),
        ensures
            final(self).wf(),
            final(self).models() == ingest_models(
                Seq::empty(),
                models_of_items(page.items@),
            ),
            final(self).filtered_models() == filter_models(final(self).models(), old(self).query@),
            final(self).pagination.next_cursor == page.next_cursor,
            final(self).pagination.num_scanned_files as int == sat_add_usize(
                0,
                page.num_scanned_files as int,
            ),
            final(self).pagination.reached_scan_cap == page.reached_scan_cap,
            final(self).pagination.loading is Idle,
            final(self).search_state is Idle,
            final(self).selected == 0,
            final(self).scroll_top == 0,
            final(self).frame_requested,
            final(self).query == old(self).query,
            final(self).next_request_token == old(self).next_request_token,
            final(self).next_search_token == old(self).next_search_token,
            final(self).view_rows == old(self).view_rows,
            final(self).dispatched == old(self).dispatched,
    {
        self.reset_pagination();
        self.all_rows = Vec::new();
        self.filtered_rows = Vec::new();
        self.search_state = SearchState::Idle;
        self.selected = 0;
        self.scroll_top = 0;
        proof {
            assert(self.models() =~= Seq::<RowModel>::empty());
            assert(self.filtered_models() =~= filter_models(self.models(), self.query@));
        }
        self.ingest_page(page);
        proof {
            assert(clamp_sel(0, final(self).filtered_rows@.len() as int) == 0);
        }
    }

    fn allocate_request_token(&mut self) -> (t: usize)
        ensures
            t == old(self).next_request_token,
            *final(self) == (PickerState {
                next_request_token: wrap_inc(old(self).next_request_token),
                ..*old(self)
            }),
    {
        let token = self.next_request_token;
        self.next_request_token = if self.next_request_token == usize::MAX {
            0
        } else {
            self.next_request_token + 1
        };
        token
    }

    fn allocate_search_token(&mut self) -> (t: usize)
        ensures
            t == old(self).next_search_token,
            *final(self) == (PickerState {
                next_search_token: wrap_inc(old(self).next_search_token),
                ..*old(self)
            }),
    {
        let token = self.next_search_token;
        self.next_search_token = if self.next_search_token == usize::MAX {
            0
        } else {
            self.next_search_token + 1
        };
        token
    }

    /// How dispatching one fetch transforms the controller: a fresh request
    /// token is drawn, the request becomes the single outstanding one, and
    /// it is recorded for the surrounding loop to perform.
    pub open spec fn dispatch_rel(pre: PickerState, tok: Option<usize>, post: PickerState) -> bool {
        &&& post == (PickerState {
            pagination: (PaginationState {
                loading: LoadingState::Pending(
                    PendingLoad { request_token: pre.next_request_token, search_token: tok },
                ),
                ..pre.pagination
            }),
            next_request_token: wrap_inc(pre.next_request_token),
            frame_requested: true,
            dispatched: post.dispatched,
            ..pre
        })
        &&& post.dispatched@ == pre.dispatched@.push(
            (PageLoadRequest {
                cursor: pre.pagination.next_cursor,
                request_token: pre.next_request_token,
                search_token: tok,
            }),
        )
    }

    /// Issues a background fetch for the next page, unless one is already
    /// outstanding or the source is exhausted.
    pub(crate) fn load_more_if_needed(&mut self, trigger: LoadTrigger)
        ensures
            (old(self).pagination.loading is Pending || old(self).pagination.next_cursor is None)
                ==> *final(self) == *old(self),
            (old(self).pagination.loading is Idle && old(self).pagination.next_cursor is Some)
                ==> Self::dispatch_rel(*old(self), trigger_token(trigger), *final(self)),
            old(self).wf() ==> final(self).wf(),
    {
        if self.pagination.loading.is_pending() {
            return ;
        }
        let cursor = match &self.pagination.next_cursor {
            Some(c) => c.clone(),
            None => {
                return ;
            },
        };
        let request_token = self.allocate_request_token();
        let search_token = match trigger {
            LoadTrigger::Scroll => None,
            LoadTrigger::Search { token } => Some(token),
        };
        self.pagination.loading = LoadingState::Pending(
            PendingLoad { request_token, search_token },
        );
        self.frame_requested = true;
        self.dispatched.push(PageLoadRequest { cursor: Some(cursor), request_token, search_token });
    }

    /// Issues a scroll-driven fetch when the selection has come within
    /// `LOAD_NEAR_THRESHOLD` rows of the end of the filtered view.
    fn maybe_load_more_for_scroll(&mut self)
        requires
            old(self).wf(),
        ensures
            final(self).wf(),
            Self::scroll_fetch_rel(*old(self), *final(self)),
    {
        if self.pagination.loading.is_pending() {
            return ;
        }
        if self.pagination.next_cursor.is_none() {
            return ;
        }
        if self.filtered_rows.len() == 0 {
            return ;
        }
        let remaining = self.filtered_rows.len().saturating_sub(self.selected + 1);
        if remaining <= LOAD_NEAR_THRESHOLD {
            self.load_more_if_needed(LoadTrigger::Scroll);
        }
    }

    /// How the near-the-end check transforms the controller: a scroll-driven
    /// fetch is dispatched exactly when none is outstanding, more pages
    /// exist, the view is non-empty, and the selection is near its end.
    pub open spec fn scroll_fetch_rel(pre: PickerState, post: PickerState) -> bool {
        if pre.pagination.loading is Idle && pre.pagination.next_cursor is Some
            && pre.filtered_rows@.len() > 0 && sat_sub(
            pre.filtered_rows@.len() as int,
            pre.selected + 1,
        ) <= LOAD_NEAR_THRESHOLD {
            Self::dispatch_rel(pre, None, post)
        } else {
            post == pre
        }
    }

    /// No proactive fetch is wanted: the view is already full enough, one is
    /// outstanding, or the source is exhausted.
    pub open spec fn min_rows_satisfied(pre: PickerState, minimum_rows: usize) -> bool {
        ||| minimum_rows == 0
        ||| pre.filtered_rows@.len() >= minimum_rows
        ||| pre.pagination.loading is Pending
        ||| pre.pagination.next_cursor is None
    }

    /// The token an active search would stamp on its next fetch.
    pub open spec fn state_search_token(s: PickerState) -> Option<usize> {
        match s.search_state {
            SearchState::Active { token } => Some(token),
            SearchState::Idle => None,
        }
    }

    /// Proactively fetches when the filtered view cannot yet fill the
    /// visible rows and more pages exist; an active search keeps its token.
    pub fn ensure_minimum_rows_for_view(&mut self, minimum_rows: usize)
        requires
            old(self).wf(),
        ensures
            final(self).wf(),
            Self::min_rows_satisfied(*old(self), minimum_rows) ==> *final(self) == *old(self),
            !Self::min_rows_satisfied(*old(self), minimum_rows) ==> Self::dispatch_rel(
                *old(self),
                Self::state_search_token(*old(self)),
                *final(self),
            ),
    {
        if minimum_rows == 0 {
            return ;
        }
        if self.filtered_rows.len() >= minimum_rows {
            return ;
        }
        if self.pagination.loading.is_pending() || self.pagination.next_cursor.is_none() {
            return ;
        }
        match self.search_state.active_token() {
            Some(token) => self.load_more_if_needed(LoadTrigger::Search { token }),
            None => self.load_more_if_needed(LoadTrigger::Scroll),
        }
    }

    /// The active search should wind down: a match is visible, or no further
    /// pages can productively be fetched.
    pub open spec fn search_should_stop(s: PickerState) -> bool {
        s.filtered_rows@.len() > 0 || s.pagination.reached_scan_cap
            || s.pagination.next_cursor is None
    }

    /// How re-evaluating an active search transforms the controller: it goes
    /// idle the moment a match is visible or the source is exhausted or
    /// capped; otherwise a further fetch is dispatched under the same search
    /// token (waiting first if one is already outstanding).
    pub open spec fn search_continue_rel(pre: PickerState, post: PickerState) -> bool {
        match pre.search_state {
            SearchState::Idle => post == pre,
            SearchState::Active { token } => {
                if Self::search_should_stop(pre) {
                    post == (PickerState { search_state: SearchState::Idle, ..pre })
                } else if pre.pagination.loading is Pending {
                    post == pre
                } else {
                    Self::dispatch_rel(pre, Some(token), post)
                }
            },
        }
    }

    fn continue_search_if_needed(&mut self)
        requires
            old(self).wf(),
        ensures
            final(self).wf(),
            Self::search_continue_rel(*old(self), *final(self)),
    {
        let token = match self.search_state.active_token() {
            Some(t) => t,
            None => {
                return ;
            },
        };
        if self.filtered_rows.len() > 0 {
            self.search_state = SearchState::Idle;
            return ;
        }
        if self.pagination.reached_scan_cap || self.pagination.next_cursor.is_none() {
            self.search_state = SearchState::Idle;
            return ;
        }
        self.load_more_if_needed(LoadTrigger::Search { token });
    }

    /// The completed request answers a search other than the one now active.
    pub open spec fn completed_search_is_stale(s: PickerState, completed: Option<usize>) -> bool {
        &&& s.search_state matches SearchState::Active { token }
        &&& completed matches Some(t) && t != token
    }

    fn continue_search_if_token_matches(&mut self, completed_token: Option<usize>)
        requires
            old(self).wf(),
        ensures
            final(self).wf(),
            Self::completed_search_is_stale(*old(self), completed_token) ==> *final(self) == *old(
                self,
            ),
            !Self::completed_search_is_stale(*old(self), completed_token)
                ==> Self::search_continue_rel(*old(self), *final(self)),
    {
        let active = match self.search_state.active_token() {
            Some(t) => t,
            None => {
                return ;
            },
        };
        match completed_token {
            Some(token) => {
                if token != active {
                    return ;
                }
            },
            None => {},
        }
        self.continue_search_if_needed();
    }

    /// How replacing the query transforms the controller (a no-op when the
    /// text is unchanged): the view is refiltered from the accumulated rows
    /// and the selection returns to the top; when the new query is
    /// non-empty, matches nothing yet, and further pages may productively
    /// be fetched, a search begins under a fresh token and its fetch is
    /// dispatched (waiting first if a fetch is already outstanding).
    pub open spec fn set_query_rel(pre: PickerState, nq: Seq<char>, post: PickerState) -> bool {
        if pre.query@ == nq {
            post == pre
        } else {
            let fm = filter_models(pre.models(), nq);
            &&& post.query@ == nq
            &&& post.all_rows == pre.all_rows
            &&& post.filtered_models() == fm
            &&& post.selected == 0
            &&& post.scroll_top == 0
            &&& post.frame_requested
            &&& post.view_rows == pre.view_rows
            &&& if nq.len() == 0 || fm.len() > 0 || pre.pagination.reached_scan_cap
                || pre.pagination.next_cursor is None {
                &&& post.search_state is Idle
                &&& post.pagination == pre.pagination
                &&& post.dispatched == pre.dispatched
                &&& post.next_request_token == pre.next_request_token
                &&& post.next_search_token == pre.next_search_token
            } else {
                &&& post.search_state == (SearchState::Active { token: pre.next_search_token })
                &&& post.next_search_token == wrap_inc(pre.next_search_token)
                &&& if pre.pagination.loading is Pending {
                    &&& post.pagination == pre.pagination
                    &&& post.dispatched == pre.dispatched
                    &&& post.next_request_token == pre.next_request_token
                } else {
                    &&& post.pagination == (PaginationState {
                        loading: LoadingState::Pending(
                            PendingLoad {
                                request_token: pre.next_request_token,
                                search_token: Some(pre.next_search_token),
                            },
                        ),
                        ..pre.pagination
                    })
                    &&& post.next_request_token == wrap_inc(pre.next_request_token)
                    &&& post.dispatched@ == pre.dispatched@.push(
                        (PageLoadRequest {
                            cursor: pre.pagination.next_cursor,
                            request_token: pre.next_request_token,
                            search_token: Some(pre.next_search_token),
                        }),
                    )
                }
            }
        }
    }

    /// Replaces the search query; every query mutation funnels through
    /// here.
    pub fn set_query(&mut self, new_query: String)
        requires
            old(self).wf(),
        ensures
            final(self).wf(),
            Self::set_query_rel(*old(self), new_query@, *final(self)),
            old(self).query@ != new_query@ ==> final(self).query == new_query,
    {
        if self.query.eq(&new_query) {
            return ;
        }
        self.query = new_query;
        self.selected = 0;
        self.apply_filter();
        if self.query.as_str().is_empty() {
            self.search_state = SearchState::Idle;
            return ;
        }
        if self.filtered_rows.len() > 0 {
            self.search_state = SearchState::Idle;
            return ;
        }
        if self.pagination.reached_scan_cap || self.pagination.next_cursor.is_none() {
            self.search_state = SearchState::Idle;
            return ;
        }
        let token = self.allocate_search_token();
        self.search_state = SearchState::Active { token };
        self.load_more_if_needed(LoadTrigger::Search { token });
    }

    /// The page-step used by the page navigation keys: the known viewport
    /// height, with a fallback of ten rows, and never less than one.
    pub open spec fn page_step(s: PickerState) -> int {
        let step = match s.view_rows {
            Some(n) => n as int,
            None => 10,
        };
        if step == 0 {
            1
        } else {
            step
        }
    }

    /// The selection index after a navigation key, clamped to the filtered
    /// view.
    pub open spec fn nav_sel(pre: PickerState, key: KeyPress) -> int {
        let len = pre.filtered_rows@.len() as int;
        match key {
            KeyPress::Up => if pre.selected > 0 {
                pre.selected - 1
            } else {
                pre.selected as int
            },
            KeyPress::Down => if pre.selected + 1 < len {
                pre.selected + 1
            } else {
                pre.selected as int
            },
            KeyPress::PageUp => if pre.selected > 0 {
                sat_sub(pre.selected as int, Self::page_step(pre))
            } else {
                pre.selected as int
            },
            KeyPress::PageDown => if len > 0 {
                let cand = sat_add_usize(pre.selected as int, Self::page_step(pre));
                if cand < len - 1 {
                    cand
                } else {
                    len - 1
                }
            } else {
                pre.selected as int
            },
            _ => pre.selected as int,
        }
    }

    /// Whether a navigation key actually moves the selection machinery (and
    /// so re-derives the scroll window).
    pub open spec fn nav_moved(pre: PickerState, key: KeyPress) -> bool {
        match key {
            KeyPress::Up => pre.selected > 0,
            KeyPress::Down => pre.selected + 1 < pre.filtered_rows@.len(),
            KeyPress::PageUp => pre.selected > 0,
            KeyPress::PageDown => pre.filtered_rows@.len() > 0,
            _ => false,
        }
    }

    /// Whether a navigation key leaves a redraw request behind.
    pub open spec fn nav_frame(pre: PickerState, key: KeyPress) -> bool {
        match key {
            KeyPress::Up => true,
            KeyPress::Down => true,
            KeyPress::PageUp => pre.selected > 0 || pre.frame_requested,
            KeyPress::PageDown => pre.filtered_rows@.len() > 0 || pre.frame_requested,
            _ => pre.frame_requested,
        }
    }

    /// How a navigation key transforms the controller: the selection moves
    /// (clamped), the scroll window is restored, and the downward keys then
    /// check whether a further page should be fetched.
    pub open spec fn nav_key_rel(pre: PickerState, key: KeyPress, post: PickerState) -> bool {
        let sel = Self::nav_sel(pre, key) as usize;
        let navd = (PickerState {
            selected: sel,
            scroll_top: (if Self::nav_moved(pre, key) {
                Self::scroll_target((PickerState { selected: sel, ..pre })) as usize
            } else {
                pre.scroll_top
            }),
            frame_requested: Self::nav_frame(pre, key),
            ..pre
        });
        match key {
            KeyPress::Down => Self::scroll_fetch_rel(navd, post),
            KeyPress::PageDown => if pre.filtered_rows@.len() > 0 {
                Self::scroll_fetch_rel(navd, post)
            } else {
                post == navd
            },
            _ => post == navd,
        }
    }

    /// Handles one key press. A confirmation, cancel, or quit key yields the
    /// picker's terminal outcome; navigation adjusts selection and scrolling
    /// and may trigger a fetch; typing edits the query.
    #[verifier::rlimit(100)]
    pub fn handle_key(&mut self, key: KeyPress) -> (r: Option<ResumeSelection>)
        requires
            old(self).wf(),
        ensures
            final(self).wf(),
            match key {
                KeyPress::Esc => *final(self) == *old(self) && r matches Some(
                    ResumeSelection::StartFresh,
                ),
                KeyPress::CtrlC => *final(self) == *old(self) && r matches Some(
                    ResumeSelection::Exit,
                ),
                KeyPress::Enter => *final(self) == *old(self) && (if old(
                    self,
                ).filtered_rows@.len() > 0 {
                    r matches Some(ResumeSelection::Resume(p)) && p@ == old(
                        self,
                    ).filtered_models()[old(self).selected as int].path
                } else {
                    r is None
                }),
                KeyPress::Up => r is None && Self::nav_key_rel(*old(self), key, *final(self)),
                KeyPress::Down => r is None && Self::nav_key_rel(*old(self), key, *final(self)),
                KeyPress::PageUp => r is None && Self::nav_key_rel(*old(self), key, *final(self)),
                KeyPress::PageDown => r is None && Self::nav_key_rel(*old(self), key, *final(self)),
                KeyPress::Backspace => r is None && Self::set_query_rel(
                    *old(self),
                    (if old(self).query@.len() > 0 {
                        old(self).query@.drop_last()
                    } else {
                        old(self).query@
                    }),
                    *final(self),
                ),
                KeyPress::Char(c) => r is None && Self::set_query_rel(
                    *old(self),
                    old(self).query@.push(c),
                    *final(self),
                ),
                KeyPress::Other => r is None && *final(self) == *old(self),
            },
    {
        match key {
            KeyPress::Esc => Some(ResumeSelection::StartFresh),
            KeyPress::CtrlC => Some(ResumeSelection::Exit),
            KeyPress::Enter => {
                if self.selected < self.filtered_rows.len() {
                    let path = self.filtered_rows[self.selected].path.clone();
                    Some(ResumeSelection::Resume(path))
                } else {
                    None
                }
            },
            KeyPress::Up => {
                if self.selected > 0 {
                    self.selected -= 1;
                    self.ensure_selected_visible();
                }
                self.frame_requested = true;
                None
            },
            KeyPress::Down => {
                let flen = self.filtered_rows.len();
                if self.selected + 1 < flen {
                    self.selected += 1;
                    self.ensure_selected_visible();
                }
                self.frame_requested = true;
                self.maybe_load_more_for_scroll();
                None
            },
            KeyPress::PageUp => {
                if self.selected > 0 {
                    let step0 = match self.view_rows {
                        Some(n) => n,
                        None => 10,
                    };
                    let step: usize = if step0 == 0 {
                        1
                    } else {
                        step0
                    };
                    self.selected = self.selected.saturating_sub(step);
                    self.ensure_selected_visible();
                    self.frame_requested = true;
                }
                None
            },
            KeyPress::PageDown => {
                if self.filtered_rows.len() > 0 {
                    let step0 = match self.view_rows {
                        Some(n) => n,
                        None => 10,
                    };
                    let step: usize = if step0 == 0 {
                        1
                    } else {
                        step0
                    };
                    let max_index = self.filtered_rows.len() - 1;
                    let cand = self.selected.saturating_add(step);
                    self.selected = if cand < max_index {
                        cand
                    } else {
                        max_index
                    };
                    self.ensure_selected_visible();
                    self.frame_requested = true;
                    self.maybe_load_more_for_scroll();
                }
                None
            },
            KeyPress::Backspace => {
                let mut new_query = self.query.clone();
                new_query.pop();
                self.set_query(new_query);
                None
            },
            KeyPress::Char(c) => {
                let mut new_query = self.query.clone();
                new_query.push(c);
                self.set_query(new_query);
                None
            },
            KeyPress::Other => None,
        }
    }

    /// The notice an empty filtered view calls for, as a function of the
    /// query, the search state, and pagination progress.
    pub open spec fn empty_notice(s: PickerState) -> EmptyStateNotice {
        if s.query@.len() > 0 {
            if s.search_state is Active || (s.pagination.loading is Pending
                && s.pagination.next_cursor is Some) {
                EmptyStateNotice::Searching
            } else if s.pagination.reached_scan_cap {
                EmptyStateNotice::ScanCapped {
                    num_scanned_files: s.pagination.num_scanned_files,
                }
            } else {
                EmptyStateNotice::NoResults
            }
        } else if s.all_rows@.len() == 0 && s.pagination.num_scanned_files == 0 {
            EmptyStateNotice::NoSessionsYet
        } else if s.pagination.loading is Pending {
            EmptyStateNotice::Loading
        } else {
            EmptyStateNotice::NoSessionsYet
        }
    }

    /// What to show in place of an empty filtered view: a search or fetch
    /// still in flight, a scan budget that was hit, a query without
    /// results, or simply no sessions yet.
    pub fn empty_state_notice(&self) -> (r: EmptyStateNotice)
        ensures
            r == Self::empty_notice(*self),
    {
        if !self.query.as_str().is_empty() {
            if self.search_state.is_active() || (self.pagination.loading.is_pending()
                && !self.pagination.next_cursor.is_none()) {
                EmptyStateNotice::Searching
            } else if self.pagination.reached_scan_cap {
                EmptyStateNotice::ScanCapped {
                    num_scanned_files: self.pagination.num_scanned_files,
                }
            } else {
                EmptyStateNotice::NoResults
            }
        } else if self.all_rows.len() == 0 && self.pagination.num_scanned_files == 0 {
            EmptyStateNotice::NoSessionsYet
        } else if self.pagination.loading.is_pending() {
            EmptyStateNotice::Loading
        } else {
            EmptyStateNotice::NoSessionsYet
        }
    }

    /// The first of two optional tokens, if any.
    pub open spec fn or_token(a: Option<usize>, b: Option<usize>) -> Option<usize> {
        match a {
            Some(t) => Some(t),
            None => b,
        }
    }

    /// How one background completion transforms the controller. A stale
    /// completion (no fetch outstanding, or a token other than the
    /// outstanding one) changes nothing. A matching failure only returns
    /// the controller to idle and surfaces the error. A matching success
    /// ingests the page and then re-evaluates an active search, unless the
    /// completion answers a search other than the one now active.
    pub open spec fn background_rel(
        pre: PickerState,
        event: BackgroundEvent,
        r: Result<(), LoadError>,
        post: PickerState,
    ) -> bool {
        match event {
            BackgroundEvent::PageLoaded { request_token, search_token, page } => {
                match pre.pagination.loading {
                    LoadingState::Idle => post == pre && r is Ok,
                    LoadingState::Pending(pend) => {
                        if pend.request_token != request_token {
                            post == pre && r is Ok
                        } else {
                            let idle = (PickerState {
                                pagination: (PaginationState {
                                    loading: LoadingState::Idle,
                                    ..pre.pagination
                                }),
                                ..pre
                            });
                            match page {
                                Result::Err(e) => post == idle && r == Result::<
                                    (),
                                    LoadError,
                                >::Err(e),
                                Result::Ok(p) => {
                                    &&& r is Ok
                                    &&& post.models() == ingest_models(
                                        pre.models(),
                                        models_of_items(p.items@),
                                    )
                                    &&& post.filtered_models() == filter_models(
                                        post.models(),
                                        pre.query@,
                                    )
                                    &&& exists|mid: PickerState|
                                        {
                                            &&& #[trigger] Self::ingest_rel(idle, p, mid)
                                            &&& mid.wf()
                                            &&& (if Self::completed_search_is_stale(
                                                mid,
                                                Self::or_token(pend.search_token, search_token),
                                            ) {
                                                post == mid
                                            } else {
                                                Self::search_continue_rel(mid, post)
                                            })
                                        }
                                },
                            }
                        }
                    },
                }
            },
        }
    }

    /// Ingests one background completion, honoring it only when it answers
    /// the single outstanding request.
    pub fn handle_background_event(&mut self, event: BackgroundEvent) -> (r: Result<
        (),
        LoadError,
    >)
        requires
            old(self).wf(),
        ensures
            final(self).wf(),
            Self::background_rel(*old(self), event, r, *final(self)),
    {
        match event {
            BackgroundEvent::PageLoaded { request_token, search_token, page } => {
                let pending = match self.pagination.loading {
                    LoadingState::Pending(pending) => pending,
                    LoadingState::Idle => {
                        return Ok(());
                    },
                };
                if pending.request_token != request_token {
                    return Ok(());
                }
                self.pagination.loading = LoadingState::Idle;
                let page = match page {
                    Ok(page) => page,
                    Err(e) => {
                        return Err(e);
                    },
                };
                let ghost idle_state = *self;
                self.ingest_page(page);
                let ghost mid_state = *self;
                let completed_token = match pending.search_token {
                    Some(t) => Some(t),
                    None => search_token,
                };
                self.continue_search_if_token_matches(completed_token);
                proof {
                    assert(Self::ingest_rel(idle_state, page, mid_state));
                }
                Ok(())
            },
        }
    }
}

fn contains_path_exec(rows: &Vec<Row>, p: &String) -> (r: bool)
    ensures
        r == models_contain_path(row_models(rows@), p@),
{
    let mut i: usize = 0;
    while i < rows.len()
        invariant
            i <= rows@.len(),
            forall|j: int| 0 <= j < i ==> row_models(rows@)[j].path != p@,
        decreases rows@.len() - i,
    {
        if rows[i].path.eq(p) {
            proof {
                assert(row_models(rows@)[i as int].path == p@);
            }
            return true;
        }
        i += 1;
    }
    false
}

/// Deduplicated accumulation keeps identities unique.
pub proof fn lemma_ingest_distinct(rows: Seq<RowModel>, new: Seq<RowModel>)
    requires
        paths_distinct(rows),
    ensures
        paths_distinct(ingest_models(rows, new)),
    decreases new.len(),
{
    if new.len() > 0 {
        lemma_ingest_distinct(rows, new.drop_last());
        let pre = ingest_models(rows, new.drop_last());
        if !models_contain_path(pre, new.last().path) {
            let post = pre.push(new.last());
            assert forall|i: int, j: int| 0 <= i < j < post.len() implies post[i].path
                != post[j].path by {
                if j == post.len() - 1 {
                    assert(!(exists|k: int| 0 <= k < pre.len() && pre[k].path == new.last().path));
                    assert(post[i] == pre[i]);
                }
            }
        }
    }
}

} // verus!
