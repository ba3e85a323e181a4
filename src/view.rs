//! The log view: the bounded buffer, the active filter and the watch cursor,
//! kept consistent with one another through every change.

use std::collections::VecDeque;
use vstd::prelude::*;
use vstd::string::StringExecFns;

use crate::buffer::{bounded, push_all_bounded, MAX_LINES};
use crate::filter::{filtered_indices, index_view, matching_indices};
use crate::text::{lines_of, split_lines, texts};
use crate::watch::{reconcile_spec, Reconciliation, WatchCursor};

verus! {

/// How a renderer of the visible lines must react to a change.
#[derive(Clone, Copy, Debug, PartialEq, Eq, Structural)]
pub enum ListUpdate {
    /// The number of visible lines changed to the given count: rebuild.
    Reset(usize),
    /// The number of visible lines is unchanged: measure them again.
    Remeasure,
}

/// A notification for the user.
#[derive(Debug)]
pub enum OpenLogEvent {
    /// A dismissible message about a failed read.
    ShowToast(String),
}

/// Which placeholder a renderer shows when no line is visible.
#[derive(Clone, Copy, Debug, PartialEq, Eq, Structural)]
pub enum EmptyState {
    /// The buffer holds no line at all.
    NoEntries,
    /// Lines are buffered, but none matches the query.
    NoMatches,
}

/// The renderer's reaction when the visible count goes from `previous` to
/// `current`.
pub open spec fn list_update(previous: nat, current: nat) -> ListUpdate {
    if current != previous {
        ListUpdate::Reset(current as usize)
    } else {
        ListUpdate::Remeasure
    }
}

/// The renderer's reaction when the query over `lines` changes from
/// `previous` to `query`.
pub open spec fn query_update(
    lines: Seq<Seq<char>>,
    previous: Seq<char>,
    query: Seq<char>,
) -> ListUpdate {
    list_update(
        matching_indices(lines, previous).len(),
        matching_indices(lines, query).len(),
    )
}

/// The lines of a log that could be read, none of one that could not.
pub open spec fn read_lines(log: Option<Seq<char>>) -> Seq<Seq<char>> {
    match log {
        Some(text) => lines_of(text),
        None => Seq::empty(),
    }
}

/// The buffer at startup: the previous run's lines, then the current run's.
pub open spec fn initial_lines(
    previous_run: Option<Seq<char>>,
    current_run: Option<Seq<char>>,
) -> Seq<Seq<char>> {
    bounded(read_lines(previous_run) + read_lines(current_run))
}

/// The buffer after a read of `new_lines` from the live log, when the
/// previous read had `cursor` lines.
pub open spec fn reload_lines(
    lines: Seq<Seq<char>>,
    cursor: nat,
    new_lines: Seq<Seq<char>>,
) -> Seq<Seq<char>> {
    match reconcile_spec(cursor, new_lines.len()) {
        Reconciliation::Replace => bounded(new_lines),
        Reconciliation::Append { .. } => bounded(
            lines + new_lines.subrange(cursor as int, new_lines.len() as int),
        ),
        Reconciliation::Unchanged => lines,
    }
}

/// The message shown when a read fails with `error`.
pub open spec fn read_error_message(error: Seq<char>) -> Seq<char> {
    "Failed to read log: "@ + error
}

/// The notification for a failed read.
pub fn read_error_toast(error: &str) -> (r: OpenLogEvent)
    ensures
        r->ShowToast_0@ == read_error_message(error@),
{
    let mut message = String::from_str("Failed to read log: ");
    message.append(error);
    OpenLogEvent::ShowToast(message)
}

/// Startup ordering law: the previous run's lines come before the current
/// run's. When both fit they are kept whole; otherwise the newest
/// `MAX_LINES` are kept, and the last of them are the current run's last
/// lines, preceded by the previous run's last lines.
pub proof fn lemma_initial_order(previous_run: Seq<char>, current_run: Seq<char>)
    ensures
        ({
            let p = lines_of(previous_run);
            let c = lines_of(current_run);
            let r = initial_lines(Some(previous_run), Some(current_run));
            let k = if c.len() < MAX_LINES { c.len() } else { MAX_LINES as nat };
            &&& p.len() + c.len() <= MAX_LINES ==> r == p + c
            &&& r.len() <= MAX_LINES
            &&& r.subrange(r.len() - k, r.len() as int) == c.subrange(
                c.len() - k,
                c.len() as int,
            )
            &&& r.subrange(0, r.len() - k) == p.subrange(
                p.len() - (r.len() - k),
                p.len() as int,
            )
        }),
{
    let p = lines_of(previous_run);
    let c = lines_of(current_run);
    let r = initial_lines(Some(previous_run), Some(current_run));
    let k = if c.len() < MAX_LINES { c.len() } else { MAX_LINES as nat };
    let all = p + c;
    assert(r.subrange(r.len() - k, r.len() as int) =~= c.subrange(c.len() - k, c.len() as int));
    assert(r.subrange(0, r.len() - k) =~= p.subrange(p.len() - (r.len() - k), p.len() as int));
}

/// Idempotence law: setting the query it already has makes no structural
/// change to the visible list.
pub proof fn lemma_same_query_no_reset(lines: Seq<Seq<char>>, query: Seq<char>)
    ensures
        query_update(lines, query, query) == ListUpdate::Remeasure,
{
}

/// Clearing law: after the buffer is cleared nothing is visible, and a
/// read that finds the live log grown past the cursor still appends just
/// the lines beyond it.
pub proof fn lemma_clear_then_grow(cursor: nat, new_lines: Seq<Seq<char>>, query: Seq<char>)
    requires
        new_lines.len() > cursor,
    ensures
        matching_indices(Seq::empty(), query) == Seq::<int>::empty(),
        reload_lines(Seq::empty(), cursor, new_lines) == bounded(
            new_lines.subrange(cursor as int, new_lines.len() as int),
        ),
{
    assert(Seq::<Seq<char>>::empty() + new_lines.subrange(cursor as int, new_lines.len() as int)
        =~= new_lines.subrange(cursor as int, new_lines.len() as int));
}

/// A live view over a log: the newest lines, the active search query, the
/// indices of the lines it matches, and the line count of the last read.
pub struct OpenLogView {
    lines: VecDeque<String>,
    search_query: String,
    filtered_indices: Vec<usize>,
    cursor: WatchCursor,
}

impl OpenLogView {
    /// The buffered lines, oldest first.
    pub closed spec fn lines_view(&self) -> Seq<Seq<char>> {
        texts(self.lines@)
    }

    /// The active search query.
    pub closed spec fn query_view(&self) -> Seq<char> {
        self.search_query@
    }

    /// The indices of the visible lines.
    pub closed spec fn visible_view(&self) -> Seq<int> {
        index_view(self.filtered_indices@)
    }

    /// The line count of the live log at its last successful read.
    pub closed spec fn cursor_view(&self) -> nat {
        self.cursor@
    }

    /// The buffer is within capacity and the visible indices are exactly
    /// those of the lines that match the query.
    pub open spec fn wf(&self) -> bool {
        &&& self.lines_view().len() <= MAX_LINES
        &&& self.visible_view() == matching_indices(self.lines_view(), self.query_view())
    }

    /// An empty view with no query, which has seen no line of the live log.
    pub fn new() -> (r: Self)
        ensures
            r.wf(),
            r.lines_view() == Seq::<Seq<char>>::empty(),
            r.query_view() == Seq::<char>::empty(),
            r.cursor_view() == 0,
    {
        let r = OpenLogView {
            lines: VecDeque::with_capacity(MAX_LINES),
            search_query: String::new(),
            filtered_indices: Vec::new(),
            cursor: WatchCursor::new(0),
        };
        assert(r.lines_view() =~= Seq::<Seq<char>>::empty());
        assert(r.visible_view() =~= Seq::<int>::empty());
        r
    }

    fn recompute_filtered_indices(&mut self) -> (r: ListUpdate)
        ensures
            final(self).lines == old(self).lines,
            final(self).search_query == old(self).search_query,
            final(self).cursor == old(self).cursor,
            final(self).visible_view() == matching_indices(
                final(self).lines_view(),
                final(self).query_view(),
            ),
            r == list_update(
                old(self).filtered_indices@.len(),
                final(self).visible_view().len(),
            ),
    {
        let previous_count = self.filtered_indices.len();
        self.filtered_indices = filtered_indices(&self.lines, self.search_query.as_str());
        let new_count = self.filtered_indices.len();
        if new_count != previous_count {
            ListUpdate::Reset(new_count)
        } else {
            ListUpdate::Remeasure
        }
    }

    /// Replaces the buffer with the newest `MAX_LINES` of `new_lines`.
    pub fn set_lines(&mut self, new_lines: &Vec<String>) -> (r: ListUpdate)
        requires
            old(self).wf(),
        ensures
            final(self).wf(),
            final(self).lines_view() == bounded(texts(new_lines@)),
            final(self).query_view() == old(self).query_view(),
            final(self).cursor_view() == old(self).cursor_view(),
            r == list_update(
                old(self).visible_view().len(),
                final(self).visible_view().len(),
            ),
    {
        self.lines.clear();
        push_all_bounded(&mut self.lines, new_lines, 0);
        assert(texts(Seq::<String>::empty()) + texts(new_lines@).subrange(
            0,
            new_lines@.len() as int,
        ) =~= texts(new_lines@));
        self.recompute_filtered_indices()
    }

    /// Appends `new_lines[skip..]`, evicting the oldest lines as needed.
    pub fn append_lines(&mut self, new_lines: &Vec<String>, skip: usize) -> (r: ListUpdate)
        requires
            old(self).wf(),
            skip <= new_lines@.len(),
        ensures
            final(self).wf(),
            final(self).lines_view() == bounded(
                old(self).lines_view() + texts(new_lines@).subrange(
                    skip as int,
                    new_lines@.len() as int,
                ),
            ),
            final(self).query_view() == old(self).query_view(),
            final(self).cursor_view() == old(self).cursor_view(),
            r == list_update(
                old(self).visible_view().len(),
                final(self).visible_view().len(),
            ),
    {
        push_all_bounded(&mut self.lines, new_lines, skip);
        self.recompute_filtered_indices()
    }

    /// Makes `query` the active query and recomputes what is visible.
    pub fn set_search_query(&mut self, query: String) -> (r: ListUpdate)
        requires
            old(self).wf(),
        ensures
            final(self).wf(),
            final(self).lines_view() == old(self).lines_view(),
            final(self).query_view() == query@,
            final(self).cursor_view() == old(self).cursor_view(),
            r == query_update(old(self).lines_view(), old(self).query_view(), query@),
    {
        self.search_query = query;
        self.recompute_filtered_indices()
    }

    /// Fills the view at startup from the two logs: the previous run's,
    /// which may be missing, and the current run's (`Err` holds the reason
    /// it could not be read). When neither could be read the view is left
    /// as it is and the user is told why the current log failed.
    pub fn bootstrap(&mut self, previous_run: Option<String>, current_run: Result<String, String>) -> (r:
        Result<ListUpdate, OpenLogEvent>)
        requires
            old(self).wf(),
        ensures
            final(self).wf(),
            final(self).query_view() == old(self).query_view(),
            match (previous_run, current_run) {
                (None, Err(e)) => {
                    &&& r matches Err(OpenLogEvent::ShowToast(m))
                    &&& m@ == read_error_message(e@)
                    &&& final(self).lines_view() == old(self).lines_view()
                    &&& final(self).cursor_view() == old(self).cursor_view()
                },
                _ => {
                    let p = match previous_run {
                        Some(t) => Some(t@),
                        None => None,
                    };
                    let c = match current_run {
                        Ok(t) => Some(t@),
                        Err(_) => None,
                    };
                    &&& final(self).lines_view() == initial_lines(p, c)
                    &&& final(self).cursor_view() == read_lines(c).len()
                    &&& r == Ok::<ListUpdate, OpenLogEvent>(
                        list_update(
                            old(self).visible_view().len(),
                            final(self).visible_view().len(),
                        ),
                    )
                },
            },
    {
        let current_lines: Vec<String> = match &current_run {
            Ok(content) => split_lines(content.as_str()),
            Err(err) => {
                if previous_run.is_none() {
                    return Err(read_error_toast(err.as_str()));
                }
                Vec::new()
            },
        };
        let mut combined: Vec<String> = match &previous_run {
            Some(content) => split_lines(content.as_str()),
            None => Vec::new(),
        };
        let ghost previous_part = texts(combined@);
        let ghost current_part = texts(current_lines@);
        let mut i: usize = 0;
        while i < current_lines.len()
            invariant
                i <= current_lines@.len(),
                current_part == texts(current_lines@),
                texts(combined@) == previous_part + current_part.subrange(0, i as int),
            decreases current_lines@.len() - i,
        {
            let ghost before = combined@;
            combined.push(current_lines[i].clone());
            assert(texts(combined@) =~= texts(before).push(current_part[i as int]));
            assert(texts(combined@) =~= previous_part + current_part.subrange(0, i + 1));
            i = i + 1;
        }
        proof {
            assert(current_part.subrange(0, current_part.len() as int) =~= current_part);
            assert(previous_part == read_lines(
                match previous_run {
                    Some(t) => Some(t@),
                    None => None,
                },
            ));
        }
        self.cursor = WatchCursor::new(current_lines.len());
        let update = self.set_lines(&combined);
        Ok(update)
    }

    /// Takes in a fresh read of the live log (`Err` holds the reason it
    /// failed). A failed read changes nothing and yields a notification. A
    /// successful one replaces the buffer when the log shrank, appends the
    /// lines beyond the last read when it grew, leaves the buffer when the
    /// count is the same, and records the new count in each case.
    pub fn reload(&mut self, current_run: Result<String, String>) -> (r: Result<
        Option<ListUpdate>,
        OpenLogEvent,
    >)
        requires
            old(self).wf(),
        ensures
            final(self).wf(),
            final(self).query_view() == old(self).query_view(),
            match current_run {
                Err(e) => {
                    &&& r matches Err(OpenLogEvent::ShowToast(m))
                    &&& m@ == read_error_message(e@)
                    &&& final(self).lines_view() == old(self).lines_view()
                    &&& final(self).cursor_view() == old(self).cursor_view()
                },
                Ok(t) => {
                    let n = lines_of(t@);
                    &&& final(self).lines_view() == reload_lines(
                        old(self).lines_view(),
                        old(self).cursor_view(),
                        n,
                    )
                    &&& final(self).cursor_view() == n.len()
                    &&& r == Ok::<Option<ListUpdate>, OpenLogEvent>(
                        if n.len() == old(self).cursor_view() {
                            None
                        } else {
                            Some(
                                list_update(
                                    old(self).visible_view().len(),
                                    final(self).visible_view().len(),
                                ),
                            )
                        },
                    )
                },
            },
    {
        let content = match &current_run {
            Ok(content) => content,
            Err(err) => {
                return Err(read_error_toast(err.as_str()));
            },
        };
        let new_lines = split_lines(content.as_str());
        match self.cursor.reconcile(new_lines.len()) {
            Reconciliation::Replace => Ok(Some(self.set_lines(&new_lines))),
            Reconciliation::Append { skip } => Ok(Some(self.append_lines(&new_lines, skip))),
            Reconciliation::Unchanged => Ok(None),
        }
    }

    /// Empties the buffer and the visible list; the watch cursor is kept.
    pub fn clear_lines(&mut self) -> (r: ListUpdate)
        requires
            old(self).wf(),
        ensures
            final(self).wf(),
            final(self).lines_view() == Seq::<Seq<char>>::empty(),
            final(self).visible_view() == Seq::<int>::empty(),
            final(self).query_view() == old(self).query_view(),
            final(self).cursor_view() == old(self).cursor_view(),
            r == ListUpdate::Reset(0),
    {
        self.lines.clear();
        self.filtered_indices.clear();
        assert(self.lines_view() =~= Seq::<Seq<char>>::empty());
        assert(self.visible_view() =~= Seq::<int>::empty());
        ListUpdate::Reset(0)
    }
    /// The line shown at position `filtered_index` of the visible list.
    pub fn visible_line(&self, filtered_index: usize) -> (r: Option<&String>)
        requires
            self.wf(),
        ensures
            match r {
                Some(line) => {
                    &&& filtered_index < self.visible_view().len()
                    &&& line@ == self.lines_view()[self.visible_view()[filtered_index as int]]
                },
                None => filtered_index >= self.visible_view().len(),
            },
    {
        if filtered_index >= self.filtered_indices.len() {
            return None;
        }
        let line_index = self.filtered_indices[filtered_index];
        proof {
            crate::filter::lemma_matching_indices(self.lines_view(), self.query_view());
            assert(self.visible_view()[filtered_index as int] == line_index as int);
        }
        Some(&self.lines[line_index])
    }

    /// The buffered line at `index`, oldest first.
    pub fn line(&self, index: usize) -> (r: Option<&String>)
        ensures
            match r {
                Some(line) => index < self.lines_view().len() && line@ == self.lines_view()[index as int],
                None => index >= self.lines_view().len(),
            },
    {
        if index < self.lines.len() {
            Some(&self.lines[index])
        } else {
            None
        }
    }

    /// The number of buffered lines.
    pub fn line_count(&self) -> (r: usize)
        ensures
            r == self.lines_view().len(),
    {
        self.lines.len()
    }

    /// The number of visible lines.
    pub fn matched_count(&self) -> (r: usize)
        ensures
            r == self.visible_view().len(),
    {
        self.filtered_indices.len()
    }

    /// Whether any line is buffered.
    pub fn has_lines(&self) -> (r: bool)
        ensures
            r == (self.lines_view().len() > 0),
    {
        self.lines.len() > 0
    }

    /// The placeholder to show instead of the list, when nothing is visible.
    pub fn empty_state(&self) -> (r: Option<EmptyState>)
        ensures
            r == (if self.visible_view().len() > 0 {
                None
            } else if self.lines_view().len() == 0 {
                Some(EmptyState::NoEntries)
            } else {
                Some(EmptyState::NoMatches)
            }),
    {
        if self.filtered_indices.len() > 0 {
            None
        } else if self.lines.len() == 0 {
            Some(EmptyState::NoEntries)
        } else {
            Some(EmptyState::NoMatches)
        }
    }

    /// The active search query.
    pub fn search_query(&self) -> (r: &str)
        ensures
            r@ == self.query_view(),
    {
        self.search_query.as_str()
    }

    /// The line count of the live log at its last successful read.
    pub fn last_known_line_count(&self) -> (r: usize)
        ensures
            r == self.cursor_view(),
    {
        self.cursor.last_known_line_count()
    }
}

} // verus!
