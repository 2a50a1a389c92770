//! The table of contents as a list to move through and to search.

use vstd::prelude::*;
use vstd::string::StringSliceAdditionalSpecFns;
use crate::labels::{line_length, toc_line_length};
use crate::model::OutlineItem;
use crate::search::{find_from, first_occurrence};
use crate::unicode::{clipped, lowercased, str_to_lowercase};

verus! {

/// How many entries at the front of `entries` lie on or before `page`,
/// counted from entry `from` on.
pub open spec fn leading_run(entries: Seq<OutlineItem>, page: usize, from: int) -> int
    decreases entries.len() - from,
{
    if from < 0 || from >= entries.len() || entries[from].page_index > page {
        0
    } else {
        1 + leading_run(entries, page, from + 1)
    }
}

/// The entry that stands for `page`: the last of the entries at the
/// front that lie on or before it, the first entry where even that one
/// lies behind it, and none in an empty list.
pub open spec fn entry_of_page(entries: Seq<OutlineItem>, page: usize) -> Option<usize> {
    if entries.len() == 0 {
        None
    } else if leading_run(entries, page, 0) == 0 {
        Some(0)
    } else {
        Some((leading_run(entries, page, 0) - 1) as usize)
    }
}

/// Whether `query` occurs in `title`, letter case aside.
pub open spec fn title_matches(title: Seq<char>, query: Seq<char>) -> bool {
    first_occurrence(
        vstd::utf8::encode_utf8(lowercased(title)),
        vstd::utf8::encode_utf8(lowercased(query)),
        0,
    ) >= 0
}

/// Those of the first `n` entries whose title matches `query`, in order.
pub open spec fn matching_entries(entries: Seq<OutlineItem>, query: Seq<char>, n: int) -> Seq<usize>
    decreases n,
{
    if n <= 0 {
        Seq::empty()
    } else {
        let rest = matching_entries(entries, query, n - 1);
        if title_matches(entries[n - 1].title@, query) {
            rest.push((n - 1) as usize)
        } else {
            rest
        }
    }
}

/// `index`, or the last entry where `index` lies beyond it.
pub open spec fn within_list(len: nat, index: int) -> usize {
    if len == 0 || index < 0 {
        0
    } else if index > len - 1 {
        (len - 1) as usize
    } else {
        index as usize
    }
}

/// The position in `matches` of the first entry that satisfies the
/// bound, or the fallback where there is none: going forward the first
/// match behind `selected`, else position 0; going backward the last
/// match before `selected`, else the last position.
pub open spec fn start_position(matches: Seq<usize>, selected: usize, forward: bool) -> int {
    if forward {
        first_behind(matches, selected, 0)
    } else {
        last_before(matches, selected, matches.len() as int)
    }
}

/// The first position at or behind `from` whose match lies behind
/// `selected`; position 0 where there is none.
pub open spec fn first_behind(matches: Seq<usize>, selected: usize, from: int) -> int
    decreases matches.len() - from,
{
    if from < 0 || from >= matches.len() {
        0
    } else if matches[from] > selected {
        from
    } else {
        first_behind(matches, selected, from + 1)
    }
}

/// The last position before `upto` whose match lies before `selected`;
/// the last position of all where there is none.
pub open spec fn last_before(matches: Seq<usize>, selected: usize, upto: int) -> int
    decreases upto,
{
    if upto <= 0 || upto > matches.len() {
        matches.len() - 1
    } else if matches[upto - 1] < selected {
        upto - 1
    } else {
        last_before(matches, selected, upto - 1)
    }
}

/// The match that a step through the matches selects: the start
/// position, moved on by one less than `count`, going round at the ends.
pub open spec fn search_target(matches: Seq<usize>, selected: usize, count: usize, forward: bool) -> usize {
    let len = matches.len() as int;
    let start = start_position(matches, selected, forward);
    let offset = (count - 1) % len;
    let index = if forward {
        (start + offset) % len
    } else {
        (start + len - offset) % len
    };
    matches[index]
}

/// The first match at or behind `selected`, or the first match of all.
pub open spec fn first_at_or_behind(matches: Seq<usize>, selected: usize, from: int) -> usize
    decreases matches.len() - from,
{
    if from < 0 || from >= matches.len() {
        matches[0]
    } else if matches[from] >= selected {
        matches[from]
    } else {
        first_at_or_behind(matches, selected, from + 1)
    }
}

/// The first match at or behind `selected`, or the first match of all.
fn nearest_match(matches: &Vec<usize>, selected: usize) -> (r: usize)
    requires
        matches@.len() > 0,
    ensures
        r == first_at_or_behind(matches@, selected, 0),
{
    let mut k: usize = 0;
    while k < matches.len()
        invariant
            k <= matches.len(),
            first_at_or_behind(matches@, selected, 0) == first_at_or_behind(
                matches@,
                selected,
                k as int,
            ),
        decreases matches.len() - k,
    {
        if matches[k] >= selected {
            return matches[k];
        }
        k += 1;
    }
    matches[0]
}

/// The position of the first match behind `selected`, else position 0.
fn first_behind_position(matches: &Vec<usize>, selected: usize) -> (r: usize)
    requires
        matches@.len() > 0,
    ensures
        r == first_behind(matches@, selected, 0),
        r < matches@.len(),
{
    let mut at: usize = 0;
    while at < matches.len()
        invariant
            at <= matches.len(),
            first_behind(matches@, selected, 0) == first_behind(matches@, selected, at as int),
        decreases matches.len() - at,
    {
        if matches[at] > selected {
            return at;
        }
        at += 1;
    }
    0
}

/// The position of the last match before `selected`, else the last
/// position.
fn last_before_position(matches: &Vec<usize>, selected: usize) -> (r: usize)
    requires
        matches@.len() > 0,
    ensures
        r == last_before(matches@, selected, matches@.len() as int),
        r < matches@.len(),
{
    let len: usize = matches.len();
    let mut upto: usize = len;
    while upto > 0
        invariant
            upto <= len,
            len == matches@.len(),
            last_before(matches@, selected, len as int) == last_before(
                matches@,
                selected,
                upto as int,
            ),
        decreases upto,
    {
        if matches[upto - 1] < selected {
            return upto - 1;
        }
        upto -= 1;
    }
    len - 1
}

/// The heading of the window that shows the table of contents.
pub const TOC_TITLE: &'static str = "Table of Contents";

/// What the window says of a document without a table of contents.
pub const TOC_EMPTY_MESSAGE: &'static str = "No table of contents available";

/// The width of the heading.
pub const TOC_TITLE_WIDTH: usize = 17;

/// The width that the line for a document without a table of contents
/// takes, with its two blanks in front.
pub const TOC_EMPTY_WIDTH: usize = 32;

/// Where the window that shows the table of contents stands in the
/// terminal and how much it shows. Widths are counted in columns,
/// heights in rows; the window's border is one column wide.
#[derive(Debug, Clone, Copy, PartialEq, Eq, Structural)]
pub struct TocLayout {
    /// The width of the window inside its border.
    pub inner_width: usize,
    /// The rows taken by borders, heading, divider and prompt.
    pub header_rows: u32,
    /// The rows that show entries.
    pub content_height: usize,
    /// The largest scroll offset at which the rows are still filled.
    pub max_scroll: usize,
    /// The width of the window with its border.
    pub window_width: u32,
    /// The height of the window with its border.
    pub window_height: u32,
    /// The column of the window's left border.
    pub start_col: u32,
    /// The row of the window's upper border.
    pub start_row: u32,
}

/// The layout of the window in a terminal that leaves it `total_cols`
/// columns and `rows` rows, for `entries` entries of which the widest
/// line takes `widest` columns, with a row for the search prompt where
/// there is one. There is no window in fewer than 20 columns or 8 rows.
/// Else the window is as wide as its widest line or its heading, but at
/// least 20 columns inside and at most what leaves three columns free on
/// either side; it shows as many entries as there are, one line for an
/// empty table, but no more than fit between the header rows and one
/// free row above and below; and it stands in the middle.
pub open spec fn layout_of(
    total_cols: u32,
    rows: u32,
    widest: usize,
    entries: usize,
    has_prompt: bool,
) -> Option<TocLayout> {
    if total_cols < 20 || rows < 8 {
        None
    } else {
        let room = total_cols - 6;
        let wanted: int = if entries == 0 {
            TOC_EMPTY_WIDTH as int
        } else if widest < TOC_TITLE_WIDTH {
            TOC_TITLE_WIDTH as int
        } else {
            widest as int
        };
        let least: int = if room < 20 {
            room
        } else {
            20
        };
        let inner: int = if wanted > room {
            room
        } else if wanted < least {
            least
        } else {
            wanted
        };
        let header: int = if has_prompt {
            5
        } else {
            4
        };
        let lines: int = if entries == 0 {
            1
        } else {
            entries as int
        };
        let space = rows - 2 - header;
        let content: int = if lines < space {
            lines
        } else {
            space
        };
        Some(
            TocLayout {
                inner_width: inner as usize,
                header_rows: header as u32,
                content_height: content as usize,
                max_scroll: (lines - content) as usize,
                window_width: (inner + 2) as u32,
                window_height: (content + header) as u32,
                start_col: ((total_cols - (inner + 2)) / 2) as u32,
                start_row: ((rows - (content + header)) / 2) as u32,
            },
        )
    }
}

/// Lays out the window that shows the table of contents, or finds that
/// the terminal is too small for it.
pub fn toc_layout(total_cols: u32, rows: u32, widest: usize, entries: usize, has_prompt: bool) -> (r:
    Option<TocLayout>)
    ensures
        r == layout_of(total_cols, rows, widest, entries, has_prompt),
        r matches Some(layout) ==> {
            &&& 1 <= layout.content_height <= rows
            &&& layout.window_height <= rows - 2
            &&& layout.window_width <= total_cols - 4
            &&& 14 <= layout.inner_width
            &&& layout.max_scroll + layout.content_height == if entries == 0 {
                1
            } else {
                entries as int
            }
        },
{
    if total_cols < 20 || rows < 6 {
        return None;
    }
    let max_inner_width: usize = (total_cols - 6) as usize;
    let base_width: usize = if entries == 0 {
        TOC_EMPTY_WIDTH
    } else if widest < TOC_TITLE_WIDTH {
        TOC_TITLE_WIDTH
    } else {
        widest
    };
    let mut inner_width: usize = if base_width < max_inner_width {
        base_width
    } else {
        max_inner_width
    };
    let min_inner_width: usize = if max_inner_width < 20 {
        max_inner_width
    } else {
        20
    };
    if inner_width < min_inner_width {
        inner_width = min_inner_width;
    }
    let max_window_height: u32 = rows - 2;
    if max_window_height < 6 {
        return None;
    }
    let header_rows: u32 = if has_prompt {
        5
    } else {
        4
    };
    let max_content_height: usize = (max_window_height - header_rows) as usize;
    let total_entries: usize = if entries == 0 {
        1
    } else {
        entries
    };
    let content_height: usize = if total_entries < max_content_height {
        total_entries
    } else {
        max_content_height
    };
    let max_scroll: usize = total_entries - content_height;
    let window_height: u32 = content_height as u32 + header_rows;
    let window_width: u32 = (inner_width + 2) as u32;
    Some(
        TocLayout {
            inner_width,
            header_rows,
            content_height,
            max_scroll,
            window_width,
            window_height,
            start_col: (total_cols - window_width) / 2,
            start_row: (rows - window_height) / 2,
        },
    )
}

/// The width of the widest line among the first `n` entries; 0 where
/// there is none.
pub open spec fn widest_line(entries: Seq<OutlineItem>, n: int) -> usize
    decreases n,
{
    if n <= 0 {
        0
    } else {
        let before = widest_line(entries, n - 1);
        let here = clipped(line_length(entries[n - 1]) as nat);
        if here > before {
            here
        } else {
            before
        }
    }
}

/// The table of contents of a document, with a selection and a search.
#[derive(Debug)]
pub struct TocWindow {
    pub entries: Vec<OutlineItem>,
    /// The entry the reader has picked.
    pub selected: usize,
    /// The entry that stands for the page in view.
    pub current: Option<usize>,
    /// The first entry shown.
    pub scroll_offset: usize,
    /// The query whose matches are marked.
    pub search_query: Option<String>,
    /// The entries that match the query, in order.
    pub search_matches: Vec<usize>,
    /// The query as it is being typed.
    pub search_input: Option<String>,
}

impl TocWindow {
    /// The entry that stands for `current_page`.
    pub fn entry_for_page(entries: &Vec<OutlineItem>, current_page: usize) -> (r: Option<usize>)
        ensures
            r == entry_of_page(entries@, current_page),
            r matches Some(index) ==> index < entries@.len(),
    {
        if entries.len() == 0 {
            return None;
        }
        let mut selected: usize = 0;
        let mut idx: usize = 0;
        while idx < entries.len()
            invariant
                idx <= entries.len(),
                entries.len() > 0,
                selected == if idx == 0 {
                    0
                } else {
                    idx - 1
                },
                leading_run(entries@, current_page, 0) == idx + leading_run(
                    entries@,
                    current_page,
                    idx as int,
                ),
            decreases entries.len() - idx,
        {
            if entries[idx].page_index > current_page {
                return Some(selected);
            }
            selected = idx;
            idx += 1;
        }
        Some(selected)
    }

    /// The table of contents as it opens: the entry of the page in view
    /// is picked.
    pub fn from_outline(entries: Vec<OutlineItem>, current_page: usize) -> (r: Self)
        ensures
            r.entries == entries,
            r.current == entry_of_page(entries@, current_page),
            r.selected == match entry_of_page(entries@, current_page) {
                Some(index) => index,
                None => 0,
            },
            r.scroll_offset == 0,
            r.search_query is None,
            r.search_matches@.len() == 0,
            r.search_input is None,
    {
        let current = Self::entry_for_page(&entries, current_page);
        let selected: usize = match current {
            Some(index) => index,
            None => 0,
        };
        TocWindow {
            entries,
            selected,
            current,
            scroll_offset: 0,
            search_query: None,
            search_matches: Vec::new(),
            search_input: None,
        }
    }

    /// Whether the table has no entry.
    pub fn is_empty(&self) -> (r: bool)
        ensures
            r == (self.entries@.len() == 0),
    {
        self.entries.len() == 0
    }

    /// The entry that is picked.
    pub fn selected_entry(&self) -> (r: Option<&OutlineItem>)
        ensures
            match r {
                Some(entry) => self.selected < self.entries@.len() && *entry
                    == self.entries@[self.selected as int],
                None => self.selected >= self.entries@.len(),
            },
    {
        if self.selected < self.entries.len() {
            Some(&self.entries[self.selected])
        } else {
            None
        }
    }

    /// The entry of the page in view, where the list still has it.
    pub fn current_index(&self) -> (r: Option<usize>)
        ensures
            r == match self.current {
                Some(index) => if index < self.entries@.len() {
                    Some(index)
                } else {
                    None
                },
                None => None,
            },
    {
        match self.current {
            Some(index) => if index < self.entries.len() {
                Some(index)
            } else {
                None
            },
            None => None,
        }
    }

    /// Whether `post` differs from `pre` in the picked entry alone.
    pub open spec fn picked(pre: &Self, index: int, post: &Self) -> bool {
        *post == (TocWindow {
            selected: if pre.entries@.len() == 0 {
                pre.selected
            } else {
                within_list(pre.entries@.len(), index)
            },
            ..*pre
        })
    }

    /// Picks entry `index`, or the last entry where `index` lies beyond
    /// it. Returns whether another entry is picked now.
    pub fn set_selected(&mut self, index: usize) -> (changed: bool)
        ensures
            Self::picked(old(self), index as int, final(self)),
            changed == (final(self).selected != old(self).selected),
    {
        if self.entries.len() == 0 {
            return false;
        }
        let last: usize = self.entries.len() - 1;
        let clamped: usize = if index > last {
            last
        } else {
            index
        };
        if clamped != self.selected {
            self.selected = clamped;
            true
        } else {
            false
        }
    }

    /// Moves the pick by `delta` entries, at most to either end.
    pub fn move_selection(&mut self, delta: isize) -> (changed: bool)
        ensures
            Self::picked(old(self), old(self).selected + delta, final(self)),
            changed == (final(self).selected != old(self).selected),
    {
        if self.entries.len() == 0 {
            return false;
        }
        let last: i128 = (self.entries.len() - 1) as i128;
        let wanted: i128 = self.selected as i128 + delta as i128;
        let next: usize = if wanted < 0 {
            0
        } else if wanted > last {
            last as usize
        } else {
            wanted as usize
        };
        self.set_selected(next)
    }

    /// Picks the first entry.
    pub fn select_first(&mut self) -> (changed: bool)
        ensures
            Self::picked(old(self), 0, final(self)),
            changed == (final(self).selected != old(self).selected),
    {
        self.set_selected(0)
    }

    /// Picks the last entry.
    pub fn select_last(&mut self) -> (changed: bool)
        ensures
            Self::picked(old(self), old(self).entries@.len() - 1, final(self)),
            changed == (final(self).selected != old(self).selected),
    {
        if self.entries.len() == 0 {
            return false;
        }
        let last: usize = self.entries.len() - 1;
        self.set_selected(last)
    }

    /// The first entry to show so that the picked entry is among the
    /// `height` entries shown: the offset in use where that serves, kept
    /// from running beyond the end of the list.
    pub open spec fn scrolled(
        len: nat,
        selected: usize,
        offset: usize,
        height: usize,
    ) -> usize {
        if height == 0 || len == 0 {
            0
        } else {
            let most = if len > height {
                (len - height) as usize
            } else {
                0
            };
            let kept = if offset > most {
                most
            } else {
                offset
            };
            if selected < kept {
                selected
            } else if selected >= kept + height {
                (selected - (height - 1)) as usize
            } else {
                kept
            }
        }
    }

    /// Scrolls the list so that the picked entry is shown.
    pub fn ensure_visible(&mut self, viewport_height: usize)
        ensures
            *final(self) == (TocWindow {
                scroll_offset: Self::scrolled(
                    old(self).entries@.len(),
                    old(self).selected,
                    old(self).scroll_offset,
                    viewport_height,
                ),
                ..*old(self)
            }),
    {
        if viewport_height == 0 || self.entries.len() == 0 {
            self.scroll_offset = 0;
            return ;
        }
        let len: usize = self.entries.len();
        let max_offset: usize = if len > viewport_height {
            len - viewport_height
        } else {
            0
        };
        if self.scroll_offset > max_offset {
            self.scroll_offset = max_offset;
        }
        if self.selected < self.scroll_offset {
            self.scroll_offset = self.selected;
            return ;
        }
        if self.selected - self.scroll_offset >= viewport_height {
            self.scroll_offset = self.selected - (viewport_height - 1);
        }
    }

    /// The width of the widest line of the entries; 0 without entries.
    pub fn widest(&self) -> (r: usize)
        ensures
            r == widest_line(self.entries@, self.entries@.len() as int),
    {
        let mut widest: usize = 0;
        let mut i: usize = 0;
        while i < self.entries.len()
            invariant
                i <= self.entries@.len(),
                widest == widest_line(self.entries@, i as int),
            decreases self.entries.len() - i,
        {
            let here: usize = toc_line_length(&self.entries[i]);
            if here > widest {
                widest = here;
            }
            i += 1;
        }
        widest
    }

    /// The first entry to show once the window is laid out: the picked
    /// entry is among those shown, and the rows are filled as far as
    /// there are entries.
    pub open spec fn shown_from(pre: &Self, layout: TocLayout) -> usize {
        let wanted = Self::scrolled(
            pre.entries@.len(),
            pre.selected,
            pre.scroll_offset,
            layout.content_height,
        );
        if wanted > layout.max_scroll {
            layout.max_scroll
        } else {
            wanted
        }
    }

    /// Lays the window out in a terminal that leaves it `total_cols`
    /// columns and `rows` rows, and scrolls the list to fit. In a
    /// terminal too small for the window nothing changes.
    pub fn lay_out(&mut self, total_cols: u32, rows: u32) -> (r: Option<TocLayout>)
        ensures
            r == layout_of(
                total_cols,
                rows,
                widest_line(old(self).entries@, old(self).entries@.len() as int),
                old(self).entries.len(),
                old(self).search_input is Some,
            ),
            *final(self) == match r {
                Some(layout) => TocWindow {
                    scroll_offset: Self::shown_from(old(self), layout),
                    ..*old(self)
                },
                None => *old(self),
            },
    {
        let widest: usize = self.widest();
        let has_prompt: bool = self.search_input.is_some();
        let layout = match toc_layout(total_cols, rows, widest, self.entries.len(), has_prompt) {
            Some(layout) => layout,
            None => {
                return None;
            },
        };
        self.ensure_visible(layout.content_height);
        if self.scroll_offset > layout.max_scroll {
            self.scroll_offset = layout.max_scroll;
        }
        Some(layout)
    }

    /// Picks the entry of the page in view.
    pub fn update_selection_for_page(&mut self, current_page: usize)
        ensures
            *final(self) == (TocWindow {
                selected: match entry_of_page(old(self).entries@, current_page) {
                    Some(index) => index,
                    None => 0,
                },
                current: entry_of_page(old(self).entries@, current_page),
                scroll_offset: if old(self).entries@.len() == 0 {
                    0
                } else {
                    old(self).scroll_offset
                },
                ..*old(self)
            }),
    {
        if self.entries.len() == 0 {
            self.selected = 0;
            self.scroll_offset = 0;
            self.current = None;
            return ;
        }
        match Self::entry_for_page(&self.entries, current_page) {
            Some(next) => {
                self.selected = next;
                self.current = Some(next);
            },
            None => {
                self.selected = 0;
                self.current = None;
            },
        }
    }

    /// Starts the typing of a query. Returns whether it started: it
    /// does not where a query is being typed.
    pub fn begin_search(&mut self) -> (started: bool)
        ensures
            started == old(self).search_input is None,
            !started ==> *final(self) == *old(self),
            started ==> final(self).entries == old(self).entries && final(self).selected == old(self).selected && final(self).current == old(self).current && final(self).scroll_offset
                == old(self).scroll_offset && final(self).search_query is None
                && final(self).search_matches@.len() == 0 && (final(self).search_input matches Some(
                input,
            ) && input@.len() == 0),
    {
        if self.search_input.is_some() {
            false
        } else {
            self.search_input = Some(String::new());
            self.search_query = None;
            self.search_matches.clear();
            true
        }
    }

    /// What marking the matches of a query that is not empty does: the
    /// matching entries are found, and the first of them at or behind
    /// the picked entry is picked, or the first of all.
    pub open spec fn matches_marked(pre: &Self, query: Seq<char>, post: &Self) -> bool {
        let found = matching_entries(pre.entries@, query, pre.entries@.len() as int);
        &&& post.entries == pre.entries
        &&& post.current == pre.current
        &&& post.scroll_offset == pre.scroll_offset
        &&& post.search_matches@ == found
        &&& post.selected == if found.len() == 0 {
            pre.selected
        } else {
            within_list(pre.entries@.len(), first_at_or_behind(found, pre.selected, 0) as int)
        }
    }

    /// Finds the entries that match `query` and picks the nearest.
    /// Returns whether another entry is picked now.
    pub fn recompute_search_matches(&mut self, query: &str) -> (changed: bool)
        ensures
            Self::matches_marked(old(self), query@, final(self)),
            final(self).search_query == old(self).search_query,
            final(self).search_input == old(self).search_input,
            changed == (final(self).selected != old(self).selected),
    {
        let needle = str_to_lowercase(query);
        let mut matches: Vec<usize> = Vec::new();
        let mut idx: usize = 0;
        while idx < self.entries.len()
            invariant
                idx <= self.entries.len(),
                *self == *old(self),
                needle@ == lowercased(query@),
                matches@ == matching_entries(self.entries@, query@, idx as int),
                forall|k: int| 0 <= k < matches.len() ==> (#[trigger] matches@[k]) < idx,
            decreases self.entries.len() - idx,
        {
            let title = str_to_lowercase(self.entries[idx].title.as_str());
            if find_from(title.as_str().as_bytes(), needle.as_str().as_bytes(), 0).is_some() {
                matches.push(idx);
            }
            idx += 1;
        }
        let target: Option<usize> = if matches.len() > 0 {
            Some(nearest_match(&matches, self.selected))
        } else {
            None
        };
        self.search_matches = matches;
        match target {
            Some(index) => self.set_selected(index),
            None => false,
        }
    }

    /// Marks the matches of `query`; an empty query unmarks everything.
    /// Returns whether the empty query unmarked something, or whether
    /// another entry is picked now.
    pub fn apply_search_query(&mut self, query: &str) -> (changed: bool)
        ensures
            final(self).search_input == old(self).search_input,
            query@.len() == 0 ==> *final(self) == (TocWindow {
                search_query: None,
                search_matches: final(self).search_matches,
                ..*old(self)
            }) && final(self).search_matches@.len() == 0 && changed == (old(self).search_query is Some
                || old(self).search_matches@.len() > 0),
            query@.len() > 0 ==> Self::matches_marked(old(self), query@, final(self)) && (
            final(self).search_query matches Some(kept) && kept@ == query@) && changed == (final(self).selected != old(self).selected),
    {
        if query.is_empty() {
            let cleared: bool = self.search_query.is_some() || self.search_matches.len() > 0;
            self.search_query = None;
            self.search_matches.clear();
            return cleared;
        }
        self.search_query = Some(query.to_owned());
        self.recompute_search_matches(query)
    }

    /// Takes `query` as the query being typed and marks its matches.
    pub fn update_search_query(&mut self, query: &str) -> (changed: bool)
        ensures
            final(self).search_input matches Some(input) && input@ == query@,
            query@.len() == 0 ==> final(self).entries == old(self).entries && final(self).selected
                == old(self).selected && final(self).search_query is None
                && final(self).search_matches@.len() == 0 && changed == (old(self).search_query is Some
                || old(self).search_matches@.len() > 0),
            query@.len() > 0 ==> Self::matches_marked(old(self), query@, final(self)) && (
            final(self).search_query matches Some(kept) && kept@ == query@) && changed == (final(self).selected != old(self).selected),
    {
        self.search_input = Some(query.to_owned());
        self.apply_search_query(query)
    }

    /// Ends the typing of the query. Returns whether one was being typed.
    pub fn finish_search_input(&mut self) -> (changed: bool)
        ensures
            *final(self) == (TocWindow { search_input: None, ..*old(self) }),
            changed == old(self).search_input is Some,
    {
        let changed: bool = self.search_input.is_some();
        self.search_input = None;
        changed
    }

    /// Gives up the search: the query being typed, the query and its
    /// matches. Returns whether there was any of them.
    pub fn cancel_search(&mut self) -> (changed: bool)
        ensures
            final(self).entries == old(self).entries,
            final(self).selected == old(self).selected,
            final(self).current == old(self).current,
            final(self).scroll_offset == old(self).scroll_offset,
            final(self).search_input is None,
            final(self).search_query is None,
            final(self).search_matches@.len() == 0,
            changed == (old(self).search_input is Some || old(self).search_query is Some || old(self).search_matches@.len() > 0),
    {
        let mut changed: bool = false;
        if self.search_input.is_some() {
            self.search_input = None;
            changed = true;
        }
        if self.search_query.is_some() || self.search_matches.len() > 0 {
            self.search_query = None;
            self.search_matches.clear();
            changed = true;
        }
        changed
    }

    /// The query being typed behind its prompt.
    pub fn search_prompt(&self) -> (r: Option<String>)
        ensures
            match (r, self.search_input) {
                (Some(prompt), Some(input)) => prompt@ == seq!['/'] + input@,
                (None, None) => true,
                _ => false,
            },
    {
        match &self.search_input {
            Some(input) => {
                let mut shown: Vec<char> = Vec::new();
                shown.push('/');
                let typed = crate::unicode::chars_of(input.as_str());
                let mut i: usize = 0;
                while i < typed.len()
                    invariant
                        i <= typed.len(),
                        shown@ == seq!['/'] + typed@.take(i as int),
                    decreases typed.len() - i,
                {
                    shown.push(typed[i]);
                    i += 1;
                    assert(shown@ =~= seq!['/'] + typed@.take(i as int));
                }
                assert(typed@.take(typed.len() as int) =~= typed@);
                Some(crate::unicode::string_from_chars(&shown))
            },
            None => None,
        }
    }

    /// The query whose matches are marked.
    pub fn active_query(&self) -> (r: Option<&str>)
        ensures
            match (r, self.search_query) {
                (Some(query), Some(kept)) => query@ == kept@,
                (None, None) => true,
                _ => false,
            },
    {
        match &self.search_query {
            Some(query) => Some(query.as_str()),
            None => None,
        }
    }

    /// Whether entry `index` matches the query.
    pub fn entry_matches(&self, index: usize) -> (r: bool)
        ensures
            r == self.search_matches@.contains(index),
    {
        let mut i: usize = 0;
        while i < self.search_matches.len()
            invariant
                i <= self.search_matches.len(),
                forall|k: int| 0 <= k < i ==> self.search_matches@[k] != index,
            decreases self.search_matches.len() - i,
        {
            if self.search_matches[i] == index {
                return true;
            }
            i += 1;
        }
        false
    }

    /// Picks the match `count` matches on or back from the picked
    /// entry, going round at the ends. Returns whether another entry is
    /// picked now; without matches nothing changes.
    pub fn advance_search(&mut self, count: usize, forward: bool) -> (changed: bool)
        requires
            count >= 1 || old(self).search_matches@.len() == 0,
        ensures
            old(self).search_matches@.len() == 0 ==> *final(self) == *old(self) && !changed,
            old(self).search_matches@.len() > 0 ==> Self::picked(
                old(self),
                search_target(old(self).search_matches@, old(self).selected, count, forward) as int,
                final(self),
            ) && changed == (final(self).selected != old(self).selected),
    {
        let len: usize = self.search_matches.len();
        if len == 0 {
            return false;
        }
        let start: usize = if forward {
            first_behind_position(&self.search_matches, self.selected)
        } else {
            last_before_position(&self.search_matches, self.selected)
        };
        let wide_len: u128 = len as u128;
        let offset: u128 = ((count - 1) % len) as u128;
        let index: u128 = if forward {
            (start as u128 + offset) % wide_len
        } else {
            (start as u128 + wide_len - offset) % wide_len
        };
        let target: usize = self.search_matches[index as usize];
        self.set_selected(target)
    }

    /// Picks the match `count` matches on, at least one.
    pub fn search_next(&mut self, count: usize) -> (changed: bool)
        ensures
            old(self).search_matches@.len() == 0 ==> *final(self) == *old(self) && !changed,
            old(self).search_matches@.len() > 0 ==> Self::picked(
                old(self),
                search_target(
                    old(self).search_matches@,
                    old(self).selected,
                    if count < 1 {
                        1
                    } else {
                        count
                    },
                    true,
                ) as int,
                final(self),
            ) && changed == (final(self).selected != old(self).selected),
    {
        let steps: usize = if count < 1 {
            1
        } else {
            count
        };
        self.advance_search(steps, true)
    }

    /// Picks the match `count` matches back, at least one.
    pub fn search_prev(&mut self, count: usize) -> (changed: bool)
        ensures
            old(self).search_matches@.len() == 0 ==> *final(self) == *old(self) && !changed,
            old(self).search_matches@.len() > 0 ==> Self::picked(
                old(self),
                search_target(
                    old(self).search_matches@,
                    old(self).selected,
                    if count < 1 {
                        1
                    } else {
                        count
                    },
                    false,
                ) as int,
                final(self),
            ) && changed == (final(self).selected != old(self).selected),
    {
        let steps: usize = if count < 1 {
            1
        } else {
            count
        };
        self.advance_search(steps, false)
    }

    /// Finds the matches of the query again, after the entries changed.
    pub fn rebuild_search_matches(&mut self)
        ensures
            final(self).search_query == old(self).search_query,
            final(self).search_input == old(self).search_input,
            match old(self).search_query {
                Some(query) => Self::matches_marked(old(self), query@, final(self)),
                None => *final(self) == (TocWindow {
                    search_matches: final(self).search_matches,
                    ..*old(self)
                }) && final(self).search_matches@.len() == 0,
            },
    {
        let query: Option<String> = match &self.search_query {
            Some(query) => Some(query.clone()),
            None => None,
        };
        match query {
            Some(query) => {
                let _ = self.recompute_search_matches(query.as_str());
            },
            None => {
                self.search_matches.clear();
            },
        }
    }
}

} // verus!
