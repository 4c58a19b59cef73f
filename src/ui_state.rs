//! Selection and scrolling state of the three lists and the transcript.

use vstd::prelude::*;

verus! {

/// The selection after moving down in a list of `len` items.
pub open spec fn next_index(sel: Option<usize>, len: usize) -> Option<usize> {
    if len == 0 {
        sel
    } else {
        match sel {
            Some(i) => if i >= len - 1 {
                Some(0usize)
            } else {
                Some((i + 1) as usize)
            },
            None => Some(0usize),
        }
    }
}

/// The selection after moving up in a list of `len` items.
pub open spec fn previous_index(sel: Option<usize>, len: usize) -> Option<usize> {
    if len == 0 {
        sel
    } else {
        match sel {
            Some(i) => if i == 0 {
                Some((len - 1) as usize)
            } else {
                Some((i - 1) as usize)
            },
            None => Some(0usize),
        }
    }
}

fn step_next(sel: Option<usize>, len: usize) -> (r: Option<usize>)
    ensures
        r == next_index(sel, len),
{
    if len == 0 {
        return sel;
    }
    match sel {
        Some(i) => if i >= len - 1 {
            Some(0)
        } else {
            Some(i + 1)
        },
        None => Some(0),
    }
}

fn step_previous(sel: Option<usize>, len: usize) -> (r: Option<usize>)
    ensures
        r == previous_index(sel, len),
{
    if len == 0 {
        return sel;
    }
    match sel {
        Some(i) => if i == 0 {
            Some(len - 1)
        } else {
            Some(i - 1)
        },
        None => Some(0),
    }
}

/// Which project is selected.
pub struct ProjectListState {
    pub selected: Option<usize>,
}

impl ProjectListState {
    /// Starts on the first item.
    pub fn new() -> (r: Self)
        ensures
            r.selected == Some(0usize),
    {
        ProjectListState { selected: Some(0) }
    }

    pub fn selected(&self) -> (r: Option<usize>)
        ensures
            r == self.selected,
    {
        self.selected
    }

    pub fn select(&mut self, index: Option<usize>)
        ensures
            final(self).selected == index,
    {
        self.selected = index;
    }

    /// Moves down one item, wrapping to the top; nothing on an empty list.
    pub fn next(&mut self, len: usize)
        ensures
            final(self).selected == next_index(old(self).selected, len),
    {
        self.selected = step_next(self.selected, len);
    }

    /// Moves up one item, wrapping to the bottom; nothing on an empty list.
    pub fn previous(&mut self, len: usize)
        ensures
            final(self).selected == previous_index(old(self).selected, len),
    {
        self.selected = step_previous(self.selected, len);
    }

    pub fn first(&mut self)
        ensures
            final(self).selected == Some(0usize),
    {
        self.selected = Some(0);
    }

    /// Moves to the last item; nothing on an empty list.
    pub fn last(&mut self, len: usize)
        ensures
            final(self).selected == (if len > 0 { Some((len - 1) as usize) } else { old(self).selected }),
    {
        if len > 0 {
            self.selected = Some(len - 1);
        }
    }
}

/// Which session is selected.
pub struct SessionListState {
    pub selected: Option<usize>,
}

impl SessionListState {
    /// Starts on the first item.
    pub fn new() -> (r: Self)
        ensures
            r.selected == Some(0usize),
    {
        SessionListState { selected: Some(0) }
    }

    pub fn selected(&self) -> (r: Option<usize>)
        ensures
            r == self.selected,
    {
        self.selected
    }

    pub fn select(&mut self, index: Option<usize>)
        ensures
            final(self).selected == index,
    {
        self.selected = index;
    }

    /// Moves down one item, wrapping to the top; nothing on an empty list.
    pub fn next(&mut self, len: usize)
        ensures
            final(self).selected == next_index(old(self).selected, len),
    {
        self.selected = step_next(self.selected, len);
    }

    /// Moves up one item, wrapping to the bottom; nothing on an empty list.
    pub fn previous(&mut self, len: usize)
        ensures
            final(self).selected == previous_index(old(self).selected, len),
    {
        self.selected = step_previous(self.selected, len);
    }

    pub fn first(&mut self)
        ensures
            final(self).selected == Some(0usize),
    {
        self.selected = Some(0);
    }

    /// Moves to the last item; nothing on an empty list.
    pub fn last(&mut self, len: usize)
        ensures
            final(self).selected == (if len > 0 { Some((len - 1) as usize) } else { old(self).selected }),
    {
        if len > 0 {
            self.selected = Some(len - 1);
        }
    }
}

/// Which agent is selected.
pub struct AgentListState {
    pub selected: Option<usize>,
}

impl AgentListState {
    /// Starts on the first item.
    pub fn new() -> (r: Self)
        ensures
            r.selected == Some(0usize),
    {
        AgentListState { selected: Some(0) }
    }

    pub fn selected(&self) -> (r: Option<usize>)
        ensures
            r == self.selected,
    {
        self.selected
    }

    pub fn select(&mut self, index: Option<usize>)
        ensures
            final(self).selected == index,
    {
        self.selected = index;
    }

    /// Moves down one item, wrapping to the top; nothing on an empty list.
    pub fn next(&mut self, len: usize)
        ensures
            final(self).selected == next_index(old(self).selected, len),
    {
        self.selected = step_next(self.selected, len);
    }

    /// Moves up one item, wrapping to the bottom; nothing on an empty list.
    pub fn previous(&mut self, len: usize)
        ensures
            final(self).selected == previous_index(old(self).selected, len),
    {
        self.selected = step_previous(self.selected, len);
    }

    pub fn first(&mut self)
        ensures
            final(self).selected == Some(0usize),
    {
        self.selected = Some(0);
    }

    /// Moves to the last item; nothing on an empty list.
    pub fn last(&mut self, len: usize)
        ensures
            final(self).selected == (if len > 0 { Some((len - 1) as usize) } else { old(self).selected }),
    {
        if len > 0 {
            self.selected = Some(len - 1);
        }
    }
}

/// Scroll position of the transcript view.
pub struct ConversationState {
    pub scroll_offset: usize,
    pub total_lines: usize,
    /// Keep the view on the newest line.
    pub follow_mode: bool,
}

/// How far the view can scroll: the lines that do not fit the viewport.
pub open spec fn max_scroll(total: usize, viewport: usize) -> int {
    if total > viewport {
        total - viewport
    } else {
        0
    }
}

impl ConversationState {
    /// At the top, following new lines.
    pub fn new() -> (r: Self)
        ensures
            r.scroll_offset == 0 && r.total_lines == 0 && r.follow_mode,
    {
        ConversationState { scroll_offset: 0, total_lines: 0, follow_mode: true }
    }

    /// Scrolls down by `amount`, no further than the last full page; stops
    /// following.
    pub fn scroll_down(&mut self, amount: usize, viewport_height: usize)
        ensures
            final(self).scroll_offset == if old(self).scroll_offset + amount < max_scroll(
                old(self).total_lines,
                viewport_height,
            ) {
                old(self).scroll_offset + amount
            } else {
                max_scroll(old(self).total_lines, viewport_height)
            },
            !final(self).follow_mode,
            final(self).total_lines == old(self).total_lines,
    {
        self.follow_mode = false;
        let max = self.total_lines.saturating_sub(viewport_height);
        let target = self.scroll_offset.saturating_add(amount);
        self.scroll_offset = if target < max {
            target
        } else {
            max
        };
    }

    /// Scrolls up by `amount`, no further than the top; stops following.
    pub fn scroll_up(&mut self, amount: usize)
        ensures
            final(self).scroll_offset == if old(self).scroll_offset > amount {
                old(self).scroll_offset - amount
            } else {
                0
            },
            !final(self).follow_mode,
            final(self).total_lines == old(self).total_lines,
    {
        self.follow_mode = false;
        self.scroll_offset = self.scroll_offset.saturating_sub(amount);
    }

    pub fn scroll_to_top(&mut self)
        ensures
            final(self).scroll_offset == 0,
            !final(self).follow_mode,
            final(self).total_lines == old(self).total_lines,
    {
        self.follow_mode = false;
        self.scroll_offset = 0;
    }

    /// Scrolls to the last full page and follows new lines again.
    pub fn scroll_to_bottom(&mut self, viewport_height: usize)
        ensures
            final(self).scroll_offset == max_scroll(old(self).total_lines, viewport_height),
            final(self).follow_mode,
            final(self).total_lines == old(self).total_lines,
    {
        self.scroll_offset = self.total_lines.saturating_sub(viewport_height);
        self.follow_mode = true;
    }

    pub fn toggle_follow(&mut self)
        ensures
            final(self).follow_mode == !old(self).follow_mode,
            final(self).scroll_offset == old(self).scroll_offset,
            final(self).total_lines == old(self).total_lines,
    {
        self.follow_mode = !self.follow_mode;
    }
}

/// What the control loop does after a key press.
#[derive(Clone, Copy, Debug, PartialEq, Eq, Structural)]
pub enum Action {
    Quit,
    /// Nothing to do.
    Idle,
    Redraw,
}

/// The pane that the layout widens.
#[derive(Clone, Copy, Debug, PartialEq, Eq, Structural)]
pub enum FocusedPane {
    Projects,
    Sessions,
    Conversation,
}

/// What the layout needs to size the columns.
pub struct LayoutConfig {
    pub focused_pane: FocusedPane,
    pub max_project_width: u16,
    pub max_session_width: u16,
}

} // verus!
