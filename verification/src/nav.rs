//! Navigation state: the dual-pane focus model, the wrapping cursors, and
//! the selection queries.

use vstd::prelude::*;

use crate::keymap::{Command, Key, map_key, spec_map_key};
use crate::record::CrashContext;

verus! {

/// Which pane currently receives navigation keys.
#[derive(Clone, Copy, PartialEq, Eq, Structural, Debug)]
pub enum Window {
    Contexts,
    Paths,
}

/// The navigation state of one viewer session: the fixed record list, the
/// pane focus, and one optional cursor per pane.
///
/// Well-formedness (`wf`) holds after construction and is preserved by every
/// operation:
/// - the record cursor is a valid index whenever the list is non-empty, and
///   `None` exactly when it is empty;
/// - the path cursor is `None` while the records pane has focus;
/// - while the paths pane has focus the path cursor is `Some(j)` with `j`
///   valid for the selected record's paths, except that `Some(0)` is also
///   allowed over an empty path list (entering the paths pane always selects
///   index 0, even for a record without paths).
pub struct App<'a> {
    pub title: &'a str,
    pub window_state: Window,
    pub context_state: Option<usize>,
    pub path_state: Option<usize>,
    pub contexts: Vec<CrashContext>,
    pub should_quit: bool,
}

/// Index reached by one wrapping step forward over a sequence of length
/// `len`: past the last index wraps to 0; an unset cursor selects 0.
pub open spec fn spec_next(len: int, cur: Option<usize>) -> int {
    match cur {
        Some(i) => if i + 1 >= len {
            0
        } else {
            i + 1
        },
        None => 0,
    }
}

/// Index reached by one wrapping step backward: from index 0 wraps to
/// `len - 1`; an unset cursor selects 0.
pub open spec fn spec_prev(len: int, cur: Option<usize>) -> int {
    match cur {
        Some(i) => if i == 0 {
            len - 1
        } else {
            i - 1
        },
        None => 0,
    }
}

/// One wrapping step forward, shared by both panes.
pub fn next_item(len: usize, cur: Option<usize>) -> (r: usize)
    requires
        1 <= len,
        cur matches Some(i) ==> i < len,
    ensures
        r == spec_next(len as int, cur),
        r < len,
{
    match cur {
        Some(i) => if i >= len - 1 {
            0
        } else {
            i + 1
        },
        None => 0,
    }
}

/// One wrapping step backward, shared by both panes.
pub fn previous_item(len: usize, cur: Option<usize>) -> (r: usize)
    requires
        1 <= len,
        cur matches Some(i) ==> i < len,
    ensures
        r == spec_prev(len as int, cur),
        r < len,
{
    match cur {
        Some(i) => if i == 0 {
            len - 1
        } else {
            i - 1
        },
        None => 0,
    }
}

impl<'a> App<'a> {
    /// Length of the selected record's path list; 0 when no record is
    /// selected.
    pub open spec fn sel_paths_len(self) -> int {
        match self.context_state {
            Some(i) => if i < self.contexts@.len() {
                self.contexts@[i as int].paths@.len() as int
            } else {
                0
            },
            None => 0,
        }
    }

    /// The state invariant; see the type documentation.
    pub open spec fn wf(self) -> bool {
        &&& match self.context_state {
            Some(i) => i < self.contexts@.len(),
            None => self.contexts@.len() == 0,
        }
        &&& self.window_state == Window::Contexts ==> self.path_state is None
        &&& self.window_state == Window::Paths ==> match self.path_state {
            Some(j) => j == 0 || j < self.sel_paths_len(),
            None => false,
        }
    }

    /// The record the record cursor points at, if any.
    pub open spec fn spec_selected_record(self) -> Option<CrashContext> {
        match self.context_state {
            Some(i) => if i < self.contexts@.len() {
                Some(self.contexts@[i as int])
            } else {
                None
            },
            None => None,
        }
    }

    /// The path the path cursor points at: present only while the paths pane
    /// has focus and the cursor is a valid index into the selected record's
    /// paths (so `None` for a record without paths).
    pub open spec fn spec_selected_path(self) -> Option<Seq<char>> {
        if self.window_state == Window::Paths {
            match (self.context_state, self.path_state) {
                (Some(i), Some(j)) => if i < self.contexts@.len() && j < self.contexts@[
                    i as int
                ].paths@.len() {
                    Some(self.contexts@[i as int].paths@[j as int]@)
                } else {
                    None
                },
                _ => None,
            }
        } else {
            None
        }
    }

    /// State after one upward move: in the records pane the record cursor
    /// steps backward with wraparound and the path cursor is cleared; in the
    /// paths pane the path cursor steps backward over the selected record's
    /// paths. An empty active sequence leaves the cursor as it is.
    pub open spec fn up_tr(self) -> App<'a> {
        match self.window_state {
            Window::Contexts => App {
                context_state: if self.contexts@.len() == 0 {
                    None
                } else {
                    Some(spec_prev(self.contexts@.len() as int, self.context_state) as usize)
                },
                path_state: None,
                ..self
            },
            Window::Paths => App {
                path_state: if self.sel_paths_len() == 0 {
                    self.path_state
                } else {
                    Some(spec_prev(self.sel_paths_len(), self.path_state) as usize)
                },
                ..self
            },
        }
    }

    /// State after one downward move; mirror of `up_tr`.
    pub open spec fn down_tr(self) -> App<'a> {
        match self.window_state {
            Window::Contexts => App {
                context_state: if self.contexts@.len() == 0 {
                    None
                } else {
                    Some(spec_next(self.contexts@.len() as int, self.context_state) as usize)
                },
                path_state: None,
                ..self
            },
            Window::Paths => App {
                path_state: if self.sel_paths_len() == 0 {
                    self.path_state
                } else {
                    Some(spec_next(self.sel_paths_len(), self.path_state) as usize)
                },
                ..self
            },
        }
    }

    /// State after focusing the paths pane: a no-op if it already has focus,
    /// otherwise the path cursor is initialised to index 0 — whether or not
    /// the selected record has any paths.
    pub open spec fn right_tr(self) -> App<'a> {
        if self.window_state == Window::Paths {
            self
        } else {
            App { window_state: Window::Paths, path_state: Some(0usize), ..self }
        }
    }

    /// State after focusing the records pane: unconditionally clears the
    /// path cursor.
    pub open spec fn left_tr(self) -> App<'a> {
        App { window_state: Window::Contexts, path_state: None, ..self }
    }

    /// State after a quit request.
    pub open spec fn quit_tr(self) -> App<'a> {
        App { should_quit: true, ..self }
    }

    /// A fresh session over `crash_contexts`: records pane focused, first
    /// record selected when there is one.
    pub fn new(title: &'a str, crash_contexts: Vec<CrashContext>) -> (app: App<'a>)
        ensures
            app.wf(),
            app.title == title,
            app.window_state == Window::Contexts,
            app.context_state == (if crash_contexts@.len() == 0 {
                None::<usize>
            } else {
                Some(0usize)
            }),
            app.path_state is None,
            app.contexts == crash_contexts,
            !app.should_quit,
    {
        let context_index: Option<usize> = if !crash_contexts.is_empty() {
            Some(0)
        } else {
            None
        };
        App {
            title,
            window_state: Window::Contexts,
            context_state: context_index,
            path_state: None,
            contexts: crash_contexts,
            should_quit: false,
        }
    }

    /// Move the active pane's cursor one step up, wrapping at the top.
    pub fn on_up(&mut self)
        requires
            old(self).wf(),
        ensures
            *final(self) == old(self).up_tr(),
            final(self).wf(),
    {
        match self.window_state {
            Window::Contexts => {
                if self.contexts.len() > 0 {
                    let i = previous_item(self.contexts.len(), self.context_state);
                    self.context_state = Some(i);
                }
                self.path_state = None;
            }
            Window::Paths => {
                if let Some(ci) = self.context_state {
                    let plen = self.contexts[ci].paths.len();
                    if plen > 0 {
                        let j = previous_item(plen, self.path_state);
                        self.path_state = Some(j);
                    }
                }
            }
        }
    }

    /// Move the active pane's cursor one step down, wrapping at the bottom.
    pub fn on_down(&mut self)
        requires
            old(self).wf(),
        ensures
            *final(self) == old(self).down_tr(),
            final(self).wf(),
    {
        match self.window_state {
            Window::Contexts => {
                if self.contexts.len() > 0 {
                    let i = next_item(self.contexts.len(), self.context_state);
                    self.context_state = Some(i);
                }
                self.path_state = None;
            }
            Window::Paths => {
                if let Some(ci) = self.context_state {
                    let plen = self.contexts[ci].paths.len();
                    if plen > 0 {
                        let j = next_item(plen, self.path_state);
                        self.path_state = Some(j);
                    }
                }
            }
        }
    }

    /// Give the paths pane focus, selecting path index 0 on entry.
    pub fn on_right(&mut self)
        ensures
            *final(self) == old(self).right_tr(),
            old(self).wf() ==> final(self).wf(),
    {
        match self.window_state {
            Window::Paths => {}
            _ => {
                self.window_state = Window::Paths;
                self.path_state = Some(0);
            }
        }
    }

    /// Give the records pane focus and clear the path cursor.
    pub fn on_left(&mut self)
        ensures
            *final(self) == old(self).left_tr(),
            old(self).wf() ==> final(self).wf(),
    {
        self.window_state = Window::Contexts;
        self.path_state = None;
    }

    /// React to a character key: `q` requests quitting; `c` yields the
    /// selected path (to be handed to the clipboard by the caller) when the
    /// paths pane has focus and a path is selected, and is a no-op
    /// otherwise. The navigation state itself only changes its quit flag.
    pub fn on_key(&mut self, c: char) -> (copy: Option<String>)
        requires
            old(self).wf(),
        ensures
            final(self).wf(),
            *final(self) == (if c == 'q' {
                old(self).quit_tr()
            } else {
                *old(self)
            }),
            c == 'c' ==> match (copy, old(self).spec_selected_path()) {
                (Some(s), Some(p)) => s@ == p,
                (None, None) => true,
                _ => false,
            },
            c != 'c' ==> copy is None,
    {
        let mut copy: Option<String> = None;
        if c == 'q' {
            self.should_quit = true;
        } else if c == 'c' {
            if let Window::Paths = self.window_state {
                if let Some(ci) = self.context_state {
                    if let Some(j) = self.path_state {
                        if j < self.contexts[ci].paths.len() {
                            copy = Some(self.contexts[ci].paths[j].clone());
                        }
                    }
                }
            }
        }
        copy
    }

    /// The record under the record cursor, or `None` when the list is empty.
    pub fn selected_record(&self) -> (r: Option<&CrashContext>)
        requires
            self.wf(),
        ensures
            match r {
                Some(rec) => self.spec_selected_record() matches Some(m) && *rec == m,
                None => self.spec_selected_record() is None,
            },
    {
        match self.context_state {
            Some(i) => Some(&self.contexts[i]),
            None => None,
        }
    }

    /// The path under the path cursor, or `None` when the paths pane is not
    /// focused or the selected record has no paths.
    pub fn selected_path(&self) -> (r: Option<&String>)
        requires
            self.wf(),
        ensures
            match r {
                Some(p) => self.spec_selected_path() matches Some(m) && p@ == m,
                None => self.spec_selected_path() is None,
            },
    {
        match self.window_state {
            Window::Paths => match (self.context_state, self.path_state) {
                (Some(i), Some(j)) => if j < self.contexts[i].paths.len() {
                    Some(&self.contexts[i].paths[j])
                } else {
                    None
                },
                _ => None,
            },
            Window::Contexts => None,
        }
    }

    /// Apply one key press: map it to its command and perform the bound
    /// operation. Returns the path to hand to the clipboard, if the key
    /// requested a copy and a path is selected.
    pub fn handle_key(&mut self, key: Key) -> (copy: Option<String>)
        requires
            old(self).wf(),
        ensures
            final(self).wf(),
            ({
                let cmd = spec_map_key(key);
                &&& cmd == Command::MoveUp ==> *final(self) == old(self).up_tr() && copy is None
                &&& cmd == Command::MoveDown ==> *final(self) == old(self).down_tr() && copy
                    is None
                &&& cmd == Command::FocusRight ==> *final(self) == old(self).right_tr() && copy
                    is None
                &&& cmd == Command::FocusLeft ==> *final(self) == old(self).left_tr() && copy
                    is None
                &&& cmd == Command::Quit ==> *final(self) == old(self).quit_tr() && copy is None
                &&& cmd == Command::CopySelectedPath ==> *final(self) == *old(self) && match (
                    copy,
                    old(self).spec_selected_path(),
                ) {
                    (Some(s), Some(p)) => s@ == p,
                    (None, None) => true,
                    _ => false,
                }
                &&& cmd == Command::Noop ==> *final(self) == *old(self) && copy is None
            }),
    {
        match map_key(key) {
            Command::MoveUp => {
                self.on_up();
                None
            }
            Command::MoveDown => {
                self.on_down();
                None
            }
            Command::FocusRight => {
                self.on_right();
                None
            }
            Command::FocusLeft => {
                self.on_left();
                None
            }
            Command::Quit => self.on_key('q'),
            Command::CopySelectedPath => self.on_key('c'),
            Command::Noop => None,
        }
    }
}

/// State after a sequence of moves in order: `true` is a step up, `false` a
/// step down.
pub open spec fn apply_moves<'a>(app: App<'a>, moves: Seq<bool>) -> App<'a>
    decreases moves.len(),
{
    if moves.len() == 0 {
        app
    } else {
        let next = if moves[0] {
            app.up_tr()
        } else {
            app.down_tr()
        };
        apply_moves(next, moves.drop_first())
    }
}

/// A move leaves the invariant, the focus, the record list and the quit flag
/// untouched, whichever pane is active.
pub proof fn lemma_move_preserves_wf<'a>(app: App<'a>)
    requires
        app.wf(),
    ensures
        app.up_tr().wf(),
        app.down_tr().wf(),
        app.up_tr().window_state == app.window_state,
        app.down_tr().window_state == app.window_state,
        app.up_tr().contexts == app.contexts,
        app.down_tr().contexts == app.contexts,
        app.up_tr().should_quit == app.should_quit,
        app.down_tr().should_quit == app.should_quit,
{
}

/// Law: on a non-empty record list, after any finite sequence of up/down
/// moves made while the records pane has focus, the record cursor is still
/// `Some(i)` with `i` a valid index.
pub proof fn lemma_moves_keep_cursor_valid<'a>(app: App<'a>, moves: Seq<bool>)
    requires
        app.wf(),
        app.window_state == Window::Contexts,
        app.contexts@.len() >= 1,
    ensures
        ({
            let end = apply_moves(app, moves);
            &&& end.wf()
            &&& end.window_state == Window::Contexts
            &&& end.contexts == app.contexts
            &&& end.context_state matches Some(i) && i < app.contexts@.len()
        }),
    decreases moves.len(),
{
    lemma_move_preserves_wf(app);
    if moves.len() > 0 {
        let next = if moves[0] {
            app.up_tr()
        } else {
            app.down_tr()
        };
        lemma_moves_keep_cursor_valid(next, moves.drop_first());
    }
}

/// Law: wraparound. On a record list of length `n`, moving up with the
/// cursor on index 0 selects index `n - 1`, and moving down with the cursor
/// on index `n - 1` selects index 0.
pub proof fn lemma_records_wraparound<'a>(app: App<'a>)
    requires
        app.wf(),
        app.window_state == Window::Contexts,
        app.contexts@.len() >= 1,
        app.contexts@.len() <= usize::MAX,
    ensures
        app.context_state == Some(0usize) ==> app.up_tr().context_state == Some(
            (app.contexts@.len() - 1) as usize,
        ),
        app.context_state == Some((app.contexts@.len() - 1) as usize)
            ==> app.down_tr().context_state == Some(0usize),
{
}

/// Law: on a single-element record list, moving up or down leaves the record
/// cursor where it was.
pub proof fn lemma_single_element_records<'a>(app: App<'a>)
    requires
        app.wf(),
        app.window_state == Window::Contexts,
        app.contexts@.len() == 1,
    ensures
        app.up_tr().context_state == app.context_state,
        app.down_tr().context_state == app.context_state,
        app.context_state == Some(0usize),
{
}

/// Law: the same for a selected record with a single path while the paths
/// pane has focus.
pub proof fn lemma_single_element_paths<'a>(app: App<'a>)
    requires
        app.wf(),
        app.window_state == Window::Paths,
        app.sel_paths_len() == 1,
    ensures
        app.up_tr().path_state == app.path_state,
        app.down_tr().path_state == app.path_state,
        app.path_state == Some(0usize),
{
}

/// Law: focusing the records pane clears the path cursor whatever the prior
/// state, and doing it twice is the same as doing it once.
pub proof fn lemma_focus_records<'a>(app: App<'a>)
    ensures
        app.left_tr().path_state is None,
        app.left_tr().window_state == Window::Contexts,
        app.left_tr().left_tr() == app.left_tr(),
{
}

/// Law: focusing the paths pane is idempotent: a second focus is a no-op.
pub proof fn lemma_focus_paths_idempotent<'a>(app: App<'a>)
    ensures
        app.right_tr().right_tr() == app.right_tr(),
{
}

} // verus!
