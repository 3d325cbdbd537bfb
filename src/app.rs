//! The application state: the task list, its cursor and the input mode, with
//! the key handling state machine that drives them.
use vstd::prelude::*;
use crate::codec::{csv_rows, decode_todos, encode_todos, table_of, csv_text, todos_of_rows};
use crate::cursor::{cursor_fits, next_index, previous_index, reconciled, next_of, previous_of, reconcile};
use crate::text::{blank, is_blank, string_of_chars};
use crate::todo::{Todo, TodoSpec, todos_view};

verus! {

/// A key press, as far as the state machine tells keys apart.
#[derive(Debug, Clone, Copy, PartialEq, Eq, Structural)]
pub enum Key {
    Char(char),
    Enter,
    Esc,
    Backspace,
    Up,
    Down,
    Other,
}

/// What the caller does after a key was handled.
#[derive(Debug, Clone, Copy, PartialEq, Eq, Structural)]
pub enum Step {
    /// Nothing to do beyond drawing.
    Continue,
    /// The list changed: rewrite the backing file with [`App::encode_db`].
    Save,
    /// Leave the event loop.
    Quit,
}

/// The state of the application. While `input_mode` is set the user is
/// composing a new task in `input_text`; otherwise keys move the cursor and
/// change the list.
pub struct App {
    pub items: Vec<Todo>,
    pub db: String,
    pub selected: Option<usize>,
    pub input_mode: bool,
    pub input_text: Vec<char>,
}

/// The value of an [`App`].
pub struct AppView {
    pub items: Seq<TodoSpec>,
    pub db: Seq<char>,
    pub selected: Option<usize>,
    pub composing: bool,
    pub buffer: Seq<char>,
}

impl View for App {
    type V = AppView;

    open spec fn view(&self) -> AppView {
        AppView {
            items: todos_view(self.items@),
            db: self.db@,
            selected: self.selected,
            composing: self.input_mode,
            buffer: self.input_text@,
        }
    }
}

impl AppView {
    /// The cursor fits the list.
    pub open spec fn wf(self) -> bool {
        cursor_fits(self.selected, self.items.len())
    }

    /// Whether confirming the buffer adds a task: its text is not blank and
    /// the next id fits in a `u32`.
    pub open spec fn can_add(self) -> bool {
        !blank(self.buffer) && self.items.len() < u32::MAX
    }

    /// The state after the selected task's completion flag was flipped; the
    /// same state when no task is selected.
    pub open spec fn toggled(self) -> AppView {
        match self.selected {
            Some(i) => if i < self.items.len() {
                let t = self.items[i as int];
                AppView {
                    items: self.items.update(
                        i as int,
                        TodoSpec { id: t.id, title: t.title, is_completed: !t.is_completed },
                    ),
                    ..self
                }
            } else {
                self
            },
            None => self,
        }
    }

    /// Whether toggling changes the list.
    pub open spec fn can_change_selected(self) -> bool {
        self.selected matches Some(i) && i < self.items.len()
    }

    /// The state after the buffer was confirmed: a new task with id `len + 1`
    /// and the buffer as title is appended where [`AppView::can_add`] holds;
    /// either way the buffer is emptied and the mode is back to navigation.
    pub open spec fn added(self) -> AppView {
        if self.can_add() {
            let items = self.items.push(
                TodoSpec { id: (self.items.len() + 1) as u32, title: self.buffer, is_completed: false },
            );
            AppView {
                items,
                selected: reconciled(self.selected, items.len()),
                composing: false,
                buffer: Seq::empty(),
                ..self
            }
        } else {
            AppView { composing: false, buffer: Seq::empty(), ..self }
        }
    }

    /// The state after the selected task was removed, with the cursor
    /// reconciled; the same state when no task is selected.
    pub open spec fn deleted(self) -> AppView {
        match self.selected {
            Some(i) => if i < self.items.len() {
                let items = self.items.remove(i as int);
                AppView { items, selected: reconciled(Some(i), items.len()), ..self }
            } else {
                self
            },
            None => self,
        }
    }

    pub open spec fn moved_next(self) -> AppView {
        AppView { selected: next_index(self.selected, self.items.len()), ..self }
    }

    pub open spec fn moved_previous(self) -> AppView {
        AppView { selected: previous_index(self.selected, self.items.len()), ..self }
    }

    /// The state after a key press.
    pub open spec fn after_key(self, key: Key) -> AppView {
        if self.composing {
            match key {
                Key::Enter => self.added(),
                Key::Esc => AppView { composing: false, buffer: Seq::empty(), ..self },
                Key::Backspace => if self.buffer.len() > 0 {
                    AppView { buffer: self.buffer.drop_last(), ..self }
                } else {
                    self
                },
                Key::Char(c) => AppView { buffer: self.buffer.push(c), ..self },
                _ => self,
            }
        } else {
            match key {
                Key::Enter => self.toggled(),
                Key::Char(' ') => self.toggled(),
                Key::Char('a') => AppView { composing: true, buffer: Seq::empty(), ..self },
                Key::Char('d') => self.deleted(),
                Key::Down => self.moved_next(),
                Key::Char('j') => self.moved_next(),
                Key::Up => self.moved_previous(),
                Key::Char('k') => self.moved_previous(),
                _ => self,
            }
        }
    }

    /// What the caller is told to do after a key press.
    pub open spec fn step_of(self, key: Key) -> Step {
        if self.composing {
            if key == Key::Enter && self.can_add() {
                Step::Save
            } else {
                Step::Continue
            }
        } else {
            match key {
                Key::Char('q') => Step::Quit,
                Key::Enter => if self.can_change_selected() { Step::Save } else { Step::Continue },
                Key::Char(' ') => if self.can_change_selected() { Step::Save } else { Step::Continue },
                Key::Char('d') => if self.can_change_selected() { Step::Save } else { Step::Continue },
                _ => Step::Continue,
            }
        }
    }
}

impl App {
    /// The state at start-up for the backing file at `db_path`: `stored` is
    /// the file's text, or `None` where there is no file yet (then the list is
    /// empty). The first task, if any, is selected; the mode is navigation.
    pub fn new(db_path: &str, stored: Option<&[u8]>) -> (r: App)
        ensures
            r@.items == match stored {
                Some(text) => todos_of_rows(csv_rows(text@)),
                None => Seq::<TodoSpec>::empty(),
            },
            r@.db == db_path@,
            r@.selected == (if r@.items.len() == 0 { None } else { Some(0usize) }),
            !r@.composing,
            r@.buffer.len() == 0,
            r@.wf(),
    {
        let items = match stored {
            Some(text) => decode_todos(text),
            None => Vec::new(),
        };
        let selected = if items.len() == 0 { None } else { Some(0) };
        App { items, db: db_path.to_owned(), selected, input_mode: false, input_text: Vec::new() }
    }

    /// The text to write to the backing file for the current list: the
    /// header, then one record per task. Reading it back gives the same list.
    pub fn encode_db(&self) -> (r: Option<Vec<u8>>)
        ensures
            r is Some,
            r matches Some(b) ==> b@ == csv_text(table_of(self@.items)),
            r matches Some(b) ==> todos_of_rows(csv_rows(b@)) == self@.items,
    {
        encode_todos(&self.items)
    }

    /// Flips the completion flag of the selected task. Returns whether the
    /// list changed (and is to be saved).
    pub fn toggle_complete(&mut self) -> (changed: bool)
        ensures
            final(self)@ == old(self)@.toggled(),
            changed == old(self)@.can_change_selected(),
    {
        match self.selected {
            Some(i) => {
                if i < self.items.len() {
                    let t = Todo {
                        id: self.items[i].id,
                        title: self.items[i].title.clone(),
                        is_completed: !self.items[i].is_completed,
                    };
                    self.items.set(i, t);
                    assert(todos_view(self.items@) =~= old(self)@.toggled().items);
                    true
                } else {
                    false
                }
            },
            None => false,
        }
    }

    /// Confirms the buffer: appends a task titled with it, numbered one past
    /// the list's length and not completed, unless the buffer is blank (or
    /// the list has `u32::MAX` tasks). Either way the buffer is emptied and
    /// navigation resumes. Returns whether a task was added (and is to be saved).
    pub fn add_task(&mut self) -> (changed: bool)
        ensures
            final(self)@ == old(self)@.added(),
            changed == old(self)@.can_add(),
    {
        let changed = if !is_blank(&self.input_text) && self.items.len() < u32::MAX as usize {
            let new_id = self.items.len() as u32 + 1;
            let title = string_of_chars(&self.input_text);
            self.items.push(Todo { id: new_id, title, is_completed: false });
            assert(todos_view(self.items@) =~= old(self)@.added().items);
            self.selected = reconcile(self.selected, self.items.len());
            true
        } else {
            false
        };
        self.input_text = Vec::new();
        self.input_mode = false;
        changed
    }

    /// Removes the selected task; later tasks move up one place, and the
    /// cursor is reconciled with the new length. Returns whether the list
    /// changed (and is to be saved).
    pub fn delete_task(&mut self) -> (changed: bool)
        ensures
            final(self)@ == old(self)@.deleted(),
            changed == old(self)@.can_change_selected(),
    {
        match self.selected {
            Some(i) => {
                if i < self.items.len() {
                    self.items.remove(i);
                    assert(todos_view(self.items@) =~= old(self)@.deleted().items);
                    self.selected = reconcile(Some(i), self.items.len());
                    true
                } else {
                    false
                }
            },
            None => false,
        }
    }

    /// Moves the cursor down, wrapping around.
    pub fn next(&mut self)
        ensures
            final(self)@ == old(self)@.moved_next(),
    {
        self.selected = next_of(self.selected, self.items.len());
    }

    /// Moves the cursor up, wrapping around.
    pub fn previous(&mut self)
        ensures
            final(self)@ == old(self)@.moved_previous(),
    {
        self.selected = previous_of(self.selected, self.items.len());
    }

    /// Handles one key press and says what the caller does next.
    pub fn handle_key(&mut self, key: Key) -> (r: Step)
        ensures
            final(self)@ == old(self)@.after_key(key),
            r == old(self)@.step_of(key),
    {
        if self.input_mode {
            match key {
                Key::Enter => if self.add_task() {
                    Step::Save
                } else {
                    Step::Continue
                },
                Key::Esc => {
                    self.input_text = Vec::new();
                    self.input_mode = false;
                    Step::Continue
                },
                Key::Backspace => {
                    self.input_text.pop();
                    Step::Continue
                },
                Key::Char(c) => {
                    self.input_text.push(c);
                    Step::Continue
                },
                _ => Step::Continue,
            }
        } else {
            match key {
                Key::Char('q') => Step::Quit,
                Key::Enter | Key::Char(' ') => if self.toggle_complete() {
                    Step::Save
                } else {
                    Step::Continue
                },
                Key::Char('a') => {
                    self.input_text = Vec::new();
                    self.input_mode = true;
                    Step::Continue
                },
                Key::Char('d') => if self.delete_task() {
                    Step::Save
                } else {
                    Step::Continue
                },
                Key::Down | Key::Char('j') => {
                    self.next();
                    Step::Continue
                },
                Key::Up | Key::Char('k') => {
                    self.previous();
                    Step::Continue
                },
                _ => Step::Continue,
            }
        }
    }
}

/// Confirming a title that is not blank, on a list of `n` tasks, gives
/// `n + 1` tasks: the first `n` as they were, then the title with id `n + 1`,
/// not completed.
pub proof fn lemma_add_appends(v: AppView)
    requires
        v.can_add(),
    ensures
        v.added().items.len() == v.items.len() + 1,
        v.added().items.take(v.items.len() as int) == v.items,
        v.added().items.last() == (TodoSpec {
            id: (v.items.len() + 1) as u32,
            title: v.buffer,
            is_completed: false,
        }),
{
    assert(v.added().items.take(v.items.len() as int) =~= v.items);
}

/// Confirming a blank title (the empty one included) leaves the list and the
/// cursor as they were, and asks for no save.
pub proof fn lemma_blank_title_rejected(v: AppView)
    requires
        blank(v.buffer),
    ensures
        v.added().items == v.items,
        v.added().selected == v.selected,
        v.composing ==> v.step_of(Key::Enter) == Step::Continue,
{
}

/// Removing task `i` of `n` leaves `n - 1` tasks: those before `i` in place,
/// those after it one place earlier. The cursor is absent if the list is now
/// empty, back at 0 if `i` was the last task, else still at `i`.
pub proof fn lemma_delete_reindexes(v: AppView, i: usize)
    requires
        v.selected == Some(i),
        i < v.items.len(),
    ensures
        v.deleted().items.len() == v.items.len() - 1,
        forall|j: int| 0 <= j < i ==> v.deleted().items[j] == v.items[j],
        forall|j: int| i < j < v.items.len() ==> v.deleted().items[j - 1] == v.items[j],
        v.deleted().selected == (if v.items.len() == 1 {
            None
        } else if i == v.items.len() - 1 {
            Some(0usize)
        } else {
            Some(i)
        }),
{
}

/// While composing, no key but confirm touches the list or the cursor, and
/// none of them asks for a save.
pub proof fn lemma_compose_isolation(v: AppView, key: Key)
    requires
        v.composing,
        key != Key::Enter,
    ensures
        v.after_key(key).items == v.items,
        v.after_key(key).selected == v.selected,
        v.step_of(key) == Step::Continue,
{
}

/// Every key press keeps the cursor fitting the list.
pub proof fn lemma_key_keeps_wf(v: AppView, key: Key)
    requires
        v.wf(),
    ensures
        v.after_key(key).wf(),
{
}

} // verus!
