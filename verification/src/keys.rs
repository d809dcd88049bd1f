//! The keys, and what they do on the process list.
use crate::app::{App, AppView};
use crate::sort::SortColumn;
use vstd::prelude::*;

verus! {

/// The keys that have a meaning somewhere; every other one is `Other`.
#[derive(Clone, Copy, PartialEq, Eq, Debug)]
pub enum Key {
    Tab,
    Esc,
    Enter,
    Backspace,
    Left,
    Right,
    Up,
    Down,
    Char(char),
    Other,
}

/// A key event. It counts when the key goes down, not when it repeats or goes up.
#[derive(Clone, Copy, PartialEq, Eq, Debug)]
pub struct KeyEvent {
    pub key: Key,
    pub control: bool,
    pub shift: bool,
    pub pressed: bool,
}

/// What has to be done outside after an event.
#[derive(Clone, Copy, PartialEq, Eq, Debug)]
pub enum Action {
    Continue,
    Quit,
    Kill(u32),
}

impl AppView {
    /// The state after the selected row of the list has been chosen to be killed; a
    /// selection beyond the list chooses nothing.
    pub open spec fn targeted(self, rows: Seq<usize>) -> AppView {
        if self.selected_index < rows.len() {
            AppView {
                kill_confirm: Some(self.processes[rows[self.selected_index] as int].pid),
                ..self
            }
        } else {
            self
        }
    }

    /// The state after a key while the filter is typed.
    pub open spec fn typed(self, key: Key) -> AppView {
        match key {
            Key::Enter | Key::Esc => AppView { filter_editing: false, ..self },
            Key::Backspace => AppView {
                filter: if self.filter.len() > 0 {
                    self.filter.drop_last()
                } else {
                    self.filter
                },
                ..self
            },
            Key::Char(c) => AppView { filter: self.filter.push(c), ..self },
            _ => self,
        }
    }

    /// The state after a key that moves in the list or changes it. `rows` is the list.
    pub open spec fn commanded(self, key: Key, shift: bool, rows: Seq<usize>) -> AppView {
        match key {
            Key::Up => AppView {
                selected_index: if self.selected_index > 0 {
                    self.selected_index - 1
                } else {
                    0
                },
                ..self
            },
            Key::Down => AppView { selected_index: self.selected_index + 1, ..self },
            Key::Char(c) => if c == 's' && !shift {
                AppView {
                    sort_column: SortColumn::at((self.sort_column.place() + 1) % 7),
                    ..self
                }
            } else if c == 's' || c == 'S' {
                AppView {
                    sort_column: SortColumn::at((self.sort_column.place() + 6) % 7),
                    ..self
                }
            } else if c == 'o' {
                AppView { sort_ascending: !self.sort_ascending, ..self }
            } else if c == 'f' {
                AppView { filter_editing: true, ..self }
            } else if c == 'k' {
                self.targeted(rows)
            } else {
                self
            },
            _ => self,
        }
    }

    /// The state after a key on the screen of the process list, and the process to kill. A
    /// question whether to kill comes first, and any key answers it; then typing; then the
    /// commands.
    pub open spec fn listed_key(self, key: Key, shift: bool, rows: Seq<usize>) -> (
        AppView,
        Option<u32>,
    ) {
        match self.kill_confirm {
            Some(pid) => (
                AppView { kill_confirm: None, ..self },
                if key == Key::Char('y') {
                    Some(pid)
                } else {
                    None
                },
            ),
            None => if self.filter_editing {
                (self.typed(key), None)
            } else {
                (self.commanded(key, shift, rows), None)
            },
        }
    }

    /// Whether keys are commands: there is no question, and the filter is not being typed.
    pub open spec fn takes_commands(self) -> bool {
        self.kill_confirm is None && !self.filter_editing
    }
}

impl App {
    /// Chooses the selected row of the list to be killed.
    pub fn choose_target(&mut self, rows: &Vec<usize>)
        requires
            forall|i: int| 0 <= i < rows.len() ==> #[trigger] rows@[i] < old(self).processes.len(),
        ensures
            final(self)@ == old(self)@.targeted(rows@),
    {
        if self.selected_index < rows.len() {
            let row: usize = rows[self.selected_index];
            let pid: u32 = self.processes[row].pid;
            self.kill_confirm = Some(pid);
        }
    }

    fn type_key(&mut self, key: Key)
        ensures
            final(self)@ == old(self)@.typed(key),
    {
        match key {
            Key::Enter | Key::Esc => {
                self.filter_editing = false;
            },
            Key::Backspace => {
                let _ = self.filter.pop();
            },
            Key::Char(c) => {
                self.filter.push(c);
            },
            _ => {},
        }
    }

    fn command(&mut self, key: Key, shift: bool)
        requires
            key == Key::Down ==> old(self).selected_index < usize::MAX,
        ensures
            final(self)@ == old(self)@.commanded(key, shift, old(self)@.rows()),
    {
        match key {
            Key::Up => {
                self.selected_index = self.selected_index.saturating_sub(1);
            },
            Key::Down => {
                self.selected_index = self.selected_index + 1;
            },
            Key::Char(c) => {
                if c == 's' && !shift {
                    self.sort_column = self.sort_column.next();
                } else if c == 's' || c == 'S' {
                    self.sort_column = self.sort_column.prev();
                } else if c == 'o' {
                    self.sort_ascending = !self.sort_ascending;
                } else if c == 'f' {
                    self.filter_editing = true;
                } else if c == 'k' {
                    let rows = self.display_rows();
                    self.choose_target(&rows);
                }
            },
            _ => {},
        }
    }

    /// Handles a key on the screen of the process list. Returns the process to kill.
    pub fn handle_list_key(&mut self, key: Key, shift: bool) -> (kill: Option<u32>)
        requires
            key == Key::Down && old(self)@.takes_commands() ==> old(self).selected_index
                < usize::MAX,
        ensures
            (final(self)@, kill) == old(self)@.listed_key(key, shift, old(self)@.rows()),
    {
        if let Some(pid) = self.kill_confirm.take() {
            match key {
                Key::Char(c) => if c == 'y' {
                    Some(pid)
                } else {
                    None
                },
                _ => None,
            }
        } else if self.filter_editing {
            self.type_key(key);
            None
        } else {
            self.command(key, shift);
            None
        }
    }
}

/// On the process list, every key but those of the whole screen ends a question.
pub proof fn any_key_ends_a_question(a: AppView, key: Key, shift: bool)
    requires
        a.kill_confirm is Some,
    ensures
        a.listed_key(key, shift, a.rows()).0 == (AppView { kill_confirm: None, ..a }),
        a.listed_key(key, shift, a.rows()).1 is Some <==> key == Key::Char('y'),
{
}

/// Backspace takes back the character that was typed last.
pub proof fn backspace_undoes_typing(a: AppView, c: char)
    ensures
        a.typed(Key::Char(c)).typed(Key::Backspace) == a,
{
    assert(a.filter.push(c).drop_last() =~= a.filter);
}

/// The filter is edited at its end alone: a character is added there, and Backspace takes the
/// last one away. Enter and Esc end the typing and keep the filter. No other key does
/// anything, and nothing but the filter and the typing changes.
pub proof fn typing_edits_the_end_of_the_filter(a: AppView, key: Key, shift: bool)
    requires
        a.kill_confirm is None,
        a.filter_editing,
    ensures
        ({
            let (b, kill) = a.listed_key(key, shift, a.rows());
            &&& kill is None
            &&& b == (AppView { filter: b.filter, filter_editing: b.filter_editing, ..a })
            &&& b.filter_editing <==> key != Key::Enter && key != Key::Esc
            &&& key matches Key::Char(c) ==> b.filter == a.filter + seq![c]
            &&& key == Key::Backspace && a.filter.len() > 0 ==> b.filter + seq![
                a.filter[a.filter.len() - 1],
            ] == a.filter
            &&& key == Key::Backspace && a.filter.len() == 0 ==> b.filter == a.filter
            &&& key !is Char && key != Key::Backspace ==> b.filter == a.filter
        }),
{
    let b = a.listed_key(key, shift, a.rows()).0;
    if let Key::Char(c) = key {
        assert(b.filter =~= a.filter + seq![c]);
    }
    if key == Key::Backspace && a.filter.len() > 0 {
        assert(b.filter + seq![a.filter[a.filter.len() - 1]] =~= a.filter);
    }
}

/// A command never changes the filter, the processes or anything that was measured, and kills
/// nothing. Each of them changes one thing: the arrows move the selection by one row, but not
/// above the first; `s` goes to the next column and `S`, or `s` with shift, to the one before;
/// `o` turns the order round; `f` begins to type; `k` asks whether to kill the process in the
/// selected row, where there is one. No other key does anything.
pub proof fn each_command_changes_one_thing(a: AppView, key: Key, shift: bool)
    requires
        a.kill_confirm is None,
        !a.filter_editing,
        a.selected_index >= 0,
    ensures
        ({
            let (b, kill) = a.listed_key(key, shift, a.rows());
            let back = key == Key::Char('S') || (key == Key::Char('s') && shift);
            let on = key == Key::Char('s') && !shift;
            let (c, d) = (a.sort_column, b.sort_column);
            let hit = a.selected_index < a.rows().len();
            &&& kill is None
            &&& key == Key::Down ==> b == (AppView { selected_index: a.selected_index + 1, ..a })
            &&& key == Key::Up ==> b == (AppView { selected_index: b.selected_index, ..a })
            &&& key == Key::Up ==> b.selected_index == a.selected_index - (if a.selected_index
                == 0 {
                0int
            } else {
                1
            })
            &&& on || back ==> b == (AppView { sort_column: d, ..a })
            &&& on && c == SortColumn::Pid ==> d == SortColumn::Name
            &&& on && c == SortColumn::Name ==> d == SortColumn::Mem
            &&& on && c == SortColumn::Mem ==> d == SortColumn::SmUtil
            &&& on && c == SortColumn::SmUtil ==> d == SortColumn::MemUtil
            &&& on && c == SortColumn::MemUtil ==> d == SortColumn::EncUtil
            &&& on && c == SortColumn::EncUtil ==> d == SortColumn::DecUtil
            &&& on && c == SortColumn::DecUtil ==> d == SortColumn::Pid
            &&& back && d == SortColumn::Pid ==> c == SortColumn::Name
            &&& back && d == SortColumn::Name ==> c == SortColumn::Mem
            &&& back && d == SortColumn::Mem ==> c == SortColumn::SmUtil
            &&& back && d == SortColumn::SmUtil ==> c == SortColumn::MemUtil
            &&& back && d == SortColumn::MemUtil ==> c == SortColumn::EncUtil
            &&& back && d == SortColumn::EncUtil ==> c == SortColumn::DecUtil
            &&& back && d == SortColumn::DecUtil ==> c == SortColumn::Pid
            &&& key == Key::Char('o') ==> b == (AppView { sort_ascending: !a.sort_ascending, ..a })
            &&& key == Key::Char('f') ==> b == (AppView { filter_editing: true, ..a })
            &&& key == Key::Char('k') && hit ==> b == (AppView {
                kill_confirm: Some(a.processes[a.rows()[a.selected_index] as int].pid),
                ..a
            })
            &&& key == Key::Char('k') && !hit ==> b == a
            &&& b != a ==> {
                ||| key == Key::Up || key == Key::Down || on || back
                ||| key == Key::Char('o') || key == Key::Char('f') || key == Key::Char('k')
            }
        }),
{
}

/// A step down is taken back by a step up, and turning the order round by doing so again.
pub proof fn commands_undo_each_other(a: AppView, shift: bool)
    requires
        a.kill_confirm is None,
        !a.filter_editing,
        a.selected_index >= 0,
    ensures
        ({
            let down = a.listed_key(Key::Down, shift, a.rows()).0;
            let turned = a.listed_key(Key::Char('o'), shift, a.rows()).0;
            let next = a.listed_key(Key::Char('s'), false, a.rows()).0;
            &&& down.listed_key(Key::Up, shift, down.rows()).0 == a
            &&& turned.listed_key(Key::Char('o'), shift, turned.rows()).0 == a
            &&& next.listed_key(Key::Char('S'), shift, next.rows()).0 == a
            &&& next.listed_key(Key::Char('s'), true, next.rows()).0 == a
        }),
{
}

/// A question is answered by the next key, whichever it is: `y` kills the process that the
/// question is about, any other key kills nothing. Nothing else changes.
pub proof fn a_question_is_answered_once(a: AppView, key: Key, shift: bool, pid: u32)
    requires
        a.kill_confirm == Some(pid),
    ensures
        ({
            let (b, kill) = a.listed_key(key, shift, a.rows());
            &&& b == (AppView { kill_confirm: None, ..a })
            &&& key == Key::Char('y') ==> kill == Some(pid)
            &&& key != Key::Char('y') ==> kill is None
        }),
{
}

} // verus!
