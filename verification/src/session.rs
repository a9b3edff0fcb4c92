//! The navigation state machine and the session's decision logic: a
//! selection cursor over the fixed sequence of table names, advanced and
//! retreated with wraparound, with the content snapshot refreshed on every
//! change of selection.

use vstd::prelude::*;

verus! {

use crate::store::DbProperties;
use crate::store::is_read_outcome;
use crate::store::read_table;

/// One keyboard command of the session's input loop, already freed of the
/// terminal's own event encoding.
#[derive(Debug, Clone, Copy, PartialEq, Eq, Structural)]
pub enum InputEvent {
    Quit,
    Down,
    Up,
    Other,
}

/// The index selected after one forward step over `n` table names: the next
/// index with wraparound from the last to the first, and the first index
/// when nothing was selected.
pub open spec fn advance_cursor(cursor: Option<usize>, n: nat) -> nat
    recommends
        n > 0,
{
    match cursor {
        Some(i) => if i + 1 < n {
            (i + 1) as nat
        } else {
            0
        },
        None => 0,
    }
}

/// The index selected after one backward step over `n` table names: the
/// previous index with wraparound from the first to the last, and the
/// first index when nothing was selected.
pub open spec fn retreat_cursor(cursor: Option<usize>, n: nat) -> nat
    recommends
        n > 0,
{
    match cursor {
        Some(i) => if i == 0 {
            (n - 1) as nat
        } else {
            (i - 1) as nat
        },
        None => 0,
    }
}

/// Stepping in either direction from a selection always lands on a valid
/// index: in particular one forward step from the last index lands on the
/// first, and one backward step from the first index lands on the last.
pub proof fn lemma_cursor_always_valid(cursor: Option<usize>, n: usize)
    requires
        n > 0,
        cursor is Some ==> cursor->0 < n,
    ensures
        advance_cursor(cursor, n as nat) < n,
        retreat_cursor(cursor, n as nat) < n,
        cursor == Some((n - 1) as usize) ==> advance_cursor(cursor, n as nat) == 0,
        cursor == Some(0usize) ==> retreat_cursor(cursor, n as nat) == n - 1,
{
}

/// One forward step is the successor modulo the number of table names, and
/// one backward step adds the count less one modulo the same: the two
/// transition formulas written with modular arithmetic.
pub proof fn lemma_cursor_steps_are_modular(i: usize, n: nat)
    requires
        n > 0,
        i < n,
    ensures
        advance_cursor(Some(i), n) == (i + 1) % n as int,
        retreat_cursor(Some(i), n) == (i + n - 1) % n as int,
{
    if i + 1 < n {
        assert((i + 1) % n as int == i + 1) by (nonlinear_arith)
            requires
                0 <= i + 1 < n,
        ;
    } else {
        assert(n as int % n as int == 0) by (nonlinear_arith)
            requires
                n > 0,
        ;
    }
    if i == 0 {
        assert((n - 1) % n as int == n - 1) by (nonlinear_arith)
            requires
                n > 0,
        ;
    } else {
        assert((i + n - 1) % n as int == i - 1) by (nonlinear_arith)
            requires
                n > 0,
                1 <= i < n,
        ;
    }
}

/// The session's navigable state: the table names discovered at startup,
/// the selection cursor, the content snapshot of the selected table, and
/// the store properties fixed for the run.
pub struct Session {
    pub table_names: Vec<String>,
    pub cursor: Option<usize>,
    pub selected_table_content: Vec<(String, String)>,
    pub db_properties: DbProperties,
}

impl Session {
    /// The cursor denotes a valid index exactly as long as there are table
    /// names to select among.
    pub open spec fn wf(self) -> bool {
        &&& self.table_names@.len() == 0 ==> self.cursor is None
        &&& self.table_names@.len() > 0 ==> self.cursor is Some && self.cursor->0
            < self.table_names@.len()
    }

    /// Starts a session over the given table names: the first table is
    /// selected when any exists, and the content snapshot starts empty.
    pub fn new(table_names: Vec<String>, file_size: u64) -> (s: Session)
        ensures
            s.wf(),
            s.table_names == table_names,
            table_names@.len() > 0 ==> s.cursor == Some(0usize),
            table_names@.len() == 0 ==> s.cursor is None,
            s.selected_table_content@.len() == 0,
            s.db_properties.file_size == file_size,
            s.db_properties.num_tables == table_names@.len(),
    {
        let num_tables = table_names.len();
        let cursor: Option<usize> = if num_tables > 0 {
            Some(0)
        } else {
            None
        };
        Session {
            table_names,
            cursor,
            selected_table_content: Vec::new(),
            db_properties: DbProperties { file_size, num_tables },
        }
    }

    /// Re-reads the content snapshot for the selected table, so that it
    /// never reflects a stale table relative to the cursor.
    pub fn update_selected_table_content(&mut self, db: &redb::Database)
        ensures
            final(self).table_names == old(self).table_names,
            final(self).cursor == old(self).cursor,
            final(self).db_properties == old(self).db_properties,
            match old(self).cursor {
                Some(i) => i < old(self).table_names@.len() ==> is_read_outcome(
                    final(self).selected_table_content@,
                ),
                None => final(self).selected_table_content == old(self).selected_table_content,
            },
            old(self).cursor matches Some(i) && i >= old(self).table_names@.len()
                ==> final(self).selected_table_content == old(self).selected_table_content,
    {
        if let Some(selected) = self.cursor {
            if selected < self.table_names.len() {
                let name = &self.table_names[selected];
                self.selected_table_content = read_table(db, name.as_str());
            }
        }
    }

    /// Moves the selection one table forward, wrapping from the last table
    /// to the first, and refreshes the content snapshot; with no tables it
    /// is a no-op and the cursor stays unselected.
    pub fn advance(&mut self, db: &redb::Database)
        requires
            old(self).wf(),
        ensures
            final(self).wf(),
            final(self).table_names == old(self).table_names,
            final(self).db_properties == old(self).db_properties,
            old(self).table_names@.len() == 0 ==> final(self).cursor == old(self).cursor
                && final(self).selected_table_content == old(self).selected_table_content,
            old(self).table_names@.len() > 0 ==> final(self).cursor == Some(
                advance_cursor(old(self).cursor, old(self).table_names@.len()) as usize,
            ) && is_read_outcome(final(self).selected_table_content@),
    {
        let n = self.table_names.len();
        if n == 0 {
            return ;
        }
        let i: usize = match self.cursor {
            Some(i) => if i >= n - 1 {
                0
            } else {
                i + 1
            },
            None => 0,
        };
        self.cursor = Some(i);
        self.update_selected_table_content(db);
    }

    /// Moves the selection one table backward, wrapping from the first
    /// table to the last, and refreshes the content snapshot; with no
    /// tables it is a no-op and the cursor stays unselected.
    pub fn retreat(&mut self, db: &redb::Database)
        requires
            old(self).wf(),
        ensures
            final(self).wf(),
            final(self).table_names == old(self).table_names,
            final(self).db_properties == old(self).db_properties,
            old(self).table_names@.len() == 0 ==> final(self).cursor == old(self).cursor
                && final(self).selected_table_content == old(self).selected_table_content,
            old(self).table_names@.len() > 0 ==> final(self).cursor == Some(
                retreat_cursor(old(self).cursor, old(self).table_names@.len()) as usize,
            ) && is_read_outcome(final(self).selected_table_content@),
    {
        let n = self.table_names.len();
        if n == 0 {
            return ;
        }
        let i: usize = match self.cursor {
            Some(i) => if i == 0 {
                n - 1
            } else {
                i - 1
            },
            None => 0,
        };
        self.cursor = Some(i);
        self.update_selected_table_content(db);
    }

    /// The name of the selected table, when one is selected.
    pub fn selected_table_name(&self) -> (r: Option<&String>)
        ensures
            match self.cursor {
                Some(i) => if i < self.table_names@.len() {
                    r matches Some(name) && *name == self.table_names@[i as int]
                } else {
                    r is None
                },
                None => r is None,
            },
    {
        match self.cursor {
            Some(i) => if i < self.table_names.len() {
                Some(&self.table_names[i])
            } else {
                None
            },
            None => None,
        }
    }

    /// Decides one input event: a quit command asks the caller to return
    /// control, the directional commands step the selection, and anything
    /// else changes nothing.
    pub fn handle_event(&mut self, db: &redb::Database, event: InputEvent) -> (quit: bool)
        requires
            old(self).wf(),
        ensures
            final(self).wf(),
            quit <==> event == InputEvent::Quit,
            final(self).table_names == old(self).table_names,
            final(self).db_properties == old(self).db_properties,
            event == InputEvent::Quit || event == InputEvent::Other ==> *final(self) == *old(
                self,
            ),
            event == InputEvent::Down && old(self).table_names@.len() > 0 ==> final(self).cursor
                == Some(advance_cursor(old(self).cursor, old(self).table_names@.len()) as usize)
                && is_read_outcome(final(self).selected_table_content@),
            event == InputEvent::Up && old(self).table_names@.len() > 0 ==> final(self).cursor
                == Some(retreat_cursor(old(self).cursor, old(self).table_names@.len()) as usize)
                && is_read_outcome(final(self).selected_table_content@),
            old(self).table_names@.len() == 0 ==> final(self).cursor == old(self).cursor,
    {
        match event {
            InputEvent::Quit => true,
            InputEvent::Down => {
                self.advance(db);
                false
            },
            InputEvent::Up => {
                self.retreat(db);
                false
            },
            InputEvent::Other => false,
        }
    }
}

} // verus!
