//! The task list laid out as a table.

use crate::task::{is_status_text, Task, TaskView};
use crate::text::{decimal_string, decimal_text, lemma_decimal_text};
use prettytable::Row;
use prettytable::Table;
use vstd::prelude::*;
use vstd::std_specs::iter::IteratorSpec;
use vstd::string::StringExecFns;

verus! {

/// `prettytable::Table`, taken as it is: what it holds is known through
/// `table_rows` alone.
#[verifier::external_type_specification]
#[verifier::external_body]
pub struct ExTable(prettytable::Table);

/// What a table holds: for each row, in order, the text of each of its cells,
/// as `Cell::get_content` gives it. The title row, which this library leaves
/// unset, is no part of it.
pub uninterp spec fn table_rows(table: Table) -> Seq<Seq<Seq<char>>>;

/// Whether the escape character occurs in `text`.
pub open spec fn has_escape(text: Seq<char>) -> bool {
    exists|i: int| 0 <= i < text.len() && #[trigger] text[i] == '\u{1b}'
}

/// Whether `text` is free of line breaks, so that a cell shows it as it is.
pub open spec fn one_line(text: Seq<char>) -> bool {
    forall|i: int| 0 <= i < text.len() ==> #[trigger] text[i] != '\n' && text[i] != '\r'
}

/// The texts that a cell is made of here: those without an escape character,
/// and the status markers, whose escape sequences are known.
pub open spec fn cell_safe(text: Seq<char>) -> bool {
    !has_escape(text) || is_status_text(true, text) || is_status_text(false, text)
}

/// `Table::new`: a table without rows.
#[verifier::external_body]
fn empty_table() -> (table: Table)
    ensures
        table_rows(table) == Seq::<Seq<Seq<char>>>::empty(),
{
    Table::new()
}

/// `Table::add_row` on the row that `Row::from` makes of `cells`, with
/// `Cell::new` on each text. The rows that were there stay, and one row follows
/// them with a cell for each text. `Cell::new` splits its text at line breaks,
/// so a cell is claimed to hold just its text only where the text has none.
/// It also measures the text, and panics if it counts more characters inside
/// escape sequences than columns in all. The texts are therefore required to
/// be free of the escape character, so that the count is zero, or to be status
/// markers, where it is seven or three and the columns are more.
#[verifier::external_body]
fn push_row(table: &mut Table, cells: &Vec<String>)
    requires
        forall|i: int| 0 <= i < cells.len() ==> cell_safe(#[trigger] cells[i]@),
    ensures
        table_rows(*final(table)).len() == table_rows(*old(table)).len() + 1,
        table_rows(*final(table)).drop_last() == table_rows(*old(table)),
        table_rows(*final(table)).last().len() == cells.len(),
        forall|i: int|
            0 <= i < cells.len() && one_line(#[trigger] cells[i]@) ==> table_rows(
                *final(table),
            ).last()[i] == cells[i]@,
{
    table.add_row(Row::from(cells));
}

/// The first row of the task table: the names of its three columns.
pub open spec fn header_row() -> Seq<Seq<char>> {
    seq!["ID"@, "Description"@, "Status"@]
}

/// Whether `row` shows `task`: its identifier in decimal notation, its
/// description, and a marker for its state. Nothing is said of the second cell
/// where the description holds a line break.
pub open spec fn is_task_row(task: TaskView, row: Seq<Seq<char>>) -> bool {
    &&& row.len() == 3
    &&& row[0] == decimal_text(task.id)
    &&& one_line(task.description) ==> row[1] == task.description
    &&& is_status_text(task.completed, row[2])
}

/// Whether `rows` are the header and then one row for each of `tasks`, in order.
pub open spec fn is_task_table(tasks: Seq<Task>, rows: Seq<Seq<Seq<char>>>) -> bool {
    &&& rows.len() == tasks.len() + 1
    &&& rows[0] == header_row()
    &&& forall|i: int| 0 <= i < tasks.len() ==> is_task_row(tasks[i]@, #[trigger] rows[i + 1])
}

/// Whether a table can be made of `tasks`: no description holds an escape character.
pub open spec fn can_tabulate(tasks: Seq<Task>) -> bool {
    forall|i: int| 0 <= i < tasks.len() ==> !has_escape(#[trigger] tasks[i].description@)
}

/// Tells whether the escape character occurs in `text`.
pub fn holds_escape(text: &str) -> (b: bool)
    ensures
        b == has_escape(text@),
{
    let mut it = text.chars();
    let ghost mut i: int = 0;
    loop
        invariant
            0 <= i <= text@.len(),
            it.remaining() == text@.subrange(i, text@.len() as int),
            forall|j: int| 0 <= j < i ==> text@[j] != '\u{1b}',
        decreases text@.len() - i,
    {
        match it.next() {
            Some(c) => {
                if c == '\u{1b}' {
                    return true;
                }
                proof {
                    i = i + 1;
                }
            },
            None => {
                return false;
            },
        }
    }
}

/// The three cells of a task's row, given the marker for its state.
pub fn task_cells(task: &Task, status: String) -> (cells: Vec<String>)
    ensures
        cells@.len() == 3,
        cells@[0]@ == decimal_text(task.id as nat),
        cells@[1]@ == task.description@,
        cells@[2] == status,
{
    let mut cells: Vec<String> = Vec::new();
    cells.push(decimal_string(task.id));
    cells.push(task.description.clone());
    cells.push(status);
    cells
}

fn header_cells() -> (cells: Vec<String>)
    ensures
        cells@.len() == 3,
        cells@[0]@ == "ID"@,
        cells@[1]@ == "Description"@,
        cells@[2]@ == "Status"@,
{
    let mut cells: Vec<String> = Vec::new();
    cells.push(String::from_str("ID"));
    cells.push(String::from_str("Description"));
    cells.push(String::from_str("Status"));
    cells
}

/// Lays `tasks` out as a table: a header, then a row for each task with its
/// identifier, its description and the marker for its state.
pub fn task_table(tasks: &Vec<Task>) -> (table: Table)
    requires
        can_tabulate(tasks@),
    ensures
        is_task_table(tasks@, table_rows(table)),
{
    let mut table = empty_table();
    let header = header_cells();
    proof {
        reveal_strlit("ID");
        reveal_strlit("Description");
        reveal_strlit("Status");
    }
    push_row(&mut table, &header);
    let n: usize = tasks.len();
    let mut i: usize = 0;
    while i < n
        invariant
            n == tasks.len(),
            0 <= i <= n,
            can_tabulate(tasks@),
            table_rows(table).len() == i + 1,
            table_rows(table)[0] == header_row(),
            forall|j: int| 0 <= j < i ==> is_task_row(tasks[j]@, #[trigger] table_rows(table)[j + 1]),
        decreases n - i,
    {
        let ghost before = table_rows(table);
        let task = &tasks[i];
        let cells = task_cells(task, task.status());
        proof {
            lemma_decimal_safe(task.id as nat);
        }
        push_row(&mut table, &cells);
        proof {
            let after = table_rows(table);
            assert forall|j: int| 0 <= j < i + 1 implies is_task_row(
                tasks[j]@,
                #[trigger] after[j + 1],
            ) by {
                if j < i {
                    assert(after[j + 1] == after.drop_last()[j + 1]);
                }
            }
        }
        i = i + 1;
    }
    table
}

/// Lays `tasks` out as a table, unless a description holds an escape character.
pub fn try_task_table(tasks: &Vec<Task>) -> (table: Option<Table>)
    ensures
        table is Some <==> can_tabulate(tasks@),
        table matches Some(t) ==> is_task_table(tasks@, table_rows(t)),
{
    let n: usize = tasks.len();
    let mut i: usize = 0;
    while i < n
        invariant
            n == tasks.len(),
            0 <= i <= n,
            forall|j: int| 0 <= j < i ==> !has_escape(#[trigger] tasks[j].description@),
        decreases n - i,
    {
        if holds_escape(tasks[i].description.as_str()) {
            return None;
        }
        i = i + 1;
    }
    Some(task_table(tasks))
}

/// Decimal notation holds no escape character and no line break.
pub proof fn lemma_decimal_safe(n: nat)
    ensures
        !has_escape(decimal_text(n)),
        one_line(decimal_text(n)),
{
    lemma_decimal_text(n);
}

} // verus!
