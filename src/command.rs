//! Commands typed by the user, and what each does to the task list and to
//! the view: the ordered positions of the tasks on show.

use crate::date::{today, Date};
use crate::select::{key_precedes, select_sorted, sorted_selection};
use crate::text::{join, join_words, split_words, strings_view, words};
use crate::todo::{
    add_error_text, lemma_mark_done_idempotent, marked_done, parse_line, stamped, Todo, TodoView,
};
use vstd::prelude::*;

verus! {

/// A command read from the user's input.
#[derive(Debug)]
pub enum Command {
    /// Reload the list and show all of it.
    List,
    /// Add the task written in the text.
    Add(String),
    /// Mark done the task at this 1-based position of the view.
    Done(usize),
    /// Delete the task at this 1-based position of the view.
    Remove(usize),
    /// Show the open tasks with a due date, earliest first.
    Closest,
    /// Show the open tasks with a priority, highest first.
    Important,
    /// Nothing was typed.
    Empty,
    /// A known command whose argument is missing or malformed.
    Malformed(String),
    /// A word that names no command.
    Unknown(String),
}

/// A command as plain values.
pub enum CommandView {
    List,
    Add(Seq<char>),
    Done(usize),
    Remove(usize),
    Closest,
    Important,
    Empty,
    Malformed(Seq<char>),
    Unknown(Seq<char>),
}

impl View for Command {
    type V = CommandView;

    open spec fn view(&self) -> CommandView {
        match self {
            Command::List => CommandView::List,
            Command::Add(s) => CommandView::Add(s@),
            Command::Done(n) => CommandView::Done(*n),
            Command::Remove(n) => CommandView::Remove(*n),
            Command::Closest => CommandView::Closest,
            Command::Important => CommandView::Important,
            Command::Empty => CommandView::Empty,
            Command::Malformed(s) => CommandView::Malformed(s@),
            Command::Unknown(s) => CommandView::Unknown(s@),
        }
    }
}

pub open spec fn is_digit(c: char) -> bool {
    '0' as u32 <= c as u32 <= '9' as u32
}

/// The number that a string of decimal digits denotes.
pub open spec fn digits_value(s: Seq<char>) -> int
    decreases s.len(),
{
    if s.len() == 0 {
        0
    } else {
        digits_value(s.drop_last()) * 10 + (s.last() as u32 - '0' as u32)
    }
}

/// What reading `s` as an unsigned machine number gives: an optional `+`,
/// then one or more decimal digits, of a value that fits in a `usize`.
pub open spec fn usize_of_text(s: Seq<char>) -> Option<usize> {
    let d = if s.len() > 0 && s[0] == '+' { s.skip(1) } else { s };
    if d.len() > 0 && (forall|i: int| 0 <= i < d.len() ==> is_digit(#[trigger] d[i]))
        && digits_value(d) <= usize::MAX {
        Some(digits_value(d) as usize)
    } else {
        None
    }
}

/// Relies on `str::parse::<usize>`, which accepts an optional `+` followed
/// by decimal digits whose value fits in a `usize`, and nothing else.
#[verifier::external_body]
fn parse_usize(s: &str) -> (r: Option<usize>)
    ensures
        r == usize_of_text(s@),
{
    s.parse::<usize>().ok()
}

/// The command that the words of the input select: the first word names it
/// and the others, joined, are its argument.
pub open spec fn command_of(ws: Seq<Seq<char>>) -> CommandView {
    if ws.len() == 0 {
        CommandView::Empty
    } else {
        let kw = ws[0];
        let rest = ws.skip(1);
        let arg = join(rest);
        if kw == "list"@ {
            CommandView::List
        } else if kw == "add"@ {
            if rest.len() == 0 {
                CommandView::Malformed(kw)
            } else {
                CommandView::Add(arg)
            }
        } else if kw == "done"@ || kw == "remove"@ || kw == "rm"@ {
            match usize_of_text(arg) {
                Some(n) => if kw == "done"@ {
                    CommandView::Done(n)
                } else {
                    CommandView::Remove(n)
                },
                None => CommandView::Malformed(kw),
            }
        } else if kw == "closest"@ || kw == "sd"@ {
            CommandView::Closest
        } else if kw == "important"@ || kw == "sp"@ {
            CommandView::Important
        } else {
            CommandView::Unknown(kw)
        }
    }
}

/// The command that an input line selects.
pub open spec fn parse_command(s: Seq<char>) -> CommandView {
    command_of(words(s))
}

fn same_text(a: &str, b: &str) -> (r: bool)
    ensures
        r == (a@ == b@),
{
    let n = a.unicode_len();
    if n != b.unicode_len() {
        return false;
    }
    let mut i: usize = 0;
    while i < n
        invariant
            n == a@.len(),
            n == b@.len(),
            i <= n,
            forall|j: int| 0 <= j < i ==> a@[j] == b@[j],
        decreases n - i,
    {
        if a.get_char(i) != b.get_char(i) {
            return false;
        }
        i = i + 1;
    }
    assert(a@ =~= b@);
    true
}

fn copy_words_from(ws: &Vec<String>, k: usize) -> (r: Vec<String>)
    requires
        k <= ws@.len(),
    ensures
        strings_view(r@) == strings_view(ws@).skip(k as int),
{
    let mut r: Vec<String> = Vec::new();
    let mut i: usize = k;
    while i < ws.len()
        invariant
            k <= i <= ws@.len(),
            strings_view(r@) == strings_view(ws@).subrange(k as int, i as int),
        decreases ws@.len() - i,
    {
        let ghost before = r@;
        r.push(ws[i].clone());
        assert(strings_view(r@) =~= strings_view(before).push(ws@[i as int]@));
        assert(strings_view(ws@).subrange(k as int, i + 1) =~= strings_view(ws@).subrange(
            k as int,
            i as int,
        ).push(ws@[i as int]@));
        i = i + 1;
    }
    assert(strings_view(ws@).subrange(k as int, ws@.len() as int) =~= strings_view(ws@).skip(
        k as int,
    ));
    r
}

impl Command {
    /// Reads a command: the first word of the input selects it and the rest,
    /// with its spacing made single, is its argument. `remove` may be written
    /// `rm`, `closest` `sd` and `important` `sp`.
    pub fn parse(input: &str) -> (r: Command)
        ensures
            r@ == parse_command(input@),
    {
        proof {
            reveal_strlit("list");
            reveal_strlit("add");
            reveal_strlit("done");
            reveal_strlit("remove");
            reveal_strlit("rm");
            reveal_strlit("closest");
            reveal_strlit("sd");
            reveal_strlit("important");
            reveal_strlit("sp");
        }
        let ws = split_words(input);
        let ghost sv = strings_view(ws@);
        if ws.len() == 0 {
            return Command::Empty;
        }
        let kw = ws[0].as_str();
        assert(kw@ == sv[0]);
        let rest = copy_words_from(&ws, 1);
        let arg = join_words(&rest);
        if same_text(kw, "list") {
            Command::List
        } else if same_text(kw, "add") {
            if rest.len() == 0 {
                Command::Malformed(kw.to_string())
            } else {
                Command::Add(arg)
            }
        } else if same_text(kw, "done") || same_text(kw, "remove") || same_text(kw, "rm") {
            match parse_usize(arg.as_str()) {
                Some(n) => if same_text(kw, "done") {
                    Command::Done(n)
                } else {
                    Command::Remove(n)
                },
                None => Command::Malformed(kw.to_string()),
            }
        } else if same_text(kw, "closest") || same_text(kw, "sd") {
            Command::Closest
        } else if same_text(kw, "important") || same_text(kw, "sp") {
            Command::Important
        } else {
            Command::Unknown(kw.to_string())
        }
    }
}

/// The kinds of failure of a command.
#[derive(Clone, Copy, Debug, PartialEq, Eq, Structural)]
pub enum ErrorKind {
    /// The argument of a command is missing or malformed.
    Usage,
    /// The task to add has no content.
    Validation,
    /// The position lies outside the view.
    Range,
    /// The first word names no command.
    UnknownCommand,
}

/// What the caller is to do with storage after a command.
#[derive(Clone, Copy, Debug, PartialEq, Eq, Structural)]
pub enum Storage {
    /// Nothing.
    Unchanged,
    /// Load the whole list again and show all of it.
    Reload,
    /// Append the last task of the list.
    Append,
    /// Write the whole list, then load it again and show all of it.
    Rewrite,
}

/// What a command reports back.
#[derive(Debug)]
pub struct CommandResult {
    /// The message for the user, where the command failed.
    pub error: Option<String>,
    /// The kind of failure, where the command failed.
    pub kind: Option<ErrorKind>,
    /// What to do with storage.
    pub storage: Storage,
}

/// The state after a command, as plain values.
pub struct Outcome {
    pub todos: Seq<TodoView>,
    pub view: Seq<usize>,
    pub kind: Option<ErrorKind>,
    pub message: Option<Seq<char>>,
    pub storage: Storage,
}

pub open spec fn models(s: Seq<Todo>) -> Seq<TodoView> {
    s.map_values(|t: Todo| t@)
}

pub open spec fn all_valid(s: Seq<Todo>) -> bool {
    forall|i: int| 0 <= i < s.len() ==> (#[trigger] s[i]).wf()
}

/// Every position of the view names a task of the list.
pub open spec fn view_in_range(view: Seq<usize>, n: int) -> bool {
    forall|i: int| 0 <= i < view.len() ==> #[trigger] view[i] < n
}

/// The view of all `n` tasks in list order.
pub open spec fn all_positions(n: int) -> Seq<usize> {
    Seq::new(n as nat, |i: int| i as usize)
}

pub open spec fn open_due(t: TodoView) -> Option<Date> {
    if t.completion { None } else { t.due }
}

pub open spec fn open_priority(t: TodoView) -> Option<char> {
    if t.completion { None } else { t.priority }
}

/// `v` lists the open tasks with a due date, each once, by due date and,
/// among equal dates, in list order.
pub open spec fn due_order(todos: Seq<TodoView>, v: Seq<usize>) -> bool {
    &&& forall|i: int| 0 <= i < v.len() ==> v[i] < todos.len() && (open_due(todos[#[trigger] v[i] as int]) is Some)
    &&& forall|x: int| 0 <= x < todos.len() && (open_due(#[trigger] todos[x]) is Some) ==> exists|i: int|
        0 <= i < v.len() && v[i] == x
    &&& forall|a: int, b: int| 0 <= a < b < v.len() ==> {
        let dx = open_due(todos[#[trigger] v[a] as int])->0;
        let dy = open_due(todos[#[trigger] v[b] as int])->0;
        dx.before(dy) || (dx == dy && v[a] < v[b])
    }
}

/// `v` lists the open tasks with a priority, each once, by priority letter
/// and, among equal letters, in list order.
pub open spec fn priority_order(todos: Seq<TodoView>, v: Seq<usize>) -> bool {
    &&& forall|i: int| 0 <= i < v.len() ==> v[i] < todos.len() && (open_priority(todos[#[trigger] v[i] as int]) is Some)
    &&& forall|x: int| 0 <= x < todos.len() && (open_priority(#[trigger] todos[x]) is Some) ==> exists|i: int|
        0 <= i < v.len() && v[i] == x
    &&& forall|a: int, b: int| 0 <= a < b < v.len() ==> {
        let px = open_priority(todos[#[trigger] v[a] as int])->0 as u32;
        let py = open_priority(todos[#[trigger] v[b] as int])->0 as u32;
        px < py || (px == py && v[a] < v[b])
    }
}

pub open spec fn range_text() -> Seq<char> {
    "Invalid ID"@
}

pub open spec fn usage_text(kw: Seq<char>) -> Seq<char> {
    "Missing or invalid argument for "@ + kw
}

pub open spec fn unknown_text(kw: Seq<char>) -> Seq<char> {
    "Unknown command: "@ + kw
}

/// The position `id` (counted from 1) lies in the view.
pub open spec fn resolves(view: Seq<usize>, id: usize) -> bool {
    1 <= id <= view.len()
}

pub open spec fn succeeded(out: Outcome) -> bool {
    out.kind is None && out.message is None
}

pub open spec fn fails_with(
    todos: Seq<TodoView>,
    view: Seq<usize>,
    out: Outcome,
    kind: ErrorKind,
    message: Seq<char>,
) -> bool {
    &&& out.todos == todos
    &&& out.view == view
    &&& out.storage == Storage::Unchanged
    &&& out.kind == Some(kind)
    &&& out.message == Some(message)
}

/// `out` is what running `cmd` on the list `todos` shown as `view` gives,
/// when today is `today`.
pub open spec fn command_outcome(
    todos: Seq<TodoView>,
    view: Seq<usize>,
    cmd: CommandView,
    today: Date,
    out: Outcome,
) -> bool {
    match cmd {
        CommandView::Empty => out.todos == todos && out.view == view && out.storage
            == Storage::Unchanged && succeeded(out),
        CommandView::List => out.todos == todos && out.view == all_positions(todos.len() as int)
            && out.storage == Storage::Reload && succeeded(out),
        CommandView::Add(text) => {
            let t = parse_line(text);
            if t.content.len() == 0 {
                fails_with(todos, view, out, ErrorKind::Validation, add_error_text())
            } else {
                &&& out.todos == todos.push(stamped(t, today))
                &&& out.view == all_positions(todos.len() + 1int)
                &&& out.storage == Storage::Append
                &&& succeeded(out)
            }
        },
        CommandView::Done(id) => if resolves(view, id) {
            let k = view[id - 1] as int;
            &&& out.todos == todos.update(k, marked_done(todos[k], today))
            &&& out.view == all_positions(todos.len() as int)
            &&& out.storage == Storage::Rewrite
            &&& succeeded(out)
        } else {
            fails_with(todos, view, out, ErrorKind::Range, range_text())
        },
        CommandView::Remove(id) => if resolves(view, id) {
            let k = view[id - 1] as int;
            &&& out.todos == todos.remove(k)
            &&& out.view == all_positions(todos.len() - 1int)
            &&& out.storage == Storage::Rewrite
            &&& succeeded(out)
        } else {
            fails_with(todos, view, out, ErrorKind::Range, range_text())
        },
        CommandView::Closest => out.todos == todos && due_order(todos, out.view) && out.storage
            == Storage::Unchanged && succeeded(out),
        CommandView::Important => out.todos == todos && priority_order(todos, out.view)
            && out.storage == Storage::Unchanged && succeeded(out),
        CommandView::Malformed(kw) => fails_with(todos, view, out, ErrorKind::Usage, usage_text(kw)),
        CommandView::Unknown(kw) => fails_with(
            todos,
            view,
            out,
            ErrorKind::UnknownCommand,
            unknown_text(kw),
        ),
    }
}

pub open spec fn outcome_of(todos: Seq<Todo>, view: Seq<usize>, r: CommandResult) -> Outcome {
    Outcome {
        todos: models(todos),
        view,
        kind: r.kind,
        message: match r.error {
            Some(e) => Some(e@),
            None => None,
        },
        storage: r.storage,
    }
}

/// The view of all `n` tasks in list order.
pub fn all_positions_of(n: usize) -> (r: Vec<usize>)
    ensures
        r@ == all_positions(n as int),
{
    let mut r: Vec<usize> = Vec::new();
    let mut i: usize = 0;
    while i < n
        invariant
            i <= n,
            r@ =~= all_positions(i as int),
        decreases n - i,
    {
        r.push(i);
        i = i + 1;
    }
    r
}

fn done_with(storage: Storage) -> (r: CommandResult)
    ensures
        r.error is None,
        r.kind is None,
        r.storage == storage,
{
    CommandResult { error: None, kind: None, storage }
}

fn failed(kind: ErrorKind, message: String) -> (r: CommandResult)
    ensures
        r.error matches Some(e) && e@ == message@,
        r.kind == Some(kind),
        r.storage == Storage::Unchanged,
{
    CommandResult { error: Some(message), kind: Some(kind), storage: Storage::Unchanged }
}

fn message_with(prefix: &str, word: &str) -> (r: String)
    ensures
        r@ == prefix@ + word@,
{
    let mut r = prefix.to_string();
    r.append(word);
    r
}

/// The keys that order the open tasks by due date.
pub open spec fn due_keys(todos: Seq<TodoView>) -> Seq<Option<i64>> {
    Seq::new(
        todos.len(),
        |i: int|
            match open_due(todos[i]) {
                Some(d) => Some(d.rank_spec() as i64),
                None => None,
            },
    )
}

/// The keys that order the open tasks by priority letter.
pub open spec fn priority_keys(todos: Seq<TodoView>) -> Seq<Option<i64>> {
    Seq::new(
        todos.len(),
        |i: int|
            match open_priority(todos[i]) {
                Some(p) => Some(p as u32 as i64),
                None => None,
            },
    )
}

fn due_keys_of(todos: &Vec<Todo>) -> (r: Vec<Option<i64>>)
    requires
        all_valid(todos@),
    ensures
        r@ == due_keys(models(todos@)),
{
    let mut r: Vec<Option<i64>> = Vec::new();
    let mut i: usize = 0;
    while i < todos.len()
        invariant
            i <= todos@.len(),
            all_valid(todos@),
            r@ =~= due_keys(models(todos@)).subrange(0, i as int),
        decreases todos@.len() - i,
    {
        let t = &todos[i];
        assert(t.wf());
        let k = match t.due_uncompleted() {
            Some(d) => Some(d.rank()),
            None => None,
        };
        r.push(k);
        i = i + 1;
    }
    r
}

fn priority_keys_of(todos: &Vec<Todo>) -> (r: Vec<Option<i64>>)
    ensures
        r@ == priority_keys(models(todos@)),
{
    let mut r: Vec<Option<i64>> = Vec::new();
    let mut i: usize = 0;
    while i < todos.len()
        invariant
            i <= todos@.len(),
            r@ =~= priority_keys(models(todos@)).subrange(0, i as int),
        decreases todos@.len() - i,
    {
        let k = match todos[i].priority_uncompleted() {
            Some(p) => Some(p as u32 as i64),
            None => None,
        };
        r.push(k);
        i = i + 1;
    }
    r
}

proof fn lemma_due_order(todos: Seq<Todo>, v: Seq<usize>)
    requires
        all_valid(todos),
        sorted_selection(due_keys(models(todos)), v),
    ensures
        due_order(models(todos), v),
{
    let ts = models(todos);
    let keys = due_keys(ts);
    assert forall|a: int, b: int| 0 <= a < b < v.len() implies {
        let dx = open_due(ts[#[trigger] v[a] as int])->0;
        let dy = open_due(ts[#[trigger] v[b] as int])->0;
        dx.before(dy) || (dx == dy && v[a] < v[b])
    } by {
        let x = v[a] as int;
        let y = v[b] as int;
        assert(key_precedes(keys, x, y));
        assert(todos[x].wf() && todos[y].wf());
        let dx = open_due(ts[x])->0;
        let dy = open_due(ts[y])->0;
        dx.lemma_rank_orders(dy);
    }
    assert forall|x: int| 0 <= x < ts.len() && (open_due(#[trigger] ts[x]) is Some) implies exists|i: int|
        0 <= i < v.len() && v[i] == x by {
        assert(keys[x] is Some);
    }
}

proof fn lemma_priority_order(todos: Seq<Todo>, v: Seq<usize>)
    requires
        sorted_selection(priority_keys(models(todos)), v),
    ensures
        priority_order(models(todos), v),
{
    let ts = models(todos);
    let keys = priority_keys(ts);
    assert forall|a: int, b: int| 0 <= a < b < v.len() implies {
        let px = open_priority(ts[#[trigger] v[a] as int])->0 as u32;
        let py = open_priority(ts[#[trigger] v[b] as int])->0 as u32;
        px < py || (px == py && v[a] < v[b])
    } by {
        assert(key_precedes(keys, v[a] as int, v[b] as int));
    }
    assert forall|x: int| 0 <= x < ts.len() && (open_priority(#[trigger] ts[x]) is Some) implies exists|i: int|
        0 <= i < v.len() && v[i] == x by {
        assert(keys[x] is Some);
    }
}

/// Runs one command on the list `todos` shown as `view`, with `today` as
/// the date of new and completed tasks. A command either succeeds or leaves
/// list and view as they were; `storage` says what the caller is to do to
/// keep the stored list in step.
pub fn execute_command_on(
    todos: &mut Vec<Todo>,
    view: &mut Vec<usize>,
    input: &str,
    today: Date,
) -> (r: CommandResult)
    requires
        today.valid(),
        all_valid(old(todos)@),
        view_in_range(old(view)@, old(todos)@.len() as int),
        old(todos)@.len() < usize::MAX,
    ensures
        command_outcome(
            models(old(todos)@),
            old(view)@,
            parse_command(input@),
            today,
            outcome_of(final(todos)@, final(view)@, r),
        ),
        all_valid(final(todos)@),
        view_in_range(final(view)@, final(todos)@.len() as int),
{
    proof {
        reveal_strlit("Invalid ID");
    }
    let ghost old_todos = todos@;
    let cmd = Command::parse(input);
    match cmd {
        Command::Empty => done_with(Storage::Unchanged),
        Command::List => {
            *view = all_positions_of(todos.len());
            done_with(Storage::Reload)
        },
        Command::Add(text) => match Todo::from_add_on(text.as_str(), today) {
            Ok(t) => {
                todos.push(t);
                assert(models(todos@) =~= models(old_todos).push(t@));
                *view = all_positions_of(todos.len());
                done_with(Storage::Append)
            },
            Err(e) => failed(ErrorKind::Validation, e),
        },
        Command::Done(id) => {
            if id >= 1 && id <= view.len() {
                let k = view[id - 1];
                let mut t = todos.remove(k);
                t.mark_done_on(today);
                let ghost marked = t@;
                todos.insert(k, t);
                assert(models(todos@) =~= models(old_todos).update(k as int, marked));
                *view = all_positions_of(todos.len());
                done_with(Storage::Rewrite)
            } else {
                failed(ErrorKind::Range, "Invalid ID".to_string())
            }
        },
        Command::Remove(id) => {
            if id >= 1 && id <= view.len() {
                let k = view[id - 1];
                todos.remove(k);
                assert(models(todos@) =~= models(old_todos).remove(k as int));
                *view = all_positions_of(todos.len());
                done_with(Storage::Rewrite)
            } else {
                failed(ErrorKind::Range, "Invalid ID".to_string())
            }
        },
        Command::Closest => {
            let keys = due_keys_of(todos);
            let v = select_sorted(&keys);
            proof {
                lemma_due_order(todos@, v@);
            }
            *view = v;
            done_with(Storage::Unchanged)
        },
        Command::Important => {
            let keys = priority_keys_of(todos);
            let v = select_sorted(&keys);
            proof {
                lemma_priority_order(todos@, v@);
            }
            *view = v;
            done_with(Storage::Unchanged)
        },
        Command::Malformed(kw) => failed(
            ErrorKind::Usage,
            message_with("Missing or invalid argument for ", kw.as_str()),
        ),
        Command::Unknown(kw) => failed(
            ErrorKind::UnknownCommand,
            message_with("Unknown command: ", kw.as_str()),
        ),
    }
}

/// Runs one command on the list `todos` shown as `view`, dating new and
/// completed tasks with today's date.
pub fn execute_command(todos: &mut Vec<Todo>, view: &mut Vec<usize>, input: &str) -> (r:
    CommandResult)
    requires
        all_valid(old(todos)@),
        view_in_range(old(view)@, old(todos)@.len() as int),
        old(todos)@.len() < usize::MAX,
    ensures
        exists|d: Date|
            d.valid() && command_outcome(
                models(old(todos)@),
                old(view)@,
                parse_command(input@),
                d,
                outcome_of(final(todos)@, final(view)@, r),
            ),
        all_valid(final(todos)@),
        view_in_range(final(view)@, final(todos)@.len() as int),
{
    let d = today();
    execute_command_on(todos, view, input, d)
}

/// Running `done` twice on one position, where that position shows the same
/// task before the first run and after it (the view then shows the whole
/// list): the second run succeeds and changes nothing, so the task stays
/// completed with the completion date of the first run.
pub proof fn lemma_done_twice(
    todos: Seq<TodoView>,
    view: Seq<usize>,
    id: usize,
    first: Date,
    second: Date,
    once: Outcome,
    twice: Outcome,
)
    requires
        view_in_range(view, todos.len() as int),
        resolves(view, id),
        view[id - 1] == id - 1,
        command_outcome(todos, view, CommandView::Done(id), first, once),
        command_outcome(once.todos, once.view, CommandView::Done(id), second, twice),
    ensures
        succeeded(twice),
        twice.todos == once.todos,
        twice.todos[id - 1].completion,
        twice.todos[id - 1].completion_date == once.todos[id - 1].completion_date,
{
    let k = id - 1;
    assert(view[k] < todos.len());
    assert(once.view[k] == k);
    lemma_mark_done_idempotent(todos[k], first, second);
    assert(twice.todos =~= once.todos);
}

} // verus!
