//! Tasks and the codec between a task and its line of text.

use crate::date::{date_from_text, date_text, days_between, format_date, parse_date, today, Date};
use crate::text::{
    is_word, join, join_words, lemma_join_flatten, lemma_join_nonempty, lemma_words_are_words,
    lemma_words_join, split_words, strings_view, words,
};
use vstd::prelude::*;

verus! {

/// The free-text part of a task, with the tags read out of it.
#[derive(Debug)]
pub struct Description {
    pub content: String,
    pub project: Option<String>,
    pub context: Option<String>,
    pub supplement: Option<String>,
    pub due: Option<Date>,
}

/// One task of the list.
#[derive(Debug)]
pub struct Todo {
    pub completion: bool,
    pub priority: Option<char>,
    pub completion_date: Option<Date>,
    pub creation_date: Option<Date>,
    pub description: Description,
}

/// A task as plain mathematical values.
pub struct TodoView {
    pub completion: bool,
    pub priority: Option<char>,
    pub completion_date: Option<Date>,
    pub creation_date: Option<Date>,
    pub content: Seq<char>,
    pub project: Option<Seq<char>>,
    pub context: Option<Seq<char>>,
    pub supplement: Option<Seq<char>>,
    pub due: Option<Date>,
}

pub open spec fn opt_view(o: Option<String>) -> Option<Seq<char>> {
    match o {
        Some(s) => Some(s@),
        None => None,
    }
}

pub open spec fn opt_date_valid(d: Option<Date>) -> bool {
    d matches Some(x) ==> x.valid()
}

impl View for Todo {
    type V = TodoView;

    open spec fn view(&self) -> TodoView {
        TodoView {
            completion: self.completion,
            priority: self.priority,
            completion_date: self.completion_date,
            creation_date: self.creation_date,
            content: self.description.content@,
            project: opt_view(self.description.project),
            context: opt_view(self.description.context),
            supplement: opt_view(self.description.supplement),
            due: self.description.due,
        }
    }
}

impl TodoView {
    /// Every date the task holds is a valid date.
    pub open spec fn dates_valid(self) -> bool {
        &&& opt_date_valid(self.completion_date)
        &&& opt_date_valid(self.creation_date)
        &&& opt_date_valid(self.due)
    }
}

pub open spec fn starts_with(w: Seq<char>, p: Seq<char>) -> bool {
    p.len() <= w.len() && w.subrange(0, p.len() as int) == p
}

pub open spec fn due_prefix() -> Seq<char> {
    seq!['d', 'u', 'e', ':']
}

pub open spec fn is_separator(c: char) -> bool {
    c == ':' || c == '='
}

/// The word holds a `:` or a `=`.
pub open spec fn has_separator(w: Seq<char>) -> bool {
    exists|i: int| 0 <= i < w.len() && is_separator(#[trigger] w[i])
}

pub open spec fn is_ascii_letter(c: char) -> bool {
    ('a' as u32 <= c as u32 <= 'z' as u32) || ('A' as u32 <= c as u32 <= 'Z' as u32)
}

/// A priority marker: `(`, one letter, `)`.
pub open spec fn is_priority_token(w: Seq<char>) -> bool {
    w.len() == 3 && w[0] == '(' && w[2] == ')' && is_ascii_letter(w[1])
}

/// What the words after the leading fields say, read from left to right.
pub struct Tags {
    pub words: Seq<Seq<char>>,
    pub project: Option<Seq<char>>,
    pub context: Option<Seq<char>>,
    pub supplement: Option<Seq<char>>,
    pub due: Option<Date>,
}

/// Reading one more word after the leading fields.
pub open spec fn tag_step(t: Tags, w: Seq<char>) -> Tags {
    if starts_with(w, seq!['+']) {
        Tags { project: Some(w.skip(1)), ..t }
    } else if starts_with(w, seq!['@']) {
        Tags { context: Some(w.skip(1)), ..t }
    } else if starts_with(w, due_prefix()) {
        Tags {
            due: if date_from_text(w.skip(4)) is Some {
                date_from_text(w.skip(4))
            } else {
                t.due
            },
            supplement: Some(w),
            ..t
        }
    } else if t.supplement is None && has_separator(w) {
        Tags { supplement: Some(w), ..t }
    } else {
        Tags { words: t.words.push(w), ..t }
    }
}

pub open spec fn tags_of(ws: Seq<Seq<char>>) -> Tags
    decreases ws.len(),
{
    if ws.len() == 0 {
        Tags { words: seq![], project: None, context: None, supplement: None, due: None }
    } else {
        tag_step(tags_of(ws.drop_last()), ws.last())
    }
}

/// The line opens with the completion marker `x`.
pub open spec fn completed_of(ws: Seq<Seq<char>>) -> bool {
    ws.len() > 0 && ws[0] == seq!['x']
}

pub open spec fn after_mark(ws: Seq<Seq<char>>) -> int {
    if completed_of(ws) { 1 } else { 0 }
}

pub open spec fn priority_of(ws: Seq<Seq<char>>) -> Option<char> {
    let i = after_mark(ws);
    if i < ws.len() && is_priority_token(ws[i]) {
        Some(ws[i][1])
    } else {
        None
    }
}

pub open spec fn after_priority(ws: Seq<Seq<char>>) -> int {
    after_mark(ws) + if priority_of(ws) is Some { 1int } else { 0int }
}

pub open spec fn date_at(ws: Seq<Seq<char>>, i: int) -> Option<Date> {
    if 0 <= i < ws.len() {
        date_from_text(ws[i])
    } else {
        None
    }
}

/// A completed task whose next two words are dates: completion, then creation.
pub open spec fn two_dates(ws: Seq<Seq<char>>) -> bool {
    let i = after_priority(ws);
    completed_of(ws) && date_at(ws, i) is Some && date_at(ws, i + 1) is Some
}

pub open spec fn completion_date_of(ws: Seq<Seq<char>>) -> Option<Date> {
    if two_dates(ws) {
        date_at(ws, after_priority(ws))
    } else {
        None
    }
}

pub open spec fn creation_date_of(ws: Seq<Seq<char>>) -> Option<Date> {
    if two_dates(ws) {
        date_at(ws, after_priority(ws) + 1)
    } else {
        date_at(ws, after_priority(ws))
    }
}

/// Where the words after the leading fields begin.
pub open spec fn body_start(ws: Seq<Seq<char>>) -> int {
    after_priority(ws) + if two_dates(ws) {
        2int
    } else if date_at(ws, after_priority(ws)) is Some {
        1int
    } else {
        0int
    }
}

/// The task that a line with these words describes.
pub open spec fn todo_of_words(ws: Seq<Seq<char>>) -> TodoView {
    let tags = tags_of(ws.subrange(body_start(ws), ws.len() as int));
    TodoView {
        completion: completed_of(ws),
        priority: priority_of(ws),
        completion_date: completion_date_of(ws),
        creation_date: creation_date_of(ws),
        content: join(tags.words),
        project: tags.project,
        context: tags.context,
        supplement: tags.supplement,
        due: tags.due,
    }
}

/// The task that a line describes.
pub open spec fn parse_line(s: Seq<char>) -> TodoView {
    todo_of_words(words(s))
}

pub open spec fn opt_token(o: Option<Seq<char>>, mark: Seq<char>) -> Seq<Seq<char>> {
    match o {
        Some(s) => seq![mark + s],
        None => seq![],
    }
}

pub open spec fn opt_date_token(o: Option<Date>) -> Seq<Seq<char>> {
    match o {
        Some(d) => seq![date_text(d)],
        None => seq![],
    }
}

/// The leading fields of a task's line.
pub open spec fn head_tokens(t: TodoView) -> Seq<Seq<char>> {
    (if t.completion { seq![seq!['x']] } else { seq![] }) + match t.priority {
        Some(p) => seq![seq!['(', p, ')']],
        None => seq![],
    } + (if t.completion { opt_date_token(t.completion_date) } else { seq![] })
        + opt_date_token(t.creation_date)
}

/// The tags of a task's line, after its content.
pub open spec fn tail_tokens(t: TodoView) -> Seq<Seq<char>> {
    opt_token(t.project, seq!['+']) + opt_token(t.context, seq!['@']) + opt_token(
        t.supplement,
        seq![],
    )
}

/// The pieces of a task's line, the content as one piece.
pub open spec fn format_pieces(t: TodoView) -> Seq<Seq<char>> {
    head_tokens(t) + (if t.content.len() > 0 { seq![t.content] } else { seq![] }) + tail_tokens(t)
}

/// The line that a task is written as.
pub open spec fn format_line(t: TodoView) -> Seq<char> {
    join(format_pieces(t))
}

/// The words of the line that a task is written as.
pub open spec fn record_tokens(t: TodoView) -> Seq<Seq<char>> {
    head_tokens(t) + words(t.content) + tail_tokens(t)
}

/// The task marked completed on `today`; a completed task stays as it is.
pub open spec fn marked_done(t: TodoView, today: Date) -> TodoView {
    if t.completion {
        t
    } else {
        TodoView { completion: true, completion_date: Some(today), ..t }
    }
}

/// A task read from the argument of `add`: its creation date is `today`
/// where the text gives none.
pub open spec fn stamped(t: TodoView, today: Date) -> TodoView {
    if t.creation_date is Some {
        t
    } else {
        TodoView { creation_date: Some(today), ..t }
    }
}

pub open spec fn add_error_text() -> Seq<char> {
    "Task must include non-empty description"@
}

/// How urgent a task looks in a list.
#[derive(Clone, Copy, Debug, PartialEq, Eq, Structural)]
pub enum Marker {
    /// Due within three days, or overdue.
    Red,
    /// Due within a week.
    Yellow,
    /// Due later.
    Green,
    /// No due date.
    Gray,
}

pub open spec fn marker_for_days(days: int) -> Marker {
    if days <= 3 {
        Marker::Red
    } else if days <= 7 {
        Marker::Yellow
    } else {
        Marker::Green
    }
}

pub open spec fn marker_for(due: Option<Date>, today: Date) -> Marker {
    match due {
        Some(d) => marker_for_days(d.day_number() - today.day_number()),
        None => Marker::Gray,
    }
}

/// The marker for a task due `days` days from today.
pub fn marker_for_day_count(days: i64) -> (r: Marker)
    ensures
        r == marker_for_days(days as int),
{
    if days <= 3 {
        Marker::Red
    } else if days <= 7 {
        Marker::Yellow
    } else {
        Marker::Green
    }
}

fn starts_with_char(w: &str, c: char) -> (r: bool)
    ensures
        r == starts_with(w@, seq![c]),
{
    let n = w.unicode_len();
    if n == 0 {
        return false;
    }
    let r = w.get_char(0) == c;
    proof {
        if r {
            assert(w@.subrange(0, 1) =~= seq![c]);
        } else {
            assert(w@.subrange(0, 1)[0] == w@[0]);
        }
    }
    r
}

fn is_due_token(w: &str) -> (r: bool)
    ensures
        r == starts_with(w@, due_prefix()),
{
    let n = w.unicode_len();
    if n < 4 {
        return false;
    }
    let r = w.get_char(0) == 'd' && w.get_char(1) == 'u' && w.get_char(2) == 'e' && w.get_char(3)
        == ':';
    proof {
        let s = w@.subrange(0, 4);
        if r {
            assert(s =~= due_prefix());
        } else {
            assert(s[0] == w@[0] && s[1] == w@[1] && s[2] == w@[2] && s[3] == w@[3]);
        }
    }
    r
}

fn is_completion_mark(w: &str) -> (r: bool)
    ensures
        r == (w@ == seq!['x']),
{
    let n = w.unicode_len();
    if n != 1 {
        return false;
    }
    let r = w.get_char(0) == 'x';
    proof {
        if r {
            assert(w@ =~= seq!['x']);
        }
    }
    r
}

fn is_priority(w: &str) -> (r: bool)
    ensures
        r == is_priority_token(w@),
{
    let n = w.unicode_len();
    if n != 3 {
        return false;
    }
    let c = w.get_char(1) as u32;
    w.get_char(0) == '(' && w.get_char(2) == ')' && (('a' as u32 <= c && c <= 'z' as u32) || (
    'A' as u32 <= c && c <= 'Z' as u32))
}

fn contains_separator(w: &str) -> (r: bool)
    ensures
        r == has_separator(w@),
{
    let n = w.unicode_len();
    let mut i: usize = 0;
    while i < n
        invariant
            n == w@.len(),
            i <= n,
            forall|j: int| 0 <= j < i ==> !is_separator(#[trigger] w@[j]),
        decreases n - i,
    {
        let c = w.get_char(i);
        if c == ':' || c == '=' {
            assert(is_separator(w@[i as int]));
            return true;
        }
        i = i + 1;
    }
    false
}

fn text_from(w: &str, k: usize) -> (r: String)
    requires
        k <= w@.len(),
    ensures
        r@ == w@.skip(k as int),
{
    let n = w.unicode_len();
    let s = w.substring_char(k, n);
    assert(s@ =~= w@.skip(k as int));
    s.to_string()
}

pub open spec fn tags_state(
    content: Seq<String>,
    project: Option<String>,
    context: Option<String>,
    supplement: Option<String>,
    due: Option<Date>,
) -> Tags {
    Tags {
        words: strings_view(content),
        project: opt_view(project),
        context: opt_view(context),
        supplement: opt_view(supplement),
        due,
    }
}

/// Reads the date in the word at `i`, if there is one.
fn date_at_index(tokens: &Vec<String>, i: usize) -> (r: Option<Date>)
    ensures
        r == date_at(strings_view(tokens@), i as int),
        opt_date_valid(r),
{
    if i < tokens.len() {
        parse_date(tokens[i].as_str())
    } else {
        None
    }
}

/// Relies on `String::push`, which appends one character.
#[verifier::external_body]
fn push_char(s: &mut String, c: char)
    ensures
        final(s)@ == old(s)@.push(c),
{
    s.push(c)
}

fn push_piece(parts: &mut Vec<String>, s: String)
    ensures
        strings_view(final(parts)@) == strings_view(old(parts)@).push(s@),
{
    let ghost before = parts@;
    parts.push(s);
    assert(strings_view(parts@) =~= strings_view(before).push(s@));
}

fn marked(mark: char, s: &String) -> (r: String)
    ensures
        r@ == seq![mark] + s@,
{
    let mut r = String::new();
    push_char(&mut r, mark);
    r.append(s.as_str());
    assert(r@ =~= seq![mark] + s@);
    r
}

impl Todo {
    /// The task as plain values.
    pub open spec fn wf(&self) -> bool {
        self@.dates_valid()
    }

    /// Reads a task from one line of text. Every line gives a task: words
    /// that fit no field become the content.
    pub fn parse(line: &str) -> (r: Todo)
        ensures
            r@ == parse_line(line@),
            r.wf(),
    {
        let tokens = split_words(line);
        let ghost ws = strings_view(tokens@);
        let n = tokens.len();
        let completion = n > 0 && is_completion_mark(tokens[0].as_str());
        let mut idx: usize = if completion { 1 } else { 0 };
        assert(idx == after_mark(ws));
        let mut priority: Option<char> = None;
        if idx < n && is_priority(tokens[idx].as_str()) {
            priority = Some(tokens[idx].as_str().get_char(1));
            idx = idx + 1;
        }
        assert(priority == priority_of(ws));
        assert(idx == after_priority(ws));
        let d1 = date_at_index(&tokens, idx);
        let d2 = if idx < n { date_at_index(&tokens, idx + 1) } else { None };
        let mut completion_date: Option<Date> = None;
        let mut creation_date: Option<Date> = None;
        if completion && d1.is_some() && d2.is_some() {
            completion_date = d1;
            creation_date = d2;
            idx = idx + 2;
        } else if d1.is_some() {
            creation_date = d1;
            idx = idx + 1;
        }
        assert(idx == body_start(ws));
        let start = idx;
        let mut content: Vec<String> = Vec::new();
        let mut project: Option<String> = None;
        let mut context: Option<String> = None;
        let mut supplement: Option<String> = None;
        let mut due: Option<Date> = None;
        assert(ws.subrange(start as int, start as int) =~= seq![]);
        assert(strings_view(content@) =~= seq![]);
        while idx < n
            invariant
                n == tokens@.len(),
                ws == strings_view(tokens@),
                start <= idx <= n,
                tags_of(ws.subrange(start as int, idx as int)) == tags_state(
                    content@,
                    project,
                    context,
                    supplement,
                    due,
                ),
                opt_date_valid(due),
            decreases n - idx,
        {
            let w = tokens[idx].as_str();
            proof {
                let cur = ws.subrange(start as int, idx + 1);
                assert(cur.drop_last() =~= ws.subrange(start as int, idx as int));
                assert(cur.last() == w@);
            }
            if starts_with_char(w, '+') {
                project = Some(text_from(w, 1));
            } else if starts_with_char(w, '@') {
                context = Some(text_from(w, 1));
            } else if is_due_token(w) {
                let d = parse_date(text_from(w, 4).as_str());
                if d.is_some() {
                    due = d;
                }
                supplement = Some(w.to_string());
            } else if supplement.is_none() && contains_separator(w) {
                supplement = Some(w.to_string());
            } else {
                let ghost before = content@;
                content.push(w.to_string());
                proof {
                    assert(strings_view(content@) =~= strings_view(before).push(w@));
                }
            }
            idx = idx + 1;
        }
        assert(ws.subrange(start as int, n as int) == ws.subrange(start as int, ws.len() as int));
        let text = join_words(&content);
        Todo {
            completion,
            priority,
            completion_date,
            creation_date,
            description: Description { content: text, project, context, supplement, due },
        }
    }

    /// Marks the task completed on `today`; a completed task keeps its
    /// completion date.
    pub fn mark_done_on(&mut self, today: Date)
        requires
            old(self).wf(),
            today.valid(),
        ensures
            final(self)@ == marked_done(old(self)@, today),
            final(self).wf(),
    {
        if !self.completion {
            self.completion = true;
            self.completion_date = Some(today);
        }
    }

    /// Marks the task completed today; a completed task stays as it is.
    pub fn mark_done(&mut self)
        requires
            old(self).wf(),
        ensures
            exists|d: Date| d.valid() && final(self)@ == marked_done(old(self)@, d),
            final(self).wf(),
    {
        let d = today();
        self.mark_done_on(d);
    }

    /// Reads a new task from the argument of `add`. The text must give some
    /// content; a task without a creation date is stamped with `today`.
    pub fn from_add_on(input: &str, today: Date) -> (r: Result<Todo, String>)
        requires
            today.valid(),
        ensures
            r is Err <==> parse_line(input@).content.len() == 0,
            r matches Err(e) ==> e@ == add_error_text(),
            r matches Ok(t) ==> t@ == stamped(parse_line(input@), today) && t.wf(),
    {
        let mut t = Todo::parse(input);
        if t.description.content.as_str().unicode_len() == 0 {
            return Err("Task must include non-empty description".to_string());
        }
        if t.creation_date.is_none() {
            t.creation_date = Some(today);
        }
        Ok(t)
    }

    /// Reads a new task from the argument of `add`, stamped with today's
    /// date where the text gives no creation date.
    pub fn from_add(input: &str) -> (r: Result<Todo, String>)
        ensures
            r is Err <==> parse_line(input@).content.len() == 0,
            r matches Err(e) ==> e@ == add_error_text(),
            r matches Ok(t) ==> t.wf() && exists|d: Date|
                d.valid() && t@ == stamped(parse_line(input@), d),
    {
        let d = today();
        Todo::from_add_on(input, d)
    }

    /// The due date of a task still to be done.
    pub fn due_uncompleted(&self) -> (r: Option<Date>)
        ensures
            r == (if self.completion { None } else { self.description.due }),
    {
        if !self.completion {
            self.description.due
        } else {
            None
        }
    }

    /// The priority of a task still to be done.
    pub fn priority_uncompleted(&self) -> (r: Option<char>)
        ensures
            r == (if self.completion { None } else { self.priority }),
    {
        if !self.completion {
            self.priority
        } else {
            None
        }
    }

    /// How urgent the task looks on `today`, by the days left to its due date.
    pub fn marker_color(&self, today: Date) -> (r: Marker)
        requires
            self.wf(),
            today.valid(),
        ensures
            r == marker_for(self@.due, today),
    {
        match self.description.due {
            Some(due) => marker_for_day_count(days_between(today, due)),
            None => Marker::Gray,
        }
    }

    /// The leading fields of the task's line.
    fn head_parts(&self) -> (r: Vec<String>)
        requires
            self.wf(),
        ensures
            strings_view(r@) == head_tokens(self@),
    {
        let ghost t = self@;
        let mut parts: Vec<String> = Vec::new();
        if self.completion {
            let mut x = String::new();
            push_char(&mut x, 'x');
            assert(x@ =~= seq!['x']);
            push_piece(&mut parts, x);
        }
        let ghost g0 = strings_view(parts@);
        assert(g0 =~= (if t.completion { seq![seq!['x']] } else { seq![] }));
        if let Some(p) = self.priority {
            let mut s = String::new();
            push_char(&mut s, '(');
            push_char(&mut s, p);
            push_char(&mut s, ')');
            assert(s@ =~= seq!['(', p, ')']);
            push_piece(&mut parts, s);
        }
        let ghost g1 = strings_view(parts@);
        assert(g1 =~= g0 + match t.priority {
            Some(p) => seq![seq!['(', p, ')']],
            None => seq![],
        });
        if self.completion {
            if let Some(d) = self.completion_date {
                push_piece(&mut parts, format_date(d));
            }
        }
        let ghost g2 = strings_view(parts@);
        assert(g2 =~= g1 + (if t.completion { opt_date_token(t.completion_date) } else { seq![] }));
        if let Some(d) = self.creation_date {
            push_piece(&mut parts, format_date(d));
        }
        assert(strings_view(parts@) =~= g2 + opt_date_token(t.creation_date));
        parts
    }

    /// Writes the task as one line: `x`, `(P)`, the completion date, the
    /// creation date, the content, `+project`, `@context` and the
    /// supplement, each where present, separated by single spaces.
    pub fn format(&self) -> (r: String)
        requires
            self.wf(),
        ensures
            r@ == format_line(self@),
    {
        let ghost t = self@;
        let mut parts = self.head_parts();
        let ghost g0 = strings_view(parts@);
        if self.description.content.as_str().unicode_len() > 0 {
            push_piece(&mut parts, self.description.content.clone());
        }
        let ghost g1 = strings_view(parts@);
        assert(g1 =~= g0 + (if t.content.len() > 0 { seq![t.content] } else { seq![] }));
        if let Some(p) = &self.description.project {
            push_piece(&mut parts, marked('+', p));
        }
        let ghost g2 = strings_view(parts@);
        assert(g2 =~= g1 + opt_token(t.project, seq!['+']));
        if let Some(c) = &self.description.context {
            push_piece(&mut parts, marked('@', c));
        }
        let ghost g3 = strings_view(parts@);
        assert(g3 =~= g2 + opt_token(t.context, seq!['@']));
        if let Some(x) = &self.description.supplement {
            push_piece(&mut parts, x.clone());
            assert(seq![] + x@ =~= x@);
        }
        assert(strings_view(parts@) =~= g3 + opt_token(t.supplement, seq![]));
        assert(strings_view(parts@) =~= format_pieces(t));
        join_words(&parts)
    }
}

/// The content words that reading picks out are words of the line.
proof fn lemma_tags_words(ws: Seq<Seq<char>>)
    requires
        forall|i: int| 0 <= i < ws.len() ==> is_word(#[trigger] ws[i]),
    ensures
        forall|i: int|
            0 <= i < tags_of(ws).words.len() ==> is_word(#[trigger] tags_of(ws).words[i]),
    decreases ws.len(),
{
    if ws.len() > 0 {
        let pre = ws.drop_last();
        assert forall|i: int| 0 <= i < pre.len() implies is_word(#[trigger] pre[i]) by {
            assert(pre[i] == ws[i]);
        }
        lemma_tags_words(pre);
        assert(is_word(ws[ws.len() - 1]));
        let cw = tags_of(pre).words;
        assert forall|i: int| 0 <= i < cw.push(ws.last()).len() implies is_word(
            #[trigger] cw.push(ws.last())[i],
        ) by {
            if i < cw.len() {
                assert(cw.push(ws.last())[i] == cw[i]);
            }
        }
    }
}

/// Reading back the line that a task read from a line in canonical order is
/// written as gives the same task. A line is in canonical order when its
/// words are exactly the words of the line that its task is written as.
pub proof fn lemma_round_trip(line: Seq<char>)
    requires
        words(line) == record_tokens(parse_line(line)),
    ensures
        parse_line(format_line(parse_line(line))) == parse_line(line),
{
    let ws = words(line);
    let t = parse_line(line);
    lemma_words_are_words(line);
    let body = ws.subrange(body_start(ws), ws.len() as int);
    assert forall|i: int| 0 <= i < body.len() implies is_word(#[trigger] body[i]) by {
        assert(body[i] == ws[i + body_start(ws)]);
    }
    lemma_tags_words(body);
    let cw = tags_of(body).words;
    lemma_words_join(cw);
    assert(words(t.content) == cw);
    if cw.len() > 0 {
        lemma_join_nonempty(cw);
        lemma_join_flatten(head_tokens(t), cw, tail_tokens(t));
    } else {
        assert(head_tokens(t) + cw =~= head_tokens(t));
    }
    assert(format_line(t) == join(record_tokens(t)));
    lemma_words_join(record_tokens(t));
}

/// Marking a task done twice is marking it done once: the second time
/// changes nothing, whatever day it is.
pub proof fn lemma_mark_done_idempotent(t: TodoView, first: Date, second: Date)
    ensures
        marked_done(marked_done(t, first), second) == marked_done(t, first),
{
}

} // verus!
