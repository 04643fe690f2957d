//! Rendering of tasks and confirmation lines as the command-line front end
//! prints them: decimal ids, and descriptions struck through once a task is
//! completed.

use vstd::prelude::*;

use crate::task::Todo;
use vstd::string::StrSliceExecFns;
use vstd::string::StringExecFns;

verus! {

/// The decimal digit character for a value between 0 and 9.
pub open spec fn digit_char(d: int) -> char {
    if d == 0 {
        '0'
    } else if d == 1 {
        '1'
    } else if d == 2 {
        '2'
    } else if d == 3 {
        '3'
    } else if d == 4 {
        '4'
    } else if d == 5 {
        '5'
    } else if d == 6 {
        '6'
    } else if d == 7 {
        '7'
    } else if d == 8 {
        '8'
    } else {
        '9'
    }
}

/// The decimal digits of a non-negative number, most significant first.
pub open spec fn dec_digits(n: int) -> Seq<char>
    recommends
        n >= 0,
    decreases n,
{
    if n < 10 {
        seq![digit_char(n)]
    } else {
        dec_digits(n / 10).push(digit_char(n % 10))
    }
}

/// The decimal rendering of an integer, with a leading minus sign when it is
/// negative.
pub open spec fn dec_int(n: int) -> Seq<char> {
    if n < 0 {
        seq!['-'] + dec_digits(-n)
    } else {
        dec_digits(n)
    }
}

/// A description rendered with a combining strike mark before each of its
/// characters, the visual cross-out used for completed tasks.
pub open spec fn struck(s: Seq<char>) -> Seq<char>
    decreases s.len(),
{
    if s.len() == 0 {
        Seq::empty()
    } else {
        seq!['\u{336}', s[0]] + struck(s.drop_first())
    }
}

/// The line printed for a task in a listing: its id, a separator, and its
/// description, struck through when the task is completed.
pub open spec fn task_line(id: int, description: Seq<char>, status: bool) -> Seq<char> {
    dec_int(id) + ": "@ + (if status {
        struck(description)
    } else {
        description
    })
}

/// The one-line confirmation for an operation on a task: a label, the id,
/// and the description.
pub open spec fn confirmation_line(label: Seq<char>, id: int, description: Seq<char>) -> Seq<
    char,
> {
    label + dec_int(id) + ": "@ + description
}

/// Relies on String::push: appends the given character at the end of the
/// string.
#[verifier::external_body]
fn push_char(s: &mut String, c: char)
    ensures
        final(s)@ == old(s)@.push(c),
{
    s.push(c)
}

/// The character for one decimal digit.
fn digit_char_exec(d: u64) -> (c: char)
    requires
        d < 10,
    ensures
        c == digit_char(d as int),
{
    if d == 0 {
        '0'
    } else if d == 1 {
        '1'
    } else if d == 2 {
        '2'
    } else if d == 3 {
        '3'
    } else if d == 4 {
        '4'
    } else if d == 5 {
        '5'
    } else if d == 6 {
        '6'
    } else if d == 7 {
        '7'
    } else if d == 8 {
        '8'
    } else {
        '9'
    }
}

/// Appends the decimal digits of `n` to the string.
fn push_dec_digits(s: &mut String, n: u64)
    ensures
        final(s)@ == old(s)@ + dec_digits(n as int),
    decreases n,
{
    let ghost s0 = old(s)@;
    if n < 10 {
        push_char(s, digit_char_exec(n));
        proof {
            assert(s@ =~= s0 + dec_digits(n as int));
        }
    } else {
        push_dec_digits(s, n / 10);
        push_char(s, digit_char_exec(n % 10));
        proof {
            assert((n / 10) as int == (n as int) / 10);
            assert((n % 10) as int == (n as int) % 10);
            assert(s@ =~= s0 + dec_digits(n as int));
        }
    }
}

/// The decimal rendering of a 32-bit integer, as `format!` would print it.
pub fn format_i32(n: i32) -> (s: String)
    ensures
        s@ == dec_int(n as int),
{
    let mut s = String::new();
    let wide: i64 = n as i64;
    if wide < 0 {
        push_char(&mut s, '-');
        push_dec_digits(&mut s, (-wide) as u64);
        proof {
            assert(s@ =~= dec_int(n as int));
        }
    } else {
        push_dec_digits(&mut s, wide as u64);
        proof {
            assert(s@ =~= dec_int(n as int));
        }
    }
    s
}

proof fn lemma_struck_push(s: Seq<char>, c: char)
    ensures
        struck(s.push(c)) == struck(s) + seq!['\u{336}', c],
    decreases s.len(),
{
    if s.len() == 0 {
        assert(s.push(c).drop_first() =~= Seq::<char>::empty());
        assert(struck(Seq::<char>::empty()) == Seq::<char>::empty());
        assert(s.push(c)[0] == c);
        assert(struck(s.push(c)) =~= struck(s) + seq!['\u{336}', c]);
    } else {
        assert(s.push(c).drop_first() =~= s.drop_first().push(c));
        lemma_struck_push(s.drop_first(), c);
        assert(s.push(c)[0] == s[0]);
        assert(struck(s.push(c)) == seq!['\u{336}', s[0]] + struck(s.drop_first().push(c)));
        assert(struck(s.push(c)) == seq!['\u{336}', s[0]] + (struck(s.drop_first()) + seq![
            '\u{336}',
            c,
        ]));
        assert(seq!['\u{336}', s[0]] + (struck(s.drop_first()) + seq!['\u{336}', c]) =~= (seq![
            '\u{336}',
            s[0],
        ] + struck(s.drop_first())) + seq!['\u{336}', c]);
        assert(struck(s) == seq!['\u{336}', s[0]] + struck(s.drop_first()));
        assert(struck(s.push(c)) == struck(s) + seq!['\u{336}', c]);
    }
}

/// Appends the struck-through rendering of the text to the string.
fn push_struck(out: &mut String, text: &str)
    ensures
        final(out)@ == old(out)@ + struck(text@),
{
    let ghost out0 = old(out)@;
    let n = text.unicode_len();
    let mut i: usize = 0;
    proof {
        assert(out0 + struck(text@.subrange(0, 0)) =~= out0);
    }
    while i < n
        invariant
            n == text@.len(),
            i <= n,
            out@ == out0 + struck(text@.subrange(0, i as int)),
        decreases n - i,
    {
        let c = text.get_char(i);
        push_char(out, '\u{336}');
        push_char(out, c);
        proof {
            assert(text@.subrange(0, i as int + 1) =~= text@.subrange(0, i as int).push(c));
            lemma_struck_push(text@.subrange(0, i as int), c);
            assert(out@ =~= out0 + struck(text@.subrange(0, i as int + 1)));
        }
        i = i + 1;
    }
    proof {
        assert(text@.subrange(0, n as int) =~= text@);
    }
}

/// Renders one task for display: open tasks plain, completed tasks with the
/// strike mark through their description.
pub fn render_task_line(t: &Todo) -> (s: String)
    ensures
        s@ == task_line(t@.id, t@.description, t@.status),
{
    let mut s = format_i32(t.id);
    s.append(": ");
    if t.status {
        push_struck(&mut s, t.description.as_str());
    } else {
        s.append(t.description.as_str());
    }
    s
}

/// The confirmation line with the given label for an operation on the task.
fn confirmation(label: &str, t: &Todo) -> (s: String)
    ensures
        s@ == confirmation_line(label@, t@.id, t@.description),
{
    let mut s = label.to_owned();
    let id_part = format_i32(t.id);
    s.append(id_part.as_str());
    s.append(": ");
    s.append(t.description.as_str());
    s
}

/// The confirmation printed after adding a task.
pub fn format_added(t: &Todo) -> (s: String)
    ensures
        s@ == confirmation_line("Added: "@, t@.id, t@.description),
{
    confirmation("Added: ", t)
}

/// The confirmation printed after completing a task.
pub fn format_completed(t: &Todo) -> (s: String)
    ensures
        s@ == confirmation_line("Completed: "@, t@.id, t@.description),
{
    confirmation("Completed: ", t)
}

/// The confirmation printed after reopening a task.
pub fn format_reopened(t: &Todo) -> (s: String)
    ensures
        s@ == confirmation_line("Reopened: "@, t@.id, t@.description),
{
    confirmation("Reopened: ", t)
}

/// The confirmation printed after deleting a task: only the id is echoed.
pub fn format_deleted(id: i32) -> (s: String)
    ensures
        s@ == "Deleted: "@ + dec_int(id as int),
{
    let mut s = "Deleted: ".to_owned();
    let id_part = format_i32(id);
    s.append(id_part.as_str());
    s
}

} // verus!
