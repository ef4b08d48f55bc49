use crate::store::Task;
use vstd::prelude::*;

verus! {

/// The decimal digit character for `d`, for `d` under ten.
pub open spec fn digit_char(d: nat) -> char {
    ((48 + d) as u8) as char
}

/// The lower-case hexadecimal digit character for `d`, for `d` under sixteen.
pub open spec fn hex_digit(d: nat) -> char {
    if d < 10 {
        digit_char(d)
    } else {
        ((87 + d) as u8) as char
    }
}

/// The decimal digits of `n`, most significant first.
pub open spec fn dec_digits(n: nat) -> Seq<char>
    decreases n,
{
    if n < 10 {
        seq![digit_char(n)]
    } else {
        dec_digits(n / 10) + seq![digit_char(n % 10)]
    }
}

/// The decimal rendering of `n`, with a leading minus sign when negative.
pub open spec fn dec_i64(n: int) -> Seq<char> {
    if n < 0 {
        seq!['-'] + dec_digits((-n) as nat)
    } else {
        dec_digits(n as nat)
    }
}

/// The JSON string-literal escape of one character: quote, backslash and the
/// named control characters by a two-character escape, other control
/// characters by a unicode escape, anything else by itself.
pub open spec fn escape_char(c: char) -> Seq<char> {
    if c == '"' {
        seq!['\\', '"']
    } else if c == '\\' {
        seq!['\\', '\\']
    } else if c == '\n' {
        seq!['\\', 'n']
    } else if c == '\r' {
        seq!['\\', 'r']
    } else if c == '\t' {
        seq!['\\', 't']
    } else if (c as u32) < 32 {
        seq!['\\', 'u', '0', '0', hex_digit(((c as u32) / 16) as nat), hex_digit(
            ((c as u32) % 16) as nat,
        )]
    } else {
        seq![c]
    }
}

/// The JSON string-literal escape of a whole text.
pub open spec fn escape_string(s: Seq<char>) -> Seq<char>
    decreases s.len(),
{
    if s.len() == 0 {
        Seq::empty()
    } else {
        escape_char(s[0]) + escape_string(s.skip(1))
    }
}

/// The rendering of a boolean.
pub open spec fn bool_chars(b: bool) -> Seq<char> {
    if b {
        "true"@
    } else {
        "false"@
    }
}

/// One task as a pretty-printed JSON object, indented for a top-level array.
pub open spec fn task_object(id: int, desc: Seq<char>, completed: bool) -> Seq<char> {
    "{\n    \"id\": "@ + dec_i64(id) + ",\n    \"description\": \""@ + escape_string(desc)
        + "\",\n    \"completed\": "@ + bool_chars(completed) + "\n  }"@
}

/// The array entries for the task views from position `i` on, each preceded
/// by its separator.
pub open spec fn tasks_entries(tasks: Seq<(int, Seq<char>, bool)>, i: int) -> Seq<char>
    decreases tasks.len() - i,
{
    if i < 0 || i >= tasks.len() {
        Seq::empty()
    } else {
        (if i == 0 {
            "\n  "@
        } else {
            ",\n  "@
        }) + task_object(tasks[i].0, tasks[i].1, tasks[i].2) + tasks_entries(tasks, i + 1)
    }
}

/// A whole task list as a pretty-printed JSON array.
pub open spec fn tasks_json(tasks: Seq<(int, Seq<char>, bool)>) -> Seq<char> {
    if tasks.len() == 0 {
        "[]"@
    } else {
        "["@ + tasks_entries(tasks, 0) + "\n]"@
    }
}

/// Relies on std's FromIterator for String over chars: the collected string
/// holds exactly the characters of the vector, in order.
#[verifier::external_body]
fn chars_to_string(v: &Vec<char>) -> (r: String)
    ensures
        r@ == v@,
{
    v.iter().collect()
}

/// Appends the decimal digits of `n`, most significant first.
fn push_u64_digits(n: u64, out: &mut Vec<char>)
    ensures
        final(out)@ == old(out)@ + dec_digits(n as nat),
    decreases n,
{
    if n < 10 {
        let c = ((48 + n) as u8) as char;
        out.push(c);
        proof {
            assert(c == digit_char(n as nat));
            assert(old(out)@.push(c) =~= old(out)@ + seq![c]);
        }
    } else {
        proof {
            assert(n / 10 < n);
        }
        push_u64_digits(n / 10, out);
        let c = ((48 + (n % 10)) as u8) as char;
        out.push(c);
        proof {
            assert(c == digit_char((n % 10) as nat));
            assert((n / 10) as nat == (n as nat) / 10);
            assert((old(out)@ + dec_digits((n as nat) / 10)).push(c) =~= old(out)@ + (dec_digits(
                (n as nat) / 10,
            ) + seq![c]));
        }
    }
}

/// The decimal rendering of a signed id, as characters.
pub fn i64_chars(n: i64) -> (r: Vec<char>)
    ensures
        r@ == dec_i64(n as int),
{
    let mut out: Vec<char> = Vec::new();
    if n >= 0 {
        push_u64_digits(n as u64, &mut out);
        proof {
            assert(Seq::<char>::empty() + dec_digits((n as int) as nat) =~= dec_digits(
                (n as int) as nat,
            ));
        }
    } else {
        out.push('-');
        let mag: u64 = ((-(n + 1)) as u64) + 1;
        proof {
            assert(mag as int == -(n as int));
            assert(Seq::<char>::empty().push('-') =~= seq!['-']);
        }
        push_u64_digits(mag, &mut out);
        proof {
            assert(seq!['-'] + dec_digits(mag as nat) =~= dec_i64(n as int));
        }
    }
    out
}

/// Appends `d` as one lower-case hexadecimal digit.
fn push_hex_digit(d: u32, out: &mut Vec<char>)
    requires
        d < 16,
    ensures
        final(out)@ == old(out)@ + seq![hex_digit(d as nat)],
{
    let c = if d < 10 {
        ((48 + d) as u8) as char
    } else {
        ((87 + d) as u8) as char
    };
    out.push(c);
    proof {
        assert(c == hex_digit(d as nat));
        assert(old(out)@.push(c) =~= old(out)@ + seq![c]);
    }
}

/// Appends the JSON escape of one character.
fn push_escape_char(c: char, out: &mut Vec<char>)
    ensures
        final(out)@ == old(out)@ + escape_char(c),
{
    if c == '"' {
        out.push('\\');
        out.push('"');
        proof {
            assert(old(out)@.push('\\').push('"') =~= old(out)@ + escape_char(c));
        }
    } else if c == '\\' {
        out.push('\\');
        out.push('\\');
        proof {
            assert(old(out)@.push('\\').push('\\') =~= old(out)@ + escape_char(c));
        }
    } else if c == '\n' {
        out.push('\\');
        out.push('n');
        proof {
            assert(old(out)@.push('\\').push('n') =~= old(out)@ + escape_char(c));
        }
    } else if c == '\r' {
        out.push('\\');
        out.push('r');
        proof {
            assert(old(out)@.push('\\').push('r') =~= old(out)@ + escape_char(c));
        }
    } else if c == '\t' {
        out.push('\\');
        out.push('t');
        proof {
            assert(old(out)@.push('\\').push('t') =~= old(out)@ + escape_char(c));
        }
    } else {
        let v = c as u32;
        if v < 32 {
            out.push('\\');
            out.push('u');
            out.push('0');
            out.push('0');
            push_hex_digit(v / 16, out);
            push_hex_digit(v % 16, out);
            proof {
                assert(final(out)@ =~= old(out)@ + escape_char(c));
            }
        } else {
            out.push(c);
            proof {
                assert(old(out)@.push(c) =~= old(out)@ + escape_char(c));
            }
        }
    }
}

/// Appends the JSON escape of the text of `s` from position `i` on.
fn push_escaped(s: &str, i: usize, out: &mut Vec<char>)
    requires
        i <= s@.len(),
    ensures
        final(out)@ == old(out)@ + escape_string(s@.skip(i as int)),
    decreases s@.len() - i,
{
    let n = s.unicode_len();
    if i < n {
        let c = s.get_char(i);
        push_escape_char(c, out);
        push_escaped(s, i + 1, out);
        proof {
            assert(s@.skip(i as int)[0] == s@[i as int]);
            assert(s@.skip(i as int).skip(1) =~= s@.skip(i as int + 1));
            assert((old(out)@ + escape_char(c)) + escape_string(s@.skip(i as int + 1)) =~= old(
                out,
            )@ + (escape_char(c) + escape_string(s@.skip(i as int + 1))));
            assert(escape_char(c) + escape_string(s@.skip(i as int + 1)) =~= escape_string(
                s@.skip(i as int),
            ));
        }
    } else {
        proof {
            assert(s@.skip(i as int) =~= Seq::<char>::empty());
            assert(old(out)@ + Seq::<char>::empty() =~= old(out)@);
        }
    }
}

/// The views of a task list.
pub open spec fn task_views(tasks: Seq<Task>) -> Seq<(int, Seq<char>, bool)> {
    tasks.map(|i: int, t: Task| t@)
}

/// The views of a listing of id, description, completed rows.
pub open spec fn row_views(rows: Seq<(i64, String, bool)>) -> Seq<(int, Seq<char>, bool)> {
    rows.map(|i: int, row: (i64, String, bool)| (row.0 as int, row.1@, row.2))
}

/// Appends one task as a pretty-printed JSON object.
fn append_task_object(out: &mut String, t: &Task)
    ensures
        final(out)@ == old(out)@ + task_object(t.id as int, t.description@, t.completed),
{
    out.append("{\n    \"id\": ");
    let idc = i64_chars(t.id);
    let ids = chars_to_string(&idc);
    out.append(ids.as_str());
    out.append(",\n    \"description\": \"");
    let esc = escape_str(t.description.as_str());
    out.append(esc.as_str());
    out.append("\",\n    \"completed\": ");
    if t.completed {
        out.append("true");
    } else {
        out.append("false");
    }
    out.append("\n  }");
    proof {
        assert(out@ =~= old(out)@ + task_object(t.id as int, t.description@, t.completed));
    }
}

/// Renders a task list as the canonical pretty-printed JSON array.
pub fn encode_tasks(tasks: &Vec<Task>) -> (r: String)
    ensures
        r@ == tasks_json(task_views(tasks@)),
{
    let n = tasks.len();
    let ghost tv = task_views(tasks@);
    proof {
        assert(tv.len() == n);
    }
    if n == 0 {
        return String::from_str("[]");
    }
    let mut out = String::from_str("[");
    let mut i: usize = 0;
    while i < n
        invariant
            n == tasks@.len(),
            0 < n,
            i <= n,
            tv == task_views(tasks@),
            tv.len() == n,
            out@ + tasks_entries(tv, i as int) + "\n]"@ == tasks_json(tv),
        decreases n - i,
    {
        let ghost out0 = out@;
        if i == 0 {
            out.append("\n  ");
        } else {
            out.append(",\n  ");
        }
        append_task_object(&mut out, &tasks[i]);
        proof {
            let sep = if i == 0 {
                "\n  "@
            } else {
                ",\n  "@
            };
            let obj = task_object(tv[i as int].0, tv[i as int].1, tv[i as int].2);
            assert(tv[i as int] == tasks@[i as int]@);
            assert(out@ =~= (out0 + sep) + obj);
            assert(tasks_entries(tv, i as int) == (sep + obj) + tasks_entries(tv, i as int + 1));
            assert(out@ + tasks_entries(tv, i as int + 1) =~= out0 + tasks_entries(
                tv,
                i as int,
            ));
        }
        i += 1;
    }
    let ghost done = out@;
    out.append("\n]");
    proof {
        assert(tasks_entries(tv, n as int) =~= Seq::<char>::empty());
        assert(done + Seq::<char>::empty() =~= done);
        assert(out@ =~= tasks_json(tv));
    }
    out
}

/// The JSON escape of a whole text, as a string.
pub fn escape_str(s: &str) -> (r: String)
    ensures
        r@ == escape_string(s@),
{
    let mut chars: Vec<char> = Vec::new();
    push_escaped(s, 0, &mut chars);
    proof {
        assert(s@.skip(0) =~= s@);
        assert(Seq::<char>::empty() + escape_string(s@) =~= escape_string(s@));
    }
    chars_to_string(&chars)
}

} // verus!
