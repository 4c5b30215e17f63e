//! What the process table says of a process: its parent, and the working
//! directory and command of a terminal's foreground process.
use vstd::prelude::*;

use crate::media::first_segment;
use crate::text::{chars_of, string_of};
use crate::titles::{basename, file_name_of};

verus! {

broadcast use vstd::string::group_string_axioms;

/// The process whose parent a stat line names.
pub struct ProcessInfo {
    pub parent_id: Option<i64>,
}

/// Why a stat line could not be read.
pub enum ProcessError {
    /// Fewer than four fields.
    MalformedStat { pid: i64 },
    /// The fourth field is no integer.
    InvalidPpid { value: String, pid: i64 },
}

/// The `n`-th field of `s` split at single spaces, as `split(' ').nth(n)`
/// gives it.
pub open spec fn nth_field(s: Seq<char>, n: nat) -> Option<Seq<char>>
    decreases s.len(), n,
{
    if n == 0 {
        Some(first_segment(s, ' '))
    } else if s.len() == 0 {
        None
    } else if s[0] == ' ' {
        nth_field(s.drop_first(), (n - 1) as nat)
    } else {
        nth_field(s.drop_first(), n)
    }
}

pub open spec fn is_digit(c: char) -> bool {
    '0' <= c <= '9'
}

/// The value of a run of decimal digits.
pub open spec fn digits_value(s: Seq<char>) -> int
    decreases s.len(),
{
    if s.len() == 0 {
        0
    } else {
        digits_value(s.drop_last()) * 10 + (s.last() as int - '0' as int)
    }
}

/// Every character of `s` is a decimal digit.
pub open spec fn all_digits(s: Seq<char>) -> bool {
    forall|i: int| 0 <= i < s.len() ==> is_digit(#[trigger] s[i])
}

/// `s` without a leading sign.
pub open spec fn unsigned_part(s: Seq<char>) -> Seq<char> {
    if s.len() > 0 && (s[0] == '-' || s[0] == '+') {
        s.drop_first()
    } else {
        s
    }
}

/// What `str::parse::<i64>` gives: an optional sign, then one or more
/// decimal digits, whose value fits.
pub open spec fn i64_of(s: Seq<char>) -> Option<i64> {
    let ds = unsigned_part(s);
    if ds.len() == 0 || !all_digits(ds) {
        None
    } else {
        let v = if s[0] == '-' {
            -digits_value(ds)
        } else {
            digits_value(ds)
        };
        if i64::MIN <= v <= i64::MAX {
            Some(v as i64)
        } else {
            None
        }
    }
}

proof fn lemma_digits_nonneg(s: Seq<char>)
    requires
        forall|i: int| 0 <= i < s.len() ==> is_digit(#[trigger] s[i]),
    ensures
        digits_value(s) >= 0,
    decreases s.len(),
{
    if s.len() > 0 {
        let d = s.drop_last();
        assert forall|i: int| 0 <= i < d.len() implies is_digit(#[trigger] d[i]) by {
            assert(d[i] == s[i]);
        }
        lemma_digits_nonneg(d);
        assert(is_digit(s[s.len() - 1]));
    }
}

proof fn lemma_digits_grow(s: Seq<char>, k: int)
    requires
        forall|i: int| 0 <= i < s.len() ==> is_digit(#[trigger] s[i]),
        0 <= k <= s.len(),
    ensures
        digits_value(s.take(k)) <= digits_value(s),
    decreases s.len() - k,
{
    if k < s.len() {
        let t = s.take(k + 1);
        assert(t.drop_last() =~= s.take(k));
        assert forall|i: int| 0 <= i < s.take(k).len() implies is_digit(#[trigger] s.take(k)[i]) by {
            assert(s.take(k)[i] == s[i]);
        }
        lemma_digits_nonneg(s.take(k));
        assert(is_digit(s[k]));
        assert(t.last() == s[k]);
        lemma_digits_grow(s, k + 1);
    } else {
        assert(s.take(k) =~= s);
    }
}

/// Reads an `i64` as `str::parse` does.
pub fn parse_i64(text: &str) -> (r: Option<i64>)
    ensures
        r == i64_of(text@),
{
    let s = chars_of(text);
    let n = s.len();
    let neg = n > 0 && s[0] == '-';
    let signed = n > 0 && (s[0] == '-' || s[0] == '+');
    let start: usize = if signed { 1 } else { 0 };
    let ghost ds = if signed {
        s@.drop_first()
    } else {
        s@
    };
    proof {
        assert(ds =~= s@.subrange(start as int, n as int));
        assert(s@.subrange(start as int, n as int).take(0) =~= Seq::<char>::empty());
    }
    if start == n {
        return None;
    }
    let mut i: usize = start;
    let mut acc: i128 = 0;
    while i < n
        invariant
            start <= i <= n,
            n == s@.len(),
            s@ == text@,
            start == (if signed { 1int } else { 0int }),
            ds == s@.subrange(start as int, n as int),
            ds == unsigned_part(text@),
            forall|k: int| 0 <= k < i - start ==> is_digit(#[trigger] ds[k]),
            acc == digits_value(ds.take(i - start)),
            0 <= acc <= 9223372036854775808,
        decreases n - i,
    {
        let c = s[i];
        proof {
            assert(ds[i - start] == c);
        }
        if !('0' <= c && c <= '9') {
            proof {
                assert(!is_digit(ds[i - start]));
                assert(!all_digits(ds));
            }
            return None;
        }
        let d = (c as u32 - '0' as u32) as i128;
        proof {
            let t = ds.take(i - start + 1);
            assert(t.drop_last() =~= ds.take(i - start));
            assert(t.last() == c);
        }
        let next = acc * 10 + d;
        if next > 9223372036854775808 {
            proof {
                assert forall|k: int| 0 <= k < i - start + 1 implies is_digit(#[trigger] ds[k]) by {}
                if all_digits(ds) {
                    lemma_digits_grow(ds, i - start + 1);
                }
            }
            return None;
        }
        acc = next;
        i = i + 1;
    }
    proof {
        assert(ds.take(n - start) =~= ds);
    }
    if neg {
        Some((0 - acc) as i64)
    } else if acc > 9223372036854775807 {
        None
    } else {
        Some(acc as i64)
    }
}

impl ProcessInfo {
    /// The parent named by the fourth field of a stat line of process
    /// `process_id`; a parent of 0 is none.
    pub fn from_stat(process_id: i64, content: &str) -> (r: Result<ProcessInfo, ProcessError>)
        ensures
            match nth_field(content@, 3) {
                None => r matches Err(ProcessError::MalformedStat { pid }) && pid == process_id,
                Some(f) => match i64_of(f) {
                    None => r matches Err(ProcessError::InvalidPpid { value, pid }) && value@ == f
                        && pid == process_id,
                    Some(p) => r matches Ok(info) && info.parent_id == if p == 0 {
                        None
                    } else {
                        Some(p)
                    },
                },
            },
    {
        let s = chars_of(content);
        let mut i: usize = 0;
        let mut spaces: usize = 0;
        proof {
            assert(s@.subrange(0, s@.len() as int) =~= s@);
        }
        while i < s.len() && spaces < 3
            invariant
                i <= s@.len(),
                spaces <= 3,
                s@ == content@,
                nth_field(content@, 3) == nth_field(
                    s@.subrange(i as int, s@.len() as int),
                    (3 - spaces) as nat,
                ),
            decreases s@.len() - i,
        {
            proof {
                let rest = s@.subrange(i as int, s@.len() as int);
                assert(rest.drop_first() =~= s@.subrange(i + 1, s@.len() as int));
                assert(rest[0] == s@[i as int]);
            }
            if s[i] == ' ' {
                spaces = spaces + 1;
            }
            i = i + 1;
        }
        if spaces < 3 {
            proof {
                assert(s@.subrange(i as int, s@.len() as int).len() == 0);
            }
            return Err(ProcessError::MalformedStat { pid: process_id });
        }
        let mut field: Vec<char> = Vec::new();
        let ghost rest = s@.subrange(i as int, s@.len() as int);
        let mut j: usize = i;
        proof {
            assert(s@.subrange(j as int, s@.len() as int) =~= rest);
            assert(field@ + first_segment(rest, ' ') =~= first_segment(rest, ' '));
        }
        while j < s.len()
            invariant_except_break
                field@ + first_segment(s@.subrange(j as int, s@.len() as int), ' ') == first_segment(
                    rest,
                    ' ',
                ),
            invariant
                i <= j <= s@.len(),
            ensures
                field@ == first_segment(rest, ' '),
            decreases s@.len() - j,
        {
            let ghost here = s@.subrange(j as int, s@.len() as int);
            if s[j] == ' ' {
                proof {
                    assert(field@ + Seq::<char>::empty() =~= field@);
                }
                break;
            }
            let ghost before = field@;
            field.push(s[j]);
            proof {
                assert(here.drop_first() =~= s@.subrange(j + 1, s@.len() as int));
                assert(here[0] == s@[j as int]);
                assert(field@ + first_segment(here.drop_first(), ' ') =~= before + (seq![here[0]]
                    + first_segment(here.drop_first(), ' ')));
            }
            j = j + 1;
        }
        let text = string_of(&field);
        match parse_i64(text.as_str()) {
            Some(p) => Ok(ProcessInfo { parent_id: if p == 0 { None } else { Some(p) } }),
            None => Err(ProcessError::InvalidPpid { value: text, pid: process_id }),
        }
    }
}

/// The working directory and command of a terminal's foreground process.
pub struct ForegroundProcessInfo {
    pub cwd: Option<String>,
    pub command: Option<String>,
}

/// The command shown for a process: the file name of its first argument,
/// or the argument itself where it has none.
pub fn command_name(argv0: &str) -> (r: String)
    ensures
        r@ == match file_name_of(argv0@) {
            Some(n) => n,
            None => argv0@,
        },
{
    basename(argv0)
}

/// What `/proc/<pid>/stat` says of a process that the foreground search
/// reads: its controlling terminal, its process group, and the foreground
/// process group of its terminal.
#[derive(Clone, Copy)]
pub struct ProcStat {
    pub tty_nr: i32,
    pub pgrp: i32,
    pub tpgid: i32,
}

/// A process of a terminal's subtree as read from the process table: its
/// id, its stat where it could be read, and the positions in the table of
/// its children (those of all its threads, in the order they were listed).
/// The terminal stands first; a child's position lies after its parent's,
/// and a position that does not is no child.
pub struct ProcEntry {
    pub pid: i32,
    pub stat: Option<ProcStat>,
    pub children: Vec<usize>,
}

/// The position of the `k`-th child of entry `i`, where it is one.
pub open spec fn child_at(t: Seq<ProcEntry>, i: int, k: int) -> Option<int> {
    let c = t[i].children@[k] as int;
    if i < c < t.len() {
        Some(c)
    } else {
        None
    }
}

/// The leader of process group `target`, the process whose id is `target`,
/// where it is found among the descendants of entry `i`, children from the
/// `k`-th on, searching each child and then below it before the later
/// children.
pub open spec fn leader_search(t: Seq<ProcEntry>, i: int, k: int, target: i32) -> Option<i32>
    decreases t.len() - i, t[i].children@.len() - k,
    when 0 <= i < t.len() && 0 <= k
{
    if k >= t[i].children@.len() {
        None
    } else {
        match child_at(t, i, k) {
            None => leader_search(t, i, k + 1, target),
            Some(c) => if t[c].pid == target {
                Some(t[c].pid)
            } else {
                match leader_search(t, c, 0, target) {
                    Some(p) => Some(p),
                    None => leader_search(t, i, k + 1, target),
                }
            },
        }
    }
}

/// The position of the terminal's first child, from the `k`-th on, that has
/// a controlling terminal: the shell.
pub open spec fn first_shell(t: Seq<ProcEntry>, k: int) -> Option<int>
    decreases t[0].children@.len() - k,
    when t.len() > 0 && 0 <= k
{
    if k >= t[0].children@.len() {
        None
    } else {
        match child_at(t, 0, k) {
            Some(c) => if t[c].stat matches Some(st) && st.tty_nr != 0 {
                Some(c)
            } else {
                first_shell(t, k + 1)
            },
            None => first_shell(t, k + 1),
        }
    }
}

/// The foreground process of the terminal at the head of `t`: its shell
/// where the shell leads the terminal's foreground group, else the leader of
/// that group where it is a descendant of the shell, else the shell;
/// nothing when the terminal has no child with a controlling terminal.
pub open spec fn foreground_of(t: Seq<ProcEntry>) -> Option<i32> {
    if t.len() == 0 {
        None
    } else {
        match first_shell(t, 0) {
            None => None,
            Some(s) => match t[s].stat {
                Some(st) => if st.tpgid == st.pgrp {
                    Some(t[s].pid)
                } else {
                    match leader_search(t, s, 0, st.tpgid) {
                        Some(p) => Some(p),
                        None => Some(t[s].pid),
                    }
                },
                None => None,
            },
        }
    }
}

fn child_at_exec(t: &Vec<ProcEntry>, i: usize, k: usize) -> (r: Option<usize>)
    requires
        i < t@.len(),
        k < t@[i as int].children@.len(),
    ensures
        match r {
            Some(c) => i < c < t@.len() && child_at(t@, i as int, k as int) == Some(c as int),
            None => child_at(t@, i as int, k as int) is None,
        },
{
    let c = t[i].children[k];
    if i < c && c < t.len() {
        Some(c)
    } else {
        None
    }
}

fn leader_search_exec(t: &Vec<ProcEntry>, i: usize, k: usize, target: i32) -> (r: Option<i32>)
    requires
        i < t@.len(),
    ensures
        r == leader_search(t@, i as int, k as int, target),
    decreases t@.len() - i, t@[i as int].children@.len() - k,
{
    if k >= t[i].children.len() {
        return None;
    }
    match child_at_exec(t, i, k) {
        None => leader_search_exec(t, i, k + 1, target),
        Some(c) => {
            if t[c].pid == target {
                Some(t[c].pid)
            } else {
                match leader_search_exec(t, c, 0, target) {
                    Some(p) => Some(p),
                    None => leader_search_exec(t, i, k + 1, target),
                }
            }
        },
    }
}

fn first_shell_exec(t: &Vec<ProcEntry>, k: usize) -> (r: Option<usize>)
    requires
        t@.len() > 0,
    ensures
        match r {
            Some(c) => c < t@.len() && first_shell(t@, k as int) == Some(c as int),
            None => first_shell(t@, k as int) is None,
        },
    decreases t@[0].children@.len() - k,
{
    if k >= t[0].children.len() {
        return None;
    }
    match child_at_exec(t, 0, k) {
        Some(c) => {
            let shell = match t[c].stat {
                Some(st) => st.tty_nr != 0,
                None => false,
            };
            if shell {
                Some(c)
            } else {
                first_shell_exec(t, k + 1)
            }
        },
        None => first_shell_exec(t, k + 1),
    }
}

/// The foreground process of the terminal at the head of `table`, or
/// nothing when the terminal has no child with a controlling terminal.
pub fn foreground_process(table: &Vec<ProcEntry>) -> (r: Option<i32>)
    ensures
        r == foreground_of(table@),
{
    if table.len() == 0 {
        return None;
    }
    match first_shell_exec(table, 0) {
        None => None,
        Some(s) => match table[s].stat {
            Some(st) => if st.tpgid == st.pgrp {
                Some(table[s].pid)
            } else {
                match leader_search_exec(table, s, 0, st.tpgid) {
                    Some(p) => Some(p),
                    None => Some(table[s].pid),
                }
            },
            None => None,
        },
    }
}

} // verus!
