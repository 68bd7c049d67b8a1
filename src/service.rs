//! Decisions of the service installer and the service wrapper that do not
//! depend on the operating system.
use vstd::prelude::*;

verus! {

/// Exit code the service reports when the tracker could not be started.
pub const SPAWN_FAILURE_EXIT_CODE: u32 = 2;

/// Exit code the service reports when the tracker ended without one
/// (killed by a signal).
pub const UNKNOWN_EXIT_CODE: u32 = 3;

/// Whether position `i` of `s` is the first `@`.
pub open spec fn is_first_at(s: Seq<char>, i: int) -> bool {
    0 <= i < s.len() && s[i] == '@' && forall|j: int| 0 <= j < i ==> s[j] != '@'
}

/// Whether position `i` of `s` is the last `@`.
pub open spec fn is_last_at(s: Seq<char>, i: int) -> bool {
    0 <= i < s.len() && s[i] == '@' && forall|j: int| i < j < s.len() ==> s[j] != '@'
}

/// One line of the service unit written from its template: where the line
/// holds an `@`, everything from its first `@` to its last `@` is replaced by
/// the directory of the tracker; other lines stay as they are.
pub fn render_unit_line(line: &str, dir: &str) -> (r: String)
    ensures
        (forall|j: int| 0 <= j < line@.len() ==> line@[j] != '@') ==> r@ == line@,
        forall|f: int, l: int|
            is_first_at(line@, f) && is_last_at(line@, l) ==> r@ == line@.subrange(0, f) + dir@
                + line@.subrange(l + 1, line@.len() as int),
{
    let n = line.unicode_len();
    let mut first: usize = 0;
    while first < n && line.get_char(first) != '@'
        invariant
            n == line@.len(),
            first <= n,
            forall|j: int| 0 <= j < first ==> line@[j] != '@',
        decreases n - first,
    {
        first = first + 1;
    }
    if first == n {
        return String::from_str(line);
    }
    let mut last: usize = n - 1;
    while line.get_char(last) != '@'
        invariant
            n == line@.len(),
            first <= last < n,
            line@[first as int] == '@',
            forall|j: int| last < j < n ==> line@[j] != '@',
        decreases last,
    {
        last = last - 1;
    }
    assert(is_first_at(line@, first as int));
    assert(is_last_at(line@, last as int));
    let mut out = String::from_str(line.substring_char(0, first));
    out.append(dir);
    out.append(line.substring_char(last + 1, n));
    proof {
        assert forall|f: int, l: int| is_first_at(line@, f) && is_last_at(line@, l) implies f
            == first && l == last by {
            if f < first {
            }
            if first < f {
                assert(line@[first as int] == '@');
            }
            if l < last {
                assert(line@[last as int] == '@');
            }
            if last < l {
            }
        }
    }
    out
}

/// Exit code the service reports once the tracker has ended: the tracker's
/// own code, reinterpreted as unsigned, or `UNKNOWN_EXIT_CODE` when it has none.
pub fn service_exit_code(code: Option<i32>) -> (r: u32)
    ensures
        r == (match code {
            Some(c) => c as u32,
            None => UNKNOWN_EXIT_CODE,
        }),
{
    match code {
        Some(c) => c as u32,
        None => UNKNOWN_EXIT_CODE,
    }
}

} // verus!
