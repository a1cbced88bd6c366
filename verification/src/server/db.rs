//! Where the table is kept: the file that a database address names.

use vstd::prelude::*;
use vstd::string::StrSliceExecFns;

verus! {

/// `pattern` stands in `text` at position `at`.
pub open spec fn occurs_at(text: Seq<char>, pattern: Seq<char>, at: int) -> bool {
    &&& 0 <= at
    &&& at + pattern.len() <= text.len()
    &&& text.subrange(at, at + pattern.len()) == pattern
}

/// `pattern` stands somewhere in `text`.
pub open spec fn occurs_in(text: Seq<char>, pattern: Seq<char>) -> bool {
    exists|at: int| occurs_at(text, pattern, at)
}

/// The address names a database that is kept in memory.
pub open spec fn is_in_memory(address: Seq<char>) -> bool {
    occurs_in(address, ":memory:"@)
}

/// The address without the scheme `sqlite:` in front of it, where it has
/// one.
pub open spec fn without_scheme(address: Seq<char>) -> Seq<char> {
    if occurs_at(address, "sqlite:"@, 0) {
        address.skip("sqlite:"@.len() as int)
    } else {
        address
    }
}

/// `part` is what `text` holds before its first question mark, and all of
/// `text` where it holds none.
pub open spec fn is_before_query(part: Seq<char>, text: Seq<char>) -> bool {
    &&& part.len() <= text.len()
    &&& part == text.take(part.len() as int)
    &&& !part.contains('?')
    &&& part.len() < text.len() ==> text[part.len() as int] == '?'
}

/// The characters of a text.
fn chars_of(text: &str) -> (chars: Vec<char>)
    ensures
        chars@ == text@,
{
    let n = text.unicode_len();
    let mut chars: Vec<char> = Vec::new();
    let mut i: usize = 0;
    while i < n
        invariant
            n == text@.len(),
            i <= n,
            chars@ == text@.take(i as int),
        decreases n - i,
    {
        chars.push(text.get_char(i));
        i += 1;
        assert(chars@ =~= text@.take(i as int));
    }
    assert(text@.take(n as int) =~= text@);
    chars
}

/// Whether `pattern` stands in `text` at position `at`.
fn stands_at(text: &Vec<char>, pattern: &Vec<char>, at: usize) -> (found: bool)
    ensures
        found == occurs_at(text@, pattern@, at as int),
{
    if pattern.len() > text.len() || at > text.len() - pattern.len() {
        return false;
    }
    let mut k: usize = 0;
    while k < pattern.len()
        invariant
            k <= pattern.len(),
            at + pattern.len() <= text.len(),
            forall|j: int| 0 <= j < k ==> text[at + j] == pattern[j],
        decreases pattern.len() - k,
    {
        if text[at + k] != pattern[k] {
            assert(text@.subrange(at as int, at + pattern.len())[k as int] != pattern[k as int]);
            return false;
        }
        k += 1;
    }
    assert(text@.subrange(at as int, at + pattern.len()) =~= pattern@);
    true
}

/// Whether `pattern` stands somewhere in `text`.
fn stands_in(text: &Vec<char>, pattern: &Vec<char>) -> (found: bool)
    ensures
        found == occurs_in(text@, pattern@),
{
    if pattern.len() > text.len() {
        return false;
    }
    let last: usize = text.len() - pattern.len();
    let mut at: usize = 0;
    loop
        invariant
            at <= last,
            last == text.len() - pattern.len(),
            forall|i: int| 0 <= i < at ==> !occurs_at(text@, pattern@, i),
        decreases last - at,
    {
        if stands_at(text, pattern, at) {
            return true;
        }
        if at == last {
            return false;
        }
        at += 1;
    }
}

/// The file in which the database at `address` is kept: none where the
/// address names a database in memory; else what the address holds behind
/// the scheme `sqlite:` and before its first question mark.
pub fn database_file(address: &str) -> (file: Option<String>)
    ensures
        is_in_memory(address@) <==> file is None,
        file matches Some(path) ==> is_before_query(path@, without_scheme(address@)),
{
    let text = chars_of(address);
    let in_memory = chars_of(":memory:");
    let scheme = chars_of("sqlite:");
    if stands_in(&text, &in_memory) {
        return None;
    }
    let start: usize = if stands_at(&text, &scheme, 0) {
        scheme.len()
    } else {
        0
    };
    let ghost rest = without_scheme(address@);
    assert(rest == address@.skip(start as int));
    let mut end: usize = start;
    while end < text.len() && text[end] != '?'
        invariant
            start <= end <= text.len(),
            text@ == address@,
            forall|k: int| start <= k < end ==> text[k] != '?',
        decreases text.len() - end,
    {
        end += 1;
    }
    let path = address.substring_char(start, end);
    proof {
        assert(path@ =~= rest.take(end - start));
        assert(!path@.contains('?')) by {
            if path@.contains('?') {
                let k = choose|k: int| 0 <= k < path@.len() && path@[k] == '?';
                assert(text[start + k] == '?');
            }
        }
    }
    Some(path.to_owned())
}

} // verus!
