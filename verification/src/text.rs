use vstd::prelude::*;

verus! {

/// The line without its frame terminator: a trailing `'\n'` is dropped,
/// and a `'\r'` directly before it as well.
pub open spec fn spec_strip_eol(s: Seq<char>) -> Seq<char> {
    let t = if s.len() > 0 && s.last() == '\n' {
        s.drop_last()
    } else {
        s
    };
    if t.len() > 0 && t.last() == '\r' {
        t.drop_last()
    } else {
        t
    }
}

/// Whether a line (already stripped of its terminator) carries the
/// four-character opcode `op`.
pub open spec fn opcode_is(line: Seq<char>, op: Seq<char>) -> bool {
    line.len() >= 4 && line.subrange(0, 4) == op
}

/// The payload of a frame: everything after the four opcode characters.
pub open spec fn frame_payload(line: Seq<char>) -> Seq<char> {
    line.subrange(4, line.len() as int)
}

/// Character-for-character equality of two string slices.
pub fn str_eq(a: &str, b: &str) -> (r: bool)
    ensures
        r == (a@ == b@),
{
    let a_len = a.unicode_len();
    let b_len = b.unicode_len();
    if a_len != b_len {
        return false;
    }
    let mut i: usize = 0;
    while i < a_len
        invariant
            a_len == a@.len(),
            b_len == b@.len(),
            a_len == b_len,
            i <= a_len,
            forall|j: int| 0 <= j < i ==> a@[j] == b@[j],
        decreases a_len - i,
    {
        if a.get_char(i) != b.get_char(i) {
            return false;
        }
        i += 1;
    }
    proof {
        assert(a@ =~= b@);
    }
    true
}

/// Strips the wire protocol's frame terminator from one inbound line.
pub fn strip_line_ending(s: &str) -> (r: &str)
    ensures
        r@ == spec_strip_eol(s@),
{
    let n = s.unicode_len();
    let t = if n > 0 && s.get_char(n - 1) == '\n' {
        s.substring_char(0, n - 1)
    } else {
        s
    };
    let m = t.unicode_len();
    if m > 0 && t.get_char(m - 1) == '\r' {
        t.substring_char(0, m - 1)
    } else {
        t
    }
}

} // verus!
