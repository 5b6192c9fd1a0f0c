//! The text of a model reply as it is handed on: trailing whitespace cut,
//! line breaks and tabs written as escapes, one final newline.
use vstd::prelude::*;
use vstd::string::{StrSliceExecFns, StringExecFns};

verus! {

/// Whether `c` is whitespace in Unicode's sense, as `char::is_whitespace` has it.
pub open spec fn is_white(c: char) -> bool {
    let u = c as u32;
    (0x9 <= u <= 0xd) || u == 0x20 || u == 0x85 || u == 0xa0 || u == 0x1680 || (0x2000 <= u
        <= 0x200a) || u == 0x2028 || u == 0x2029 || u == 0x202f || u == 0x205f || u == 0x3000
}

/// A line feed, carriage return or tab: the characters written as escapes.
pub open spec fn is_escaped(c: char) -> bool {
    c == '\n' || c == '\r' || c == '\t'
}

/// `s` without its trailing whitespace.
pub open spec fn trim_end(s: Seq<char>) -> Seq<char>
    decreases s.len(),
{
    if s.len() > 0 && is_white(s.last()) {
        trim_end(s.drop_last())
    } else {
        s
    }
}

/// `s` without its leading whitespace, but for line feeds, carriage returns
/// and tabs, which are escapes by the time the front is trimmed.
pub open spec fn trim_front(s: Seq<char>) -> Seq<char>
    decreases s.len(),
{
    if s.len() > 0 && is_white(s[0]) && !is_escaped(s[0]) {
        trim_front(s.drop_first())
    } else {
        s
    }
}

/// How one character is written out.
pub open spec fn escape_char(c: char) -> Seq<char> {
    if c == '\n' {
        seq!['\\', 'n']
    } else if c == '\r' {
        seq!['\\', 'r']
    } else if c == '\t' {
        seq!['\\', 't']
    } else {
        seq![c]
    }
}

/// `s` with each line feed, carriage return and tab written as an escape.
pub open spec fn escaped(s: Seq<char>) -> Seq<char>
    decreases s.len(),
{
    if s.len() == 0 {
        seq![]
    } else {
        escaped(s.drop_last()) + escape_char(s.last())
    }
}

/// The sanitized reply: trimmed, escaped, ended by one newline.
pub open spec fn sanitized(raw: Seq<char>) -> Seq<char> {
    escaped(trim_front(trim_end(raw))) + seq!['\n']
}

proof fn lemma_escaped_append(a: Seq<char>, b: Seq<char>)
    ensures
        escaped(a + b) == escaped(a) + escaped(b),
    decreases b.len(),
{
    if b.len() == 0 {
        assert(a + b =~= a);
    } else {
        lemma_escaped_append(a, b.drop_last());
        assert((a + b).drop_last() =~= a + b.drop_last());
    }
}

proof fn lemma_escaped_plain(s: Seq<char>)
    requires
        forall|i: int| 0 <= i < s.len() ==> !is_escaped(#[trigger] s[i]),
    ensures
        escaped(s) == s,
    decreases s.len(),
{
    if s.len() > 0 {
        lemma_escaped_plain(s.drop_last());
        assert(!is_escaped(s[s.len() - 1]));
        assert(escaped(s) =~= s);
    }
}

fn white(c: char) -> (r: bool)
    ensures
        r == is_white(c),
{
    let u = c as u32;
    (0x9 <= u && u <= 0xd) || u == 0x20 || u == 0x85 || u == 0xa0 || u == 0x1680 || (0x2000 <= u
        && u <= 0x200a) || u == 0x2028 || u == 0x2029 || u == 0x202f || u == 0x205f || u == 0x3000
}

fn chars_of(s: &str) -> (r: Vec<char>)
    ensures
        r@ == s@,
{
    let mut r: Vec<char> = Vec::new();
    for c in it: s.chars()
        invariant
            it.seq() == s@,
            r@ == it.seq().take(it.index() as int),
    {
        r.push(c);
        assert(it.seq().take(it.index() + 1) =~= it.seq().take(it.index() as int) + seq![c]);
    }
    assert(r@ =~= s@);
    r
}

/// Cuts trailing whitespace, writes line feeds, carriage returns and tabs as
/// `\n`, `\r` and `\t`, cuts the whitespace that then leads, and ends the
/// text with a single newline.
pub fn sanitize(raw: &str) -> (r: String)
    ensures
        r@ == sanitized(raw@),
{
    let cs = chars_of(raw);
    let mut hi: usize = cs.len();
    assert(cs@.take(hi as int) =~= cs@);
    while hi > 0 && white(cs[hi - 1])
        invariant
            hi <= cs@.len(),
            trim_end(cs@) == trim_end(cs@.take(hi as int)),
        decreases hi,
    {
        assert(cs@.take(hi as int).drop_last() =~= cs@.take(hi - 1));
        hi -= 1;
    }
    assert(trim_end(cs@.take(hi as int)) == cs@.take(hi as int));
    let ghost t = cs@.take(hi as int);
    let mut lo: usize = 0;
    assert(cs@.subrange(0, hi as int) =~= t);
    while lo < hi && white(cs[lo]) && !(cs[lo] == '\n' || cs[lo] == '\r' || cs[lo] == '\t')
        invariant
            lo <= hi <= cs@.len(),
            t == cs@.take(hi as int),
            trim_front(t) == trim_front(cs@.subrange(lo as int, hi as int)),
        decreases hi - lo,
    {
        assert(cs@.subrange(lo as int, hi as int).drop_first() =~= cs@.subrange(lo + 1, hi as int));
        lo += 1;
    }
    assert(trim_front(cs@.subrange(lo as int, hi as int)) == cs@.subrange(lo as int, hi as int));
    let mut out = String::new();
    let mut run: usize = lo;
    let mut i: usize = lo;
    while i < hi
        invariant
            lo <= run <= i <= hi <= cs@.len(),
            cs@ == raw@,
            out@ == escaped(cs@.subrange(lo as int, run as int)),
            forall|k: int| run <= k < i ==> !is_escaped(#[trigger] cs@[k]),
        decreases hi - i,
    {
        let c = cs[i];
        if c == '\n' || c == '\r' || c == '\t' {
            out.append(raw.substring_char(run, i));
            if c == '\n' {
                out.append("\\n");
            } else if c == '\r' {
                out.append("\\r");
            } else {
                out.append("\\t");
            }
            proof {
                reveal_strlit("\\n");
                reveal_strlit("\\r");
                reveal_strlit("\\t");
                let plain = cs@.subrange(run as int, i as int);
                lemma_escaped_plain(plain);
                lemma_escaped_append(cs@.subrange(lo as int, run as int), plain);
                assert(cs@.subrange(lo as int, run as int) + plain =~= cs@.subrange(lo as int, i as int));
                assert(cs@.subrange(lo as int, i + 1).drop_last() =~= cs@.subrange(lo as int, i as int));
                assert(out@ =~= escaped(cs@.subrange(lo as int, i + 1)));
            }
            run = i + 1;
        }
        i += 1;
    }
    out.append(raw.substring_char(run, hi));
    out.append("\n");
    proof {
        reveal_strlit("\n");
        let plain = cs@.subrange(run as int, hi as int);
        lemma_escaped_plain(plain);
        lemma_escaped_append(cs@.subrange(lo as int, run as int), plain);
        assert(cs@.subrange(lo as int, run as int) + plain =~= cs@.subrange(lo as int, hi as int));
        assert(out@ =~= sanitized(raw@));
    }
    out
}

} // verus!
