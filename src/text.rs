//! Text helpers: splitting file content into lines, comparing strings, and
//! lowercasing configuration values.
use vstd::prelude::*;

verus! {

/// Splitting state after reading `s`: the lines already ended by a newline,
/// and the characters of the line still open.
pub open spec fn split_state(s: Seq<char>) -> (Seq<Seq<char>>, Seq<char>)
    decreases s.len(),
{
    if s.len() == 0 {
        (Seq::empty(), Seq::empty())
    } else {
        let prev = split_state(s.drop_last());
        if s.last() == '\n' {
            (prev.0.push(prev.1), Seq::empty())
        } else {
            (prev.0, prev.1.push(s.last()))
        }
    }
}

/// The lines of `s`: every newline ends a line, and characters after the
/// last newline form one more line.
pub open spec fn lines_of(s: Seq<char>) -> Seq<Seq<char>> {
    let st = split_state(s);
    if st.1.len() == 0 {
        st.0
    } else {
        st.0.push(st.1)
    }
}

/// The views of a sequence of strings.
pub open spec fn string_views(v: Seq<String>) -> Seq<Seq<char>> {
    v.map_values(|s: String| s@)
}

/// Relies on `String::push`: appends one character.
#[verifier::external_body]
pub(crate) fn push_char(s: &mut String, c: char)
    ensures
        final(s)@ == old(s)@.push(c),
{
    s.push(c)
}

/// Splits file content into its lines, without the newline characters.
pub fn split_lines(content: &str) -> (r: Vec<String>)
    ensures
        string_views(r@) == lines_of(content@),
{
    let mut done: Vec<String> = Vec::new();
    let mut cur = String::new();
    for c in it: content.chars()
        invariant
            it.seq() == content@,
            (string_views(done@), cur@) == split_state(content@.subrange(0, it.index() as int)),
    {
        let ghost pre = content@.subrange(0, it.index() as int);
        assert(content@.subrange(0, it.index() + 1).drop_last() == pre);
        assert(c == content@[it.index() as int]);
        if c == '\n' {
            let ghost before = done@;
            let line = cur;
            cur = String::new();
            done.push(line);
            assert(string_views(done@) =~= string_views(before).push(line@));
        } else {
            push_char(&mut cur, c);
        }
    }
    assert(content@.subrange(0, content@.len() as int) == content@);
    if cur.as_str().unicode_len() > 0 {
        let ghost before = done@;
        done.push(cur);
        assert(string_views(done@) =~= string_views(before).push(cur@));
    }
    done
}

} // verus!
