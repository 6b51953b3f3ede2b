//! Comments: `/* ... */`, which may run over several lines, and `//` to the
//! end of a line.

use vstd::prelude::*;

verus! {

/// What is left of `line` when its parts inside block comments are cut out,
/// and whether a block comment is open at its end. `in_comment` says whether
/// one is open at its start.
///
/// A comment opens at `/*` and closes at the first `*/` behind that.
pub open spec fn outside_blocks(line: Seq<char>, in_comment: bool) -> (Seq<char>, bool)
    decreases line.len(),
{
    if in_comment {
        if line.len() < 2 {
            (seq![], true)
        } else if line[0] == '*' && line[1] == '/' {
            outside_blocks(line.skip(2), false)
        } else {
            outside_blocks(line.skip(1), true)
        }
    } else {
        if line.len() == 0 {
            (seq![], false)
        } else if line.len() >= 2 && line[0] == '/' && line[1] == '*' {
            outside_blocks(line.skip(2), true)
        } else {
            let rest = outside_blocks(line.skip(1), false);
            (seq![line[0]] + rest.0, rest.1)
        }
    }
}

/// `s` up to its first `//`, or all of it where it has none.
pub open spec fn before_line_comment(s: Seq<char>) -> Seq<char>
    decreases s.len(),
{
    if s.len() < 2 {
        s
    } else if s[0] == '/' && s[1] == '/' {
        seq![]
    } else {
        seq![s[0]] + before_line_comment(s.skip(1))
    }
}

/// What a line says outside its comments, and whether a block comment is
/// open at its end. Block comments are cut out first, so that one may open
/// behind a `//`.
pub open spec fn code_of(line: Seq<char>, in_comment: bool) -> (Seq<char>, bool) {
    let (kept, open) = outside_blocks(line, in_comment);
    (before_line_comment(kept), open)
}

/// Cuts the block comments out of `line`.
pub fn strip_blocks(line: &[char], in_comment: bool) -> (r: (Vec<char>, bool))
    ensures
        (r.0@, r.1) == outside_blocks(line@, in_comment),
{
    let mut kept: Vec<char> = Vec::new();
    let mut open = in_comment;
    let mut i: usize = 0;
    assert(line@.skip(0) =~= line@);
    assert(kept@ + outside_blocks(line@, in_comment).0 =~= outside_blocks(line@, in_comment).0);
    while i < line.len()
        invariant
            i <= line.len(),
            outside_blocks(line@, in_comment).0 == kept@ + outside_blocks(
                line@.skip(i as int),
                open,
            ).0,
            outside_blocks(line@, in_comment).1 == outside_blocks(line@.skip(i as int), open).1,
        decreases line.len() - i,
    {
        let ghost rest = line@.skip(i as int);
        let ghost before = kept@;
        assert(rest.skip(1) =~= line@.skip(i + 1));
        if i + 1 < line.len() {
            assert(rest.skip(2) =~= line@.skip(i + 2));
        }
        if open {
            if i + 1 < line.len() && line[i] == '*' && line[i + 1] == '/' {
                open = false;
                i += 2;
            } else {
                if i + 1 == line.len() {
                    assert(outside_blocks(rest.skip(1), true) == (Seq::<char>::empty(), true));
                }
                i += 1;
            }
        } else {
            if i + 1 < line.len() && line[i] == '/' && line[i + 1] == '*' {
                open = true;
                i += 2;
            } else {
                kept.push(line[i]);
                assert(kept@ + outside_blocks(rest.skip(1), false).0 =~= before + (seq![rest[0]]
                    + outside_blocks(rest.skip(1), false).0));
                i += 1;
            }
        }
    }
    assert(kept@ + Seq::<char>::empty() =~= kept@);
    (kept, open)
}

/// Cuts `s` off at its first `//`.
pub fn strip_line_comment<'a>(s: &'a [char]) -> (r: &'a [char])
    ensures
        r@ == before_line_comment(s@),
{
    let mut i: usize = 0;
    assert(s@.skip(0) =~= s@);
    assert(s@.take(0) + before_line_comment(s@) =~= before_line_comment(s@));
    while s.len() - i >= 2 && !(s[i] == '/' && s[i + 1] == '/')
        invariant
            i <= s.len(),
            before_line_comment(s@) == s@.take(i as int) + before_line_comment(
                s@.skip(i as int),
            ),
        decreases s.len() - i,
    {
        let ghost rest = s@.skip(i as int);
        assert(rest.skip(1) =~= s@.skip(i + 1));
        assert(s@.take(i + 1) + before_line_comment(rest.skip(1)) =~= s@.take(i as int) + (
        seq![rest[0]] + before_line_comment(rest.skip(1))));
        i += 1;
    }
    if s.len() - i >= 2 {
        assert(s@.take(i as int) + Seq::<char>::empty() =~= s@.take(i as int));
        vstd::slice::slice_subrange(s, 0, i)
    } else {
        assert(s@.take(i as int) + s@.skip(i as int) =~= s@);
        s
    }
}

} // verus!
