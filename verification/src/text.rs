//! Character classes and the splitting of text into fields and words.

use vstd::prelude::*;
use vstd::string::StrSliceExecFns;

verus! {

/// Whether `c` separates words: the characters with the Unicode property
/// White_Space.
pub open spec fn is_space(c: char) -> bool {
    ||| ('\u{9}' <= c && c <= '\u{d}')
    ||| c == ' '
    ||| c == '\u{85}'
    ||| c == '\u{a0}'
    ||| c == '\u{1680}'
    ||| ('\u{2000}' <= c && c <= '\u{200a}')
    ||| c == '\u{2028}'
    ||| c == '\u{2029}'
    ||| c == '\u{202f}'
    ||| c == '\u{205f}'
    ||| c == '\u{3000}'
}

/// Tests whether `c` separates words.
pub fn is_whitespace(c: char) -> (b: bool)
    ensures
        b == is_space(c),
{
    ('\u{9}' <= c && c <= '\u{d}') || c == ' ' || c == '\u{85}' || c == '\u{a0}' || c == '\u{1680}'
        || ('\u{2000}' <= c && c <= '\u{200a}') || c == '\u{2028}' || c == '\u{2029}' || c
        == '\u{202f}' || c == '\u{205f}' || c == '\u{3000}'
}

/// The ASCII lower-case form of `c`; every other character is left as it is.
pub open spec fn lower_char(c: char) -> char {
    if 'A' <= c && c <= 'Z' {
        ((c as u8) + 32) as char
    } else {
        c
    }
}

/// Folds an ASCII upper-case letter to lower case.
pub fn to_lower(c: char) -> (r: char)
    ensures
        r == lower_char(c),
{
    if 'A' <= c && c <= 'Z' {
        ((c as u8) + 32) as char
    } else {
        c
    }
}

/// Length of the longest prefix of `s` whose characters all satisfy `keep`.
pub open spec fn run_len(s: Seq<char>, keep: spec_fn(char) -> bool) -> nat
    decreases s.len(),
{
    if s.len() == 0 || !keep(s[0]) {
        0
    } else {
        1 + run_len(s.skip(1), keep)
    }
}

/// `run_len` is in range, every character before it satisfies `keep`, and
/// the character at it, if there is one, does not.
pub proof fn lemma_run_len(s: Seq<char>, keep: spec_fn(char) -> bool)
    ensures
        run_len(s, keep) <= s.len(),
        forall|k: int| 0 <= k < run_len(s, keep) ==> keep(#[trigger] s[k]),
        run_len(s, keep) < s.len() ==> !keep(s[run_len(s, keep) as int]),
    decreases s.len(),
{
    if s.len() == 0 || !keep(s[0]) {
    } else {
        lemma_run_len(s.skip(1), keep);
        assert forall|k: int| 0 <= k < run_len(s, keep) implies keep(#[trigger] s[k]) by {
            if k > 0 {
                assert(s.skip(1)[k - 1] == s[k]);
            }
        }
    }
}

/// A length of which all that holds that `lemma_run_len` states is the run
/// length.
pub proof fn lemma_run_len_is(s: Seq<char>, keep: spec_fn(char) -> bool, n: int)
    requires
        0 <= n <= s.len(),
        forall|k: int| 0 <= k < n ==> keep(#[trigger] s[k]),
        n < s.len() ==> !keep(s[n]),
    ensures
        run_len(s, keep) == n,
    decreases s.len(),
{
    if s.len() == 0 || !keep(s[0]) {
        if n > 0 {
            assert(keep(s[0]));
        }
    } else {
        assert forall|k: int| 0 <= k < n - 1 implies keep(#[trigger] s.skip(1)[k]) by {
            assert(s.skip(1)[k] == s[k + 1]);
        }
        lemma_run_len_is(s.skip(1), keep, n - 1);
    }
}

/// The test for being another character than `c`.
pub open spec fn other_than(c: char) -> spec_fn(char) -> bool {
    |x: char| x != c
}

/// The test for not being white space.
pub open spec fn in_word() -> spec_fn(char) -> bool {
    |x: char| !is_space(x)
}

/// Index of the first `c` in `s`, or the length of `s` where there is none.
pub open spec fn position(s: Seq<char>, c: char) -> nat {
    run_len(s, other_than(c))
}

/// The pieces of `s` between the occurrences of `sep`: one more than there
/// are occurrences, some of them possibly empty.
pub open spec fn split(s: Seq<char>, sep: char) -> Seq<Seq<char>>
    decreases s.len(),
{
    let p = position(s, sep) as int;
    if p >= s.len() {
        seq![s]
    } else {
        seq![s.take(p)] + split(s.skip(p + 1), sep)
    }
}

/// The contents of a list of slices.
pub open spec fn views(v: Seq<&[char]>) -> Seq<Seq<char>> {
    Seq::new(v.len(), |i: int| v[i]@)
}

/// Finds the first `c` at or after `from`.
pub fn find_char(s: &[char], c: char, from: usize) -> (at: usize)
    requires
        from <= s.len(),
    ensures
        from <= at <= s.len(),
        at - from == position(s@.skip(from as int), c),
{
    let mut at = from;
    while at < s.len() && s[at] != c
        invariant
            from <= at <= s.len(),
            forall|k: int| from <= k < at ==> s@[k] != c,
        decreases s.len() - at,
    {
        at += 1;
    }
    proof {
        lemma_run_len_is(s@.skip(from as int), other_than(c), at - from);
    }
    at
}

/// Cuts `s` at every `sep`.
pub fn split_on<'a>(s: &'a [char], sep: char) -> (parts: Vec<&'a [char]>)
    ensures
        views(parts@) == split(s@, sep),
{
    let mut parts: Vec<&'a [char]> = Vec::new();
    let mut start: usize = 0;
    let mut end = find_char(s, sep, 0);
    assert(views(parts@) + split(s@.skip(0), sep) =~= split(s@, sep)) by {
        assert(s@.skip(0) =~= s@);
    }
    while end < s.len()
        invariant
            start <= end <= s.len(),
            end - start == position(s@.skip(start as int), sep),
            split(s@, sep) == views(parts@) + split(s@.skip(start as int), sep),
        decreases s.len() - start,
    {
        let ghost before = parts@;
        let ghost rest = s@.skip(start as int);
        let piece = vstd::slice::slice_subrange(s, start, end);
        parts.push(piece);
        proof {
            assert(piece@ =~= rest.take(end - start));
            assert(rest.skip(end - start + 1) =~= s@.skip(end + 1));
            assert(views(parts@) =~= views(before).push(piece@));
            assert(views(parts@) + split(s@.skip(end + 1), sep) =~= views(before) + split(
                rest,
                sep,
            ));
        }
        start = end + 1;
        end = find_char(s, sep, start);
    }
    let ghost before = parts@;
    let piece = vstd::slice::slice_subrange(s, start, s.len());
    parts.push(piece);
    proof {
        assert(piece@ =~= s@.skip(start as int));
        assert(views(parts@) =~= views(before).push(piece@));
        assert(views(parts@) =~= views(before) + split(s@.skip(start as int), sep));
    }
    parts
}

/// Whether `s` holds nothing but white space.
pub open spec fn is_blank(s: Seq<char>) -> bool {
    forall|i: int| 0 <= i < s.len() ==> is_space(#[trigger] s[i])
}

/// Tests whether `s` holds nothing but white space.
pub fn blank(s: &[char]) -> (b: bool)
    ensures
        b == is_blank(s@),
{
    let mut i: usize = 0;
    while i < s.len()
        invariant
            i <= s.len(),
            forall|k: int| 0 <= k < i ==> is_space(#[trigger] s@[k]),
        decreases s.len() - i,
    {
        if !is_whitespace(s[i]) {
            return false;
        }
        i += 1;
    }
    true
}

/// Length of the first word of `s`, where `s` starts with one.
pub open spec fn word_len(s: Seq<char>) -> nat {
    run_len(s, in_word())
}

/// The words of `s`: its maximal runs of characters that are not white
/// space, in order.
pub open spec fn words(s: Seq<char>) -> Seq<Seq<char>>
    decreases s.len(),
{
    if s.len() == 0 {
        seq![]
    } else if is_space(s[0]) {
        words(s.skip(1))
    } else {
        let n = word_len(s) as int;
        proof {
            lemma_run_len(s, in_word());
        }
        seq![s.take(n)] + words(s.skip(n))
    }
}

/// Cuts `s` into its words.
pub fn split_words<'a>(s: &'a [char]) -> (parts: Vec<&'a [char]>)
    ensures
        views(parts@) == words(s@),
{
    let mut parts: Vec<&'a [char]> = Vec::new();
    let mut i: usize = 0;
    assert(s@.skip(0) =~= s@);
    while i < s.len()
        invariant
            i <= s.len(),
            words(s@) == views(parts@) + words(s@.skip(i as int)),
        decreases s.len() - i,
    {
        let ghost rest = s@.skip(i as int);
        if is_whitespace(s[i]) {
            assert(rest.skip(1) =~= s@.skip(i + 1));
            i += 1;
        } else {
            let start = i;
            let mut end = i + 1;
            while end < s.len() && !is_whitespace(s[end])
                invariant
                    start < end <= s.len(),
                    forall|k: int| start <= k < end ==> !is_space(#[trigger] s@[k]),
                decreases s.len() - end,
            {
                end += 1;
            }
            let ghost before = parts@;
            let piece = vstd::slice::slice_subrange(s, start, end);
            parts.push(piece);
            proof {
                lemma_run_len_is(rest, in_word(), end - start);
                assert(piece@ =~= rest.take(end - start));
                assert(rest.skip(end - start) =~= s@.skip(end as int));
                assert(views(parts@) =~= views(before).push(piece@));
                assert(views(parts@) + words(s@.skip(end as int)) =~= views(before) + words(rest));
            }
            i = end;
        }
    }
    assert(views(parts@) + words(s@.skip(i as int)) =~= views(parts@));
    parts
}

/// `s` without its leading white space.
pub open spec fn trim_start(s: Seq<char>) -> Seq<char>
    decreases s.len(),
{
    if s.len() > 0 && is_space(s[0]) {
        trim_start(s.skip(1))
    } else {
        s
    }
}

/// `s` without its trailing white space.
pub open spec fn trim_end(s: Seq<char>) -> Seq<char>
    decreases s.len(),
{
    if s.len() > 0 && is_space(s.last()) {
        trim_end(s.drop_last())
    } else {
        s
    }
}

/// `s` without the white space at its two ends.
pub open spec fn trim(s: Seq<char>) -> Seq<char> {
    trim_end(trim_start(s))
}

/// Drops the white space at the two ends of `s`.
pub fn trimmed<'a>(s: &'a [char]) -> (t: &'a [char])
    ensures
        t@ == trim(s@),
{
    let mut start: usize = 0;
    assert(s@.skip(0) =~= s@);
    while start < s.len() && is_whitespace(s[start])
        invariant
            start <= s.len(),
            trim_start(s@) == trim_start(s@.skip(start as int)),
        decreases s.len() - start,
    {
        assert(s@.skip(start as int).skip(1) =~= s@.skip(start + 1));
        start += 1;
    }
    let mut end: usize = s.len();
    assert(s@.subrange(start as int, end as int) =~= s@.skip(start as int));
    while end > start && is_whitespace(s[end - 1])
        invariant
            start <= end <= s.len(),
            trim(s@) == trim_end(s@.subrange(start as int, end as int)),
        decreases end,
    {
        assert(s@.subrange(start as int, end as int).drop_last() =~= s@.subrange(
            start as int,
            end - 1,
        ));
        end -= 1;
    }
    vstd::slice::slice_subrange(s, start, end)
}

/// The characters of `text`, in order.
pub fn chars_of(text: &str) -> (v: Vec<char>)
    ensures
        v@ == text@,
{
    let mut v: Vec<char> = Vec::new();
    for c in it: text.chars()
        invariant
            v@ == it.seq().take(it.index() as int),
            it.seq() == text@,
    {
        v.push(c);
    }
    v
}

/// Tests whether `word` reads as `name` does.
pub fn reads_as(word: &[char], name: &str) -> (b: bool)
    ensures
        b == (word@ == name@),
{
    let n = name.unicode_len();
    if word.len() != n {
        return false;
    }
    let mut i: usize = 0;
    while i < n
        invariant
            i <= n,
            n == word@.len(),
            n == name@.len(),
            forall|k: int| 0 <= k < i ==> word@[k] == name@[k],
        decreases n - i,
    {
        if word[i] != name.get_char(i) {
            return false;
        }
        i += 1;
    }
    assert(word@ =~= name@);
    true
}

/// The words `parts` written one after another with a single space between
/// neighbours.
pub open spec fn join(parts: Seq<Seq<char>>) -> Seq<char>
    decreases parts.len(),
{
    if parts.len() == 0 {
        seq![]
    } else if parts.len() == 1 {
        parts[0]
    } else {
        join(parts.drop_last()) + seq![' '] + parts.last()
    }
}

/// What `join` is for one word, for two, and for more.
pub proof fn lemma_join_unfold(parts: Seq<Seq<char>>)
    ensures
        parts.len() == 1 ==> join(parts) == parts[0],
        parts.len() == 2 ==> join(parts) == parts[0] + seq![' '] + parts[1],
{
    if parts.len() == 2 {
        assert(parts.drop_last().len() == 1);
        assert(join(parts.drop_last()) == parts[0]);
    }
}

/// What `join` is for five words.
pub proof fn lemma_join_five(parts: Seq<Seq<char>>)
    requires
        parts.len() == 5,
    ensures
        join(parts) == parts[0] + seq![' '] + parts[1] + seq![' '] + parts[2] + seq![' ']
            + parts[3] + seq![' '] + parts[4],
{
    let p4 = parts.drop_last();
    let p3 = p4.drop_last();
    let p2 = p3.drop_last();
    lemma_join_unfold(p2);
    assert(join(p3) == join(p2) + seq![' '] + p3.last());
    assert(join(p4) == join(p3) + seq![' '] + p4.last());
}

/// Appends one character to a string: `String::push` of the standard
/// library, which the contract takes to put `c` behind the characters that
/// the string holds and to change nothing else.
#[verifier::external_body]
pub(crate) fn push_char(s: &mut String, c: char)
    ensures
        final(s)@ == old(s)@.push(c),
{
    s.push(c)
}

/// Appends the characters `chars` to `out`.
pub fn push_chars(out: &mut String, chars: &[char])
    ensures
        final(out)@ == old(out)@ + chars@,
{
    let mut i: usize = 0;
    assert(old(out)@ + chars@.take(0) =~= old(out)@);
    while i < chars.len()
        invariant
            i <= chars.len(),
            out@ == old(out)@ + chars@.take(i as int),
        decreases chars.len() - i,
    {
        push_char(out, chars[i]);
        assert(chars@.take(i + 1) =~= chars@.take(i as int).push(chars@[i as int]));
        assert(out@ =~= old(out)@ + chars@.take(i + 1));
        i += 1;
    }
    assert(chars@.take(i as int) =~= chars@);
}

/// A string of the characters `chars`.
pub fn string_of(chars: &[char]) -> (s: String)
    ensures
        s@ == chars@,
{
    let mut s = String::new();
    push_chars(&mut s, chars);
    assert(Seq::<char>::empty() + chars@ =~= chars@);
    s
}

/// A string of the words `parts` with a single space between neighbours.
pub fn join_words(parts: &[&[char]]) -> (s: String)
    ensures
        s@ == join(views(parts@)),
{
    let mut s = String::new();
    let mut i: usize = 0;
    assert(views(parts@).take(0) =~= Seq::<Seq<char>>::empty());
    while i < parts.len()
        invariant
            i <= parts.len(),
            s@ == join(views(parts@).take(i as int)),
        decreases parts.len() - i,
    {
        let ghost before = views(parts@).take(i as int);
        let ghost now = views(parts@).take(i + 1);
        if i > 0 {
            push_char(&mut s, ' ');
        }
        push_chars(&mut s, parts[i]);
        proof {
            assert(now.drop_last() =~= before);
            assert(now.last() == parts@[i as int]@);
            if i == 0 {
                assert(s@ =~= parts@[0]@);
            } else {
                assert(s@ =~= join(before) + seq![' '] + parts@[i as int]@);
            }
        }
        i += 1;
    }
    assert(views(parts@).take(i as int) =~= views(parts@));
    s
}

/// Whether `w` is a word: not empty, and free of white space.
pub open spec fn is_word(w: Seq<char>) -> bool {
    w.len() > 0 && forall|i: int| 0 <= i < w.len() ==> !is_space(#[trigger] w[i])
}

/// Whether `parts` holds words only.
pub open spec fn all_words(parts: Seq<Seq<char>>) -> bool {
    forall|i: int| 0 <= i < parts.len() ==> is_word(#[trigger] parts[i])
}

/// The words of a word are the word itself.
pub proof fn lemma_words_of_word(w: Seq<char>)
    requires
        is_word(w),
    ensures
        words(w) == seq![w],
{
    lemma_run_len_is(w, in_word(), w.len() as int);
    assert(!is_space(w[0]));
    assert(w.take(w.len() as int) =~= w);
    assert(w.skip(w.len() as int) =~= Seq::<char>::empty());
    assert(words(w.skip(w.len() as int)) =~= Seq::<Seq<char>>::empty());
    assert(seq![w] + Seq::<Seq<char>>::empty() =~= seq![w]);
}

/// What `words` cuts out of a text are words.
pub proof fn lemma_words_are_words(s: Seq<char>)
    ensures
        all_words(words(s)),
    decreases s.len(),
{
    if s.len() == 0 {
    } else if is_space(s[0]) {
        lemma_words_are_words(s.skip(1));
    } else {
        let n = word_len(s) as int;
        lemma_run_len(s, in_word());
        lemma_words_are_words(s.skip(n));
        let first = s.take(n);
        assert(is_word(first)) by {
            assert forall|i: int| 0 <= i < first.len() implies !is_space(#[trigger] first[i]) by {
                assert(in_word()(s[i]));
            }
        }
        let rest = words(s.skip(n));
        assert forall|i: int| 0 <= i < words(s).len() implies is_word(#[trigger] words(s)[i]) by {
            if i > 0 {
                assert(words(s)[i] == rest[i - 1]);
            }
        }
    }
}

/// The words of two texts with a space between them are the words of the
/// first and then those of the second.
pub proof fn lemma_words_across_space(a: Seq<char>, b: Seq<char>)
    ensures
        words(a + seq![' '] + b) == words(a) + words(b),
    decreases a.len(),
{
    let s = a + seq![' '] + b;
    if a.len() == 0 {
        assert(s.skip(1) =~= b);
        assert(is_space(s[0]));
        assert(words(a) + words(b) =~= words(b));
    } else if is_space(a[0]) {
        assert(s.skip(1) =~= a.skip(1) + seq![' '] + b);
        lemma_words_across_space(a.skip(1), b);
    } else {
        let n = word_len(a) as int;
        lemma_run_len(a, in_word());
        assert(word_len(s) == n) by {
            assert forall|k: int| 0 <= k < n implies in_word()(#[trigger] s[k]) by {
                assert(s[k] == a[k]);
                assert(in_word()(a[k]));
            }
            if n < a.len() {
                assert(s[n] == a[n]);
            } else {
                assert(s[n] == ' ');
            }
            lemma_run_len_is(s, in_word(), n);
        }
        assert(s.take(n) =~= a.take(n));
        assert(s.skip(n) =~= a.skip(n) + seq![' '] + b);
        lemma_words_across_space(a.skip(n), b);
        assert(words(s) =~= words(a) + words(b));
    }
}

/// Joining words and cutting the text into words again gives the words
/// back.
pub proof fn lemma_words_of_join(parts: Seq<Seq<char>>)
    requires
        all_words(parts),
    ensures
        words(join(parts)) == parts,
    decreases parts.len(),
{
    if parts.len() == 0 {
        assert(words(join(parts)) =~= parts);
    } else if parts.len() == 1 {
        assert(is_word(parts[0]));
        lemma_words_of_word(parts[0]);
        assert(seq![parts[0]] =~= parts);
    } else {
        let front = parts.drop_last();
        assert(all_words(front)) by {
            assert forall|i: int| 0 <= i < front.len() implies is_word(#[trigger] front[i]) by {
                assert(front[i] == parts[i]);
            }
        }
        lemma_words_of_join(front);
        assert(is_word(parts.last()));
        lemma_words_of_word(parts.last());
        lemma_words_across_space(join(front), parts.last());
        assert(front + seq![parts.last()] =~= parts);
    }
}

} // verus!
