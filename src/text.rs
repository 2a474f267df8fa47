//! Splitting a phrase at single spaces, and joining words with them.

use vstd::prelude::*;

verus! {

/// The tokens of `s` between single spaces, in order. Two spaces in a row
/// enclose an empty token, and so do a leading or a trailing space.
pub open spec fn split_spaces(s: Seq<char>) -> Seq<Seq<char>>
    decreases s.len(),
{
    if s.len() == 0 {
        seq![Seq::empty()]
    } else {
        let p = split_spaces(s.drop_last());
        if s.last() == ' ' {
            p.push(Seq::empty())
        } else {
            p.update(p.len() - 1, p.last().push(s.last()))
        }
    }
}

/// Words joined with a single space between each two.
pub open spec fn join_spaces(ws: Seq<Seq<char>>) -> Seq<char>
    decreases ws.len(),
{
    if ws.len() == 0 {
        Seq::empty()
    } else if ws.len() == 1 {
        ws[0]
    } else {
        join_spaces(ws.drop_last()) + seq![' '] + ws.last()
    }
}

/// Whether `w` holds no space.
pub open spec fn no_space(w: Seq<char>) -> bool {
    forall|i: int| 0 <= i < w.len() ==> #[trigger] w[i] != ' '
}

/// The views of a list of string slices.
pub open spec fn str_views(v: Seq<&str>) -> Seq<Seq<char>> {
    v.map_values(|t: &str| t@)
}

proof fn lemma_split_nonempty(s: Seq<char>)
    ensures
        split_spaces(s).len() >= 1,
    decreases s.len(),
{
    if s.len() > 0 {
        lemma_split_nonempty(s.drop_last());
    }
}

/// Appending characters other than spaces extends the last token.
proof fn lemma_split_append_word(x: Seq<char>, w: Seq<char>)
    requires
        no_space(w),
    ensures
        split_spaces(x + w) == split_spaces(x).update(
            split_spaces(x).len() - 1,
            split_spaces(x).last() + w,
        ),
    decreases w.len(),
{
    lemma_split_nonempty(x);
    if w.len() == 0 {
        assert(x + w =~= x);
        assert(split_spaces(x).last() + w =~= split_spaces(x).last());
        assert(split_spaces(x).update(split_spaces(x).len() - 1, split_spaces(x).last())
            =~= split_spaces(x));
    } else {
        let w0 = w.drop_last();
        assert(no_space(w0));
        lemma_split_append_word(x, w0);
        assert((x + w).drop_last() =~= x + w0);
        assert((x + w).last() == w.last());
        assert(w.last() != ' ');
        lemma_split_nonempty(x + w0);
        let sx = split_spaces(x);
        let p = split_spaces(x + w0);
        assert(split_spaces(x + w) == p.update(p.len() - 1, p.last().push(w.last())));
        assert(p.len() == sx.len());
        assert(p.last() == sx.last() + w0);
        assert((sx.last() + w0).push(w.last()) =~= sx.last() + w);
        assert(split_spaces(x + w) =~= split_spaces(x).update(
            split_spaces(x).len() - 1,
            split_spaces(x).last() + w,
        ));
    }
}

/// Splitting words joined with spaces gives the words back, when none holds
/// a space.
pub proof fn lemma_split_join(ws: Seq<Seq<char>>)
    requires
        ws.len() >= 1,
        forall|k: int| 0 <= k < ws.len() ==> no_space(#[trigger] ws[k]),
    ensures
        split_spaces(join_spaces(ws)) == ws,
    decreases ws.len(),
{
    if ws.len() == 1 {
        lemma_split_append_word(Seq::empty(), ws[0]);
        assert(Seq::<char>::empty() + ws[0] =~= ws[0]);
        assert(split_spaces(Seq::<char>::empty()) == seq![Seq::<char>::empty()]);
        assert(Seq::<char>::empty() + ws[0] =~= ws[0]);
        assert(split_spaces(ws[0]) =~= ws);
    } else {
        let front = ws.drop_last();
        assert(forall|k: int| 0 <= k < front.len() ==> no_space(#[trigger] front[k])) by {
            assert forall|k: int| 0 <= k < front.len() implies no_space(#[trigger] front[k]) by {
                assert(front[k] == ws[k]);
            }
        }
        lemma_split_join(front);
        let j = join_spaces(front);
        let js = j + seq![' '];
        assert(js.drop_last() =~= j);
        assert(split_spaces(js) == front.push(Seq::empty()));
        assert(no_space(ws.last())) by {
            assert(ws.last() == ws[ws.len() - 1]);
        }
        lemma_split_append_word(js, ws.last());
        assert(Seq::<char>::empty() + ws.last() =~= ws.last());
        assert(split_spaces(js + ws.last()) =~= ws);
    }
}

/// A count as a `usize`, held at `usize::MAX` when it is larger.
pub open spec fn capped(n: nat) -> usize {
    if n < usize::MAX {
        n as usize
    } else {
        usize::MAX
    }
}

/// The number of tokens of a phrase between single spaces, held at
/// `usize::MAX` if there are more.
pub fn count_tokens(phrase: &str) -> (r: usize)
    ensures
        r == capped(split_spaces(phrase@).len()),
{
    let len = phrase.unicode_len();
    let mut count: usize = 1;
    let mut i: usize = 0;
    assert(phrase@.subrange(0, 0) =~= Seq::<char>::empty());
    for c in it: phrase.chars()
        invariant
            it.seq() == phrase@,
            len == phrase@.len(),
            i == it.index(),
            count == capped(split_spaces(phrase@.subrange(0, i as int)).len()),
    {
        let ghost before = phrase@.subrange(0, i as int);
        let ghost after = phrase@.subrange(0, i + 1);
        assert(after.drop_last() =~= before);
        assert(after.last() == c);
        proof {
            lemma_split_nonempty(before);
        }
        if c == ' ' {
            assert(split_spaces(after).len() == split_spaces(before).len() + 1);
        } else {
            assert(split_spaces(after).len() == split_spaces(before).len());
        }
        if c == ' ' && count < usize::MAX {
            count = count + 1;
        }
        i = i + 1;
    }
    assert(phrase@.subrange(0, len as int) =~= phrase@);
    count
}

/// The tokens of a phrase between single spaces.
pub fn split_phrase<'a>(phrase: &'a str) -> (r: Vec<&'a str>)
    ensures
        str_views(r@) == split_spaces(phrase@),
{
    let len = phrase.unicode_len();
    let mut r: Vec<&'a str> = Vec::new();
    let mut start: usize = 0;
    let mut i: usize = 0;
    assert(phrase@.subrange(0, 0) =~= Seq::<char>::empty());
    assert(str_views(r@).push(phrase@.subrange(0, 0)) =~= seq![Seq::<char>::empty()]);
    for c in it: phrase.chars()
        invariant
            it.seq() == phrase@,
            len == phrase@.len(),
            i == it.index(),
            start <= i <= len,
            str_views(r@).push(phrase@.subrange(start as int, i as int)) == split_spaces(
                phrase@.subrange(0, i as int),
            ),
    {
        let ghost before = phrase@.subrange(0, i as int);
        let ghost after = phrase@.subrange(0, i + 1);
        assert(after.drop_last() =~= before);
        assert(after.last() == c);
        if c == ' ' {
            let t = phrase.substring_char(start, i);
            let ghost prev = r@;
            r.push(t);
            assert(str_views(r@) =~= str_views(prev).push(t@));
            assert(phrase@.subrange(i + 1, i + 1) =~= Seq::<char>::empty());
            start = i + 1;
        } else {
            assert(phrase@.subrange(start as int, i + 1) =~= phrase@.subrange(
                start as int,
                i as int,
            ).push(c));
        }
        i = i + 1;
    }
    let t = phrase.substring_char(start, len);
    let ghost prev = r@;
    r.push(t);
    assert(phrase@.subrange(0, len as int) =~= phrase@);
    assert(str_views(r@) =~= str_views(prev).push(t@));
    r
}

} // verus!
