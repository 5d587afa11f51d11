use vstd::prelude::*;
use crate::text::chars::copy_range;
use crate::text::scan::{find, is_space, is_space_char, lemma_find, matches_at};

verus! {

/// `s` without one trailing carriage return.
pub open spec fn strip_cr(s: Seq<char>) -> Seq<char> {
    if s.len() > 0 && s.last() == '\r' {
        s.drop_last()
    } else {
        s
    }
}

/// The lines of `s`, as `str::lines` yields them: split at each newline,
/// a carriage return right before a newline dropped, and no empty line after
/// a final newline.
pub open spec fn lines(s: Seq<char>) -> Seq<Seq<char>>
    decreases s.len(),
{
    if s.len() == 0 {
        Seq::empty()
    } else {
        match find(s, seq!['\n']) {
            None => seq![s],
            Some(k) => if 0 <= k < s.len() {
                seq![strip_cr(s.take(k))] + lines(s.skip(k + 1))
            } else {
                Seq::empty()
            },
        }
    }
}

/// The length of the run of non-space characters at the start of `s`.
pub open spec fn word_len(s: Seq<char>) -> nat
    decreases s.len(),
{
    if s.len() == 0 || is_space(s[0]) {
        0
    } else {
        1 + word_len(s.drop_first())
    }
}

/// The white-space separated words of `s`, as `str::split_whitespace`
/// yields them.
pub open spec fn tokens(s: Seq<char>) -> Seq<Seq<char>>
    decreases s.len(),
{
    if s.len() == 0 {
        Seq::empty()
    } else if is_space(s[0]) {
        tokens(s.drop_first())
    } else {
        let w = word_len(s);
        if 1 <= w <= s.len() {
            seq![s.take(w as int)] + tokens(s.skip(w as int))
        } else {
            Seq::empty()
        }
    }
}

/// The views of a vector of character vectors.
pub open spec fn views(v: Seq<Vec<char>>) -> Seq<Seq<char>> {
    v.map_values(|x: Vec<char>| x@)
}

proof fn lemma_match_one(t: Seq<char>, c: char, j: int)
    ensures
        matches_at(t, seq![c], j) <==> (0 <= j < t.len() && t[j] == c),
{
    if 0 <= j < t.len() && t[j] == c {
        assert(t.subrange(j, j + 1) == seq![c]);
    }
    if matches_at(t, seq![c], j) {
        assert(t.subrange(j, j + 1)[0] == t[j]);
    }
}

proof fn lemma_first_newline(t: Seq<char>, k: int)
    requires
        0 <= k < t.len(),
        t[k] == '\n',
        forall|j: int| 0 <= j < k ==> t[j] != '\n',
    ensures
        find(t, seq!['\n']) == Some(k),
{
    lemma_find(t, seq!['\n']);
    lemma_match_one(t, '\n', k);
    let k2 = find(t, seq!['\n'])->0;
    lemma_match_one(t, '\n', k2);
    if k2 < k {
        assert(t[k2] != '\n');
    }
    if k < k2 {
        assert(!matches_at(t, seq!['\n'], k));
    }
}

proof fn lemma_no_newline(t: Seq<char>)
    requires
        forall|j: int| 0 <= j < t.len() ==> t[j] != '\n',
    ensures
        find(t, seq!['\n']) is None,
{
    lemma_find(t, seq!['\n']);
    if find(t, seq!['\n']) is Some {
        let k = find(t, seq!['\n'])->0;
        lemma_match_one(t, '\n', k);
    }
}

/// The lines of `cs`.
pub fn split_lines(cs: &[char]) -> (out: Vec<Vec<char>>)
    ensures
        views(out@) == lines(cs@),
{
    let len = cs.len();
    let mut out: Vec<Vec<char>> = Vec::new();
    let mut start: usize = 0;
    let mut i: usize = 0;
    assert(cs@.skip(0) == cs@);
    while i < len
        invariant
            len == cs@.len(),
            start <= i <= len,
            forall|j: int| start <= j < i ==> cs@[j] != '\n',
            lines(cs@) == views(out@) + lines(cs@.skip(start as int)),
        decreases len - i,
    {
        if cs[i] == '\n' {
            let ghost t = cs@.skip(start as int);
            proof {
                assert forall|j: int| 0 <= j < i - start implies t[j] != '\n' by {
                    assert(t[j] == cs@[start + j]);
                }
                lemma_first_newline(t, i - start);
                assert(t.take(i - start) == cs@.subrange(start as int, i as int));
                assert(t.skip(i - start + 1) == cs@.skip(i + 1));
            }
            let mut end = i;
            if end > start && cs[end - 1] == '\r' {
                end = end - 1;
            }
            let line = copy_range(cs, start, end);
            proof {
                let whole = cs@.subrange(start as int, i as int);
                if i > start && cs@[i - 1] == '\r' {
                    assert(whole.drop_last() == cs@.subrange(start as int, end as int));
                }
                assert(line@ == strip_cr(whole));
            }
            let ghost before = out@;
            out.push(line);
            proof {
                assert(views(out@) == views(before).push(line@));
                assert(views(out@) + lines(cs@.skip(i + 1)) == views(before) + (seq![line@] + lines(
                    cs@.skip(i + 1),
                )));
            }
            start = i + 1;
        }
        i = i + 1;
    }
    if start < len {
        let ghost t = cs@.skip(start as int);
        proof {
            assert forall|j: int| 0 <= j < t.len() implies t[j] != '\n' by {
                assert(t[j] == cs@[start + j]);
            }
            lemma_no_newline(t);
        }
        let line = copy_range(cs, start, len);
        let ghost before = out@;
        out.push(line);
        proof {
            assert(line@ == t);
            assert(views(out@) == views(before).push(line@));
        }
    } else {
        assert(views(out@) == views(out@) + lines(cs@.skip(start as int)));
    }
    out
}

proof fn lemma_word_len(s: Seq<char>, j: int)
    requires
        0 <= j <= s.len(),
        forall|k: int| 0 <= k < j ==> !is_space(#[trigger] s[k]),
        j == s.len() || is_space(s[j]),
    ensures
        word_len(s) == j,
    decreases j,
{
    if j > 0 {
        assert(!is_space(s[0]));
        assert forall|k: int| 0 <= k < j - 1 implies !is_space(#[trigger] s.drop_first()[k]) by {
            assert(s.drop_first()[k] == s[k + 1]);
        }
        if j < s.len() {
            assert(s.drop_first()[j - 1] == s[j]);
        }
        lemma_word_len(s.drop_first(), j - 1);
    }
}

/// The white-space separated words of `cs`.
pub fn split_tokens(cs: &[char]) -> (out: Vec<Vec<char>>)
    ensures
        views(out@) == tokens(cs@),
{
    let len = cs.len();
    let mut out: Vec<Vec<char>> = Vec::new();
    let mut i: usize = 0;
    assert(cs@.skip(0) == cs@);
    while i < len
        invariant
            len == cs@.len(),
            i <= len,
            tokens(cs@) == views(out@) + tokens(cs@.skip(i as int)),
        decreases len - i,
    {
        if is_space_char(cs[i]) {
            proof {
                let t = cs@.skip(i as int);
                assert(t[0] == cs@[i as int]);
                assert(t.drop_first() == cs@.skip(i + 1));
            }
            i = i + 1;
        } else {
            let mut j = i;
            while j < len && !is_space_char(cs[j])
                invariant
                    len == cs@.len(),
                    i <= j <= len,
                    forall|k: int| i <= k < j ==> !is_space(#[trigger] cs@[k]),
                decreases len - j,
            {
                j = j + 1;
            }
            let word = copy_range(cs, i, j);
            proof {
                let t = cs@.skip(i as int);
                assert forall|k: int| 0 <= k < j - i implies !is_space(#[trigger] t[k]) by {
                    assert(t[k] == cs@[i + k]);
                }
                if j < len {
                    assert(t[j - i] == cs@[j as int]);
                }
                assert(!is_space(cs@[i as int]));
                lemma_word_len(t, j - i);
                assert(t.take(j - i) == cs@.subrange(i as int, j as int));
                assert(t.skip(j - i) == cs@.skip(j as int));
                assert(t[0] == cs@[i as int]);
            }
            let ghost before = out@;
            out.push(word);
            proof {
                assert(views(out@) == views(before).push(word@));
                assert(views(out@) + tokens(cs@.skip(j as int)) == views(before) + (seq![word@]
                    + tokens(cs@.skip(j as int))));
            }
            i = j;
        }
    }
    assert(views(out@) == views(out@) + tokens(cs@.skip(len as int)));
    out
}

} // verus!

verus! {

/// Adding a line of text and a newline to text that is empty or ends with a
/// newline adds exactly that line to its lines.
pub proof fn lemma_lines_push_line(text: Seq<char>, line: Seq<char>)
    requires
        text.len() == 0 || text.last() == '\n',
        forall|i: int| 0 <= i < line.len() ==> line[i] != '\n',
        line.len() == 0 || line.last() != '\r',
    ensures
        lines(text + line.push('\n')) == lines(text).push(line),
    decreases text.len(),
{
    let rest = line.push('\n');
    let all = text + rest;
    if text.len() == 0 {
        assert(all =~= rest);
        lemma_first_newline(rest, line.len() as int);
        assert(rest.take(line.len() as int) =~= line);
        assert(rest.skip(line.len() as int + 1) =~= Seq::<char>::empty());
        let k = line.len() as int;
        assert(strip_cr(line) == line);
        assert(lines(Seq::<char>::empty()) == Seq::<Seq<char>>::empty());
        assert(lines(rest) == seq![strip_cr(rest.take(k))] + lines(rest.skip(k + 1)));
        assert(lines(all) =~= seq![line]);
        assert(lines(text).push(line) =~= seq![line]);
    } else {
        let nl = seq!['\n'];
        lemma_find(text, nl);
        lemma_match_one(text, '\n', text.len() - 1);
        let k = find(text, nl)->0;
        lemma_match_one(text, '\n', k);
        assert forall|j: int| 0 <= j < k implies text[j] != '\n' by {
            lemma_match_one(text, '\n', j);
        }
        assert forall|j: int| 0 <= j < k implies all[j] != '\n' by {
            assert(all[j] == text[j]);
        }
        assert(all[k] == text[k]);
        lemma_first_newline(all, k);
        let tail = text.skip(k + 1);
        assert(all.take(k) =~= text.take(k));
        assert(all.skip(k + 1) =~= tail + rest);
        if tail.len() > 0 {
            assert(tail.last() == text.last());
        }
        lemma_lines_push_line(tail, line);
        let head = seq![strip_cr(text.take(k))];
        assert(lines(all) == head + lines(tail + rest));
        assert(lines(text) == head + lines(tail));
        assert(head + lines(tail).push(line) =~= (head + lines(tail)).push(line));
    }
}

} // verus!
