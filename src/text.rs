//! Whitespace-separated words of a line, and lines made of words.

use vstd::prelude::*;

verus! {

/// The characters with the Unicode property White_Space.
pub open spec fn is_space(c: char) -> bool {
    let u = c as u32;
    ||| 0x09 <= u <= 0x0d
    ||| u == 0x20
    ||| u == 0x85
    ||| u == 0xa0
    ||| u == 0x1680
    ||| 0x2000 <= u <= 0x200a
    ||| u == 0x2028
    ||| u == 0x2029
    ||| u == 0x202f
    ||| u == 0x205f
    ||| u == 0x3000
}

/// A word: at least one character, none of them white space.
pub open spec fn is_word(w: Seq<char>) -> bool {
    w.len() > 0 && forall|i: int| 0 <= i < w.len() ==> !is_space(#[trigger] w[i])
}

/// Scanning `s` from the left: the words already closed, and the word being read.
pub open spec fn scan(s: Seq<char>) -> (Seq<Seq<char>>, Seq<char>)
    decreases s.len(),
{
    if s.len() == 0 {
        (seq![], seq![])
    } else {
        let (done, cur) = scan(s.drop_last());
        let c = s.last();
        if is_space(c) {
            (if cur.len() > 0 { done.push(cur) } else { done }, seq![])
        } else {
            (done, cur.push(c))
        }
    }
}

/// The maximal runs of non-space characters of `s`, in order.
pub open spec fn words(s: Seq<char>) -> Seq<Seq<char>> {
    let (done, cur) = scan(s);
    if cur.len() > 0 {
        done.push(cur)
    } else {
        done
    }
}

/// Words joined by single spaces.
pub open spec fn join(ws: Seq<Seq<char>>) -> Seq<char>
    decreases ws.len(),
{
    if ws.len() == 0 {
        seq![]
    } else if ws.len() == 1 {
        ws[0]
    } else {
        join(ws.drop_last()) + seq![' '] + ws.last()
    }
}

pub open spec fn strings_view(v: Seq<String>) -> Seq<Seq<char>> {
    v.map_values(|s: String| s@)
}

/// Relies on `str::split_whitespace`, which splits at the characters with
/// the Unicode property White_Space and yields no empty piece.
#[verifier::external_body]
pub(crate) fn split_words(s: &str) -> (r: Vec<String>)
    ensures
        strings_view(r@) == words(s@),
{
    s.split_whitespace().map(|w| w.to_string()).collect()
}

/// Joins the pieces with single spaces.
pub fn join_words(parts: &Vec<String>) -> (r: String)
    ensures
        r@ == join(strings_view(parts@)),
{
    let mut r = String::new();
    let mut i: usize = 0;
    while i < parts.len()
        invariant
            i <= parts.len(),
            r@ == join(strings_view(parts@.subrange(0, i as int))),
        decreases parts.len() - i,
    {
        let ghost before = r@;
        if i > 0 {
            r.append(" ");
        }
        r.append(parts[i].as_str());
        proof {
            reveal_strlit(" ");
            let pre = strings_view(parts@.subrange(0, i as int));
            let next = strings_view(parts@.subrange(0, i + 1));
            assert(next.drop_last() =~= pre);
            assert(next.last() == parts@[i as int]@);
            assert(next.len() == i + 1);
            if i == 0 {
                assert(before =~= seq![]);
                assert(r@ =~= next[0]);
            } else {
                assert(r@ =~= before + seq![' '] + next.last());
            }
        }
        i = i + 1;
    }
    assert(parts@.subrange(0, parts@.len() as int) =~= parts@);
    r
}

/// Scanning one more character.
proof fn lemma_scan_push(s: Seq<char>, c: char)
    ensures
        scan(s.push(c)) == (if is_space(c) {
            (if scan(s).1.len() > 0 { scan(s).0.push(scan(s).1) } else { scan(s).0 }, seq![])
        } else {
            (scan(s).0, scan(s).1.push(c))
        }),
{
    assert(s.push(c).drop_last() =~= s);
}

/// Scanning a run of non-space characters extends the word being read.
proof fn lemma_scan_run(s: Seq<char>, w: Seq<char>)
    requires
        forall|i: int| 0 <= i < w.len() ==> !is_space(#[trigger] w[i]),
    ensures
        scan(s + w) == (scan(s).0, scan(s).1 + w),
    decreases w.len(),
{
    if w.len() == 0 {
        assert(s + w =~= s);
        assert(scan(s).1 + w =~= scan(s).1);
    } else {
        let v = w.drop_last();
        lemma_scan_run(s, v);
        assert(s + w =~= (s + v).push(w.last()));
        lemma_scan_push(s + v, w.last());
        assert(scan(s).1 + v.push(w.last()) =~= (scan(s).1 + v).push(w.last()));
        assert(v.push(w.last()) =~= w);
    }
}

/// Scanning a joined line closes all words but the last, which is being read.
proof fn lemma_scan_join(ws: Seq<Seq<char>>)
    requires
        ws.len() > 0,
        forall|i: int| 0 <= i < ws.len() ==> is_word(#[trigger] ws[i]),
    ensures
        scan(join(ws)) == (ws.drop_last(), ws.last()),
    decreases ws.len(),
{
    let w = ws.last();
    assert(is_word(ws[ws.len() - 1]));
    if ws.len() == 1 {
        lemma_scan_run(seq![], w);
        assert(seq![] + w =~= w);
        assert(scan(seq![]) == (Seq::<Seq<char>>::empty(), Seq::<char>::empty()));
        assert(Seq::<char>::empty() + w =~= w);
        assert(ws.drop_last() =~= seq![]);
    } else {
        let pre = ws.drop_last();
        assert forall|i: int| 0 <= i < pre.len() implies is_word(#[trigger] pre[i]) by {
            assert(pre[i] == ws[i]);
        }
        lemma_scan_join(pre);
        let j = join(pre);
        lemma_scan_push(j, ' ');
        assert(is_space(' '));
        assert(pre.last() == ws[ws.len() - 2]);
        assert(is_word(ws[ws.len() - 2]));
        assert(pre.drop_last().push(pre.last()) =~= pre);
        lemma_scan_run(j.push(' '), w);
        assert(j + seq![' '] + w =~= j.push(' ') + w);
        assert(Seq::<char>::empty() + w =~= w);
    }
}

/// Splitting a line made by joining words gives the words back.
pub proof fn lemma_words_join(ws: Seq<Seq<char>>)
    requires
        forall|i: int| 0 <= i < ws.len() ==> is_word(#[trigger] ws[i]),
    ensures
        words(join(ws)) == ws,
{
    if ws.len() == 0 {
        assert(scan(seq![]) == (Seq::<Seq<char>>::empty(), Seq::<char>::empty()));
    } else {
        lemma_scan_join(ws);
        assert(is_word(ws[ws.len() - 1]));
        assert(ws.drop_last().push(ws.last()) =~= ws);
    }
}

/// Joining two non-empty lists of words puts one space between the two lines.
pub proof fn lemma_join_concat(a: Seq<Seq<char>>, b: Seq<Seq<char>>)
    requires
        a.len() > 0,
        b.len() > 0,
    ensures
        join(a + b) == join(a) + seq![' '] + join(b),
    decreases b.len(),
{
    if b.len() == 1 {
        assert((a + b).drop_last() =~= a);
        assert((a + b).last() == b[0]);
    } else {
        let c = b.drop_last();
        lemma_join_concat(a, c);
        assert((a + b).drop_last() =~= a + c);
        assert((a + b).last() == b.last());
        assert(join(a) + seq![' '] + join(c) + seq![' '] + b.last() =~= join(a) + seq![' '] + (
        join(c) + seq![' '] + b.last()));
    }
}

/// Every word that splitting yields is a word.
pub proof fn lemma_words_are_words(s: Seq<char>)
    ensures
        forall|i: int| 0 <= i < words(s).len() ==> is_word(#[trigger] words(s)[i]),
{
    lemma_scan_words(s);
}

proof fn lemma_scan_words(s: Seq<char>)
    ensures
        forall|i: int| 0 <= i < scan(s).0.len() ==> is_word(#[trigger] scan(s).0[i]),
        forall|i: int| 0 <= i < scan(s).1.len() ==> !is_space(#[trigger] scan(s).1[i]),
    decreases s.len(),
{
    if s.len() > 0 {
        lemma_scan_words(s.drop_last());
        let (done, cur) = scan(s.drop_last());
        let c = s.last();
        if !is_space(c) {
            assert forall|i: int| 0 <= i < cur.push(c).len() implies !is_space(
                #[trigger] cur.push(c)[i],
            ) by {
                if i < cur.len() {
                    assert(cur.push(c)[i] == cur[i]);
                }
            }
        } else if cur.len() > 0 {
            assert forall|i: int| 0 <= i < done.push(cur).len() implies is_word(
                #[trigger] done.push(cur)[i],
            ) by {
                if i < done.len() {
                    assert(done.push(cur)[i] == done[i]);
                }
            }
        }
    }
}

/// Joining non-empty words gives a non-empty line.
pub proof fn lemma_join_nonempty(ws: Seq<Seq<char>>)
    requires
        ws.len() > 0,
        forall|i: int| 0 <= i < ws.len() ==> is_word(#[trigger] ws[i]),
    ensures
        join(ws).len() > 0,
{
    assert(is_word(ws[ws.len() - 1]));
}

/// A piece made by joining words reads, inside a joined line, as those words.
pub proof fn lemma_join_flatten(a: Seq<Seq<char>>, b: Seq<Seq<char>>, c: Seq<Seq<char>>)
    requires
        b.len() > 0,
    ensures
        join(a + seq![join(b)] + c) == join(a + b + c),
{
    let m = seq![join(b)];
    assert(join(m) == join(b));
    if a.len() == 0 {
        assert(a + m =~= m);
        assert(a + b =~= b);
    } else {
        lemma_join_concat(a, m);
        lemma_join_concat(a, b);
    }
    assert(join(a + m) == join(a + b));
    if c.len() > 0 {
        lemma_join_concat(a + m, c);
        lemma_join_concat(a + b, c);
    } else {
        assert(a + m + c =~= a + m);
        assert(a + b + c =~= a + b);
    }
}

} // verus!
