use vstd::prelude::*;

verus! {

/// Whether two string slices hold the same characters.
pub fn str_equals(a: &str, b: &str) -> (r: bool)
    ensures
        r == (a@ == b@),
{
    let n = a.unicode_len();
    if n != b.unicode_len() {
        return false;
    }
    let mut i: usize = 0;
    while i < n
        invariant
            n == a@.len(),
            n == b@.len(),
            i <= n,
            forall|j: int| 0 <= j < i ==> a@[j] == b@[j],
        decreases n - i,
    {
        if a.get_char(i) != b.get_char(i) {
            return false;
        }
        i = i + 1;
    }
    assert(a@ =~= b@);
    true
}

/// The characters with the Unicode `White_Space` property.
pub open spec fn is_white_space(c: char) -> bool {
    ||| ('\u{9}' <= c <= '\u{d}')
    ||| c == ' '
    ||| c == '\u{85}'
    ||| c == '\u{a0}'
    ||| c == '\u{1680}'
    ||| ('\u{2000}' <= c <= '\u{200a}')
    ||| c == '\u{2028}'
    ||| c == '\u{2029}'
    ||| c == '\u{202f}'
    ||| c == '\u{205f}'
    ||| c == '\u{3000}'
}

/// Whether `c` has the Unicode `White_Space` property (what `char::is_whitespace` answers).
pub fn char_is_whitespace(c: char) -> (r: bool)
    ensures
        r == is_white_space(c),
{
    ('\u{9}' <= c && c <= '\u{d}') || c == ' ' || c == '\u{85}' || c == '\u{a0}' || c == '\u{1680}'
        || ('\u{2000}' <= c && c <= '\u{200a}') || c == '\u{2028}' || c == '\u{2029}' || c == '\u{202f}'
        || c == '\u{205f}' || c == '\u{3000}'
}

/// The words of `s`: its maximal runs of characters that are not white space, in order.
pub open spec fn words(s: Seq<char>) -> Seq<Seq<char>>
    decreases s.len(),
{
    if s.len() == 0 {
        Seq::empty()
    } else {
        let w = words(s.drop_last());
        let c = s.last();
        if is_white_space(c) {
            w
        } else if s.len() > 1 && !is_white_space(s[s.len() - 2]) {
            w.update(w.len() - 1, w.last().push(c))
        } else {
            w.push(seq![c])
        }
    }
}

/// Splits `s` at white space, as `str::split_whitespace` does.
pub fn split_whitespace(s: &str) -> (r: Vec<String>)
    ensures
        r@.len() == words(s@).len(),
        forall|i: int| 0 <= i < r@.len() ==> #[trigger] r@[i]@ == words(s@)[i],
{
    let n = s.unicode_len();
    let mut toks: Vec<String> = Vec::new();
    let mut start: usize = 0;
    let mut in_word = false;
    let mut i: usize = 0;
    while i < n
        invariant
            n == s@.len(),
            i <= n,
            start <= i,
            in_word == (i > 0 && !is_white_space(s@[i - 1])),
            ({
                let cur = if in_word { seq![s@.subrange(start as int, i as int)] } else { Seq::<Seq<char>>::empty() };
                let w = words(s@.take(i as int));
                &&& w.len() == toks@.len() + cur.len()
                &&& forall|j: int| 0 <= j < toks@.len() ==> #[trigger] toks@[j]@ == w[j]
                &&& in_word ==> w[w.len() - 1] == s@.subrange(start as int, i as int)
            }),
        decreases n - i,
    {
        let c = s.get_char(i);
        proof {
            assert(s@.take(i + 1).drop_last() =~= s@.take(i as int));
            assert(s@.take(i + 1).last() == c);
            if i > 0 {
                assert(s@.take(i + 1)[i - 1] == s@[i - 1]);
            }
        }
        if char_is_whitespace(c) {
            if in_word {
                let t = s.substring_char(start, i);
                toks.push(String::from_str(t));
            }
            in_word = false;
        } else {
            if !in_word {
                start = i;
                proof {
                    assert(s@.subrange(i as int, i + 1) =~= seq![c]);
                }
            } else {
                proof {
                    assert(s@.subrange(start as int, i + 1) =~= s@.subrange(start as int, i as int).push(c));
                }
            }
            in_word = true;
        }
        i = i + 1;
    }
    proof {
        assert(s@.take(n as int) =~= s@);
    }
    if in_word {
        let t = s.substring_char(start, n);
        toks.push(String::from_str(t));
    }
    toks
}

/// Law: the words of a text are never empty and hold no white space.
pub proof fn law_words_clean(s: Seq<char>)
    ensures
        forall|i: int| 0 <= i < words(s).len() ==> #[trigger] words(s)[i].len() > 0,
        forall|i: int, j: int| 0 <= i < words(s).len() && 0 <= j < words(s)[i].len() ==> !is_white_space(#[trigger] words(s)[i][j]),
    decreases s.len(),
{
    if s.len() > 0 {
        law_words_clean(s.drop_last());
        let w = words(s.drop_last());
        let c = s.last();
        if is_white_space(c) {
        } else if s.len() > 1 && !is_white_space(s[s.len() - 2]) {
            lemma_words_end(s.drop_last());
            let ws = words(s);
            assert forall|i: int, j: int| 0 <= i < ws.len() && 0 <= j < ws[i].len() implies !is_white_space(#[trigger] ws[i][j]) by {
                if i < w.len() - 1 {
                    assert(ws[i] == w[i]);
                } else {
                    assert(ws[i] == w.last().push(c));
                    if j < w.last().len() {
                        assert(ws[i][j] == w[w.len() - 1][j]);
                    }
                }
            }
        } else {
            let ws = words(s);
            assert forall|i: int, j: int| 0 <= i < ws.len() && 0 <= j < ws[i].len() implies !is_white_space(#[trigger] ws[i][j]) by {
                if i < w.len() {
                    assert(ws[i] == w[i]);
                }
            }
        }
    }
}

/// A text ending in a character that is not white space has at least one word.
proof fn lemma_words_end(s: Seq<char>)
    requires
        s.len() > 0,
        !is_white_space(s.last()),
    ensures
        words(s).len() > 0,
    decreases s.len(),
{
    if s.len() > 1 && !is_white_space(s[s.len() - 2]) {
        assert(s.drop_last().last() == s[s.len() - 2]);
        lemma_words_end(s.drop_last());
    }
}

/// The words run together.
pub open spec fn joined(ws: Seq<Seq<char>>) -> Seq<char>
    decreases ws.len(),
{
    if ws.len() == 0 {
        Seq::empty()
    } else {
        joined(ws.drop_last()) + ws.last()
    }
}

/// The characters of `s` that are not white space, in order.
pub open spec fn non_white(s: Seq<char>) -> Seq<char>
    decreases s.len(),
{
    if s.len() == 0 {
        Seq::empty()
    } else if is_white_space(s.last()) {
        non_white(s.drop_last())
    } else {
        non_white(s.drop_last()).push(s.last())
    }
}

/// Law: splitting loses and reorders nothing: the words, run together, are exactly the
/// characters of the text that are not white space, in their order.
pub proof fn law_words_cover(s: Seq<char>)
    ensures
        joined(words(s)) == non_white(s),
    decreases s.len(),
{
    if s.len() > 0 {
        law_words_cover(s.drop_last());
        let w = words(s.drop_last());
        let c = s.last();
        if is_white_space(c) {
        } else if s.len() > 1 && !is_white_space(s[s.len() - 2]) {
            lemma_words_end(s.drop_last());
            let nw = w.update(w.len() - 1, w.last().push(c));
            assert(nw.drop_last() =~= w.drop_last());
            assert(joined(nw) =~= joined(w).push(c));
        } else {
            let nw = w.push(seq![c]);
            assert(nw.drop_last() =~= w);
            assert(joined(nw) =~= joined(w).push(c));
        }
    }
}

/// How many words start in `s`: places holding a character that is not white space, at
/// the very start or right after white space.
pub open spec fn word_starts(s: Seq<char>) -> nat
    decreases s.len(),
{
    if s.len() == 0 {
        0
    } else {
        word_starts(s.drop_last()) + if !is_white_space(s.last()) && (s.len() == 1 || is_white_space(s[s.len() - 2])) {
            1nat
        } else {
            0nat
        }
    }
}

/// Law: there is one word per place where a word starts, so words that white space keeps
/// apart are never merged and no word is split.
pub proof fn law_word_count(s: Seq<char>)
    ensures
        words(s).len() == word_starts(s),
    decreases s.len(),
{
    if s.len() > 0 {
        law_word_count(s.drop_last());
        if !is_white_space(s.last()) && s.len() > 1 && !is_white_space(s[s.len() - 2]) {
            lemma_words_end(s.drop_last());
        }
    }
}

} // verus!
