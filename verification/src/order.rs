//! The order of `str` on texts, and lists of texts kept in it: each text
//! once, in ascending order, whatever order they arrived in.

use vstd::prelude::*;

verus! {

/// Whether `a` comes before `b` in the order of `str`: character by
/// character by code point, a proper prefix first. (UTF-8 keeps code-point
/// order, so this is also the order of the bytes.)
pub open spec fn text_before(a: Seq<char>, b: Seq<char>) -> bool
    decreases a.len(),
{
    if b.len() == 0 {
        false
    } else if a.len() == 0 {
        true
    } else if a[0] != b[0] {
        (a[0] as int) < (b[0] as int)
    } else {
        text_before(a.drop_first(), b.drop_first())
    }
}

/// No text comes before itself.
pub proof fn lemma_text_before_irreflexive(a: Seq<char>)
    ensures
        !text_before(a, a),
    decreases a.len(),
{
    if a.len() > 0 {
        lemma_text_before_irreflexive(a.drop_first());
    }
}

/// Of two different texts exactly one comes first.
pub proof fn lemma_text_before_total(a: Seq<char>, b: Seq<char>)
    ensures
        a != b ==> (text_before(a, b) || text_before(b, a)),
        !(text_before(a, b) && text_before(b, a)),
    decreases a.len(),
{
    if a.len() > 0 && b.len() > 0 && a[0] == b[0] {
        lemma_text_before_total(a.drop_first(), b.drop_first());
        if a.drop_first() == b.drop_first() {
            assert(a =~= b) by {
                assert forall|k: int| 0 <= k < a.len() implies a[k] == b[k] by {
                    if k > 0 {
                        assert(a[k] == a.drop_first()[k - 1]);
                        assert(b[k] == b.drop_first()[k - 1]);
                    }
                }
            }
        }
    } else if a.len() == 0 && b.len() == 0 {
        assert(a =~= b);
    } else if a.len() > 0 && b.len() > 0 {
        assert((a[0] as int) != (b[0] as int));
    }
}

/// The order is transitive.
pub proof fn lemma_text_before_transitive(a: Seq<char>, b: Seq<char>, c: Seq<char>)
    requires
        text_before(a, b),
        text_before(b, c),
    ensures
        text_before(a, c),
    decreases a.len(),
{
    if a.len() > 0 && a[0] == b[0] && b[0] == c[0] {
        lemma_text_before_transitive(a.drop_first(), b.drop_first(), c.drop_first());
    }
}

/// Texts that agree on their first `i` characters compare as what follows.
proof fn lemma_text_before_skip(a: Seq<char>, b: Seq<char>, i: int)
    requires
        0 <= i <= a.len(),
        i <= b.len(),
        a.take(i) == b.take(i),
    ensures
        text_before(a, b) == text_before(a.skip(i), b.skip(i)),
    decreases i,
{
    if i > 0 {
        assert(a[0] == a.take(i)[0]);
        assert(b[0] == b.take(i)[0]);
        assert(a.drop_first().take(i - 1) =~= a.take(i).drop_first());
        assert(b.drop_first().take(i - 1) =~= b.take(i).drop_first());
        lemma_text_before_skip(a.drop_first(), b.drop_first(), i - 1);
        assert(a.drop_first().skip(i - 1) =~= a.skip(i));
        assert(b.drop_first().skip(i - 1) =~= b.skip(i));
    } else {
        assert(a.skip(0) =~= a);
        assert(b.skip(0) =~= b);
    }
}

/// Whether `a` comes before `b` in the order of `str`.
pub fn text_precedes(a: &str, b: &str) -> (before: bool)
    ensures
        before == text_before(a@, b@),
{
    let n = a.unicode_len();
    let m = b.unicode_len();
    let mut i: usize = 0;
    assert(a@.take(0) =~= b@.take(0));
    while i < n && i < m
        invariant
            n == a@.len(),
            m == b@.len(),
            i <= n,
            i <= m,
            a@.take(i as int) == b@.take(i as int),
        decreases n - i,
    {
        let x = a.get_char(i);
        let y = b.get_char(i);
        if x != y {
            proof {
                lemma_text_before_skip(a@, b@, i as int);
                assert(a@.skip(i as int)[0] == x);
                assert(b@.skip(i as int)[0] == y);
            }
            return x < y;
        }
        assert(a@.take(i + 1) =~= a@.take(i as int).push(x));
        assert(b@.take(i + 1) =~= b@.take(i as int).push(y));
        i = i + 1;
    }
    proof {
        lemma_text_before_skip(a@, b@, i as int);
    }
    i < m
}

/// Whether `texts` is strictly ascending in the order of `str`.
pub open spec fn strictly_ascending(texts: Seq<Seq<char>>) -> bool {
    forall|i: int, j: int| 0 <= i < j < texts.len() ==> text_before(#[trigger] texts[i], #[trigger] texts[j])
}

/// Two strictly ascending lists that hold the same texts are the same list.
pub proof fn lemma_ascending_unique(a: Seq<Seq<char>>, b: Seq<Seq<char>>)
    requires
        strictly_ascending(a),
        strictly_ascending(b),
        forall|k: Seq<char>| a.contains(k) <==> b.contains(k),
    ensures
        a == b,
    decreases a.len(),
{
    if a.len() == 0 {
        if b.len() > 0 {
            assert(b.contains(b[0]));
        }
        assert(a =~= b);
    } else {
        assert(a.contains(a[0]));
        let k = choose|k: int| 0 <= k < b.len() && b[k] == a[0];
        assert(b.contains(b[0]));
        let m = choose|m: int| 0 <= m < a.len() && a[m] == b[0];
        if k > 0 {
            assert(text_before(b[0], b[k]));
            if m > 0 {
                assert(text_before(a[0], a[m]));
                lemma_text_before_total(a[0], a[m]);
            } else {
                lemma_text_before_irreflexive(b[0]);
            }
        }
        assert(a[0] == b[0]);
        let ta = a.drop_first();
        let tb = b.drop_first();
        assert forall|x: Seq<char>| ta.contains(x) <==> tb.contains(x) by {
            if ta.contains(x) {
                let w = choose|w: int| 0 <= w < ta.len() && ta[w] == x;
                assert(a[w + 1] == x);
                assert(text_before(a[0], a[w + 1]));
                lemma_text_before_irreflexive(x);
                assert(b.contains(x));
                let v = choose|v: int| 0 <= v < b.len() && b[v] == x;
                assert(v != 0);
                assert(tb[v - 1] == x);
            }
            if tb.contains(x) {
                let w = choose|w: int| 0 <= w < tb.len() && tb[w] == x;
                assert(b[w + 1] == x);
                assert(text_before(b[0], b[w + 1]));
                lemma_text_before_irreflexive(x);
                assert(a.contains(x));
                let v = choose|v: int| 0 <= v < a.len() && a[v] == x;
                assert(v != 0);
                assert(ta[v - 1] == x);
            }
        }
        assert forall|i: int, j: int| 0 <= i < j < ta.len() implies text_before(#[trigger] ta[i], #[trigger] ta[j]) by {
            assert(ta[i] == a[i + 1] && ta[j] == a[j + 1]);
        }
        assert forall|i: int, j: int| 0 <= i < j < tb.len() implies text_before(#[trigger] tb[i], #[trigger] tb[j]) by {
            assert(tb[i] == b[i + 1] && tb[j] == b[j + 1]);
        }
        lemma_ascending_unique(ta, tb);
        assert(a =~= seq![a[0]] + ta);
        assert(b =~= seq![b[0]] + tb);
    }
}

/// The views of `texts`.
pub open spec fn texts_view(texts: Seq<String>) -> Seq<Seq<char>> {
    texts.map_values(|t: String| t@)
}

/// Adds `text` to the strictly ascending `texts` where it belongs, unless
/// it is there already.
pub fn insert_in_order(texts: &mut Vec<String>, text: &str)
    requires
        strictly_ascending(texts_view(old(texts)@)),
    ensures
        strictly_ascending(texts_view(final(texts)@)),
        forall|k: Seq<char>| #[trigger] texts_view(final(texts)@).contains(k)
            <==> (texts_view(old(texts)@).contains(k) || k == text@),
{
    let ghost before = texts_view(texts@);
    let mut p: usize = 0;
    while p < texts.len() && text_precedes(texts[p].as_str(), text)
        invariant
            p <= texts@.len(),
            before == texts_view(texts@),
            forall|j: int| 0 <= j < p ==> text_before(#[trigger] before[j], text@),
        decreases texts@.len() - p,
    {
        p = p + 1;
    }
    if p < texts.len() && !text_precedes(text, texts[p].as_str()) {
        proof {
            lemma_text_before_total(before[p as int], text@);
            assert(before[p as int] == text@);
            assert(before.contains(text@));
        }
        return;
    }
    proof {
        if p < before.len() {
            lemma_text_before_total(before[p as int], text@);
        }
    }
    let owned = text.to_owned();
    texts.insert(p, owned);
    proof {
        let after = texts_view(texts@);
        assert(after =~= before.insert(p as int, text@));
        assert forall|i: int, j: int| 0 <= i < j < after.len() implies text_before(
            #[trigger] after[i],
            #[trigger] after[j],
        ) by {
            if j < p {
                assert(after[i] == before[i] && after[j] == before[j]);
            } else if j == p {
                assert(after[i] == before[i]);
            } else if i == p {
                assert(after[j] == before[j - 1]);
                if j - 1 > p {
                    assert(text_before(before[p as int], before[j - 1]));
                    lemma_text_before_transitive(text@, before[p as int], before[j - 1]);
                }
            } else if i < p {
                assert(after[i] == before[i] && after[j] == before[j - 1]);
            } else {
                assert(after[i] == before[i - 1] && after[j] == before[j - 1]);
            }
        }
        assert forall|k: Seq<char>| #[trigger] after.contains(k) <==> (before.contains(k) || k == text@) by {
            if after.contains(k) {
                let w = choose|w: int| 0 <= w < after.len() && after[w] == k;
                if w < p {
                    assert(before[w] == k);
                } else if w > p {
                    assert(before[w - 1] == k);
                }
            }
            if before.contains(k) {
                let w = choose|w: int| 0 <= w < before.len() && before[w] == k;
                if w < p {
                    assert(after[w] == k);
                } else {
                    assert(after[w + 1] == k);
                }
            }
            if k == text@ {
                assert(after[p as int] == k);
            }
        }
    }
}

/// Whether `a` and `b` hold the same texts.
pub open spec fn same_texts(a: Seq<Seq<char>>, b: Seq<Seq<char>>) -> bool {
    forall|k: Seq<char>| a.contains(k) <==> b.contains(k)
}

/// The texts of `set`, each once, in the order of `str`.
pub open spec fn in_str_order(set: Seq<Seq<char>>) -> Seq<Seq<char>> {
    choose|s: Seq<Seq<char>>| strictly_ascending(s) && same_texts(s, set)
}

/// A strictly ascending list of the texts of `set` is the one
/// `in_str_order` gives.
pub proof fn lemma_in_str_order(s: Seq<Seq<char>>, set: Seq<Seq<char>>)
    requires
        strictly_ascending(s),
        same_texts(s, set),
    ensures
        in_str_order(set) == s,
{
    let t = in_str_order(set);
    assert(strictly_ascending(t) && same_texts(t, set));
    assert forall|k: Seq<char>| t.contains(k) <==> s.contains(k) by {
        assert(t.contains(k) <==> set.contains(k));
        assert(s.contains(k) <==> set.contains(k));
    }
    lemma_ascending_unique(t, s);
}

} // verus!
