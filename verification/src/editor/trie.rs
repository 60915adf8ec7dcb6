//! A trie of words, for completion: words are inserted once and looked up
//! by prefix. Words are listed depth first: a word before the longer words
//! that extend it, and the words under one letter in the order their first
//! letters after it were first inserted.
use vstd::prelude::*;
use crate::strings::{chars_of, extend_chars, push_string, string_of, views};

verus! {

#[derive(Debug)]
struct Branch {
    value: char,
    end: bool,
    child: Vec<Branch>,
}

/// The words under a branch, depth first: the branch's own one-letter word
/// when it ends a word, then the words of its children, in order, each with
/// the branch's letter in front.
spec fn branch_words(b: Branch) -> Seq<Seq<char>>
    decreases b,
{
    (if b.end { seq![seq![b.value]] } else { Seq::empty() }) + prefixed(
        b.value,
        forest_words(b.child@),
    )
}

/// The words of a sequence of branches, one branch after the other.
spec fn forest_words(bs: Seq<Branch>) -> Seq<Seq<char>>
    decreases bs,
{
    if bs.len() == 0 {
        Seq::empty()
    } else {
        forest_words(bs.drop_last()) + branch_words(bs.last())
    }
}

/// Every word of `ws` with `c` in front.
pub open spec fn prefixed(c: char, ws: Seq<Seq<char>>) -> Seq<Seq<char>> {
    ws.map_values(|w: Seq<char>| seq![c] + w)
}

/// Every word of `ws` with `p` in front.
pub open spec fn prepend_all(p: Seq<char>, ws: Seq<Seq<char>>) -> Seq<Seq<char>> {
    ws.map_values(|w: Seq<char>| p + w)
}

/// Whether the letters of the branches are pairwise distinct.
spec fn distinct_values(bs: Seq<Branch>) -> bool {
    forall|i: int, j: int|
        0 <= i < bs.len() && 0 <= j < bs.len() && i != j ==> #[trigger] bs[i].value
            != #[trigger] bs[j].value
}

/// No two children of any node share a letter, and every branch ends a word
/// or has children, so that every branch holds a word.
spec fn branch_wf(b: Branch) -> bool
    decreases b,
{
    &&& (b.end || b.child@.len() > 0)
    &&& distinct_values(b.child@)
    &&& forest_all_wf(b.child@)
}

spec fn forest_all_wf(bs: Seq<Branch>) -> bool
    decreases bs,
{
    if bs.len() == 0 {
        true
    } else {
        forest_all_wf(bs.drop_last()) && branch_wf(bs.last())
    }
}

/// The number of branches in a tree.
spec fn branch_size(b: Branch) -> nat
    decreases b,
{
    1 + forest_size(b.child@)
}

spec fn forest_size(bs: Seq<Branch>) -> nat
    decreases bs,
{
    if bs.len() == 0 {
        0
    } else {
        forest_size(bs.drop_last()) + branch_size(bs.last())
    }
}

proof fn lemma_size_unfold(b: Branch)
    ensures
        branch_size(b) == 1 + forest_size(b.child@),
{
}

proof fn lemma_forest_size(bs: Seq<Branch>, i: int)
    requires
        0 <= i < bs.len(),
    ensures
        branch_size(bs[i]) <= forest_size(bs),
    decreases bs.len(),
{
    if i < bs.len() - 1 {
        lemma_forest_size(bs.drop_last(), i);
    }
}

proof fn lemma_forest_all_wf(bs: Seq<Branch>)
    ensures
        forest_all_wf(bs) <==> forall|i: int| 0 <= i < bs.len() ==> #[trigger] branch_wf(bs[i]),
    decreases bs.len(),
{
    if bs.len() > 0 {
        lemma_forest_all_wf(bs.drop_last());
        if forall|i: int| 0 <= i < bs.len() ==> #[trigger] branch_wf(bs[i]) {
            assert forall|i: int| 0 <= i < bs.drop_last().len() implies #[trigger] branch_wf(bs.drop_last()[i]) by {
                assert(bs.drop_last()[i] == bs[i]);
            }
            assert(branch_wf(bs[bs.len() - 1]));
        }
        if forest_all_wf(bs) {
            assert forall|i: int| 0 <= i < bs.len() implies #[trigger] branch_wf(bs[i]) by {
                if i < bs.len() - 1 {
                    assert(bs.drop_last()[i] == bs[i]);
                }
            }
        }
    }
}

/// `a` is a prefix of `b`.
pub open spec fn is_prefix(a: Seq<char>, b: Seq<char>) -> bool {
    a.len() <= b.len() && b.take(a.len() as int) == a
}

/// What a lookup of `p` returns of a word: the words that are a prefix of
/// `p` and the words that `p` is a prefix of.
pub open spec fn comparable(w: Seq<char>, p: Seq<char>) -> bool {
    is_prefix(w, p) || is_prefix(p, w)
}

proof fn lemma_forest_words_add(a: Seq<Branch>, b: Seq<Branch>)
    ensures
        forest_words(a + b) == forest_words(a) + forest_words(b),
    decreases b.len(),
{
    if b.len() == 0 {
        assert(a + b =~= a);
        assert(forest_words(b) =~= Seq::<Seq<char>>::empty());
        assert(forest_words(a) + forest_words(b) =~= forest_words(a));
    } else {
        lemma_forest_words_add(a, b.drop_last());
        assert((a + b).drop_last() =~= a + b.drop_last());
        assert((a + b).last() == b.last());
        assert(forest_words(a + b) == forest_words(a + b.drop_last()) + branch_words(b.last()));
        assert(forest_words(a) + forest_words(b) =~= forest_words(a) + forest_words(
            b.drop_last(),
        ) + branch_words(b.last()));
    }
}

proof fn lemma_forest_words_single(b: Branch)
    ensures
        forest_words(seq![b]) == branch_words(b),
{
    assert(seq![b].drop_last() =~= Seq::<Branch>::empty());
    assert(forest_words(Seq::<Branch>::empty()) =~= Seq::<Seq<char>>::empty());
    assert(forest_words(seq![b]) =~= Seq::<Seq<char>>::empty() + branch_words(b));
}

proof fn lemma_forest_words_push(bs: Seq<Branch>, b: Branch)
    ensures
        forest_words(bs.push(b)) == forest_words(bs) + branch_words(b),
{
    assert(bs.push(b).drop_last() =~= bs);
}

proof fn lemma_forest_words_update(bs: Seq<Branch>, j: int, b: Branch)
    requires
        0 <= j < bs.len(),
    ensures
        forest_words(bs) == forest_words(bs.take(j)) + branch_words(bs[j]) + forest_words(
            bs.skip(j + 1),
        ),
        forest_words(bs.update(j, b)) == forest_words(bs.take(j)) + branch_words(b)
            + forest_words(bs.skip(j + 1)),
{
    assert(bs =~= bs.take(j) + seq![bs[j]] + bs.skip(j + 1));
    lemma_forest_words_add(bs.take(j) + seq![bs[j]], bs.skip(j + 1));
    lemma_forest_words_add(bs.take(j), seq![bs[j]]);
    lemma_forest_words_single(bs[j]);
    let u = bs.update(j, b);
    assert(u =~= bs.take(j) + seq![b] + bs.skip(j + 1));
    lemma_forest_words_add(bs.take(j) + seq![b], bs.skip(j + 1));
    lemma_forest_words_add(bs.take(j), seq![b]);
    lemma_forest_words_single(b);
}

proof fn lemma_prepend_all_add(p: Seq<char>, a: Seq<Seq<char>>, b: Seq<Seq<char>>)
    ensures
        prepend_all(p, a + b) == prepend_all(p, a) + prepend_all(p, b),
{
    assert(prepend_all(p, a + b) =~= prepend_all(p, a) + prepend_all(p, b));
}

/// Every word under a branch is non-empty and starts with its letter.
proof fn lemma_branch_words_shape(b: Branch)
    ensures
        forall|k: int|
            0 <= k < branch_words(b).len() ==> #[trigger] branch_words(b)[k].len() >= 1
                && branch_words(b)[k][0] == b.value,
    decreases b,
{
    let e: Seq<Seq<char>> = if b.end { seq![seq![b.value]] } else { Seq::empty() };
    let f = forest_words(b.child@);
    assert forall|k: int| 0 <= k < branch_words(b).len() implies #[trigger] branch_words(
        b,
    )[k].len() >= 1 && branch_words(b)[k][0] == b.value by {
        if k < e.len() {
            assert(branch_words(b)[k] == e[k]);
        } else {
            assert(branch_words(b)[k] == prefixed(b.value, f)[k - e.len()]);
            assert(prefixed(b.value, f)[k - e.len()] == seq![b.value] + f[k - e.len()]);
        }
    }
}

/// Every word of a forest is non-empty.
proof fn lemma_forest_words_nonempty(bs: Seq<Branch>)
    ensures
        forall|k: int|
            0 <= k < forest_words(bs).len() ==> #[trigger] forest_words(bs)[k].len() >= 1,
    decreases bs.len(),
{
    if bs.len() > 0 {
        lemma_forest_words_nonempty(bs.drop_last());
        lemma_branch_words_shape(bs.last());
        let a = forest_words(bs.drop_last());
        let b = branch_words(bs.last());
        assert forall|k: int| 0 <= k < forest_words(bs).len() implies #[trigger] forest_words(
            bs,
        )[k].len() >= 1 by {
            if k < a.len() {
                assert(forest_words(bs)[k] == a[k]);
            } else {
                assert(forest_words(bs)[k] == b[k - a.len()]);
            }
        }
    }
}

/// A word is in a forest exactly when it is under one of its branches.
proof fn lemma_forest_contains(bs: Seq<Branch>, w: Seq<char>)
    ensures
        forest_words(bs).contains(w) <==> exists|i: int|
            0 <= i < bs.len() && #[trigger] branch_words(bs[i]).contains(w),
    decreases bs.len(),
{
    if bs.len() > 0 {
        let init = bs.drop_last();
        lemma_forest_contains(init, w);
        let a = forest_words(init);
        let b = branch_words(bs.last());
        if forest_words(bs).contains(w) {
            let k = choose|k: int| 0 <= k < forest_words(bs).len() && forest_words(bs)[k] == w;
            if k < a.len() {
                assert(a[k] == w);
                assert(a.contains(w));
                let i = choose|i: int| 0 <= i < init.len() && #[trigger] branch_words(init[i]).contains(w);
                assert(bs[i] == init[i]);
            } else {
                assert(b[k - a.len()] == w);
                assert(b.contains(w));
                assert(bs[bs.len() - 1] == bs.last());
            }
        }
        if exists|i: int| 0 <= i < bs.len() && #[trigger] branch_words(bs[i]).contains(w) {
            let i = choose|i: int| 0 <= i < bs.len() && #[trigger] branch_words(bs[i]).contains(w);
            if i < bs.len() - 1 {
                assert(init[i] == bs[i]);
                assert(a.contains(w));
                let k = choose|k: int| 0 <= k < a.len() && a[k] == w;
                assert(forest_words(bs)[k] == w);
            } else {
                assert(bs[i] == bs.last());
                let k = choose|k: int| 0 <= k < b.len() && b[k] == w;
                assert(forest_words(bs)[a.len() + k] == w);
            }
        }
    } else {
        assert(forest_words(bs) =~= Seq::<Seq<char>>::empty());
    }
}

/// A word is under a branch exactly when it starts with the branch's letter
/// and is either that letter alone at an end, or continues with a word of
/// one of the children.
proof fn lemma_branch_contains(b: Branch, w: Seq<char>)
    ensures
        branch_words(b).contains(w) <==> (w.len() >= 1 && w[0] == b.value && ((w.len() == 1
            && b.end) || (w.len() > 1 && forest_words(b.child@).contains(w.drop_first())))),
{
    let e: Seq<Seq<char>> = if b.end { seq![seq![b.value]] } else { Seq::empty() };
    let f = forest_words(b.child@);
    let pf = prefixed(b.value, f);
    lemma_forest_words_nonempty(b.child@);
    if branch_words(b).contains(w) {
        let k = choose|k: int| 0 <= k < branch_words(b).len() && branch_words(b)[k] == w;
        if k < e.len() {
            assert(w == seq![b.value]);
        } else {
            let u = f[k - e.len()];
            assert(pf[k - e.len()] == seq![b.value] + u);
            assert(w == seq![b.value] + u);
            assert(u.len() >= 1);
            assert(w.drop_first() =~= u);
            assert(f.contains(u));
        }
    }
    if w.len() >= 1 && w[0] == b.value {
        if w.len() == 1 && b.end {
            assert(w =~= seq![b.value]);
            assert(branch_words(b)[0] == w);
        }
        if w.len() > 1 && f.contains(w.drop_first()) {
            let k = choose|k: int| 0 <= k < f.len() && f[k] == w.drop_first();
            assert(pf[k] == seq![b.value] + f[k]);
            assert(seq![b.value] + w.drop_first() =~= w);
            assert(branch_words(b)[e.len() + k] == w);
        }
    }
}

proof fn lemma_chain_last(b: Branch, w: Seq<char>, k: int)
    requires
        0 <= k < w.len(),
        b.value == w[k],
        b.end,
        k + 1 == w.len(),
        b.child@.len() == 0,
    ensures
        chain_of(b, w, k),
{
}

proof fn lemma_chain_step(b: Branch, c: Branch, w: Seq<char>, k: int)
    requires 0 <= k < w.len(), b.value == w[k], b.end == (k + 1 == w.len()), k + 1 < w.len(), b.child@ == seq![c], chain_of(c, w, k + 1),
    ensures chain_of(b, w, k),
{
    assert(b.child@[0] == c);
}

proof fn lemma_wf_children(b: Branch)
    requires
        branch_wf(b),
    ensures
        b.end || b.child@.len() > 0,
        distinct_values(b.child@),
        forall|i: int| 0 <= i < b.child@.len() ==> #[trigger] branch_wf(b.child@[i]),
{
    lemma_forest_all_wf(b.child@);
}

proof fn lemma_wf_from_children(b: Branch)
    requires
        b.end || b.child@.len() > 0,
        distinct_values(b.child@),
        forall|i: int| 0 <= i < b.child@.len() ==> #[trigger] branch_wf(b.child@[i]),
    ensures
        branch_wf(b),
{
    lemma_forest_all_wf(b.child@);
}

/// The words of a fresh chain for `w[k..]`: that one word.
proof fn lemma_chain_words(w: Seq<char>, k: int, b: Branch)
    requires
        0 <= k < w.len(),
        chain_of(b, w, k),
    ensures
        branch_words(b) == seq![w.skip(k)],
        branch_wf(b),
    decreases w.len() - k,
{
    if k + 1 < w.len() {
        let c = b.child@[0];
        lemma_chain_words(w, k + 1, c);
        lemma_forest_words_single(c);
        assert(b.child@ =~= seq![c]);
        assert(prefixed(b.value, seq![w.skip(k + 1)]) =~= seq![seq![b.value] + w.skip(k + 1)]);
        assert(seq![b.value] + w.skip(k + 1) =~= w.skip(k));
        assert(branch_words(b) =~= seq![w.skip(k)]);
        lemma_wf_from_children(b);
    } else {
        assert(b.child@ =~= Seq::<Branch>::empty());
        assert(forest_words(b.child@) =~= Seq::<Seq<char>>::empty());
        assert(w.skip(k) =~= seq![w[k]]);
        assert(branch_words(b) =~= seq![w.skip(k)]);
        lemma_wf_from_children(b);
    }
}

/// `b` is the chain of branches that spells `w[k..]` and ends a word there.
spec fn chain_of(b: Branch, w: Seq<char>, k: int) -> bool
    decreases w.len() - k,
{
    &&& 0 <= k < w.len()
    &&& b.value == w[k]
    &&& b.end == (k + 1 == w.len())
    &&& (k + 1 < w.len() ==> b.child@.len() == 1 && chain_of(b.child@[0], w, k + 1))
    &&& (k + 1 >= w.len() ==> b.child@.len() == 0)
}


/// Some word of `ws` starts with `p`.
pub open spec fn has_word_with_prefix(ws: Seq<Seq<char>>, p: Seq<char>) -> bool {
    exists|i: int| 0 <= i < ws.len() && is_prefix(p, #[trigger] ws[i])
}

/// The index of the first word of `ws` that starts with `p`; `ws.len()`
/// when none does.
pub open spec fn first_with_prefix(ws: Seq<Seq<char>>, p: Seq<char>) -> int
    decreases ws.len(),
{
    if ws.len() == 0 {
        0
    } else if is_prefix(p, ws[0]) {
        0
    } else {
        1 + first_with_prefix(ws.drop_first(), p)
    }
}

/// One past the index of the last word of `ws` that starts with `p`; 0 when
/// none does.
pub open spec fn end_with_prefix(ws: Seq<Seq<char>>, p: Seq<char>) -> int
    decreases ws.len(),
{
    if ws.len() == 0 {
        0
    } else if is_prefix(p, ws.last()) {
        ws.len() as int
    } else {
        end_with_prefix(ws.drop_last(), p)
    }
}

/// The length of the longest start of `w`, of length at most `k`, that some
/// word of `ws` starts with; 0 when no word starts with even `w[0]`.
pub open spec fn shared_len(ws: Seq<Seq<char>>, w: Seq<char>, k: nat) -> nat
    decreases k,
{
    if k == 0 {
        0
    } else if has_word_with_prefix(ws, w.take(k as int)) {
        k
    } else {
        shared_len(ws, w, (k - 1) as nat)
    }
}

/// Where a trie lists a new word `w` among its words `ws`: just before the
/// first word that extends `w`, if there is one; else just after the last
/// word that shares the longest start with `w` (last of all when no word
/// starts with the letter `w` starts with).
pub open spec fn insert_position(ws: Seq<Seq<char>>, w: Seq<char>) -> int {
    if has_word_with_prefix(ws, w) {
        first_with_prefix(ws, w)
    } else {
        end_with_prefix(ws, w.take(shared_len(ws, w, w.len()) as int))
    }
}

/// The listing of a trie after `w` is inserted into one that lists `ws`:
/// unchanged when `w` is there, else `w` put at its place.
pub open spec fn listed_insert(ws: Seq<Seq<char>>, w: Seq<char>) -> Seq<Seq<char>> {
    if ws.contains(w) {
        ws
    } else {
        ws.insert(insert_position(ws, w), w)
    }
}

/// The listing of a trie into which the words of `ws` were inserted one
/// after the other, the empty ones skipped.
pub open spec fn listed_all(ws: Seq<Seq<char>>) -> Seq<Seq<char>>
    decreases ws.len(),
{
    if ws.len() == 0 {
        Seq::empty()
    } else if ws.last().len() == 0 {
        listed_all(ws.drop_last())
    } else {
        listed_insert(listed_all(ws.drop_last()), ws.last())
    }
}

/// The characters of each string of `ws`.
pub open spec fn str_views(ws: Seq<&str>) -> Seq<Seq<char>> {
    ws.map_values(|s: &str| s@)
}

/// Every word of `ws` is non-empty and starts with `c`.
spec fn all_start_with(ws: Seq<Seq<char>>, c: char) -> bool {
    forall|i: int| 0 <= i < ws.len() ==> (#[trigger] ws[i]).len() >= 1 && ws[i][0] == c
}

/// Every word of `ws` is non-empty and starts with a letter other than `c`.
spec fn none_start_with(ws: Seq<Seq<char>>, c: char) -> bool {
    forall|i: int| 0 <= i < ws.len() ==> (#[trigger] ws[i]).len() >= 1 && ws[i][0] != c
}

proof fn lemma_prefix_cons(c: char, p: Seq<char>, u: Seq<char>)
    ensures
        is_prefix(seq![c] + p, seq![c] + u) == is_prefix(p, u),
{
    let cp = seq![c] + p;
    let cu = seq![c] + u;
    if p.len() <= u.len() {
        assert(cu.take(cp.len() as int) =~= seq![c] + u.take(p.len() as int));
        if cu.take(cp.len() as int) == cp {
            assert(u.take(p.len() as int) =~= cu.take(cp.len() as int).drop_first());
            assert(cp.drop_first() =~= p);
        }
    }
}

proof fn lemma_has_add(a: Seq<Seq<char>>, b: Seq<Seq<char>>, p: Seq<char>)
    ensures
        has_word_with_prefix(a + b, p) == (has_word_with_prefix(a, p) || has_word_with_prefix(b, p)),
{
    if has_word_with_prefix(a + b, p) {
        let i = choose|i: int| 0 <= i < (a + b).len() && is_prefix(p, #[trigger] (a + b)[i]);
        if i < a.len() {
            assert(a[i] == (a + b)[i]);
        } else {
            assert(b[i - a.len()] == (a + b)[i]);
        }
    }
    if has_word_with_prefix(a, p) {
        let i = choose|i: int| 0 <= i < a.len() && is_prefix(p, #[trigger] a[i]);
        assert((a + b)[i] == a[i]);
    }
    if has_word_with_prefix(b, p) {
        let i = choose|i: int| 0 <= i < b.len() && is_prefix(p, #[trigger] b[i]);
        assert((a + b)[a.len() + i] == b[i]);
    }
}

proof fn lemma_has_first(ws: Seq<Seq<char>>, p: Seq<char>)
    requires
        ws.len() > 0,
    ensures
        has_word_with_prefix(ws, p) == (is_prefix(p, ws[0]) || has_word_with_prefix(
            ws.drop_first(),
            p,
        )),
{
    assert(ws =~= seq![ws[0]] + ws.drop_first());
    lemma_has_add(seq![ws[0]], ws.drop_first(), p);
    if is_prefix(p, ws[0]) {
        assert(seq![ws[0]][0] == ws[0]);
    }
}

proof fn lemma_has_last(ws: Seq<Seq<char>>, p: Seq<char>)
    requires
        ws.len() > 0,
    ensures
        has_word_with_prefix(ws, p) == (is_prefix(p, ws.last()) || has_word_with_prefix(
            ws.drop_last(),
            p,
        )),
{
    assert(ws =~= ws.drop_last() + seq![ws.last()]);
    lemma_has_add(ws.drop_last(), seq![ws.last()], p);
    if is_prefix(p, ws.last()) {
        assert(seq![ws.last()][0] == ws.last());
    }
}

/// The first word with a prefix, and the end of those words, are within the
/// list; with no such word, the first is past the end and the end is 0.
proof fn lemma_prefix_bounds(ws: Seq<Seq<char>>, p: Seq<char>)
    ensures
        0 <= first_with_prefix(ws, p) <= ws.len(),
        0 <= end_with_prefix(ws, p) <= ws.len(),
        has_word_with_prefix(ws, p) ==> first_with_prefix(ws, p) < ws.len(),
        !has_word_with_prefix(ws, p) ==> first_with_prefix(ws, p) == ws.len() && end_with_prefix(
            ws,
            p,
        ) == 0,
    decreases ws.len(),
{
    if ws.len() > 0 {
        lemma_prefix_bounds(ws.drop_first(), p);
        lemma_prefix_bounds(ws.drop_last(), p);
        lemma_has_first(ws, p);
        lemma_has_last(ws, p);
    }
}

proof fn lemma_first_add(a: Seq<Seq<char>>, b: Seq<Seq<char>>, p: Seq<char>)
    ensures
        has_word_with_prefix(a, p) ==> first_with_prefix(a + b, p) == first_with_prefix(a, p),
        !has_word_with_prefix(a, p) ==> first_with_prefix(a + b, p) == a.len() + first_with_prefix(
            b,
            p,
        ),
    decreases a.len(),
{
    if a.len() > 0 {
        assert((a + b).drop_first() =~= a.drop_first() + b);
        assert((a + b)[0] == a[0]);
        lemma_has_first(a, p);
        lemma_first_add(a.drop_first(), b, p);
    } else {
        assert(a + b =~= b);
    }
}

proof fn lemma_end_add(a: Seq<Seq<char>>, b: Seq<Seq<char>>, p: Seq<char>)
    ensures
        has_word_with_prefix(b, p) ==> end_with_prefix(a + b, p) == a.len() + end_with_prefix(
            b,
            p,
        ),
        !has_word_with_prefix(b, p) ==> end_with_prefix(a + b, p) == end_with_prefix(a, p),
    decreases b.len(),
{
    if b.len() > 0 {
        assert((a + b).drop_last() =~= a + b.drop_last());
        assert((a + b).last() == b.last());
        lemma_has_last(b, p);
        lemma_end_add(a, b.drop_last(), p);
    } else {
        assert(a + b =~= a);
    }
}

/// Putting a letter in front of every word and of the prefix changes none of
/// the positions.
proof fn lemma_prefixed_positions(c: char, f: Seq<Seq<char>>, p: Seq<char>)
    ensures
        has_word_with_prefix(prefixed(c, f), seq![c] + p) == has_word_with_prefix(f, p),
        first_with_prefix(prefixed(c, f), seq![c] + p) == first_with_prefix(f, p),
        end_with_prefix(prefixed(c, f), seq![c] + p) == end_with_prefix(f, p),
    decreases f.len(),
{
    let pf = prefixed(c, f);
    let cp = seq![c] + p;
    if f.len() > 0 {
        assert(pf.drop_first() =~= prefixed(c, f.drop_first()));
        assert(pf.drop_last() =~= prefixed(c, f.drop_last()));
        assert(pf[0] == seq![c] + f[0]);
        assert(pf.last() == seq![c] + f.last());
        lemma_prefix_cons(c, p, f[0]);
        lemma_prefix_cons(c, p, f.last());
        lemma_prefixed_positions(c, f.drop_first(), p);
        lemma_prefixed_positions(c, f.drop_last(), p);
        lemma_has_first(pf, cp);
        lemma_has_first(f, p);
    } else {
        assert(pf =~= Seq::<Seq<char>>::empty());
    }
}

proof fn lemma_empty_prefix(ws: Seq<Seq<char>>)
    ensures
        end_with_prefix(ws, Seq::<char>::empty()) == ws.len(),
        ws.len() > 0 ==> has_word_with_prefix(ws, Seq::<char>::empty()),
{
    if ws.len() > 0 {
        assert(ws.last().take(0) =~= Seq::<char>::empty());
        assert(ws[0].take(0) =~= Seq::<char>::empty());
        assert(is_prefix(Seq::<char>::empty(), ws[0]));
    }
}

/// No word that starts with another letter starts with `p`.
proof fn lemma_none_start(ws: Seq<Seq<char>>, p: Seq<char>)
    requires
        p.len() >= 1,
        none_start_with(ws, p[0]),
    ensures
        !has_word_with_prefix(ws, p),
{
    if has_word_with_prefix(ws, p) {
        let i = choose|i: int| 0 <= i < ws.len() && is_prefix(p, #[trigger] ws[i]);
        assert(ws[i].take(p.len() as int)[0] == ws[i][0]);
    }
}

/// In words that all start with `c`, the words starting with `[c]` are all
/// of them.
proof fn lemma_all_start(ws: Seq<Seq<char>>, c: char)
    requires
        ws.len() > 0,
        all_start_with(ws, c),
    ensures
        has_word_with_prefix(ws, seq![c]),
        first_with_prefix(ws, seq![c]) == 0,
        end_with_prefix(ws, seq![c]) == ws.len(),
{
    assert(ws[0].take(1) =~= seq![c]);
    assert(ws.last() == ws[ws.len() - 1]);
    assert(ws.last().take(1) =~= seq![c]);
    assert(is_prefix(seq![c], ws[0]));
}


/// `shared_len` is at most `k`; when positive, some word starts with that
/// much of `w`; and it is at least every length up to `k` that some word
/// shares.
proof fn lemma_shared_len(ws: Seq<Seq<char>>, w: Seq<char>, k: nat, m: nat)
    ensures
        shared_len(ws, w, k) <= k,
        shared_len(ws, w, k) > 0 ==> has_word_with_prefix(ws, w.take(shared_len(ws, w, k) as int)),
        (1 <= m <= k && has_word_with_prefix(ws, w.take(m as int))) ==> shared_len(ws, w, k) >= m,
    decreases k,
{
    if k > 0 {
        lemma_shared_len(ws, w, (k - 1) as nat, m);
    }
}

/// Two lists that share the same starts of `w` share the same longest one.
proof fn lemma_shared_len_same(a: Seq<Seq<char>>, b: Seq<Seq<char>>, w: Seq<char>, k: nat)
    requires
        forall|m: int|
            1 <= m <= k ==> #[trigger] has_word_with_prefix(a, w.take(m))
                == has_word_with_prefix(b, w.take(m)),
    ensures
        shared_len(a, w, k) == shared_len(b, w, k),
    decreases k,
{
    if k > 0 {
        assert(has_word_with_prefix(a, w.take(k as int)) == has_word_with_prefix(b, w.take(k as int)));
        lemma_shared_len_same(a, b, w, (k - 1) as nat);
    }
}

/// Under a branch with letter `v` whose words are `e` then `f` with `v` in
/// front, the longest start of `[v] + w2` shared is one more than that of
/// `w2` among `f`.
proof fn lemma_shared_len_under(e: Seq<Seq<char>>, f: Seq<Seq<char>>, v: char, w2: Seq<char>, k: nat)
    requires
        e == Seq::<Seq<char>>::empty() || e == seq![seq![v]],
        (e + prefixed(v, f)).len() > 0,
        k <= w2.len(),
    ensures
        shared_len(e + prefixed(v, f), seq![v] + w2, k + 1) == 1 + shared_len(f, w2, k),
    decreases k,
{
    let b = e + prefixed(v, f);
    let w = seq![v] + w2;
    assert(all_start_with(b, v)) by {
        assert forall|i: int| 0 <= i < b.len() implies (#[trigger] b[i]).len() >= 1 && b[i][0] == v by {
            if i < e.len() {
                assert(b[i] == e[i]);
            } else {
                assert(b[i] == prefixed(v, f)[i - e.len()]);
            }
        }
    }
    if k == 0 {
        assert(w.take(1) =~= seq![v]);
        lemma_all_start(b, v);
    } else {
        assert(w.take((k + 1) as int) =~= seq![v] + w2.take(k as int));
        lemma_has_add(e, prefixed(v, f), w.take((k + 1) as int));
        lemma_prefixed_positions(v, f, w2.take(k as int));
        if e.len() > 0 {
            assert(!is_prefix(w.take((k + 1) as int), e[0]));
            lemma_has_first(e, w.take((k + 1) as int));
            assert(e.drop_first() =~= Seq::<Seq<char>>::empty());
        }
        lemma_shared_len_under(e, f, v, w2, (k - 1) as nat);
    }
}

/// A word whose first letter starts a block of the listing, the words before
/// and after starting with other letters, goes where it goes in the block.
proof fn lemma_position_in_block(pre: Seq<Seq<char>>, blk: Seq<Seq<char>>, post: Seq<Seq<char>>, w: Seq<char>)
    requires
        w.len() >= 1,
        none_start_with(pre, w[0]),
        none_start_with(post, w[0]),
        all_start_with(blk, w[0]),
        blk.len() > 0,
    ensures
        insert_position(pre + blk + post, w) == pre.len() + insert_position(blk, w),
{
    let ws = pre + blk + post;
    assert forall|m: int| 1 <= m <= w.len() implies #[trigger] has_word_with_prefix(ws, w.take(m))
        == has_word_with_prefix(blk, w.take(m)) by {
        assert(w.take(m)[0] == w[0]);
        lemma_none_start(pre, w.take(m));
        lemma_none_start(post, w.take(m));
        lemma_has_add(pre + blk, post, w.take(m));
        lemma_has_add(pre, blk, w.take(m));
    }
    assert(w.take(w.len() as int) =~= w);
    lemma_shared_len_same(ws, blk, w, w.len());
    lemma_none_start(pre, w);
    lemma_none_start(post, w);
    if has_word_with_prefix(blk, w) {
        assert(ws =~= pre + (blk + post));
        lemma_first_add(pre, blk + post, w);
        lemma_first_add(blk, post, w);
    } else {
        assert(w.take(1) =~= seq![w[0]]);
        lemma_all_start(blk, w[0]);
        lemma_shared_len(blk, w, w.len(), 1);
        let p = w.take(shared_len(blk, w, w.len()) as int);
        lemma_none_start(post, p);
        lemma_end_add(pre + blk, post, p);
        lemma_end_add(pre, blk, p);
    }
}

/// A word whose first letter no listed word starts with goes last.
proof fn lemma_position_new_letter(ws: Seq<Seq<char>>, w: Seq<char>)
    requires
        w.len() >= 1,
        none_start_with(ws, w[0]),
    ensures
        insert_position(ws, w) == ws.len(),
{
    lemma_none_start(ws, w);
    lemma_shared_len(ws, w, w.len(), 0);
    let s = shared_len(ws, w, w.len());
    if s > 0 {
        assert(w.take(s as int)[0] == w[0]);
        lemma_none_start(ws, w.take(s as int));
    }
    assert(w.take(0) =~= Seq::<char>::empty());
    lemma_empty_prefix(ws);
}

/// Under a branch with letter `v`, a word `[v] + w2` goes where `w2` goes
/// among the children's words, after the branch's own word.
proof fn lemma_position_under(e: Seq<Seq<char>>, f: Seq<Seq<char>>, v: char, w2: Seq<char>)
    requires
        e == Seq::<Seq<char>>::empty() || e == seq![seq![v]],
        (e + prefixed(v, f)).len() > 0,
        w2.len() >= 1,
    ensures
        insert_position(e + prefixed(v, f), seq![v] + w2) == e.len() + insert_position(f, w2),
{
    let b = e + prefixed(v, f);
    let w = seq![v] + w2;
    lemma_prefixed_positions(v, f, w2);
    lemma_has_add(e, prefixed(v, f), w);
    if e.len() > 0 {
        assert(!is_prefix(w, e[0]));
        lemma_has_first(e, w);
        assert(e.drop_first() =~= Seq::<Seq<char>>::empty());
    }
    if has_word_with_prefix(f, w2) {
        lemma_first_add(e, prefixed(v, f), w);
    } else {
        lemma_shared_len_under(e, f, v, w2, w2.len());
        lemma_shared_len(f, w2, w2.len(), 0);
        let s = shared_len(f, w2, w2.len());
        assert(w.len() == w2.len() + 1);
        assert(w.take((s + 1) as int) =~= seq![v] + w2.take(s as int));
        if s > 0 {
            lemma_prefixed_positions(v, f, w2.take(s as int));
            lemma_end_add(e, prefixed(v, f), w.take((s + 1) as int));
        } else {
            assert(w2.take(0) =~= Seq::<char>::empty());
            assert(w.take(1) =~= seq![v]);
            assert(all_start_with(b, v)) by {
                assert forall|i: int| 0 <= i < b.len() implies (#[trigger] b[i]).len() >= 1 && b[i][0] == v by {
                    if i < e.len() {
                        assert(b[i] == e[i]);
                    } else {
                        assert(b[i] == prefixed(v, f)[i - e.len()]);
                    }
                }
            }
            lemma_all_start(b, v);
            lemma_empty_prefix(f);
        }
    }
}

/// A one-letter word under a branch that holds only longer words goes first.
proof fn lemma_position_letter(f: Seq<Seq<char>>, v: char)
    requires
        f.len() > 0,
    ensures
        insert_position(prefixed(v, f), seq![v]) == 0,
{
    let b = prefixed(v, f);
    assert(b[0] == seq![v] + f[0]);
    assert(b[0].take(1) =~= seq![v]);
    assert(is_prefix(seq![v], b[0]));
}

impl Branch {
    /// The chain of branches that spells `word[k..]`.
    fn new(word: &Vec<char>, k: usize) -> (b: Branch)
        requires
            k < word@.len(),
        ensures
            chain_of(b, word@, k as int),
        decreases word@.len() - k,
    {
        let n = word.len();
        if k + 1 < n {
            let c = Branch::new(word, k + 1);
            let mut v = Vec::new();
            v.push(c);
            let b = Branch { value: word[k], end: false, child: v };
            proof {
                assert(b.child@ =~= seq![c]);
                lemma_chain_step(b, c, word@, k as int);
            }
            b
        } else {
            let b = Branch { value: word[k], end: true, child: Vec::new() };
            proof {
                lemma_chain_last(b, word@, k as int);
            }
            b
        }
    }

    fn has_value(&self, value_of: char) -> (r: bool)
        ensures
            r == (self.value == value_of),
    {
        self.value == value_of
    }

    /// Inserts `word[k..]`, whose first letter is this branch's.
    fn insert(&mut self, word: &Vec<char>, k: usize) -> (r: bool)
        requires
            k < word@.len(),
            old(self).value == word@[k as int],
            branch_wf(*old(self)),
        ensures
            branch_wf(*final(self)),
            final(self).value == old(self).value,
            branch_words(*final(self)) == listed_insert(
                branch_words(*old(self)),
                word@.skip(k as int),
            ),
        decreases branch_size(*old(self)),
    {
        let ghost w = word@.skip(k as int);
        let ghost old_b = *self;
        proof {
            assert(w.drop_first() =~= word@.skip(k + 1));
        }
        let len = word.len();
        if self.value == word[k] && k + 1 < len {
            match find_child(&self.child, word[k + 1]) {
                Some(j) => {
                    let mut c = self.child.remove(j);
                    proof {
                        lemma_wf_children(old_b);
                        lemma_forest_size(old_b.child@, j as int);
                        lemma_size_unfold(old_b);
                    }
                    let r = c.insert(word, k + 1);
                    self.child.insert(j, c);
                    proof {
                        assert(self.child@ =~= old_b.child@.update(j as int, c));
                        lemma_child_update(old_b, *self, j as int, c, w);
                    }
                    r
                },
                None => {
                    let nb = Branch::new(word, k + 1);
                    proof {
                        lemma_chain_words(word@, k + 1, nb);
                    }
                    self.child.push(nb);
                    proof {
                        lemma_child_push(old_b, *self, nb, w);
                    }
                    false
                },
            }
        } else if self.value == word[k] {
            self.end = true;
            proof {
                lemma_mark_end(old_b, *self, w);
            }
            true
        } else {
            false
        }
    }
}

/// The index of the first branch with letter `c`, if any.
fn find_child(bs: &Vec<Branch>, c: char) -> (r: Option<usize>)
    ensures
        match r {
            Some(j) => j < bs@.len() && bs@[j as int].value == c && forall|i: int|
                0 <= i < j ==> #[trigger] bs@[i].value != c,
            None => forall|i: int| 0 <= i < bs@.len() ==> #[trigger] bs@[i].value != c,
        },
{
    let n = bs.len();
    let mut j: usize = 0;
    while j < n
        invariant
            n == bs@.len(),
            j <= n,
            forall|i: int| 0 <= i < j ==> #[trigger] bs@[i].value != c,
        decreases n - j,
    {
        if bs[j].has_value(c) {
            return Some(j);
        }
        j += 1;
    }
    None
}

/// Inserting into the child that holds the next letter inserts into the
/// branch, and keeps it well formed.
proof fn lemma_child_update(old_b: Branch, new_b: Branch, j: int, nc: Branch, w: Seq<char>)
    requires
        branch_wf(old_b),
        0 <= j < old_b.child@.len(),
        w.len() >= 2,
        w[0] == old_b.value,
        old_b.child@[j].value == w[1],
        new_b.value == old_b.value,
        new_b.end == old_b.end,
        new_b.child@ == old_b.child@.update(j, nc),
        nc.value == old_b.child@[j].value,
        branch_wf(nc),
        branch_words(nc) == listed_insert(branch_words(old_b.child@[j]), w.drop_first()),
    ensures
        branch_wf(new_b),
        branch_words(new_b) == listed_insert(branch_words(old_b), w),
{
    let oc = old_b.child@;
    let wp = w.drop_first();
    lemma_update_wf(old_b, new_b, j, nc);
    lemma_wf_children(old_b);
    lemma_forest_update_inserted(oc, j, nc, wp);
    assert(seq![old_b.value] + wp =~= w);
    lemma_wf_nonempty(old_b);
    lemma_branch_inserted(old_b, new_b, wp);
}

/// Replacing a child by one with the same letter that is well formed keeps
/// the branch well formed.
proof fn lemma_update_wf(old_b: Branch, new_b: Branch, j: int, nc: Branch)
    requires
        branch_wf(old_b),
        0 <= j < old_b.child@.len(),
        new_b.child@ == old_b.child@.update(j, nc),
        nc.value == old_b.child@[j].value,
        branch_wf(nc),
    ensures
        branch_wf(new_b),
{
    lemma_wf_children(old_b);
    lemma_forest_update_wf(old_b.child@, j, nc);
    lemma_wf_from_children(new_b);
}

/// An insertion into the branch of a forest whose letter starts the word is
/// an insertion into the forest.
proof fn lemma_forest_update_inserted(bs: Seq<Branch>, j: int, nb: Branch, w: Seq<char>)
    requires
        0 <= j < bs.len(),
        w.len() >= 1,
        bs[j].value == w[0],
        distinct_values(bs),
        branch_wf(bs[j]),
        branch_words(nb) == listed_insert(branch_words(bs[j]), w),
    ensures
        forest_words(bs.update(j, nb)) == listed_insert(forest_words(bs), w),
{
    lemma_forest_words_update(bs, j, nb);
    let pre = forest_words(bs.take(j));
    let bj = branch_words(bs[j]);
    let post = forest_words(bs.skip(j + 1));
    lemma_forest_others(bs, j);
    lemma_branch_words_shape(bs[j]);
    lemma_wf_nonempty(bs[j]);
    lemma_block_inserted(pre, bj, post, w);
}

/// The branches before and after the `j`-th hold no word starting with its
/// letter.
proof fn lemma_forest_others(bs: Seq<Branch>, j: int)
    requires
        0 <= j < bs.len(),
        distinct_values(bs),
    ensures
        none_start_with(forest_words(bs.take(j)), bs[j].value),
        none_start_with(forest_words(bs.skip(j + 1)), bs[j].value),
{
    assert forall|i: int| 0 <= i < bs.take(j).len() implies #[trigger] bs.take(j)[i].value != bs[j].value by {
        assert(bs.take(j)[i] == bs[i]);
    }
    assert forall|i: int| 0 <= i < bs.skip(j + 1).len() implies #[trigger] bs.skip(j + 1)[i].value != bs[j].value by {
        assert(bs.skip(j + 1)[i] == bs[j + 1 + i]);
    }
    lemma_forest_none_start(bs.take(j), bs[j].value);
    lemma_forest_none_start(bs.skip(j + 1), bs[j].value);
}

/// Inserting a word into the block of a listing that its first letter
/// starts is inserting it into the listing.
proof fn lemma_block_inserted(pre: Seq<Seq<char>>, blk: Seq<Seq<char>>, post: Seq<Seq<char>>, w: Seq<char>)
    requires
        w.len() >= 1,
        none_start_with(pre, w[0]),
        none_start_with(post, w[0]),
        all_start_with(blk, w[0]),
        blk.len() > 0,
    ensures
        pre + listed_insert(blk, w) + post == listed_insert(pre + blk + post, w),
{
    let ws = pre + blk + post;
    lemma_none_start_contains(pre, w);
    lemma_none_start_contains(post, w);
    assert(ws.contains(w) == blk.contains(w)) by {
        if ws.contains(w) {
            let k = choose|k: int| 0 <= k < ws.len() && ws[k] == w;
            if k < pre.len() {
                assert(pre[k] == w);
            } else if k < pre.len() + blk.len() {
                assert(blk[k - pre.len()] == w);
            } else {
                assert(post[k - pre.len() - blk.len()] == w);
            }
        }
        if blk.contains(w) {
            let k = choose|k: int| 0 <= k < blk.len() && blk[k] == w;
            assert(ws[pre.len() + k] == w);
        }
    }
    if !blk.contains(w) {
        lemma_position_in_block(pre, blk, post, w);
        lemma_position_bounds(blk, w);
        assert(pre + blk.insert(insert_position(blk, w), w) + post =~= ws.insert(
            pre.len() + insert_position(blk, w),
            w,
        ));
    }
}

/// Every word of a forest starts with the letter of one of its branches.
proof fn lemma_forest_none_start(bs: Seq<Branch>, c: char)
    requires
        forall|i: int| 0 <= i < bs.len() ==> #[trigger] bs[i].value != c,
    ensures
        none_start_with(forest_words(bs), c),
{
    let f = forest_words(bs);
    assert forall|k: int| 0 <= k < f.len() implies (#[trigger] f[k]).len() >= 1 && f[k][0] != c by {
        let u = f[k];
        assert(f.contains(u));
        lemma_forest_contains(bs, u);
        let i = choose|i: int| 0 <= i < bs.len() && #[trigger] branch_words(bs[i]).contains(u);
        lemma_branch_contains(bs[i], u);
    }
}

/// Words that do not start with the first letter of `w` do not hold it.
proof fn lemma_none_start_contains(ws: Seq<Seq<char>>, w: Seq<char>)
    requires
        w.len() >= 1,
        none_start_with(ws, w[0]),
    ensures
        !ws.contains(w),
{
    if ws.contains(w) {
        let k = choose|k: int| 0 <= k < ws.len() && ws[k] == w;
        assert(ws[k][0] != w[0]);
    }
}

/// A well formed branch holds a word.
proof fn lemma_wf_nonempty(b: Branch)
    requires
        branch_wf(b),
    ensures
        branch_words(b).len() > 0,
    decreases branch_size(b),
{
    lemma_wf_children(b);
    if !b.end {
        let c = b.child@[0];
        lemma_forest_size(b.child@, 0);
        lemma_size_unfold(b);
        lemma_wf_nonempty(c);
        lemma_forest_words_update(b.child@, 0, c);
    }
}

/// Where a word goes is within the listing.
proof fn lemma_position_bounds(ws: Seq<Seq<char>>, w: Seq<char>)
    ensures
        0 <= insert_position(ws, w) <= ws.len(),
{
    lemma_prefix_bounds(ws, w);
    lemma_shared_len(ws, w, w.len(), 0);
    lemma_prefix_bounds(ws, w.take(shared_len(ws, w, w.len()) as int));
}

/// An insertion of `w` into the children's words is an insertion of the
/// branch's letter followed by `w` into the branch's words.
proof fn lemma_branch_inserted(old_b: Branch, new_b: Branch, w: Seq<char>)
    requires
        w.len() >= 1,
        new_b.value == old_b.value,
        new_b.end == old_b.end,
        branch_words(old_b).len() > 0,
        forest_words(new_b.child@) == listed_insert(forest_words(old_b.child@), w),
    ensures
        branch_words(new_b) == listed_insert(branch_words(old_b), seq![old_b.value] + w),
{
    let full = seq![old_b.value] + w;
    lemma_branch_contains(old_b, full);
    assert(full.drop_first() =~= w);
    let e: Seq<Seq<char>> = if old_b.end { seq![seq![old_b.value]] } else { Seq::empty() };
    let f_old = forest_words(old_b.child@);
    let f_new = forest_words(new_b.child@);
    if !f_old.contains(w) {
        let pos = insert_position(f_old, w);
        lemma_position_bounds(f_old, w);
        lemma_position_under(e, f_old, old_b.value, w);
        assert(prefixed(old_b.value, f_new) =~= prefixed(old_b.value, f_old).insert(pos, full));
        assert(branch_words(new_b) =~= branch_words(old_b).insert(e.len() + pos, full));
    }
}

/// Adding a chain for a next letter no child holds puts the word after the
/// branch's other words.
proof fn lemma_child_push(old_b: Branch, new_b: Branch, nb: Branch, w: Seq<char>)
    requires
        branch_wf(old_b),
        w.len() >= 2,
        w[0] == old_b.value,
        forall|i: int| 0 <= i < old_b.child@.len() ==> #[trigger] old_b.child@[i].value != w[1],
        new_b.value == old_b.value,
        new_b.end == old_b.end,
        new_b.child@ == old_b.child@.push(nb),
        nb.value == w[1],
        branch_words(nb) == seq![w.drop_first()],
        branch_wf(nb),
    ensures
        branch_wf(new_b),
        branch_words(new_b) == listed_insert(branch_words(old_b), w),
{
    let wp = w.drop_first();
    lemma_wf_children(old_b);
    lemma_forest_push_wf(old_b.child@, nb);
    lemma_wf_from_children(new_b);
    lemma_forest_push_inserted(old_b.child@, nb, wp);
    assert(seq![old_b.value] + wp =~= w);
    lemma_wf_nonempty(old_b);
    lemma_branch_inserted(old_b, new_b, wp);
}

/// Adding a well formed branch whose letter no branch holds keeps a forest
/// well formed.
proof fn lemma_forest_push_wf(bs: Seq<Branch>, nb: Branch)
    requires
        distinct_values(bs),
        forall|i: int| 0 <= i < bs.len() ==> #[trigger] branch_wf(bs[i]),
        forall|i: int| 0 <= i < bs.len() ==> #[trigger] bs[i].value != nb.value,
        branch_wf(nb),
    ensures
        distinct_values(bs.push(nb)),
        forall|i: int| 0 <= i < bs.push(nb).len() ==> #[trigger] branch_wf(bs.push(nb)[i]),
{
    let nbs = bs.push(nb);
    assert forall|a: int, b: int|
        0 <= a < nbs.len() && 0 <= b < nbs.len() && a != b implies #[trigger] nbs[a].value
        != #[trigger] nbs[b].value by {
        if a < bs.len() && b < bs.len() {
            assert(bs[a].value != bs[b].value);
        } else if a < bs.len() {
            assert(bs[a].value != nb.value);
        } else if b < bs.len() {
            assert(bs[b].value != nb.value);
        }
    }
    assert forall|i: int| 0 <= i < nbs.len() implies #[trigger] branch_wf(nbs[i]) by {
        if i < bs.len() {
            assert(nbs[i] == bs[i]);
        }
    }
}

/// Adding a branch that holds just `w`, whose first letter no branch holds,
/// puts `w` last.
proof fn lemma_forest_push_inserted(bs: Seq<Branch>, nb: Branch, w: Seq<char>)
    requires
        w.len() >= 1,
        forall|i: int| 0 <= i < bs.len() ==> #[trigger] bs[i].value != w[0],
        branch_words(nb) == seq![w],
    ensures
        forest_words(bs.push(nb)) == listed_insert(forest_words(bs), w),
        !forest_words(bs).contains(w),
{
    lemma_forest_words_push(bs, nb);
    lemma_forest_none_start(bs, w[0]);
    let f = forest_words(bs);
    lemma_none_start_contains(f, w);
    lemma_position_new_letter(f, w);
    assert(forest_words(bs.push(nb)) =~= f.insert(f.len() as int, w));
}

/// Replacing a branch by a well formed one with the same letter keeps a
/// forest well formed.
proof fn lemma_forest_update_wf(bs: Seq<Branch>, j: int, nb: Branch)
    requires
        distinct_values(bs),
        forall|i: int| 0 <= i < bs.len() ==> #[trigger] branch_wf(bs[i]),
        0 <= j < bs.len(),
        nb.value == bs[j].value,
        branch_wf(nb),
    ensures
        distinct_values(bs.update(j, nb)),
        forall|i: int|
            0 <= i < bs.update(j, nb).len() ==> #[trigger] branch_wf(bs.update(j, nb)[i]),
{
    let nbs = bs.update(j, nb);
    assert forall|a: int, b: int|
        0 <= a < nbs.len() && 0 <= b < nbs.len() && a != b implies #[trigger] nbs[a].value
        != #[trigger] nbs[b].value by {
        assert(bs[a].value != bs[b].value);
    }
    assert forall|i: int| 0 <= i < nbs.len() implies #[trigger] branch_wf(nbs[i]) by {
        if i != j {
            assert(nbs[i] == bs[i]);
        }
    }
}

/// An insertion keeps a word list free of repeats.
proof fn lemma_inserted_no_duplicates(old_ws: Seq<Seq<char>>, new_ws: Seq<Seq<char>>, w: Seq<char>)
    requires
        old_ws.no_duplicates(),
        new_ws == listed_insert(old_ws, w),
    ensures
        new_ws.no_duplicates(),
{
    if !old_ws.contains(w) {
        let i = insert_position(old_ws, w);
        lemma_position_bounds(old_ws, w);
        assert forall|a: int, b: int| 0 <= a < new_ws.len() && 0 <= b < new_ws.len() && a != b implies new_ws[a] != new_ws[b] by {
            if a != i && b != i {
                let oa = if a < i { a } else { a - 1 };
                let ob = if b < i { b } else { b - 1 };
                assert(new_ws[a] == old_ws[oa]);
                assert(new_ws[b] == old_ws[ob]);
            } else if a == i {
                let ob = if b < i { b } else { b - 1 };
                assert(new_ws[b] == old_ws[ob]);
            } else {
                let oa = if a < i { a } else { a - 1 };
                assert(new_ws[a] == old_ws[oa]);
            }
        }
    }
}

/// Marking a branch as the end of its one-letter word inserts that word.
proof fn lemma_mark_end(old_b: Branch, new_b: Branch, w: Seq<char>)
    requires
        branch_wf(old_b),
        w.len() == 1,
        w[0] == old_b.value,
        new_b.value == old_b.value,
        new_b.end,
        new_b.child == old_b.child,
    ensures
        branch_wf(new_b),
        branch_words(new_b) == listed_insert(branch_words(old_b), w),
{
    lemma_branch_contains(old_b, w);
    lemma_wf_children(old_b);
    lemma_wf_from_children(new_b);
    assert(w =~= seq![old_b.value]);
    lemma_forest_words_nonempty(old_b.child@);
    if !old_b.end {
        lemma_wf_nonempty(old_b);
        let f = forest_words(old_b.child@);
        assert(branch_words(old_b) =~= prefixed(old_b.value, f));
        lemma_position_letter(f, old_b.value);
        assert(branch_words(new_b) =~= branch_words(old_b).insert(0, w));
    } else {
        assert(branch_words(new_b) =~= branch_words(old_b));
    }
}

/// The predicate a lookup of `p` keeps words by.
pub open spec fn comparable_to(p: Seq<char>) -> spec_fn(Seq<char>) -> bool {
    |u: Seq<char>| comparable(u, p)
}

proof fn lemma_comparable_cons(c: char, u: Seq<char>, q: Seq<char>)
    ensures
        comparable(seq![c] + u, seq![c] + q) == comparable(u, q),
{
    let cu = seq![c] + u;
    let cq = seq![c] + q;
    if u.len() <= q.len() {
        assert(cq.take(cu.len() as int) =~= seq![c] + q.take(u.len() as int));
        if cq.take(cu.len() as int) == cu {
            assert(q.take(u.len() as int) =~= cq.take(cu.len() as int).drop_first());
            assert(cu.drop_first() =~= u);
        }
        if q.take(u.len() as int) == u {
            assert(cq.take(cu.len() as int) =~= cu);
        }
    }
    if q.len() <= u.len() {
        assert(cu.take(cq.len() as int) =~= seq![c] + u.take(q.len() as int));
        if cu.take(cq.len() as int) == cq {
            assert(u.take(q.len() as int) =~= cu.take(cq.len() as int).drop_first());
            assert(cq.drop_first() =~= q);
        }
        if u.take(q.len() as int) == q {
            assert(cu.take(cq.len() as int) =~= cq);
        }
    }
}

/// Filtering words that share a first letter with a prefix that starts
/// with that letter is filtering the rests by the rest of the prefix.
proof fn lemma_filter_prefixed(c: char, f: Seq<Seq<char>>, q: Seq<char>)
    ensures
        prefixed(c, f).filter(comparable_to(seq![c] + q)) == prefixed(
            c,
            f.filter(comparable_to(q)),
        ),
    decreases f.len(),
{
    reveal(Seq::filter);
    let p = seq![c] + q;
    if f.len() > 0 {
        lemma_filter_prefixed(c, f.drop_last(), q);
        assert(prefixed(c, f).drop_last() =~= prefixed(c, f.drop_last()));
        assert(prefixed(c, f).last() == seq![c] + f.last());
        lemma_comparable_cons(c, f.last(), q);
        let sub = f.drop_last().filter(comparable_to(q));
        if comparable(f.last(), q) {
            assert(prefixed(c, sub).push(seq![c] + f.last()) =~= prefixed(c, sub.push(f.last())));
        }
    } else {
        assert(prefixed(c, f) =~= Seq::<Seq<char>>::empty());
        assert(f.filter(comparable_to(q)) =~= Seq::<Seq<char>>::empty());
    }
}

/// No word comparable with `p`: the lookup finds nothing.
proof fn lemma_filter_none(ws: Seq<Seq<char>>, p: Seq<char>)
    requires
        forall|k: int| 0 <= k < ws.len() ==> !comparable(#[trigger] ws[k], p),
    ensures
        ws.filter(comparable_to(p)) == Seq::<Seq<char>>::empty(),
    decreases ws.len(),
{
    reveal(Seq::filter);
    if ws.len() > 0 {
        assert(!comparable(ws[ws.len() - 1], p));
        lemma_filter_none(ws.drop_last(), p);
    }
}

/// Every word comparable with `p`: the lookup finds them all.
proof fn lemma_filter_all(ws: Seq<Seq<char>>, p: Seq<char>)
    requires
        forall|k: int| 0 <= k < ws.len() ==> comparable(#[trigger] ws[k], p),
    ensures
        ws.filter(comparable_to(p)) == ws,
    decreases ws.len(),
{
    reveal(Seq::filter);
    if ws.len() > 0 {
        assert(comparable(ws[ws.len() - 1], p));
        lemma_filter_all(ws.drop_last(), p);
        assert(ws.drop_last().push(ws.last()) =~= ws);
    }
}

/// Under a branch whose letter is not the first of `q`, no word is
/// comparable with `q`; under one whose letter is all of `q`, every word is.
proof fn lemma_branch_filter(b: Branch, q: Seq<char>)
    requires
        q.len() >= 1,
    ensures
        b.value != q[0] ==> branch_words(b).filter(comparable_to(q)) == Seq::<
            Seq<char>,
        >::empty(),
        (q.len() == 1 && b.value == q[0]) ==> branch_words(b).filter(comparable_to(q))
            == branch_words(b),
{
    let ws = branch_words(b);
    lemma_branch_words_shape(b);
    if b.value != q[0] {
        assert forall|k: int| 0 <= k < ws.len() implies !comparable(#[trigger] ws[k], q) by {
            let u = ws[k];
            if u.len() <= q.len() && q.take(u.len() as int) == u {
                assert(q.take(u.len() as int)[0] == q[0]);
            }
            if q.len() <= u.len() && u.take(q.len() as int) == q {
                assert(u.take(q.len() as int)[0] == u[0]);
            }
        }
        lemma_filter_none(ws, q);
    }
    if q.len() == 1 && b.value == q[0] {
        assert forall|k: int| 0 <= k < ws.len() implies comparable(#[trigger] ws[k], q) by {
            assert(ws[k].take(1) =~= q);
        }
        lemma_filter_all(ws, q);
    }
}

proof fn lemma_forest_words_take_step(bs: Seq<Branch>, i: int)
    requires
        0 <= i < bs.len(),
    ensures
        forest_words(bs.take(i + 1)) == forest_words(bs.take(i)) + branch_words(bs[i]),
{
    assert(bs.take(i + 1) =~= bs.take(i).push(bs[i]));
    lemma_forest_words_push(bs.take(i), bs[i]);
}

proof fn lemma_filter_take_step(bs: Seq<Branch>, i: int, q: Seq<char>)
    requires
        0 <= i < bs.len(),
    ensures
        forest_words(bs.take(i + 1)).filter(comparable_to(q)) == forest_words(bs.take(i)).filter(
            comparable_to(q),
        ) + branch_words(bs[i]).filter(comparable_to(q)),
{
    lemma_forest_words_take_step(bs, i);
    Seq::filter_distributes_over_add(
        forest_words(bs.take(i)),
        branch_words(bs[i]),
        comparable_to(q),
    );
}

proof fn lemma_prepend_prefixed(last: Seq<char>, c: char, f: Seq<Seq<char>>)
    ensures
        prepend_all(last, prefixed(c, f)) == prepend_all(last.push(c), f),
{
    assert forall|k: int| 0 <= k < f.len() implies #[trigger] prepend_all(last, prefixed(c, f))[k]
        == prepend_all(last.push(c), f)[k] by {
        assert(last + (seq![c] + f[k]) =~= last.push(c) + f[k]);
    }
    assert(prepend_all(last, prefixed(c, f)) =~= prepend_all(last.push(c), f));
}

proof fn lemma_prepend_empty(ws: Seq<Seq<char>>)
    ensures
        prepend_all(Seq::<char>::empty(), ws) == ws,
{
    assert forall|k: int| 0 <= k < ws.len() implies #[trigger] prepend_all(
        Seq::<char>::empty(),
        ws,
    )[k] == ws[k] by {
        assert(Seq::<char>::empty() + ws[k] =~= ws[k]);
    }
    assert(prepend_all(Seq::<char>::empty(), ws) =~= ws);
}

/// The words under a branch, with `last` in front: its own word, then those
/// of its children with the branch's letter added to `last`.
proof fn lemma_rest_result(b: Branch, last: Seq<char>)
    ensures
        prepend_all(last, branch_words(b)) == prepend_all(
            last,
            if b.end { seq![seq![b.value]] } else { Seq::<Seq<char>>::empty() },
        ) + prepend_all(last.push(b.value), forest_words(b.child@)),
{
    let e: Seq<Seq<char>> = if b.end { seq![seq![b.value]] } else { Seq::empty() };
    lemma_prepend_all_add(last, e, prefixed(b.value, forest_words(b.child@)));
    lemma_prepend_prefixed(last, b.value, forest_words(b.child@));
}

/// What a lookup under a branch gives, split as the walk produces it.
proof fn lemma_look_up_result(b: Branch, last: Seq<char>, q: Seq<char>)
    ensures
        prepend_all(last, branch_words(b).filter(comparable_to(seq![b.value] + q))) == prepend_all(
            last,
            if b.end { seq![seq![b.value]] } else { Seq::<Seq<char>>::empty() },
        ) + prepend_all(last.push(b.value), forest_words(b.child@).filter(comparable_to(q))),
{
    let p = seq![b.value] + q;
    let e: Seq<Seq<char>> = if b.end { seq![seq![b.value]] } else { Seq::empty() };
    let f = forest_words(b.child@);
    Seq::filter_distributes_over_add(e, prefixed(b.value, f), comparable_to(p));
    lemma_filter_prefixed(b.value, f, q);
    assert forall|k: int| 0 <= k < e.len() implies comparable(#[trigger] e[k], p) by {
        assert(p.take(1) =~= e[k]);
    }
    lemma_filter_all(e, p);
    lemma_prepend_all_add(last, e, prefixed(b.value, f.filter(comparable_to(q))));
    lemma_prepend_prefixed(last, b.value, f.filter(comparable_to(q)));
}

/// Whether a forest holds `word[k..]` is decided by the one branch with its
/// first letter.
proof fn lemma_contains_in_child(bs: Seq<Branch>, j: int, word: Seq<char>, k: int)
    requires
        distinct_values(bs),
        0 <= j < bs.len(),
        0 <= k < word.len(),
        bs[j].value == word[k],
    ensures
        forest_words(bs).contains(word.skip(k)) == if k + 1 < word.len() {
            forest_words(bs[j].child@).contains(word.skip(k + 1))
        } else {
            bs[j].end
        },
{
    let w = word.skip(k);
    lemma_forest_contains(bs, w);
    assert forall|i: int| 0 <= i < bs.len() && i != j implies !#[trigger] branch_words(
        bs[i],
    ).contains(w) by {
        lemma_branch_contains(bs[i], w);
        assert(bs[i].value != bs[j].value);
    }
    lemma_branch_contains(bs[j], w);
    assert(w.drop_first() =~= word.skip(k + 1));
}

/// A forest none of whose branches holds the first letter of `w` does not
/// hold `w`.
proof fn lemma_contains_in_none(bs: Seq<Branch>, w: Seq<char>)
    requires
        w.len() >= 1,
        forall|i: int| 0 <= i < bs.len() ==> #[trigger] bs[i].value != w[0],
    ensures
        !forest_words(bs).contains(w),
{
    lemma_forest_contains(bs, w);
    assert forall|i: int| 0 <= i < bs.len() implies !#[trigger] branch_words(bs[i]).contains(
        w,
    ) by {
        lemma_branch_contains(bs[i], w);
    }
}

/// One step of a lookup walk over a forest: the words found under branch
/// `i` extend what was found under the branches before it.
proof fn lemma_lookup_step(
    acc: Seq<Seq<char>>,
    here: Seq<char>,
    bs: Seq<Branch>,
    i: int,
    q: Seq<char>,
    before: Seq<Seq<char>>,
    after: Seq<Seq<char>>,
)
    requires
        0 <= i < bs.len(),
        before == acc + prepend_all(here, forest_words(bs.take(i)).filter(comparable_to(q))),
        after == before + prepend_all(here, branch_words(bs[i]).filter(comparable_to(q))),
    ensures
        after == acc + prepend_all(here, forest_words(bs.take(i + 1)).filter(comparable_to(q))),
{
    lemma_filter_take_step(bs, i, q);
    lemma_prepend_all_add(
        here,
        forest_words(bs.take(i)).filter(comparable_to(q)),
        branch_words(bs[i]).filter(comparable_to(q)),
    );
}

impl Branch {
    /// Whether `word[k..]` is a word under one of this branch's children.
    fn _contains(&self, word: &Vec<char>, k: usize) -> (r: bool)
        requires
            k < word@.len(),
            branch_wf(*self),
        ensures
            r == forest_words(self.child@).contains(word@.skip(k as int)),
        decreases branch_size(*self),
    {
        proof {
            lemma_wf_children(*self);
        }
        let len = word.len();
        match find_child(&self.child, word[k]) {
            Some(j) => {
                proof {
                    lemma_forest_size(self.child@, j as int);
                    lemma_size_unfold(*self);
                    lemma_contains_in_child(self.child@, j as int, word@, k as int);
                }
                if k + 1 < len {
                    self.child[j]._contains(word, k + 1)
                } else {
                    self.child[j].end
                }
            },
            None => {
                proof {
                    lemma_contains_in_none(self.child@, word@.skip(k as int));
                }
                false
            },
        }
    }

    /// Appends every word under this branch, with `last` in front.
    fn get_rest_branch(&self, last: &Vec<char>, word_list: &mut Vec<String>)
        ensures
            views(final(word_list)@) == views(old(word_list)@) + prepend_all(
                last@,
                branch_words(*self),
            ),
        decreases branch_size(*self),
    {
        let ghost e: Seq<Seq<char>> = if self.end { seq![seq![self.value]] } else { Seq::empty() };
        let mut here: Vec<char> = Vec::new();
        extend_chars(&mut here, last.as_slice());
        here.push(self.value);
        proof {
            assert(here@ =~= last@.push(self.value));
        }
        if self.end {
            push_string(word_list, string_of(here.as_slice()));
            proof {
                assert(here@ =~= last@ + seq![self.value]);
                assert(prepend_all(last@, e)[0] == last@ + seq![self.value]);
                assert(prepend_all(last@, e) =~= seq![here@]);
            }
        }
        proof {
            assert(views(word_list@) =~= views(old(word_list)@) + prepend_all(last@, e));
            assert(self.child@.take(0) =~= Seq::<Branch>::empty());
            assert(prepend_all(here@, forest_words(Seq::<Branch>::empty())) =~= Seq::<Seq<char>>::empty());
        }
        let n = self.child.len();
        let mut i: usize = 0;
        while i < n
            invariant
                n == self.child@.len(),
                i <= n,
                here@ == last@.push(self.value),
                e == (if self.end { seq![seq![self.value]] } else { Seq::<Seq<char>>::empty() }),
                views(word_list@) == views(old(word_list)@) + prepend_all(last@, e) + prepend_all(
                    here@,
                    forest_words(self.child@.take(i as int)),
                ),
            decreases n - i,
        {
            proof {
                lemma_forest_size(self.child@, i as int);
                lemma_size_unfold(*self);
                lemma_forest_words_take_step(self.child@, i as int);
                lemma_prepend_all_add(
                    here@,
                    forest_words(self.child@.take(i as int)),
                    branch_words(self.child@[i as int]),
                );
            }
            self.child[i].get_rest_branch(&here, word_list);
            i += 1;
        }
        proof {
            assert(self.child@.take(n as int) =~= self.child@);
            lemma_rest_result(*self, last@);
        }
    }

    /// Appends, with `last` in front, the words under this branch comparable
    /// with its letter followed by `word[k..]`.
    fn look_up(&self, word: &Vec<char>, k: usize, last: &Vec<char>, word_list: &mut Vec<String>)
        requires
            k < word@.len(),
        ensures
            views(final(word_list)@) == views(old(word_list)@) + prepend_all(
                last@,
                branch_words(*self).filter(comparable_to(seq![self.value] + word@.skip(k as int))),
            ),
        decreases branch_size(*self),
    {
        let ghost e: Seq<Seq<char>> = if self.end { seq![seq![self.value]] } else { Seq::empty() };
        let ghost q = word@.skip(k as int);
        let mut here: Vec<char> = Vec::new();
        extend_chars(&mut here, last.as_slice());
        here.push(self.value);
        proof {
            assert(here@ =~= last@.push(self.value));
        }
        if self.end {
            push_string(word_list, string_of(here.as_slice()));
            proof {
                assert(here@ =~= last@ + seq![self.value]);
                assert(prepend_all(last@, e)[0] == last@ + seq![self.value]);
                assert(prepend_all(last@, e) =~= seq![here@]);
            }
        }
        proof {
            assert(views(word_list@) =~= views(old(word_list)@) + prepend_all(last@, e));
            assert(self.child@.take(0) =~= Seq::<Branch>::empty());
            assert(forest_words(Seq::<Branch>::empty()).filter(comparable_to(q)) =~= Seq::<Seq<char>>::empty()) by {
                reveal(Seq::filter);
            }
            assert(prepend_all(here@, Seq::<Seq<char>>::empty()) =~= Seq::<Seq<char>>::empty());
        }
        let len = word.len();
        let n = self.child.len();
        let mut i: usize = 0;
        while i < n
            invariant
                n == self.child@.len(),
                i <= n,
                len == word@.len(),
                k < len,
                q == word@.skip(k as int),
                here@ == last@.push(self.value),
                e == (if self.end { seq![seq![self.value]] } else { Seq::<Seq<char>>::empty() }),
                views(word_list@) == views(old(word_list)@) + prepend_all(last@, e) + prepend_all(
                    here@,
                    forest_words(self.child@.take(i as int)).filter(comparable_to(q)),
                ),
            decreases n - i,
        {
            let ghost c = self.child@[i as int];
            let ghost before = views(word_list@);
            proof {
                lemma_forest_size(self.child@, i as int);
                lemma_size_unfold(*self);
                lemma_branch_filter(c, q);
            }
            if k + 1 < len && self.child[i].has_value(word[k]) {
                proof {
                    assert(seq![c.value] + word@.skip(k + 1) =~= q);
                }
                self.child[i].look_up(word, k + 1, &here, word_list);
            } else if self.child[i].has_value(word[k]) {
                self.child[i].get_rest_branch(&here, word_list);
            } else {
                proof {
                    assert(prepend_all(here@, Seq::<Seq<char>>::empty()) =~= Seq::<Seq<char>>::empty());
                    assert(views(word_list@) =~= before + prepend_all(here@, Seq::<Seq<char>>::empty()));
                }
            }
            proof {
                lemma_lookup_step(
                    views(old(word_list)@) + prepend_all(last@, e),
                    here@,
                    self.child@,
                    i as int,
                    q,
                    before,
                    views(word_list@),
                );
            }
            i += 1;
        }
        proof {
            assert(self.child@.take(n as int) =~= self.child@);
            lemma_look_up_result(*self, last@, q);
        }
    }
}

/// A trie of words.
#[derive(Debug)]
pub struct Trie {
    branches: Vec<Branch>,
}

impl Trie {
    /// The stored words, in the order the trie lists them.
    pub closed spec fn words(&self) -> Seq<Seq<char>> {
        forest_words(self.branches@)
    }

    /// No two branches at any level share a letter, and no word is listed
    /// twice.
    pub closed spec fn wf(&self) -> bool {
        &&& distinct_values(self.branches@)
        &&& forall|i: int| 0 <= i < self.branches@.len() ==> #[trigger] branch_wf(self.branches@[i])
        &&& forest_words(self.branches@).no_duplicates()
    }

    /// Stores `word`; the empty word is ignored. A new word is listed
    /// before the first stored word that extends it, else after the last
    /// stored word that shares its longest start with it.
    pub fn insert(&mut self, word: &str)
        requires
            old(self).wf(),
        ensures
            final(self).wf(),
            word@.len() == 0 ==> final(self).words() == old(self).words(),
            word@.len() > 0 ==> final(self).words() == listed_insert(old(self).words(), word@),
    {
        let chars = chars_of(word);
        if chars.len() == 0 {
            return;
        }
        let ghost ob = self.branches@;
        proof {
            assert(chars@.skip(0) =~= chars@);
        }
        match find_child(&self.branches, chars[0]) {
            Some(j) => {
                let mut b = self.branches.remove(j);
                proof {
                    assert(b == ob[j as int]);
                }
                let _ = b.insert(&chars, 0);
                self.branches.insert(j, b);
                proof {
                    assert(self.branches@ =~= ob.update(j as int, b));
                    lemma_forest_update_wf(ob, j as int, b);
                    lemma_forest_update_inserted(ob, j as int, b, chars@);
                    lemma_inserted_no_duplicates(forest_words(ob), self.words(), chars@);
                }
            },
            None => {
                let nb = Branch::new(&chars, 0);
                proof {
                    lemma_chain_words(chars@, 0, nb);
                }
                self.branches.push(nb);
                proof {
                    lemma_forest_push_wf(ob, nb);
                    lemma_forest_push_inserted(ob, nb, chars@);
                    lemma_inserted_no_duplicates(forest_words(ob), self.words(), chars@);
                }
            },
        }
    }

    /// Whether `word` is stored.
    pub fn contains(&self, word: &str) -> (r: bool)
        requires
            self.wf(),
            word@.len() > 0,
        ensures
            r == self.words().contains(word@),
    {
        let chars = chars_of(word);
        proof {
            assert(chars@.skip(0) =~= chars@);
        }
        match find_child(&self.branches, chars[0]) {
            Some(j) => {
                proof {
                    lemma_contains_in_child(self.branches@, j as int, chars@, 0);
                }
                if chars.len() > 1 {
                    self.branches[j]._contains(&chars, 1)
                } else {
                    self.branches[j].end
                }
            },
            None => {
                proof {
                    lemma_contains_in_none(self.branches@, chars@);
                }
                false
            },
        }
    }

    /// The stored words comparable with `pre_fix`: those it starts with and
    /// those that start with it, in listing order. Nothing for an empty
    /// prefix.
    pub fn lookup(&self, pre_fix: &str) -> (r: Vec<String>)
        ensures
            views(r@) == if pre_fix@.len() == 0 {
                Seq::<Seq<char>>::empty()
            } else {
                self.words().filter(comparable_to(pre_fix@))
            },
    {
        let word = chars_of(pre_fix);
        let mut word_list: Vec<String> = Vec::new();
        if word.len() == 0 {
            proof {
                assert(views(word_list@) =~= Seq::<Seq<char>>::empty());
            }
            return word_list;
        }
        let ghost q = word@;
        let empty: Vec<char> = Vec::new();
        proof {
            assert(self.branches@.take(0) =~= Seq::<Branch>::empty());
            assert(forest_words(Seq::<Branch>::empty()).filter(comparable_to(q)) =~= Seq::<Seq<char>>::empty()) by {
                reveal(Seq::filter);
            }
            assert(views(word_list@) =~= Seq::<Seq<char>>::empty());
        }
        let len = word.len();
        let n = self.branches.len();
        let mut i: usize = 0;
        while i < n
            invariant
                n == self.branches@.len(),
                i <= n,
                len == word@.len(),
                0 < len,
                q == word@,
                empty@ == Seq::<char>::empty(),
                views(word_list@) == forest_words(self.branches@.take(i as int)).filter(
                    comparable_to(q),
                ),
            decreases n - i,
        {
            let ghost c = self.branches@[i as int];
            proof {
                lemma_filter_take_step(self.branches@, i as int, q);
                lemma_branch_filter(c, q);
                lemma_prepend_empty(branch_words(c).filter(comparable_to(q)));
                lemma_prepend_empty(branch_words(c));
            }
            if len > 1 && self.branches[i].has_value(word[0]) {
                proof {
                    assert(seq![c.value] + word@.skip(1) =~= q);
                }
                self.branches[i].look_up(&word, 1, &empty, &mut word_list);
            } else if self.branches[i].has_value(word[0]) {
                self.branches[i].get_rest_branch(&empty, &mut word_list);
            }
            i += 1;
        }
        proof {
            assert(self.branches@.take(n as int) =~= self.branches@);
        }
        word_list
    }

    /// Every stored word, in listing order.
    pub fn get_all_words(&self) -> (r: Vec<String>)
        ensures
            views(r@) == self.words(),
    {
        let mut word_list: Vec<String> = Vec::new();
        let empty: Vec<char> = Vec::new();
        proof {
            assert(self.branches@.take(0) =~= Seq::<Branch>::empty());
            assert(views(word_list@) =~= Seq::<Seq<char>>::empty());
        }
        let n = self.branches.len();
        let mut i: usize = 0;
        while i < n
            invariant
                n == self.branches@.len(),
                i <= n,
                empty@ == Seq::<char>::empty(),
                views(word_list@) == forest_words(self.branches@.take(i as int)),
            decreases n - i,
        {
            proof {
                lemma_forest_words_take_step(self.branches@, i as int);
                lemma_prepend_empty(branch_words(self.branches@[i as int]));
            }
            self.branches[i].get_rest_branch(&empty, &mut word_list);
            i += 1;
        }
        proof {
            assert(self.branches@.take(n as int) =~= self.branches@);
        }
        word_list
    }
}

impl Default for Trie {
    fn default() -> (t: Trie)
        ensures
            t.wf(),
            t.words() == Seq::<Seq<char>>::empty(),
    {
        let t = Trie { branches: Vec::new() };
        proof {
            assert(forest_words(t.branches@) =~= Seq::<Seq<char>>::empty());
        }
        t
    }
}

impl vstd::std_specs::convert::FromSpecImpl<&Vec<&str>> for Trie {
    /// A trie built from a list is described by `from`'s own contract: the
    /// words it holds, not one fixed value.
    open spec fn obeys_from_spec() -> bool {
        false
    }

    open spec fn from_spec(word_list: &Vec<&str>) -> Trie {
        vstd::pervasive::arbitrary()
    }
}

impl From<&Vec<&str>> for Trie {
    /// A trie into which the words of the list were inserted in order.
    fn from(word_list: &Vec<&str>) -> (t: Trie)
        ensures
            t.wf(),
            t.words() == listed_all(str_views(word_list@)),
            forall|w: Seq<char>|
                #![trigger t.words().contains(w)]
                t.words().contains(w) <==> (w.len() > 0 && exists|i: int|
                    0 <= i < word_list@.len() && #[trigger] word_list@[i]@ == w),
    {
        if word_list.len() == 0 {
            let t = Trie::default();
            proof {
                assert(str_views(word_list@) =~= Seq::<Seq<char>>::empty());
            }
            return t;
        }
        let mut trie = Trie::default();
        let n = word_list.len();
        let mut idx: usize = 0;
        proof {
            assert(str_views(word_list@.take(0)) =~= Seq::<Seq<char>>::empty());
        }
        while idx < n
            invariant
                n == word_list@.len(),
                idx <= n,
                trie.wf(),
                trie.words() == listed_all(str_views(word_list@.take(idx as int))),
                forall|w: Seq<char>|
                    #![trigger trie.words().contains(w)]
                    trie.words().contains(w) <==> (w.len() > 0 && exists|i: int|
                        0 <= i < idx && #[trigger] word_list@[i]@ == w),
            decreases n - idx,
        {
            let ghost before = trie.words();
            trie.insert(word_list[idx]);
            proof {
                let wi = word_list@[idx as int]@;
                let vs = str_views(word_list@.take(idx + 1));
                assert(vs.drop_last() =~= str_views(word_list@.take(idx as int)));
                assert(vs.last() == wi);
                if wi.len() > 0 {
                    lemma_inserted_contains(before, trie.words(), wi);
                }
                assert forall|w: Seq<char>| #![trigger trie.words().contains(w)]
                    trie.words().contains(w) <==> (w.len() > 0 && exists|i: int|
                        0 <= i < idx + 1 && #[trigger] word_list@[i]@ == w) by {
                    if w.len() > 0 && exists|i: int| 0 <= i < idx + 1 && #[trigger] word_list@[i]@ == w {
                        let i = choose|i: int| 0 <= i < idx + 1 && #[trigger] word_list@[i]@ == w;
                        if i < idx {
                            assert(before.contains(w));
                        }
                    }
                }
            }
            idx += 1;
        }
        proof {
            assert(word_list@.take(n as int) =~= word_list@);
        }
        trie
    }
}

/// After an insertion, exactly the earlier words and the inserted one are
/// stored.
pub proof fn lemma_inserted_contains(old_ws: Seq<Seq<char>>, new_ws: Seq<Seq<char>>, w: Seq<char>)
    requires
        new_ws == listed_insert(old_ws, w),
    ensures
        forall|u: Seq<char>| #[trigger] new_ws.contains(u) <==> (old_ws.contains(u) || u == w),
{
    if !old_ws.contains(w) {
        let i = insert_position(old_ws, w);
        lemma_position_bounds(old_ws, w);
        assert(new_ws[i] == w);
        assert forall|u: Seq<char>| #[trigger] new_ws.contains(u) implies (old_ws.contains(u) || u == w) by {
            let k = choose|k: int| 0 <= k < new_ws.len() && new_ws[k] == u;
            if k < i {
                assert(old_ws[k] == u);
            } else if k > i {
                assert(old_ws[k - 1] == u);
            }
        }
        assert forall|u: Seq<char>| old_ws.contains(u) implies #[trigger] new_ws.contains(u) by {
            let k = choose|k: int| 0 <= k < old_ws.len() && old_ws[k] == u;
            if k < i {
                assert(new_ws[k] == u);
            } else {
                assert(new_ws[k + 1] == u);
            }
        }
    }
}

/// A word inserted into a trie is then found by `contains`, and every word
/// stored before is still found.
pub proof fn lemma_insert_then_contains(before: Trie, after: Trie, w: Seq<char>)
    requires
        w.len() > 0,
        after.words() == listed_insert(before.words(), w),
    ensures
        after.words().contains(w),
        forall|u: Seq<char>| before.words().contains(u) ==> #[trigger] after.words().contains(u),
{
    lemma_inserted_contains(before.words(), after.words(), w);
}

/// Inserting a word that is already stored leaves the listing unchanged.
pub proof fn lemma_insert_stored_unchanged(before: Trie, after: Trie, w: Seq<char>)
    requires
        before.words().contains(w),
        after.words() == listed_insert(before.words(), w),
    ensures
        after.words() == before.words(),
{
}

/// A lookup of a non-empty prefix finds every stored word that starts with
/// it, and only words that start with it or that it starts with.
pub proof fn lemma_lookup_completions(t: Trie, p: Seq<char>, u: Seq<char>)
    requires
        p.len() > 0,
    ensures
        (t.words().contains(u) && is_prefix(p, u)) ==> t.words().filter(comparable_to(p)).contains(u),
        t.words().filter(comparable_to(p)).contains(u) ==> (t.words().contains(u) && comparable(u, p)),
{
    broadcast use vstd::seq_lib::group_filter_ensures;
    let ws = t.words();
    if ws.contains(u) && is_prefix(p, u) {
        let k = choose|k: int| 0 <= k < ws.len() && ws[k] == u;
        ws.lemma_filter_contains(comparable_to(p), k);
    }
    if ws.filter(comparable_to(p)).contains(u) {
        let f = ws.filter(comparable_to(p));
        let k = choose|k: int| 0 <= k < f.len() && f[k] == u;
        ws.lemma_filter_pred(comparable_to(p), k);
        lemma_filter_kept(ws, p, u);
    }
}

/// A word a lookup keeps is one of the words it looked through.
proof fn lemma_filter_kept(ws: Seq<Seq<char>>, p: Seq<char>, u: Seq<char>)
    requires
        ws.filter(comparable_to(p)).contains(u),
    ensures
        ws.contains(u),
    decreases ws.len(),
{
    reveal(Seq::filter);
    if ws.len() > 0 {
        let sub = ws.drop_last().filter(comparable_to(p));
        if sub.contains(u) {
            lemma_filter_kept(ws.drop_last(), p, u);
            let k = choose|k: int| 0 <= k < ws.drop_last().len() && ws.drop_last()[k] == u;
            assert(ws[k] == u);
        } else {
            assert(u == ws.last());
            assert(ws[ws.len() - 1] == u);
        }
    }
}

} // verus!
