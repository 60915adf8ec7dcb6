//! The pending-key parser: key presses collected until a mapping takes
//! them. Clearing keeps the storage and only forgets the pending presses.
use vstd::prelude::*;
use vstd::slice::slice_subrange;
use crate::ui::key::{keys_is_null, Keys};

verus! {

/// The key presses typed so far, waiting for a mapping.
#[derive(Debug)]
pub struct KeyParser {
    multiplier: usize,
    keys: Vec<Keys>,
    idx: usize,
}

impl KeyParser {
    /// The pending key presses never run past the storage.
    pub closed spec fn wf(self) -> bool {
        self.idx <= self.keys@.len()
    }

    /// The pending key presses, oldest first.
    pub closed spec fn pending(self) -> Seq<Keys> {
        self.keys@.take(self.idx as int)
    }

    /// The count typed before a command.
    pub closed spec fn count(self) -> usize {
        self.multiplier
    }

    /// Adds a key press; a press that stands for no key is dropped.
    pub fn push(&mut self, keys: Keys)
        requires
            old(self).wf(),
        ensures
            final(self).wf(),
            final(self).pending() == if keys_is_null(keys) {
                old(self).pending()
            } else {
                old(self).pending().push(keys)
            },
            final(self).count() == old(self).count(),
    {
        if keys.is_null() {
            return;
        }
        if self.idx >= self.keys.len() {
            self.keys.push(keys);
            let stored = self.keys.len();
            proof {
                assert(self.idx < stored);
            }
            self.idx += 1;
            proof {
                assert(self.keys@.take(self.idx as int) =~= old(self).keys@.take(
                    old(self).idx as int,
                ).push(keys));
            }
            return;
        }
        self.keys[self.idx] = keys;
        self.idx += 1;
        proof {
            assert(self.keys@.take(self.idx as int) =~= old(self).keys@.take(
                old(self).idx as int,
            ).push(keys));
        }
    }

    /// Forgets the pending key presses and the count.
    pub fn clear(&mut self)
        ensures
            final(self).wf(),
            final(self).pending() == Seq::<Keys>::empty(),
            final(self).count() == 1,
    {
        self.idx = 0;
        self.multiplier = 1;
        proof {
            assert(self.keys@.take(0) =~= Seq::<Keys>::empty());
        }
    }

    /// The pending key presses, oldest first.
    pub fn get_keys(&self) -> (r: &[Keys])
        requires
            self.wf(),
        ensures
            r@ == self.pending(),
    {
        let r = slice_subrange(self.keys.as_slice(), 0, self.idx);
        proof {
            assert(r@ =~= self.keys@.take(self.idx as int));
        }
        r
    }
}

impl Default for KeyParser {
    fn default() -> (p: KeyParser)
        ensures
            p.wf(),
            p.pending() == Seq::<Keys>::empty(),
            p.count() == 1,
    {
        let p = KeyParser { multiplier: 1, keys: Vec::with_capacity(20), idx: 0 };
        proof {
            assert(p.keys@.take(0) =~= Seq::<Keys>::empty());
        }
        p
    }
}

/// Pushing a key press that stands for a key adds it after the pending
/// ones; clearing then leaves nothing pending.
pub proof fn lemma_push_then_clear(before: KeyParser, pushed: KeyParser, cleared: KeyParser, k: Keys)
    requires
        !keys_is_null(k),
        pushed.pending() == before.pending().push(k),
        cleared.pending() == Seq::<Keys>::empty(),
    ensures
        pushed.pending().len() == before.pending().len() + 1,
        pushed.pending().last() == k,
        pushed.pending().drop_last() == before.pending(),
        cleared.pending().len() == 0,
{
    assert(pushed.pending().drop_last() =~= before.pending());
}

/// The key presses of `ks` that stand for a key, in order.
pub open spec fn real_keys(ks: Seq<Keys>) -> Seq<Keys>
    decreases ks.len(),
{
    if ks.len() == 0 {
        Seq::empty()
    } else if keys_is_null(ks.last()) {
        real_keys(ks.drop_last())
    } else {
        real_keys(ks.drop_last()).push(ks.last())
    }
}

/// Pushing presses one after another onto a parser with nothing pending
/// leaves pending exactly the pushed presses that stand for a key, in the
/// order they were pushed: `ps[i + 1]` is `ps[i]` after pushing `ks[i]`.
pub proof fn lemma_pushes(ps: Seq<KeyParser>, ks: Seq<Keys>)
    requires
        ps.len() == ks.len() + 1,
        ps[0].pending() == Seq::<Keys>::empty(),
        forall|i: int|
            0 <= i < ks.len() ==> #[trigger] ps[i + 1].pending() == if keys_is_null(ks[i]) {
                ps[i].pending()
            } else {
                ps[i].pending().push(ks[i])
            },
    ensures
        ps.last().pending() == real_keys(ks),
    decreases ks.len(),
{
    if ks.len() > 0 {
        let n = ks.len() - 1;
        assert forall|i: int| 0 <= i < ks.drop_last().len() implies #[trigger] ps.drop_last()[i + 1].pending() == if keys_is_null(ks.drop_last()[i]) {
            ps.drop_last()[i].pending()
        } else {
            ps.drop_last()[i].pending().push(ks.drop_last()[i])
        } by {
            assert(ps[i + 1].pending() == if keys_is_null(ks[i]) {
                ps[i].pending()
            } else {
                ps[i].pending().push(ks[i])
            });
        }
        lemma_pushes(ps.drop_last(), ks.drop_last());
        assert(ps[n + 1].pending() == if keys_is_null(ks[n]) {
            ps[n].pending()
        } else {
            ps[n].pending().push(ks[n])
        });
    }
}

} // verus!
