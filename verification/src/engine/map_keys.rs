//! Key mappings: a trie from key sequences to commands. A node for one key
//! either leads on to more keys, or binds a command and leads on, or only
//! binds a command; a bound node answers for every longer sequence through
//! it that has nothing more specific below.
use vstd::prelude::*;
use vstd::slice::slice_subrange;
use crate::ui::key::Keys;
use crate::engine::commands::{CmdRc, Command};
use crate::engine::key_parser::{bracket_keys, close_of, dash_of, group_keys, keys_of_string, modifier_name, parse_ok, string_to_keys};
use crate::strings::to_lower_spec;
use crate::ui::key::{keys_of_event, Key, KeyCode, KeyEvent, KeyModifiers, ALT, CONTROL};
use crate::engine::mode::Mode;

verus! {

/// One node of a key map: the key it stands for and what follows.
#[derive(Debug)]
pub enum MapNode<C> {
    /// Leads on to more keys.
    Prefix(Keys, KeyMap<C>),
    /// Binds a command and leads on to more keys.
    Middle(Keys, KeyMap<C>, C),
    /// Binds a command.
    End(Keys, C),
}

/// The nodes for the first key of a sequence, in the order they were added.
#[derive(Debug)]
pub struct KeyMap<C> {
    mappings: Vec<MapNode<C>>,
}

/// The key a node stands for.
pub open spec fn node_key<C>(n: MapNode<C>) -> Keys {
    match n {
        MapNode::Prefix(k, _) => k,
        MapNode::Middle(k, _, _) => k,
        MapNode::End(k, _) => k,
    }
}

/// The number of nodes in a node's tree.
pub closed spec fn node_size<C>(n: MapNode<C>) -> nat
    decreases n,
{
    match n {
        MapNode::Prefix(_, m) => 1 + nodes_size(m.mappings@),
        MapNode::Middle(_, m, _) => 1 + nodes_size(m.mappings@),
        MapNode::End(_, _) => 1,
    }
}

/// The number of nodes in a sequence of trees.
pub closed spec fn nodes_size<C>(ms: Seq<MapNode<C>>) -> nat
    decreases ms,
{
    if ms.len() == 0 {
        0
    } else {
        nodes_size(ms.drop_last()) + node_size(ms.last())
    }
}

/// The index of the first node for key `k`, or the number of nodes.
pub open spec fn find_key<C>(ms: Seq<MapNode<C>>, k: Keys) -> int
    decreases ms.len(),
{
    if ms.len() == 0 {
        0
    } else if node_key(ms[0]) == k {
        0
    } else {
        1 + find_key(ms.drop_first(), k)
    }
}

/// A node's tree is no bigger than the sequence it is in.
pub proof fn lemma_node_size_le<C>(ms: Seq<MapNode<C>>, i: int)
    requires
        0 <= i < ms.len(),
    ensures
        node_size(ms[i]) <= nodes_size(ms),
    decreases ms.len(),
{
    if i < ms.len() - 1 {
        lemma_node_size_le(ms.drop_last(), i);
    }
}

/// The first node for a key lies within the sequence, and no node before it
/// is for that key.
pub proof fn lemma_find_key<C>(ms: Seq<MapNode<C>>, k: Keys)
    ensures
        0 <= find_key(ms, k) <= ms.len(),
        find_key(ms, k) < ms.len() ==> node_key(ms[find_key(ms, k)]) == k,
        forall|j: int| 0 <= j < find_key(ms, k) ==> node_key(#[trigger] ms[j]) != k,
    decreases ms.len(),
{
    if ms.len() > 0 && node_key(ms[0]) != k {
        lemma_find_key(ms.drop_first(), k);
        assert forall|j: int| 0 <= j < find_key(ms, k) implies node_key(#[trigger] ms[j]) != k by {
            if j > 0 {
                assert(ms[j] == ms.drop_first()[j - 1]);
            }
        }
    }
}

/// The command a key sequence is bound to: found by following its keys
/// down the trie until a node binds a command for the sequence, or no node
/// goes on.
pub closed spec fn nodes_get<C>(ms: Seq<MapNode<C>>, keys: Seq<Keys>) -> Option<C>
    decreases nodes_size(ms), 1nat,
{
    if keys.len() == 0 {
        None
    } else {
        let i = find_key(ms, keys[0]);
        if i < 0 || i >= ms.len() {
            None
        } else {
            proof {
                lemma_node_size_le(ms, i);
            }
            node_get(ms[i], keys)
        }
    }
}

/// The command a key sequence whose first key is the node's is bound to.
pub closed spec fn node_get<C>(n: MapNode<C>, keys: Seq<Keys>) -> Option<C>
    decreases node_size(n), 0nat,
{
    match n {
        MapNode::Prefix(_, m) => nodes_get(m.mappings@, keys.drop_first()),
        MapNode::Middle(_, m, c) => if keys.len() == 1 {
            Some(c)
        } else {
            nodes_get(m.mappings@, keys.drop_first())
        },
        MapNode::End(_, c) => Some(c),
    }
}

/// Whether a key sequence could still grow into a bound one: its first key
/// has a node, and either it is that key alone or the rest is bound below
/// it, or that node binds a command.
pub closed spec fn nodes_possible<C>(ms: Seq<MapNode<C>>, keys: Seq<Keys>) -> bool {
    if keys.len() == 0 {
        false
    } else {
        let i = find_key(ms, keys[0]);
        if i < 0 || i >= ms.len() {
            false
        } else {
            match ms[i] {
                MapNode::Prefix(_, m) => keys.len() == 1 || nodes_get(
                    m.mappings@,
                    keys.drop_first(),
                ) is Some,
                MapNode::Middle(_, m, _) => keys.len() == 1 || nodes_get(
                    m.mappings@,
                    keys.drop_first(),
                ) is Some,
                MapNode::End(_, _) => true,
            }
        }
    }
}

/// Whether the keys lead, through nodes that lead on, to a node that leads
/// on at their last key: where an insertion finds no place to bind.
pub closed spec fn ends_inside<C>(ms: Seq<MapNode<C>>, keys: Seq<Keys>) -> bool
    decreases nodes_size(ms), 1nat,
{
    if keys.len() == 0 {
        false
    } else {
        let i = find_key(ms, keys[0]);
        if i < 0 || i >= ms.len() {
            false
        } else {
            proof {
                lemma_node_size_le(ms, i);
            }
            node_ends_inside(ms[i], keys)
        }
    }
}

/// `ends_inside` for a sequence whose first key is the node's.
pub closed spec fn node_ends_inside<C>(n: MapNode<C>, keys: Seq<Keys>) -> bool
    decreases node_size(n), 0nat,
{
    match n {
        MapNode::Prefix(_, m) => keys.len() == 1 || ends_inside(m.mappings@, keys.drop_first()),
        MapNode::Middle(_, m, _) => keys.len() == 1 || ends_inside(
            m.mappings@,
            keys.drop_first(),
        ),
        MapNode::End(_, _) => false,
    }
}

/// The depth at which the keys, following nodes that lead on, meet a node
/// that only binds before their last key.
pub closed spec fn end_depth<C>(ms: Seq<MapNode<C>>, keys: Seq<Keys>) -> Option<nat>
    decreases nodes_size(ms), 1nat,
{
    if keys.len() == 0 {
        None
    } else {
        let i = find_key(ms, keys[0]);
        if i < 0 || i >= ms.len() {
            None
        } else {
            proof {
                lemma_node_size_le(ms, i);
            }
            node_end_depth(ms[i], keys)
        }
    }
}

/// `end_depth` for a sequence whose first key is the node's.
pub closed spec fn node_end_depth<C>(n: MapNode<C>, keys: Seq<Keys>) -> Option<nat>
    decreases node_size(n), 0nat,
{
    match n {
        MapNode::Prefix(_, m) => if keys.len() <= 1 {
            None
        } else {
            match end_depth(m.mappings@, keys.drop_first()) {
                Some(d) => Some(d + 1),
                None => None,
            }
        },
        MapNode::Middle(_, m, _) => if keys.len() <= 1 {
            None
        } else {
            match end_depth(m.mappings@, keys.drop_first()) {
                Some(d) => Some(d + 1),
                None => None,
            }
        },
        MapNode::End(_, _) => if keys.len() > 1 {
            Some(0)
        } else {
            None
        },
    }
}

/// `after` is `before` with one node for key `k` added at the end.
pub open spec fn appended<C>(before: Seq<MapNode<C>>, after: Seq<MapNode<C>>, k: Keys) -> bool {
    &&& after.len() == before.len() + 1
    &&& after.take(before.len() as int) == before
    &&& node_key(after.last()) == k
}

/// `a` is a prefix of `b`.
pub open spec fn keys_prefix(a: Seq<Keys>, b: Seq<Keys>) -> bool {
    a.len() <= b.len() && b.take(a.len() as int) == a
}

/// What `k2` is bound to after binding `keys` (not empty) to `c`: `c` for
/// every sequence that starts with `keys`, unless the keys end where nodes
/// lead on, which leaves the map as it was; nothing for the sequences that
/// went through a node that only bound, now that it leads on, and do not
/// follow `keys`; and what it was bound to before for every other.
pub open spec fn get_after_insert<C>(ms: Seq<MapNode<C>>, keys: Seq<Keys>, c: C, k2: Seq<Keys>) -> Option<C> {
    if ends_inside(ms, keys) {
        nodes_get(ms, k2)
    } else if keys_prefix(keys, k2) {
        Some(c)
    } else {
        match end_depth(ms, keys) {
            Some(d) => if keys_prefix(keys.take((d + 1) as int), k2) && k2.len() > d + 1 {
                None
            } else {
                nodes_get(ms, k2)
            },
            None => nodes_get(ms, k2),
        }
    }
}

/// A chain of nodes for `keys[j..]`, binding `c` at the last key.
pub closed spec fn is_chain<C>(n: MapNode<C>, keys: Seq<Keys>, j: int, c: C) -> bool
    decreases keys.len() - j,
{
    &&& 0 <= j < keys.len()
    &&& node_key(n) == keys[j]
    &&& if j + 1 == keys.len() {
        n == MapNode::End(keys[j], c)
    } else {
        match n {
            MapNode::Prefix(_, m) => m.mappings@.len() == 1 && is_chain(m.mappings@[0], keys, j + 1, c),
            _ => false,
        }
    }
}

impl<C> KeyMap<C> {
    /// The command `keys` is bound to.
    pub closed spec fn get_spec(&self, keys: Seq<Keys>) -> Option<C> {
        nodes_get(self.mappings@, keys)
    }

    /// The nodes of the map.
    pub closed spec fn nodes(&self) -> Seq<MapNode<C>> {
        self.mappings@
    }

    /// An empty map.
    pub fn new() -> (m: KeyMap<C>)
        ensures
            m.nodes() == Seq::<MapNode<C>>::empty(),
            forall|k: Seq<Keys>| m.get_spec(k) is None,
    {
        KeyMap { mappings: Vec::new() }
    }

    /// A map holding one node.
    pub fn new_mapping(node: MapNode<C>) -> (m: KeyMap<C>)
        ensures
            m.nodes() == seq![node],
    {
        let mut mappings: Vec<MapNode<C>> = Vec::new();
        mappings.push(node);
        proof {
            assert(mappings@ =~= seq![node]);
        }
        KeyMap { mappings }
    }
}

/// `get_after_insert` for a sequence whose first key is the node's, with the
/// node as the one the insertion goes through.
pub closed spec fn node_get_after<C>(n: MapNode<C>, keys: Seq<Keys>, c: C, k2: Seq<Keys>) -> Option<C> {
    if node_ends_inside(n, keys) {
        node_get(n, k2)
    } else if keys_prefix(keys, k2) {
        Some(c)
    } else {
        match node_end_depth(n, keys) {
            Some(d) => if keys_prefix(keys.take((d + 1) as int), k2) && k2.len() > d + 1 {
                None
            } else {
                node_get(n, k2)
            },
            None => node_get(n, k2),
        }
    }
}

proof fn lemma_node_size_pos<C>(n: MapNode<C>)
    ensures
        node_size(n) >= 1,
{
}

proof fn lemma_find_update<C>(ms: Seq<MapNode<C>>, i: int, n2: MapNode<C>, k: Keys)
    requires
        0 <= i < ms.len(),
        node_key(n2) == node_key(ms[i]),
    ensures
        find_key(ms.update(i, n2), k) == find_key(ms, k),
    decreases ms.len(),
{
    let u = ms.update(i, n2);
    if ms.len() > 0 && node_key(ms[0]) != k {
        if i > 0 {
            assert(u.drop_first() =~= ms.drop_first().update(i - 1, n2));
            lemma_find_update(ms.drop_first(), i - 1, n2, k);
        } else {
            assert(u.drop_first() =~= ms.drop_first());
        }
    }
}

proof fn lemma_find_push<C>(ms: Seq<MapNode<C>>, n: MapNode<C>, k: Keys)
    ensures
        find_key(ms.push(n), k) == if find_key(ms, k) < ms.len() {
            find_key(ms, k)
        } else if node_key(n) == k {
            ms.len() as int
        } else {
            ms.len() + 1int
        },
    decreases ms.len(),
{
    let p = ms.push(n);
    if ms.len() == 0 {
        assert(p[0] == n);
        assert(p.drop_first() =~= Seq::<MapNode<C>>::empty());
        assert(find_key(p.drop_first(), k) == 0);
        assert(find_key(ms, k) == 0);
    } else {
        assert(p[0] == ms[0]);
        if node_key(ms[0]) != k {
            let t = ms.drop_first();
            assert(p.drop_first() =~= t.push(n));
            lemma_find_push(t, n, k);
            assert(find_key(ms, k) == 1 + find_key(t, k));
            assert(find_key(p, k) == 1 + find_key(p.drop_first(), k));
            assert(t.len() == ms.len() - 1);
        }
    }
}

/// Two sequences that share their first key: one is a prefix of the other
/// exactly when it is so after that key.
proof fn lemma_prefix_cons(a: Seq<Keys>, b: Seq<Keys>)
    requires
        a.len() >= 1,
        b.len() >= 1,
        a[0] == b[0],
    ensures
        keys_prefix(a, b) == keys_prefix(a.drop_first(), b.drop_first()),
{
    if keys_prefix(a, b) {
        assert(b.drop_first().take(a.drop_first().len() as int) =~= b.take(a.len() as int).drop_first());
    }
    if keys_prefix(a.drop_first(), b.drop_first()) {
        assert forall|t: int| 0 <= t < a.len() implies b.take(a.len() as int)[t] == a[t] by {
            if t > 0 {
                assert(b[t] == b.drop_first()[t - 1]);
                assert(a[t] == a.drop_first()[t - 1]);
                assert(b.drop_first().take(a.drop_first().len() as int)[t - 1] == b.drop_first()[t - 1]);
            }
        }
        assert(b.take(a.len() as int) =~= a);
    }
}

/// A chain for `keys[j..]` binds exactly the sequences that start with it.
proof fn lemma_chain_get<C>(n: MapNode<C>, keys: Seq<Keys>, j: int, c: C, k2: Seq<Keys>)
    requires
        is_chain(n, keys, j, c),
        k2.len() >= 1,
        k2[0] == keys[j],
    ensures
        node_get(n, k2) == if keys_prefix(keys.skip(j), k2) {
            Some(c)
        } else {
            None::<C>
        },
    decreases keys.len() - j,
{
    if j + 1 == keys.len() {
        assert(k2.take(1) =~= keys.skip(j));
    } else {
        match n {
            MapNode::Prefix(_, m) => {
                let ms2 = m.mappings@;
                let n2 = ms2[0];
                let k2r = k2.drop_first();
                assert(is_chain(n2, keys, j + 1, c));
                assert(node_key(n2) == keys[j + 1]);
                assert(node_get(n, k2) == nodes_get(ms2, k2r));
                assert(keys.skip(j).drop_first() =~= keys.skip(j + 1));
                lemma_prefix_cons(keys.skip(j), k2);
                if k2r.len() == 0 {
                } else if node_key(n2) == k2r[0] {
                    assert(find_key(ms2, k2r[0]) == 0);
                    lemma_chain_get(n2, keys, j + 1, c, k2r);
                } else {
                    assert(ms2.drop_first().len() == 0);
                    assert(find_key(ms2.drop_first(), k2r[0]) == 0);
                    assert(find_key(ms2, k2r[0]) == 1);
                    if keys_prefix(keys.skip(j + 1), k2r) {
                        assert(k2r.take(keys.skip(j + 1).len() as int)[0] == k2r[0]);
                    }
                }
            },
            _ => {},
        }
    }
}

/// A node that only binds met before the last key is met before it.
proof fn lemma_end_depth_bound<C>(ms: Seq<MapNode<C>>, keys: Seq<Keys>)
    ensures
        end_depth(ms, keys) matches Some(d) ==> d + 2 <= keys.len(),
    decreases nodes_size(ms), 1nat,
{
    if keys.len() > 0 {
        let i = find_key(ms, keys[0]);
        if 0 <= i < ms.len() {
            lemma_node_size_le(ms, i);
            lemma_node_end_depth_bound(ms[i], keys);
        }
    }
}

proof fn lemma_node_end_depth_bound<C>(n: MapNode<C>, keys: Seq<Keys>)
    ensures
        node_end_depth(n, keys) matches Some(d) ==> d + 2 <= keys.len(),
    decreases node_size(n), 0nat,
{
    match n {
        MapNode::Prefix(_, m) => {
            if keys.len() > 1 {
                lemma_end_depth_bound(m.mappings@, keys.drop_first());
            }
        },
        MapNode::Middle(_, m, _) => {
            if keys.len() > 1 {
                lemma_end_depth_bound(m.mappings@, keys.drop_first());
            }
        },
        MapNode::End(_, _) => {},
    }
}

/// What binding `keys` does to a lookup whose first key is another's, or
/// the same: read at the node the insertion goes through.
proof fn lemma_lift<C>(ms: Seq<MapNode<C>>, keys: Seq<Keys>, c: C, k2: Seq<Keys>)
    requires
        keys.len() >= 1,
        find_key(ms, keys[0]) < ms.len(),
        k2.len() >= 1,
        k2[0] == keys[0],
    ensures
        get_after_insert(ms, keys, c, k2) == node_get_after(
            ms[find_key(ms, keys[0])],
            keys,
            c,
            k2,
        ),
{
    lemma_find_key(ms, keys[0]);
}

/// Replacing the node the insertion goes through by one that answers as
/// the insertion says, for the sequences through it, gives the insertion.
proof fn lemma_update_frame<C>(ms: Seq<MapNode<C>>, i: int, n2: MapNode<C>, keys: Seq<Keys>, c: C)
    requires
        keys.len() >= 1,
        i == find_key(ms, keys[0]),
        i < ms.len(),
        node_key(n2) == keys[0],
        forall|k2: Seq<Keys>|
            k2.len() >= 1 && k2[0] == keys[0] ==> #[trigger] node_get(n2, k2) == node_get_after(
                ms[i],
                keys,
                c,
                k2,
            ),
    ensures
        forall|k2: Seq<Keys>|
            #[trigger] nodes_get(ms.update(i, n2), k2) == get_after_insert(ms, keys, c, k2),
{
    lemma_find_key(ms, keys[0]);
    lemma_end_depth_bound(ms, keys);
    let u = ms.update(i, n2);
    assert forall|k2: Seq<Keys>| #[trigger] nodes_get(u, k2) == get_after_insert(ms, keys, c, k2) by {
        if k2.len() == 0 {
        } else if k2[0] == keys[0] {
            lemma_find_update(ms, i, n2, k2[0]);
            lemma_lift(ms, keys, c, k2);
            assert(node_get(n2, k2) == node_get_after(ms[i], keys, c, k2));
        } else {
            lemma_find_update(ms, i, n2, k2[0]);
            lemma_find_key(ms, k2[0]);
            let j = find_key(ms, k2[0]);
            if j < ms.len() {
                assert(u[j] == ms[j]);
            }
            if keys_prefix(keys, k2) {
                assert(k2.take(keys.len() as int)[0] == k2[0]);
            }
            match end_depth(ms, keys) {
                Some(d) => {
                    if keys_prefix(keys.take((d + 1) as int), k2) {
                        assert(k2.take((d + 1) as int)[0] == k2[0]);
                        assert(keys.take((d + 1) as int)[0] == keys[0]);
                    }
                },
                None => {},
            }
        }
    }
}

/// Adding a chain for a first key no node has gives the insertion.
proof fn lemma_push_frame<C>(ms: Seq<MapNode<C>>, n: MapNode<C>, keys: Seq<Keys>, c: C)
    requires
        keys.len() >= 1,
        find_key(ms, keys[0]) == ms.len(),
        is_chain(n, keys, 0, c),
    ensures
        forall|k2: Seq<Keys>|
            #[trigger] nodes_get(ms.push(n), k2) == get_after_insert(ms, keys, c, k2),
{
    let p = ms.push(n);
    assert(keys.skip(0) =~= keys);
    assert forall|k2: Seq<Keys>| #[trigger] nodes_get(p, k2) == get_after_insert(ms, keys, c, k2) by {
        if k2.len() == 0 {
        } else {
            lemma_find_push(ms, n, k2[0]);
            lemma_find_key(ms, k2[0]);
            let j = find_key(ms, k2[0]);
            if j < ms.len() {
                assert(p[j] == ms[j]);
                assert(k2[0] != keys[0]);
                if keys_prefix(keys, k2) {
                    assert(k2.take(keys.len() as int)[0] == k2[0]);
                }
            } else if k2[0] == keys[0] {
                assert(p[ms.len() as int] == n);
                lemma_chain_get(n, keys, 0, c, k2);
            } else {
                if keys_prefix(keys, k2) {
                    assert(k2.take(keys.len() as int)[0] == k2[0]);
                }
            }
        }
    }
}

/// Binding below a node that leads on: the node answers as the insertion
/// says.
proof fn lemma_case_descend<C>(n: MapNode<C>, n2: MapNode<C>, keys: Seq<Keys>, c: C)
    requires
        keys.len() >= 2,
        node_key(n) == keys[0],
        match (n, n2) {
            (MapNode::Prefix(k, m), MapNode::Prefix(k_, m2)) => k == k_ && forall|r: Seq<Keys>|
                #[trigger] nodes_get(m2.mappings@, r) == get_after_insert(
                    m.mappings@,
                    keys.drop_first(),
                    c,
                    r,
                ),
            (MapNode::Middle(k, m, x), MapNode::Middle(k_, m2, x_)) => k == k_ && x == x_ && forall|
                r: Seq<Keys>,
            |
                #[trigger] nodes_get(m2.mappings@, r) == get_after_insert(
                    m.mappings@,
                    keys.drop_first(),
                    c,
                    r,
                ),
            _ => false,
        },
    ensures
        forall|k2: Seq<Keys>|
            k2.len() >= 1 && k2[0] == keys[0] ==> #[trigger] node_get(n2, k2) == node_get_after(
                n,
                keys,
                c,
                k2,
            ),
{
    let kr = keys.drop_first();
    match n {
        MapNode::Prefix(_, m) => lemma_end_depth_bound(m.mappings@, kr),
        MapNode::Middle(_, m, _) => lemma_end_depth_bound(m.mappings@, kr),
        _ => {},
    }
    assert forall|k2: Seq<Keys>| k2.len() >= 1 && k2[0] == keys[0] implies #[trigger] node_get(
        n2,
        k2,
    ) == node_get_after(n, keys, c, k2) by {
        let k2r = k2.drop_first();
        lemma_prefix_cons(keys, k2);
        match (n, n2) {
            (MapNode::Prefix(_, m), MapNode::Prefix(_, m2)) => {
                assert(nodes_get(m2.mappings@, k2r) == get_after_insert(m.mappings@, kr, c, k2r));
                match end_depth(m.mappings@, kr) {
                    Some(d) => {
                        if k2.len() >= 1 {
                            assert(keys.take((d + 2) as int).drop_first() =~= kr.take((d + 1) as int));
                            lemma_prefix_cons(keys.take((d + 2) as int), k2);
                        }
                    },
                    None => {},
                }
            },
            (MapNode::Middle(_, m, x), MapNode::Middle(_, m2, _)) => {
                if k2.len() == 1 {
                    if keys_prefix(keys, k2) {
                    }
                    match end_depth(m.mappings@, kr) {
                        Some(d) => {},
                        None => {},
                    }
                } else {
                    assert(nodes_get(m2.mappings@, k2r) == get_after_insert(m.mappings@, kr, c, k2r));
                    match end_depth(m.mappings@, kr) {
                        Some(d) => {
                            assert(keys.take((d + 2) as int).drop_first() =~= kr.take((d + 1) as int));
                            lemma_prefix_cons(keys.take((d + 2) as int), k2);
                        },
                        None => {},
                    }
                }
            },
            _ => {},
        }
    }
}

/// Turning a node that only binds into one that binds and leads on to the
/// rest of the keys: the node answers as the insertion says.
proof fn lemma_case_split<C>(k: Keys, x: C, m2: KeyMap<C>, keys: Seq<Keys>, c: C)
    requires
        keys.len() >= 2,
        k == keys[0],
        forall|r: Seq<Keys>|
            #[trigger] nodes_get(m2.mappings@, r) == get_after_insert(
                Seq::<MapNode<C>>::empty(),
                keys.drop_first(),
                c,
                r,
            ),
    ensures
        forall|k2: Seq<Keys>|
            k2.len() >= 1 && k2[0] == keys[0] ==> #[trigger] node_get(
                MapNode::Middle(k, m2, x),
                k2,
            ) == node_get_after(MapNode::End(k, x), keys, c, k2),
{
    let kr = keys.drop_first();
    let e = Seq::<MapNode<C>>::empty();
    assert forall|k2: Seq<Keys>| k2.len() >= 1 && k2[0] == keys[0] implies #[trigger] node_get(
        MapNode::Middle(k, m2, x),
        k2,
    ) == node_get_after(MapNode::End(k, x), keys, c, k2) by {
        lemma_prefix_cons(keys, k2);
        assert(keys.take(1)[0] == k2[0]);
        assert(k2.take(1) =~= keys.take(1));
        if k2.len() > 1 {
            let k2r = k2.drop_first();
            assert(nodes_get(m2.mappings@, k2r) == get_after_insert(e, kr, c, k2r));
            assert(find_key(e, kr[0]) == 0);
        }
    }
}

/// The index of the first node for key `k`.
fn find_node<C>(ms: &Vec<MapNode<C>>, k: &Keys) -> (r: Option<usize>)
    ensures
        match r {
            Some(i) => i == find_key(ms@, *k) && i < ms@.len(),
            None => find_key(ms@, *k) == ms@.len(),
        },
{
    proof {
        lemma_find_key(ms@, *k);
    }
    let n = ms.len();
    let mut j: usize = 0;
    while j < n
        invariant
            n == ms@.len(),
            j <= n,
            forall|t: int| 0 <= t < j ==> node_key(#[trigger] ms@[t]) != *k,
            0 <= find_key(ms@, *k) <= ms@.len(),
            find_key(ms@, *k) < ms@.len() ==> node_key(ms@[find_key(ms@, *k)]) == *k,
            forall|t: int| 0 <= t < find_key(ms@, *k) ==> node_key(#[trigger] ms@[t]) != *k,
        decreases n - j,
    {
        let key = match &ms[j] {
            MapNode::Prefix(key, _) => *key,
            MapNode::Middle(key, _, _) => *key,
            MapNode::End(key, _) => *key,
        };
        if key == *k {
            return Some(j);
        }
        j += 1;
    }
    None
}

/// The command a bound sequence maps to, where the lookup stops.
pub open spec fn same_binding<C>(r: Option<&C>, s: Option<C>) -> bool {
    match r {
        Some(c) => s == Some(*c),
        None => s is None,
    }
}

impl<C> KeyMap<C> {
    /// Whether the keys could still grow into a bound sequence.
    pub fn is_possible_command(&self, keys: &[Keys]) -> (r: bool)
        ensures
            r == nodes_possible(self.nodes(), keys@),
    {
        if keys.len() == 0 {
            return false;
        }
        match find_node(&self.mappings, &keys[0]) {
            None => false,
            Some(i) => {
                let rest = slice_subrange(keys, 1, keys.len());
                proof {
                    assert(rest@ =~= keys@.drop_first());
                }
                match &self.mappings[i] {
                    MapNode::Prefix(_, map) => keys.len() == 1 || map.is_command(rest),
                    MapNode::Middle(_, map, _) => keys.len() == 1 || map.is_command(rest),
                    MapNode::End(_, _) => true,
                }
            },
        }
    }

    /// Whether the keys are bound to a command.
    pub fn is_command(&self, keys: &[Keys]) -> (r: bool)
        ensures
            r == (self.get_spec(keys@) is Some),
        decreases nodes_size(self.nodes()),
    {
        if keys.len() == 0 {
            return false;
        }
        match find_node(&self.mappings, &keys[0]) {
            None => false,
            Some(i) => {
                proof {
                    lemma_node_size_le(self.mappings@, i as int);
                }
                let rest = slice_subrange(keys, 1, keys.len());
                proof {
                    assert(rest@ =~= keys@.drop_first());
                }
                match &self.mappings[i] {
                    MapNode::Prefix(_, map) => map.is_command(rest),
                    MapNode::Middle(_, map, _) => if keys.len() == 1 {
                        true
                    } else {
                        map.is_command(rest)
                    },
                    MapNode::End(_, _) => true,
                }
            },
        }
    }

    /// The command the keys are bound to.
    pub fn get(&self, key: &[Keys]) -> (r: Option<&C>)
        ensures
            same_binding(r, self.get_spec(key@)),
        decreases nodes_size(self.nodes()),
    {
        if key.len() == 0 {
            return None;
        }
        match find_node(&self.mappings, &key[0]) {
            None => None,
            Some(i) => {
                proof {
                    lemma_node_size_le(self.mappings@, i as int);
                }
                let rest = slice_subrange(key, 1, key.len());
                proof {
                    assert(rest@ =~= key@.drop_first());
                }
                match &self.mappings[i] {
                    MapNode::Prefix(_, map) => map.get(rest),
                    MapNode::Middle(_, map, cmd) => if key.len() == 1 {
                        Some(cmd)
                    } else {
                        map.get(rest)
                    },
                    MapNode::End(_, command) => Some(command),
                }
            },
        }
    }

    /// Binds `keys` to `command`: through the nodes for its keys that
    /// exist, turning a node that only binds on the way into one that leads
    /// on, and adding a chain of nodes for the keys past those.
    pub fn insert(&mut self, keys: &[Keys], command: C)
        ensures
            keys@.len() == 0 ==> final(self).nodes() == old(self).nodes(),
            keys@.len() > 0 ==> forall|k2: Seq<Keys>|
                #[trigger] final(self).get_spec(k2) == get_after_insert(
                    old(self).nodes(),
                    keys@,
                    command,
                    k2,
                ),
            keys@.len() > 0 && find_key(old(self).nodes(), keys@[0]) == old(self).nodes().len()
                ==> appended(old(self).nodes(), final(self).nodes(), keys@[0]),
        decreases nodes_size(old(self).nodes()),
    {
        if keys.len() == 0 {
            return;
        }
        let ghost ms = self.mappings@;
        match find_node(&self.mappings, &keys[0]) {
            Some(i) => {
                let node = self.mappings.remove(i);
                proof {
                    lemma_node_size_le(ms, i as int);
                    lemma_node_size_pos(node);
                    lemma_find_key(ms, keys@[0]);
                    assert(node == ms[i as int]);
                }
                let rest = slice_subrange(keys, 1, keys.len());
                proof {
                    assert(rest@ =~= keys@.drop_first());
                }
                let ghost c = command;
                let new_node = match node {
                    MapNode::Prefix(k, mut map) => {
                        let ghost m0 = map;
                        map.insert(rest, command);
                        proof {
                            if keys@.len() >= 2 {
                                assert forall|r: Seq<Keys>| #[trigger] nodes_get(map.mappings@, r) == get_after_insert(m0.mappings@, keys@.drop_first(), c, r) by {
                                    assert(map.get_spec(r) == get_after_insert(m0.nodes(), rest@, c, r));
                                }
                                lemma_case_descend(MapNode::Prefix(k, m0), MapNode::Prefix(k, map), keys@, c);
                            } else {
                                assert(map.mappings@ == m0.mappings@);
                                assert forall|k2: Seq<Keys>| k2.len() >= 1 && k2[0] == keys@[0] implies #[trigger] node_get(MapNode::Prefix(k, map), k2) == node_get_after(MapNode::Prefix(k, m0), keys@, c, k2) by {
                                }
                            }
                        }
                        MapNode::Prefix(k, map)
                    },
                    MapNode::Middle(k, mut map, cmd) => {
                        let ghost m0 = map;
                        map.insert(rest, command);
                        proof {
                            if keys@.len() >= 2 {
                                assert forall|r: Seq<Keys>| #[trigger] nodes_get(map.mappings@, r) == get_after_insert(m0.mappings@, keys@.drop_first(), c, r) by {
                                    assert(map.get_spec(r) == get_after_insert(m0.nodes(), rest@, c, r));
                                }
                                lemma_case_descend(MapNode::Middle(k, m0, cmd), MapNode::Middle(k, map, cmd), keys@, c);
                            } else {
                                assert(map.mappings@ == m0.mappings@);
                                assert forall|k2: Seq<Keys>| k2.len() >= 1 && k2[0] == keys@[0] implies #[trigger] node_get(MapNode::Middle(k, map, cmd), k2) == node_get_after(MapNode::Middle(k, m0, cmd), keys@, c, k2) by {
                                }
                            }
                        }
                        MapNode::Middle(k, map, cmd)
                    },
                    MapNode::End(k, cmd) => {
                        if keys.len() == 1 {
                            proof {
                                assert forall|k2: Seq<Keys>| k2.len() >= 1 && k2[0] == keys@[0] implies #[trigger] node_get(MapNode::End(k, c), k2) == node_get_after(MapNode::End(k, cmd), keys@, c, k2) by {
                                    assert(k2.take(1) =~= keys@);
                                }
                            }
                            MapNode::End(k, command)
                        } else {
                            let mut map: KeyMap<C> = KeyMap::new();
                            proof {
                                assert(map.mappings@ =~= Seq::<MapNode<C>>::empty());
                            }
                            let ghost m0 = map;
                            map.insert(rest, command);
                            proof {
                                assert forall|r: Seq<Keys>| #[trigger] nodes_get(map.mappings@, r) == get_after_insert(Seq::<MapNode<C>>::empty(), keys@.drop_first(), c, r) by {
                                    assert(map.get_spec(r) == get_after_insert(m0.nodes(), rest@, c, r));
                                }
                                lemma_case_split(k, cmd, map, keys@, c);
                            }
                            MapNode::Middle(k, map, cmd)
                        }
                    },
                };
                let ghost n2 = new_node;
                self.mappings.insert(i, new_node);
                proof {
                    assert(self.mappings@ =~= ms.update(i as int, n2));
                    lemma_update_frame(ms, i as int, n2, keys@, c);
                }
            },
            None => {
                self.insert_new(keys, command);
            },
        }
    }

    /// Adds a chain of nodes for `keys`, binding `command` at the last key.
    fn insert_new(&mut self, keys: &[Keys], command: C)
        requires
            keys@.len() > 0,
            find_key(old(self).mappings@, keys@[0]) == old(self).mappings@.len(),
        ensures
            appended(old(self).nodes(), final(self).nodes(), keys@[0]),
            forall|k2: Seq<Keys>|
                #[trigger] final(self).get_spec(k2) == get_after_insert(
                    old(self).nodes(),
                    keys@,
                    command,
                    k2,
                ),
    {
        let n = keys.len();
        let ghost c = command;
        let mut j = n - 1;
        let mut node = MapNode::End(keys[j], command);
        while j > 0
            invariant
                n == keys@.len(),
                j < n,
                is_chain(node, keys@, j as int, c),
            decreases j,
        {
            j -= 1;
            let map = KeyMap::new_mapping(node);
            node = MapNode::Prefix(keys[j], map);
        }
        let ghost ms = self.mappings@;
        let ghost last = node;
        self.mappings.push(node);
        proof {
            lemma_push_frame(ms, last, keys@, c);
            assert(self.mappings@.take(ms.len() as int) =~= ms);
        }
    }
}

/// The key mappings of the three modes.
#[derive(Debug)]
pub struct Mapper {
    nmaps: KeyMap<CmdRc>,
    imaps: KeyMap<CmdRc>,
    cmaps: KeyMap<CmdRc>,
}

/// The key sequence a key string stands for.
pub open spec fn keys_of(s: Seq<char>) -> Seq<Keys> {
    group_keys(keys_of_string(s, 0))
}

/// How many commands a command string resolves to: a key bound alone
/// counts, and is used; else the keys gathered since the last count count
/// when they are bound, and the key is dropped; else the key is gathered.
pub closed spec fn from_str_count(ms: Seq<MapNode<CmdRc>>, ks: Seq<Keys>, combo: Seq<Keys>) -> nat
    decreases ks.len(),
{
    if ks.len() == 0 {
        0
    } else if nodes_get(ms, seq![ks[0]]) is Some {
        1 + from_str_count(ms, ks.drop_first(), combo)
    } else if nodes_get(ms, combo) is Some {
        1 + from_str_count(ms, ks.drop_first(), Seq::empty())
    } else {
        from_str_count(ms, ks.drop_first(), combo.push(ks[0]))
    }
}

impl Mapper {
    /// The nodes of a mode's key map.
    pub closed spec fn map_of(self, mode: Mode) -> Seq<MapNode<CmdRc>> {
        match mode {
            Mode::Normal => self.nmaps.mappings@,
            Mode::Insert => self.imaps.mappings@,
            Mode::Command => self.cmaps.mappings@,
        }
    }

    /// The command `keys` is bound to in `mode`.
    pub closed spec fn binding(self, mode: Mode, keys: Seq<Keys>) -> Option<CmdRc> {
        nodes_get(self.map_of(mode), keys)
    }

    /// Whether `keys` could still grow into a bound sequence in `mode`.
    pub closed spec fn possible(self, mode: Mode, keys: Seq<Keys>) -> bool {
        nodes_possible(self.map_of(mode), keys)
    }

    /// What binding `keys` to `c` in `mode` makes of the bindings of
    /// `before`: the insertion in that mode, and nothing else changed.
    pub closed spec fn bound_after(self, before: Mapper, mode: Mode, keys: Seq<Keys>, c: CmdRc) -> bool {
        &&& forall|m: Mode| m != mode ==> #[trigger] self.map_of(m) == before.map_of(m)
        &&& keys.len() == 0 ==> self.map_of(mode) == before.map_of(mode)
        &&& keys.len() > 0 ==> forall|k2: Seq<Keys>|
            #[trigger] self.binding(mode, k2) == get_after_insert(before.map_of(mode), keys, c, k2)
    }

    /// Mappings with nothing bound.
    pub fn new() -> (m: Mapper)
        ensures
            forall|mode: Mode, k: Seq<Keys>| m.binding(mode, k) is None,
            forall|mode: Mode| #[trigger] m.map_of(mode) == Seq::<MapNode<CmdRc>>::empty(),
    {
        let m = Mapper { nmaps: KeyMap::new(), imaps: KeyMap::new(), cmaps: KeyMap::new() };
        proof {
            assert forall|mode: Mode| #[trigger] m.map_of(mode) == Seq::<MapNode<CmdRc>>::empty() by {
                assert(m.nmaps.nodes() =~= Seq::<MapNode<CmdRc>>::empty());
            }
            assert forall|mode: Mode, k: Seq<Keys>| m.binding(mode, k) is None by {
                assert(m.map_of(mode) == Seq::<MapNode<CmdRc>>::empty());
                if k.len() > 0 {
                    assert(find_key(Seq::<MapNode<CmdRc>>::empty(), k[0]) == 0);
                }
            }
        }
        m
    }

    fn get_map(&self, mode: &Mode) -> (r: &KeyMap<CmdRc>)
        ensures
            r.mappings@ == self.map_of(*mode),
    {
        match mode {
            Mode::Normal => &self.nmaps,
            Mode::Insert => &self.imaps,
            Mode::Command => &self.cmaps,
        }
    }

    /// Whether `keys` is bound in `mode`.
    pub fn is_mapping(&self, mode: &Mode, keys: &[Keys]) -> (r: bool)
        ensures
            r == (self.binding(*mode, keys@) is Some),
    {
        self.get_map(mode).is_command(keys)
    }

    /// Whether `keys` could still grow into a bound sequence in `mode`.
    pub fn is_possible_mapping(&self, mode: &Mode, keys: &[Keys]) -> (r: bool)
        ensures
            r == self.possible(*mode, keys@),
    {
        self.get_map(mode).is_possible_command(keys)
    }

    /// The command `keys` is bound to in `mode`.
    pub fn get_mapping(&self, mode: &Mode, keys: &[Keys]) -> (r: Option<&CmdRc>)
        ensures
            same_binding(r, self.binding(*mode, keys@)),
    {
        self.get_map(mode).get(keys)
    }

    /// Binds `keys` to `c` in `mode`.
    fn insert_keys(&mut self, mode: Mode, keys: &[Keys], c: CmdRc)
        ensures
            final(self).bound_after(*old(self), mode, keys@, c),
            keys@.len() > 0 && find_key(old(self).map_of(mode), keys@[0]) == old(self).map_of(mode).len()
                ==> appended(old(self).map_of(mode), final(self).map_of(mode), keys@[0]),
    {
        let ghost c0 = c;
        match mode {
            Mode::Normal => self.nmaps.insert(keys, c),
            Mode::Insert => self.imaps.insert(keys, c),
            Mode::Command => self.cmaps.insert(keys, c),
        }
        proof {
            assert forall|k2: Seq<Keys>| keys@.len() > 0 implies #[trigger] self.binding(mode, k2) == get_after_insert(old(self).map_of(mode), keys@, c0, k2) by {
                match mode {
                    Mode::Normal => assert(self.nmaps.get_spec(k2) == get_after_insert(old(self).nmaps.nodes(), keys@, c0, k2)),
                    Mode::Insert => assert(self.imaps.get_spec(k2) == get_after_insert(old(self).imaps.nodes(), keys@, c0, k2)),
                    Mode::Command => assert(self.cmaps.get_spec(k2) == get_after_insert(old(self).cmaps.nodes(), keys@, c0, k2)),
                }
            }
        }
    }

    /// These mappings with `keys` bound to `commands` in `mode`.
    pub fn with_mapping(self, mode: Mode, keys: &str, commands: CmdRc) -> (r: Mapper)
        requires
            parse_ok(keys@, 0),
        ensures
            r.bound_after(self, mode, keys_of(keys@), commands),
            keys_of(keys@).len() > 0 && find_key(self.map_of(mode), keys_of(keys@)[0])
                == self.map_of(mode).len() ==> appended(
                self.map_of(mode),
                r.map_of(mode),
                keys_of(keys@)[0],
            ),
    {
        let mut m = self;
        let ks = string_to_keys(keys);
        m.insert_keys(mode, ks.as_slice(), commands);
        m
    }

    /// Binds `keys` in Normal mode to the commands a command string
    /// resolves to, run in order; nothing is bound when it resolves to
    /// none.
    pub fn nmap_from_str(&mut self, keys: &str, command: &str)
        requires
            parse_ok(keys@, 0),
            parse_ok(command@, 0),
        ensures
            from_str_count(old(self).map_of(Mode::Normal), keys_of(command@), Seq::empty()) == 0
                ==> forall|m: Mode| #[trigger] final(self).map_of(m) == old(self).map_of(m),
            from_str_count(old(self).map_of(Mode::Normal), keys_of(command@), Seq::empty()) > 0
                ==> exists|c: CmdRc|
                #![trigger final(self).bound_after(*old(self), Mode::Normal, keys_of(keys@), c)]
                c.command is ExeCommandList && c.command->ExeCommandList_0@.len()
                    == from_str_count(
                    old(self).map_of(Mode::Normal),
                    keys_of(command@),
                    Seq::empty(),
                ) && final(self).bound_after(*old(self), Mode::Normal, keys_of(keys@), c),
    {
        let key_list = string_to_keys(keys);
        let cmd_keys = string_to_keys(command);
        let ghost ms = self.map_of(Mode::Normal);
        let ghost total = from_str_count(ms, cmd_keys@, Seq::empty());
        let mut cmds: Vec<Command> = Vec::new();
        let mut combo: Vec<Keys> = Vec::new();
        let n = cmd_keys.len();
        let mut i: usize = 0;
        proof {
            assert(cmd_keys@.skip(0) =~= cmd_keys@);
            assert(combo@ =~= Seq::<Keys>::empty());
        }
        while i < n
            invariant
                n == cmd_keys@.len(),
                i <= n,
                ms == self.map_of(Mode::Normal),
                forall|m: Mode| #[trigger] self.map_of(m) == old(self).map_of(m),
                cmds@.len() + from_str_count(ms, cmd_keys@.skip(i as int), combo@) == total,
            decreases n - i,
        {
            let key = cmd_keys[i];
            let ghost rest = cmd_keys@.skip(i as int);
            proof {
                assert(rest.drop_first() =~= cmd_keys@.skip(i + 1));
                assert(rest[0] == key);
            }
            let mut one: Vec<Keys> = Vec::new();
            one.push(key);
            proof {
                assert(one@ =~= seq![key]);
            }
            match self.get_mapping(&Mode::Normal, one.as_slice()) {
                Some(cmd) => {
                    cmds.push(cmd.command.duplicate());
                },
                None => {
                    match self.get_mapping(&Mode::Normal, combo.as_slice()) {
                        Some(cmd) => {
                            cmds.push(cmd.command.duplicate());
                            combo.clear();
                            proof {
                                assert(combo@ =~= Seq::<Keys>::empty());
                            }
                        },
                        None => {
                            combo.push(key);
                        },
                    }
                },
            }
            i += 1;
        }
        if cmds.len() == 0 {
            return;
        }
        let ghost len = cmds@.len();
        let c = CmdRc::new(Command::ExeCommandList(cmds));
        let ghost cg = c;
        self.insert_keys(Mode::Normal, key_list.as_slice(), c);
        proof {
            assert(cg.command->ExeCommandList_0@.len() == total);
            assert(self.bound_after(*old(self), Mode::Normal, keys_of(keys@), cg));
        }
    }

    /// Binds `keys` to `command` in Normal mode.
    pub fn nmap(&mut self, keys: &str, command: CmdRc)
        requires
            parse_ok(keys@, 0),
        ensures
            final(self).bound_after(*old(self), Mode::Normal, keys_of(keys@), command),
    {
        let ks = string_to_keys(keys);
        self.insert_keys(Mode::Normal, ks.as_slice(), command);
    }
}

/// The names of named keys, spelled out.
proof fn lemma_key_names()
    ensures
        "c"@ == seq!['c'],
        "a"@ == seq!['a'],
        "ctrl"@ == seq!['c', 't', 'r', 'l'],
        "alt"@ == seq!['a', 'l', 't'],
        "space"@ == seq!['s', 'p', 'a', 'c', 'e'],
        "esc"@ == seq!['e', 's', 'c'],
        "enter"@ == seq!['e', 'n', 't', 'e', 'r'],
        "backspace"@ == seq!['b', 'a', 'c', 'k', 's', 'p', 'a', 'c', 'e'],
        "left"@ == seq!['l', 'e', 'f', 't'],
        "right"@ == seq!['r', 'i', 'g', 'h', 't'],
        "up"@ == seq!['u', 'p'],
        "down"@ == seq!['d', 'o', 'w', 'n'],
        "home"@ == seq!['h', 'o', 'm', 'e'],
        "end"@ == seq!['e', 'n', 'd'],
        "pageup"@ == seq!['p', 'a', 'g', 'e', 'u', 'p'],
        "pagedown"@ == seq!['p', 'a', 'g', 'e', 'd', 'o', 'w', 'n'],
        "tab"@ == seq!['t', 'a', 'b'],
        "backtab"@ == seq!['b', 'a', 'c', 'k', 't', 'a', 'b'],
        "delete"@ == seq!['d', 'e', 'l', 'e', 't', 'e'],
        "insert"@ == seq!['i', 'n', 's', 'e', 'r', 't'],
        "f1"@ == seq!['f', '1'],
        "f2"@ == seq!['f', '2'],
        "f3"@ == seq!['f', '3'],
        "f4"@ == seq!['f', '4'],
        "f5"@ == seq!['f', '5'],
        "f6"@ == seq!['f', '6'],
        "f7"@ == seq!['f', '7'],
        "f8"@ == seq!['f', '8'],
        "f9"@ == seq!['f', '9'],
        "f10"@ == seq!['f', '1', '0'],
        "f11"@ == seq!['f', '1', '1'],
        "f12"@ == seq!['f', '1', '2'],
{
    reveal_strlit("c");
    assert("c"@ =~= seq!['c']);
    reveal_strlit("a");
    assert("a"@ =~= seq!['a']);
    reveal_strlit("ctrl");
    assert("ctrl"@ =~= seq!['c', 't', 'r', 'l']);
    reveal_strlit("alt");
    assert("alt"@ =~= seq!['a', 'l', 't']);
    reveal_strlit("space");
    assert("space"@ =~= seq!['s', 'p', 'a', 'c', 'e']);
    reveal_strlit("esc");
    assert("esc"@ =~= seq!['e', 's', 'c']);
    reveal_strlit("enter");
    assert("enter"@ =~= seq!['e', 'n', 't', 'e', 'r']);
    reveal_strlit("backspace");
    assert("backspace"@ =~= seq!['b', 'a', 'c', 'k', 's', 'p', 'a', 'c', 'e']);
    reveal_strlit("left");
    assert("left"@ =~= seq!['l', 'e', 'f', 't']);
    reveal_strlit("right");
    assert("right"@ =~= seq!['r', 'i', 'g', 'h', 't']);
    reveal_strlit("up");
    assert("up"@ =~= seq!['u', 'p']);
    reveal_strlit("down");
    assert("down"@ =~= seq!['d', 'o', 'w', 'n']);
    reveal_strlit("home");
    assert("home"@ =~= seq!['h', 'o', 'm', 'e']);
    reveal_strlit("end");
    assert("end"@ =~= seq!['e', 'n', 'd']);
    reveal_strlit("pageup");
    assert("pageup"@ =~= seq!['p', 'a', 'g', 'e', 'u', 'p']);
    reveal_strlit("pagedown");
    assert("pagedown"@ =~= seq!['p', 'a', 'g', 'e', 'd', 'o', 'w', 'n']);
    reveal_strlit("tab");
    assert("tab"@ =~= seq!['t', 'a', 'b']);
    reveal_strlit("backtab");
    assert("backtab"@ =~= seq!['b', 'a', 'c', 'k', 't', 'a', 'b']);
    reveal_strlit("delete");
    assert("delete"@ =~= seq!['d', 'e', 'l', 'e', 't', 'e']);
    reveal_strlit("insert");
    assert("insert"@ =~= seq!['i', 'n', 's', 'e', 'r', 't']);
    reveal_strlit("f1");
    assert("f1"@ =~= seq!['f', '1']);
    reveal_strlit("f2");
    assert("f2"@ =~= seq!['f', '2']);
    reveal_strlit("f3");
    assert("f3"@ =~= seq!['f', '3']);
    reveal_strlit("f4");
    assert("f4"@ =~= seq!['f', '4']);
    reveal_strlit("f5");
    assert("f5"@ =~= seq!['f', '5']);
    reveal_strlit("f6");
    assert("f6"@ =~= seq!['f', '6']);
    reveal_strlit("f7");
    assert("f7"@ =~= seq!['f', '7']);
    reveal_strlit("f8");
    assert("f8"@ =~= seq!['f', '8']);
    reveal_strlit("f9");
    assert("f9"@ =~= seq!['f', '9']);
    reveal_strlit("f10");
    assert("f10"@ =~= seq!['f', '1', '0']);
    reveal_strlit("f11");
    assert("f11"@ =~= seq!['f', '1', '1']);
    reveal_strlit("f12");
    assert("f12"@ =~= seq!['f', '1', '2']);
}

/// The key string `<esc>` parses, to its keys.
proof fn lemma_lit_esc()
    ensures
        parse_ok("<esc>"@, 0),
        keys_of("<esc>"@) == seq![Keys::Key(Key::Esc)],
{
    reveal_strlit("<esc>");
    let s = seq!['<', 'e', 's', 'c', '>'];
    assert("<esc>"@ =~= s);
    lemma_key_names();
    let inner = seq!['e', 's', 'c'];
    assert(s.subrange(1, 4) =~= inner);
    reveal_with_fuel(close_of, 6);
    reveal_with_fuel(dash_of, 6);
    assert(close_of(s, 1) == 4);
    assert(dash_of(inner) == 3);
    assert(to_lower_spec(inner) =~= seq!['e', 's', 'c']);
    assert(bracket_keys(inner) =~= seq![Key::Esc]);
    reveal_with_fuel(parse_ok, 2);
    reveal_with_fuel(keys_of_string, 2);
    reveal_with_fuel(group_keys, 3);
    assert(keys_of_string(s, 5) =~= Seq::<Key>::empty());
    assert(keys_of_string(s, 0) =~= seq![Key::Esc]);
    assert(seq![Key::Esc].drop_first() =~= Seq::<Key>::empty());
}

/// The key string `j` parses, to its keys.
proof fn lemma_lit_j()
    ensures
        parse_ok("j"@, 0),
        keys_of("j"@) == seq![Keys::Key(Key::LJ)],
{
    reveal_strlit("j");
    let s = seq!['j'];
    assert("j"@ =~= s);
    reveal_with_fuel(parse_ok, 2);
    reveal_with_fuel(keys_of_string, 2);
    reveal_with_fuel(group_keys, 2);
    assert(keys_of_string(s, 0) =~= seq![Key::LJ]);
    assert(seq![Key::LJ].drop_first() =~= Seq::<Key>::empty());
}

/// The key string `<down>` parses, to its keys.
proof fn lemma_lit_down()
    ensures
        parse_ok("<down>"@, 0),
        keys_of("<down>"@) == seq![Keys::Key(Key::Down)],
{
    reveal_strlit("<down>");
    let s = seq!['<', 'd', 'o', 'w', 'n', '>'];
    assert("<down>"@ =~= s);
    lemma_key_names();
    let inner = seq!['d', 'o', 'w', 'n'];
    assert(s.subrange(1, 5) =~= inner);
    reveal_with_fuel(close_of, 7);
    reveal_with_fuel(dash_of, 7);
    assert(close_of(s, 1) == 5);
    assert(dash_of(inner) == 4);
    assert(to_lower_spec(inner) =~= seq!['d', 'o', 'w', 'n']);
    assert(bracket_keys(inner) =~= seq![Key::Down]);
    reveal_with_fuel(parse_ok, 2);
    reveal_with_fuel(keys_of_string, 2);
    reveal_with_fuel(group_keys, 3);
    assert(keys_of_string(s, 6) =~= Seq::<Key>::empty());
    assert(keys_of_string(s, 0) =~= seq![Key::Down]);
    assert(seq![Key::Down].drop_first() =~= Seq::<Key>::empty());
}

/// The key string `k` parses, to its keys.
proof fn lemma_lit_k()
    ensures
        parse_ok("k"@, 0),
        keys_of("k"@) == seq![Keys::Key(Key::LK)],
{
    reveal_strlit("k");
    let s = seq!['k'];
    assert("k"@ =~= s);
    reveal_with_fuel(parse_ok, 2);
    reveal_with_fuel(keys_of_string, 2);
    reveal_with_fuel(group_keys, 2);
    assert(keys_of_string(s, 0) =~= seq![Key::LK]);
    assert(seq![Key::LK].drop_first() =~= Seq::<Key>::empty());
}

/// The key string `<up>` parses, to its key.
proof fn lemma_lit_up()
    ensures
        parse_ok("<up>"@, 0),
        keys_of("<up>"@) == seq![Keys::Key(Key::Up)],
{
    reveal_strlit("<up>");
    let s = seq!['<', 'u', 'p', '>'];
    assert("<up>"@ =~= s);
    lemma_key_names();
    let inner = seq!['u', 'p'];
    assert(s.subrange(1, 3) =~= inner);
    reveal_with_fuel(close_of, 5);
    reveal_with_fuel(dash_of, 5);
    assert(close_of(s, 1) == 3);
    assert(dash_of(inner) == 2);
    assert(to_lower_spec(inner) =~= seq!['u', 'p']);
    assert(bracket_keys(inner) =~= seq![Key::Up]);
    reveal_with_fuel(parse_ok, 2);
    reveal_with_fuel(keys_of_string, 2);
    reveal_with_fuel(group_keys, 3);
    assert(keys_of_string(s, 4) =~= Seq::<Key>::empty());
    assert(keys_of_string(s, 0) =~= seq![Key::Up]);
    assert(seq![Key::Up].drop_first() =~= Seq::<Key>::empty());
}

/// The key string `h` parses, to its keys.
proof fn lemma_lit_h()
    ensures
        parse_ok("h"@, 0),
        keys_of("h"@) == seq![Keys::Key(Key::LH)],
{
    reveal_strlit("h");
    let s = seq!['h'];
    assert("h"@ =~= s);
    reveal_with_fuel(parse_ok, 2);
    reveal_with_fuel(keys_of_string, 2);
    reveal_with_fuel(group_keys, 2);
    assert(keys_of_string(s, 0) =~= seq![Key::LH]);
    assert(seq![Key::LH].drop_first() =~= Seq::<Key>::empty());
}

/// The key string `<left>` parses, to its keys.
proof fn lemma_lit_left()
    ensures
        parse_ok("<left>"@, 0),
        keys_of("<left>"@) == seq![Keys::Key(Key::Left)],
{
    reveal_strlit("<left>");
    let s = seq!['<', 'l', 'e', 'f', 't', '>'];
    assert("<left>"@ =~= s);
    lemma_key_names();
    let inner = seq!['l', 'e', 'f', 't'];
    assert(s.subrange(1, 5) =~= inner);
    reveal_with_fuel(close_of, 7);
    reveal_with_fuel(dash_of, 7);
    assert(close_of(s, 1) == 5);
    assert(dash_of(inner) == 4);
    assert(to_lower_spec(inner) =~= seq!['l', 'e', 'f', 't']);
    assert(bracket_keys(inner) =~= seq![Key::Left]);
    reveal_with_fuel(parse_ok, 2);
    reveal_with_fuel(keys_of_string, 2);
    reveal_with_fuel(group_keys, 3);
    assert(keys_of_string(s, 6) =~= Seq::<Key>::empty());
    assert(keys_of_string(s, 0) =~= seq![Key::Left]);
    assert(seq![Key::Left].drop_first() =~= Seq::<Key>::empty());
}

/// The key string `l` parses, to its keys.
proof fn lemma_lit_l()
    ensures
        parse_ok("l"@, 0),
        keys_of("l"@) == seq![Keys::Key(Key::LL)],
{
    reveal_strlit("l");
    let s = seq!['l'];
    assert("l"@ =~= s);
    reveal_with_fuel(parse_ok, 2);
    reveal_with_fuel(keys_of_string, 2);
    reveal_with_fuel(group_keys, 2);
    assert(keys_of_string(s, 0) =~= seq![Key::LL]);
    assert(seq![Key::LL].drop_first() =~= Seq::<Key>::empty());
}

/// The key string `<right>` parses, to its keys.
proof fn lemma_lit_right()
    ensures
        parse_ok("<right>"@, 0),
        keys_of("<right>"@) == seq![Keys::Key(Key::Right)],
{
    reveal_strlit("<right>");
    let s = seq!['<', 'r', 'i', 'g', 'h', 't', '>'];
    assert("<right>"@ =~= s);
    lemma_key_names();
    let inner = seq!['r', 'i', 'g', 'h', 't'];
    assert(s.subrange(1, 6) =~= inner);
    reveal_with_fuel(close_of, 8);
    reveal_with_fuel(dash_of, 8);
    assert(close_of(s, 1) == 6);
    assert(dash_of(inner) == 5);
    assert(to_lower_spec(inner) =~= seq!['r', 'i', 'g', 'h', 't']);
    assert(bracket_keys(inner) =~= seq![Key::Right]);
    reveal_with_fuel(parse_ok, 2);
    reveal_with_fuel(keys_of_string, 2);
    reveal_with_fuel(group_keys, 3);
    assert(keys_of_string(s, 7) =~= Seq::<Key>::empty());
    assert(keys_of_string(s, 0) =~= seq![Key::Right]);
    assert(seq![Key::Right].drop_first() =~= Seq::<Key>::empty());
}

/// The key string `:` parses, to its keys.
proof fn lemma_lit_colon()
    ensures
        parse_ok(":"@, 0),
        keys_of(":"@) == seq![Keys::Key(Key::Colon)],
{
    reveal_strlit(":");
    let s = seq![':'];
    assert(":"@ =~= s);
    reveal_with_fuel(parse_ok, 2);
    reveal_with_fuel(keys_of_string, 2);
    reveal_with_fuel(group_keys, 2);
    assert(keys_of_string(s, 0) =~= seq![Key::Colon]);
    assert(seq![Key::Colon].drop_first() =~= Seq::<Key>::empty());
}

/// The key string `i` parses, to its keys.
proof fn lemma_lit_i()
    ensures
        parse_ok("i"@, 0),
        keys_of("i"@) == seq![Keys::Key(Key::LI)],
{
    reveal_strlit("i");
    let s = seq!['i'];
    assert("i"@ =~= s);
    reveal_with_fuel(parse_ok, 2);
    reveal_with_fuel(keys_of_string, 2);
    reveal_with_fuel(group_keys, 2);
    assert(keys_of_string(s, 0) =~= seq![Key::LI]);
    assert(seq![Key::LI].drop_first() =~= Seq::<Key>::empty());
}

/// The key string `x` parses, to its keys.
proof fn lemma_lit_x()
    ensures
        parse_ok("x"@, 0),
        keys_of("x"@) == seq![Keys::Key(Key::LX)],
{
    reveal_strlit("x");
    let s = seq!['x'];
    assert("x"@ =~= s);
    reveal_with_fuel(parse_ok, 2);
    reveal_with_fuel(keys_of_string, 2);
    reveal_with_fuel(group_keys, 2);
    assert(keys_of_string(s, 0) =~= seq![Key::LX]);
    assert(seq![Key::LX].drop_first() =~= Seq::<Key>::empty());
}

/// The key string `<delete>` parses, to its keys.
proof fn lemma_lit_delete()
    ensures
        parse_ok("<delete>"@, 0),
        keys_of("<delete>"@) == seq![Keys::Key(Key::Delete)],
{
    reveal_strlit("<delete>");
    let s = seq!['<', 'd', 'e', 'l', 'e', 't', 'e', '>'];
    assert("<delete>"@ =~= s);
    lemma_key_names();
    let inner = seq!['d', 'e', 'l', 'e', 't', 'e'];
    assert(s.subrange(1, 7) =~= inner);
    reveal_with_fuel(close_of, 9);
    reveal_with_fuel(dash_of, 9);
    assert(close_of(s, 1) == 7);
    assert(dash_of(inner) == 6);
    assert(to_lower_spec(inner) =~= seq!['d', 'e', 'l', 'e', 't', 'e']);
    assert(bracket_keys(inner) =~= seq![Key::Delete]);
    reveal_with_fuel(parse_ok, 2);
    reveal_with_fuel(keys_of_string, 2);
    reveal_with_fuel(group_keys, 3);
    assert(keys_of_string(s, 8) =~= Seq::<Key>::empty());
    assert(keys_of_string(s, 0) =~= seq![Key::Delete]);
    assert(seq![Key::Delete].drop_first() =~= Seq::<Key>::empty());
}

/// The key string `dd` parses, to its keys.
proof fn lemma_lit_dd()
    ensures
        parse_ok("dd"@, 0),
        keys_of("dd"@) == seq![Keys::Key(Key::LD), Keys::Key(Key::LD)],
{
    reveal_strlit("dd");
    let s = seq!['d', 'd'];
    assert("dd"@ =~= s);
    reveal_with_fuel(parse_ok, 3);
    reveal_with_fuel(keys_of_string, 3);
    reveal_with_fuel(group_keys, 3);
    assert(keys_of_string(s, 0) =~= seq![Key::LD, Key::LD]);
    assert(seq![Key::LD, Key::LD].drop_first() =~= seq![Key::LD]);
    assert(seq![Key::LD].drop_first() =~= Seq::<Key>::empty());
}

/// The key string `<backspace>` parses, to its keys.
proof fn lemma_lit_backspace()
    ensures
        parse_ok("<backspace>"@, 0),
        keys_of("<backspace>"@) == seq![Keys::Key(Key::Backspace)],
{
    reveal_strlit("<backspace>");
    let s = seq!['<', 'b', 'a', 'c', 'k', 's', 'p', 'a', 'c', 'e', '>'];
    assert("<backspace>"@ =~= s);
    lemma_key_names();
    let inner = seq!['b', 'a', 'c', 'k', 's', 'p', 'a', 'c', 'e'];
    assert(s.subrange(1, 10) =~= inner);
    reveal_with_fuel(close_of, 12);
    reveal_with_fuel(dash_of, 12);
    assert(close_of(s, 1) == 10);
    assert(dash_of(inner) == 9);
    assert(to_lower_spec(inner) =~= seq!['b', 'a', 'c', 'k', 's', 'p', 'a', 'c', 'e']);
    assert(bracket_keys(inner) =~= seq![Key::Backspace]);
    reveal_with_fuel(parse_ok, 2);
    reveal_with_fuel(keys_of_string, 2);
    reveal_with_fuel(group_keys, 3);
    assert(keys_of_string(s, 11) =~= Seq::<Key>::empty());
    assert(keys_of_string(s, 0) =~= seq![Key::Backspace]);
    assert(seq![Key::Backspace].drop_first() =~= Seq::<Key>::empty());
}

/// The key string `<enter>` parses, to its keys.
proof fn lemma_lit_enter()
    ensures
        parse_ok("<enter>"@, 0),
        keys_of("<enter>"@) == seq![Keys::Key(Key::Enter)],
{
    reveal_strlit("<enter>");
    let s = seq!['<', 'e', 'n', 't', 'e', 'r', '>'];
    assert("<enter>"@ =~= s);
    lemma_key_names();
    let inner = seq!['e', 'n', 't', 'e', 'r'];
    assert(s.subrange(1, 6) =~= inner);
    reveal_with_fuel(close_of, 8);
    reveal_with_fuel(dash_of, 8);
    assert(close_of(s, 1) == 6);
    assert(dash_of(inner) == 5);
    assert(to_lower_spec(inner) =~= seq!['e', 'n', 't', 'e', 'r']);
    assert(bracket_keys(inner) =~= seq![Key::Enter]);
    reveal_with_fuel(parse_ok, 2);
    reveal_with_fuel(keys_of_string, 2);
    reveal_with_fuel(group_keys, 3);
    assert(keys_of_string(s, 7) =~= Seq::<Key>::empty());
    assert(keys_of_string(s, 0) =~= seq![Key::Enter]);
    assert(seq![Key::Enter].drop_first() =~= Seq::<Key>::empty());
}

/// The key string `<c-h>` parses, to its keys.
proof fn lemma_lit_c_h()
    ensures
        parse_ok("<c-h>"@, 0),
        keys_of("<c-h>"@) == seq![Keys::KeyAndMod { key: Key::LH, modk: Key::Ctrl }],
{
    reveal_strlit("<c-h>");
    let s = seq!['<', 'c', '-', 'h', '>'];
    assert("<c-h>"@ =~= s);
    lemma_key_names();
    let inner = seq!['c', '-', 'h'];
    assert(s.subrange(1, 4) =~= inner);
    reveal_with_fuel(close_of, 6);
    reveal_with_fuel(dash_of, 6);
    assert(close_of(s, 1) == 4);
    assert(dash_of(inner) == 1);
    assert(inner.take(1) =~= seq!['c']);
    assert(to_lower_spec(seq!['c']) =~= seq!['c']);
    assert(modifier_name(seq!['c']) =~= seq!['c', 't', 'r', 'l']);
    assert(to_lower_spec(seq!['c', 't', 'r', 'l']) =~= seq!['c', 't', 'r', 'l']);
    assert(bracket_keys(inner) =~= seq![Key::Ctrl, Key::LH]);
    reveal_with_fuel(parse_ok, 2);
    reveal_with_fuel(keys_of_string, 2);
    reveal_with_fuel(group_keys, 3);
    assert(keys_of_string(s, 5) =~= Seq::<Key>::empty());
    assert(keys_of_string(s, 0) =~= seq![Key::Ctrl, Key::LH]);
    assert(seq![Key::Ctrl, Key::LH].skip(2) =~= Seq::<Key>::empty());
}

/// The key string `<home>` parses, to its keys.
proof fn lemma_lit_home()
    ensures
        parse_ok("<home>"@, 0),
        keys_of("<home>"@) == seq![Keys::Key(Key::Home)],
{
    reveal_strlit("<home>");
    let s = seq!['<', 'h', 'o', 'm', 'e', '>'];
    assert("<home>"@ =~= s);
    lemma_key_names();
    let inner = seq!['h', 'o', 'm', 'e'];
    assert(s.subrange(1, 5) =~= inner);
    reveal_with_fuel(close_of, 7);
    reveal_with_fuel(dash_of, 7);
    assert(close_of(s, 1) == 5);
    assert(dash_of(inner) == 4);
    assert(to_lower_spec(inner) =~= seq!['h', 'o', 'm', 'e']);
    assert(bracket_keys(inner) =~= seq![Key::Home]);
    reveal_with_fuel(parse_ok, 2);
    reveal_with_fuel(keys_of_string, 2);
    reveal_with_fuel(group_keys, 3);
    assert(keys_of_string(s, 6) =~= Seq::<Key>::empty());
    assert(keys_of_string(s, 0) =~= seq![Key::Home]);
    assert(seq![Key::Home].drop_first() =~= Seq::<Key>::empty());
}

/// The key string `0` parses, to its keys.
proof fn lemma_lit_zero()
    ensures
        parse_ok("0"@, 0),
        keys_of("0"@) == seq![Keys::Key(Key::N0)],
{
    reveal_strlit("0");
    let s = seq!['0'];
    assert("0"@ =~= s);
    reveal_with_fuel(parse_ok, 2);
    reveal_with_fuel(keys_of_string, 2);
    reveal_with_fuel(group_keys, 2);
    assert(keys_of_string(s, 0) =~= seq![Key::N0]);
    assert(seq![Key::N0].drop_first() =~= Seq::<Key>::empty());
}

/// The key string `gg` parses, to its keys.
proof fn lemma_lit_gg()
    ensures
        parse_ok("gg"@, 0),
        keys_of("gg"@) == seq![Keys::Key(Key::LG), Keys::Key(Key::LG)],
{
    reveal_strlit("gg");
    let s = seq!['g', 'g'];
    assert("gg"@ =~= s);
    reveal_with_fuel(parse_ok, 3);
    reveal_with_fuel(keys_of_string, 3);
    reveal_with_fuel(group_keys, 3);
    assert(keys_of_string(s, 0) =~= seq![Key::LG, Key::LG]);
    assert(seq![Key::LG, Key::LG].drop_first() =~= seq![Key::LG]);
    assert(seq![Key::LG].drop_first() =~= Seq::<Key>::empty());
}

/// The key string `ZQ` parses, to its keys.
proof fn lemma_lit_zq()
    ensures
        parse_ok("ZQ"@, 0),
        keys_of("ZQ"@) == seq![Keys::Key(Key::UZ), Keys::Key(Key::UQ)],
{
    reveal_strlit("ZQ");
    let s = seq!['Z', 'Q'];
    assert("ZQ"@ =~= s);
    reveal_with_fuel(parse_ok, 3);
    reveal_with_fuel(keys_of_string, 3);
    reveal_with_fuel(group_keys, 3);
    assert(keys_of_string(s, 0) =~= seq![Key::UZ, Key::UQ]);
    assert(seq![Key::UZ, Key::UQ].drop_first() =~= seq![Key::UQ]);
    assert(seq![Key::UQ].drop_first() =~= Seq::<Key>::empty());
}

/// The key string `<c-u>` parses, to its keys.
proof fn lemma_lit_c_u()
    ensures
        parse_ok("<c-u>"@, 0),
        keys_of("<c-u>"@) == seq![Keys::KeyAndMod { key: Key::LU, modk: Key::Ctrl }],
{
    reveal_strlit("<c-u>");
    let s = seq!['<', 'c', '-', 'u', '>'];
    assert("<c-u>"@ =~= s);
    lemma_key_names();
    let inner = seq!['c', '-', 'u'];
    assert(s.subrange(1, 4) =~= inner);
    reveal_with_fuel(close_of, 6);
    reveal_with_fuel(dash_of, 6);
    assert(close_of(s, 1) == 4);
    assert(dash_of(inner) == 1);
    assert(inner.take(1) =~= seq!['c']);
    assert(to_lower_spec(seq!['c']) =~= seq!['c']);
    assert(modifier_name(seq!['c']) =~= seq!['c', 't', 'r', 'l']);
    assert(to_lower_spec(seq!['c', 't', 'r', 'l']) =~= seq!['c', 't', 'r', 'l']);
    assert(bracket_keys(inner) =~= seq![Key::Ctrl, Key::LU]);
    reveal_with_fuel(parse_ok, 2);
    reveal_with_fuel(keys_of_string, 2);
    reveal_with_fuel(group_keys, 3);
    assert(keys_of_string(s, 5) =~= Seq::<Key>::empty());
    assert(keys_of_string(s, 0) =~= seq![Key::Ctrl, Key::LU]);
    assert(seq![Key::Ctrl, Key::LU].skip(2) =~= Seq::<Key>::empty());
}




/// The key string `G` parses, to its keys.
proof fn lemma_lit_ug()
    ensures
        parse_ok("G"@, 0),
        keys_of("G"@) == seq![Keys::Key(Key::UG)],
{
    reveal_strlit("G");
    let s = seq!['G'];
    assert("G"@ =~= s);
    reveal_with_fuel(parse_ok, 2);
    reveal_with_fuel(keys_of_string, 2);
    reveal_with_fuel(group_keys, 2);
    assert(keys_of_string(s, 0) =~= seq![Key::UG]);
    assert(seq![Key::UG].drop_first() =~= Seq::<Key>::empty());
}

/// The key string `<c-d>` parses, to its keys.
proof fn lemma_lit_c_d()
    ensures
        parse_ok("<c-d>"@, 0),
        keys_of("<c-d>"@) == seq![Keys::KeyAndMod { key: Key::LD, modk: Key::Ctrl }],
{
    reveal_strlit("<c-d>");
    let s = seq!['<', 'c', '-', 'd', '>'];
    assert("<c-d>"@ =~= s);
    lemma_key_names();
    let inner = seq!['c', '-', 'd'];
    assert(s.subrange(1, 4) =~= inner);
    reveal_with_fuel(close_of, 6);
    reveal_with_fuel(dash_of, 6);
    assert(close_of(s, 1) == 4);
    assert(dash_of(inner) == 1);
    assert(inner.take(1) =~= seq!['c']);
    assert(to_lower_spec(seq!['c']) =~= seq!['c']);
    assert(modifier_name(seq!['c']) =~= seq!['c', 't', 'r', 'l']);
    assert(to_lower_spec(seq!['c', 't', 'r', 'l']) =~= seq!['c', 't', 'r', 'l']);
    assert(bracket_keys(inner) =~= seq![Key::Ctrl, Key::LD]);
    reveal_with_fuel(parse_ok, 2);
    reveal_with_fuel(keys_of_string, 2);
    reveal_with_fuel(group_keys, 3);
    assert(keys_of_string(s, 5) =~= Seq::<Key>::empty());
    assert(keys_of_string(s, 0) =~= seq![Key::Ctrl, Key::LD]);
    assert(seq![Key::Ctrl, Key::LD].skip(2) =~= Seq::<Key>::empty());
}

/// The key string `<c-l>` parses, to its keys.
proof fn lemma_lit_c_l()
    ensures
        parse_ok("<c-l>"@, 0),
        keys_of("<c-l>"@) == seq![Keys::KeyAndMod { key: Key::LL, modk: Key::Ctrl }],
{
    reveal_strlit("<c-l>");
    let s = seq!['<', 'c', '-', 'l', '>'];
    assert("<c-l>"@ =~= s);
    lemma_key_names();
    let inner = seq!['c', '-', 'l'];
    assert(s.subrange(1, 4) =~= inner);
    reveal_with_fuel(close_of, 6);
    reveal_with_fuel(dash_of, 6);
    assert(close_of(s, 1) == 4);
    assert(dash_of(inner) == 1);
    assert(inner.take(1) =~= seq!['c']);
    assert(to_lower_spec(seq!['c']) =~= seq!['c']);
    assert(modifier_name(seq!['c']) =~= seq!['c', 't', 'r', 'l']);
    assert(to_lower_spec(seq!['c', 't', 'r', 'l']) =~= seq!['c', 't', 'r', 'l']);
    assert(bracket_keys(inner) =~= seq![Key::Ctrl, Key::LL]);
    reveal_with_fuel(parse_ok, 2);
    reveal_with_fuel(keys_of_string, 2);
    reveal_with_fuel(group_keys, 3);
    assert(keys_of_string(s, 5) =~= Seq::<Key>::empty());
    assert(keys_of_string(s, 0) =~= seq![Key::Ctrl, Key::LL]);
    assert(seq![Key::Ctrl, Key::LL].skip(2) =~= Seq::<Key>::empty());
}

/// The key of each node.
pub open spec fn node_keys<C>(ms: Seq<MapNode<C>>) -> Seq<Keys> {
    ms.map_values(|n: MapNode<C>| node_key(n))
}

/// Binding `keys` leaves the lookup of every sequence with another first
/// key as it was.
pub proof fn lemma_other_first_key<C>(ms: Seq<MapNode<C>>, keys: Seq<Keys>, c: C, k2: Seq<Keys>)
    requires
        keys.len() > 0,
        k2.len() > 0,
        keys[0] != k2[0],
    ensures
        get_after_insert(ms, keys, c, k2) == nodes_get(ms, k2),
{
    lemma_end_depth_bound(ms, keys);
    if keys_prefix(keys, k2) {
        assert(k2.take(keys.len() as int)[0] == k2[0]);
    }
    match end_depth(ms, keys) {
        Some(d) => {
            if keys_prefix(keys.take((d + 1) as int), k2) {
                assert(k2.take((d + 1) as int)[0] == k2[0]);
                assert(keys.take((d + 1) as int)[0] == keys[0]);
            }
        },
        None => {},
    }
}

/// Binding a sequence whose first key no node has: it is bound, the
/// sequences with other first keys keep theirs, and a node is added.
proof fn lemma_fresh_step(before: Mapper, after: Mapper, mode: Mode, keys: Seq<Keys>, c: CmdRc, fk: Seq<Keys>)
    requires
        keys.len() > 0,
        node_keys(before.map_of(mode)) == fk,
        !fk.contains(keys[0]),
        after.bound_after(before, mode, keys, c),
        find_key(before.map_of(mode), keys[0]) == before.map_of(mode).len() ==> appended(
            before.map_of(mode),
            after.map_of(mode),
            keys[0],
        ),
    ensures
        after.binding(mode, keys) == Some(c),
        forall|k2: Seq<Keys>|
            k2.len() > 0 && k2[0] != keys[0] ==> #[trigger] after.binding(mode, k2)
                == before.binding(mode, k2),
        node_keys(after.map_of(mode)) == fk.push(keys[0]),
        forall|m: Mode| m != mode ==> #[trigger] after.map_of(m) == before.map_of(m),
{
    let ms = before.map_of(mode);
    lemma_find_key(ms, keys[0]);
    if find_key(ms, keys[0]) < ms.len() {
        assert(fk[find_key(ms, keys[0])] == keys[0]);
    }
    assert(after.binding(mode, keys) == get_after_insert(ms, keys, c, keys));
    assert(keys.take(keys.len() as int) =~= keys);
    assert forall|k2: Seq<Keys>| k2.len() > 0 && k2[0] != keys[0] implies #[trigger] after.binding(mode, k2) == before.binding(mode, k2) by {
        assert(after.binding(mode, k2) == get_after_insert(ms, keys, c, k2));
        lemma_other_first_key(ms, keys, c, k2);
    }
    let a = after.map_of(mode);
    assert(node_keys(a) =~= fk.push(keys[0])) by {
        assert forall|j: int| 0 <= j < ms.len() implies a[j] == ms[j] by {
            assert(a.take(ms.len() as int)[j] == ms[j]);
        }
    }
}

/// The command the first entry of a table whose first key is the sequence's
/// binds: it, for every sequence that starts with that entry's keys, else
/// nothing; nothing when no entry starts with the sequence's first key.
pub open spec fn table_get(es: Seq<(Seq<Keys>, CmdRc)>, k: Seq<Keys>) -> Option<CmdRc>
    decreases es.len(),
{
    if k.len() == 0 || es.len() == 0 {
        None
    } else if es.last().0[0] == k[0] {
        if keys_prefix(es.last().0, k) {
            Some(es.last().1)
        } else {
            None
        }
    } else {
        table_get(es.drop_last(), k)
    }
}

/// Whether an entry of a table starts with key `x`.
pub open spec fn table_has_first(es: Seq<(Seq<Keys>, CmdRc)>, x: Keys) -> bool
    decreases es.len(),
{
    es.len() > 0 && (es.last().0[0] == x || table_has_first(es.drop_last(), x))
}

/// Whether a sequence can still grow into a bound one under a table: it
/// starts with an entry's first key, and it is that key alone or bound.
pub open spec fn table_possible(es: Seq<(Seq<Keys>, CmdRc)>, k: Seq<Keys>) -> bool {
    k.len() > 0 && table_has_first(es, k[0]) && (k.len() == 1 || table_get(es, k) is Some)
}

/// The built-in bindings of each mode, in the order they are made.
pub open spec fn builtin(mode: Mode) -> Seq<(Seq<Keys>, CmdRc)> {
    match mode {
        Mode::Normal => seq![
            (seq![Keys::Key(Key::Esc)], CmdRc { command: Command::ChangeMode(Mode::Normal) }),
            (seq![Keys::Key(Key::LJ)], CmdRc { command: Command::CursorDown }),
            (seq![Keys::Key(Key::Down)], CmdRc { command: Command::CursorDown }),
            (seq![Keys::Key(Key::LK)], CmdRc { command: Command::CursorUp }),
            (seq![Keys::Key(Key::Up)], CmdRc { command: Command::CursorUp }),
            (seq![Keys::Key(Key::LH)], CmdRc { command: Command::CursorLeft }),
            (seq![Keys::Key(Key::Left)], CmdRc { command: Command::CursorLeft }),
            (seq![Keys::Key(Key::LL)], CmdRc { command: Command::CursorRight }),
            (seq![Keys::Key(Key::Right)], CmdRc { command: Command::CursorRight }),
            (seq![Keys::Key(Key::Colon)], CmdRc { command: Command::ChangeMode(Mode::Command) }),
            (seq![Keys::Key(Key::LI)], CmdRc { command: Command::ChangeMode(Mode::Insert) }),
            (seq![Keys::Key(Key::LX)], CmdRc { command: Command::Delete }),
            (seq![Keys::Key(Key::Delete)], CmdRc { command: Command::Delete }),
            (seq![Keys::Key(Key::LD), Keys::Key(Key::LD)], CmdRc { command: Command::DeleteLine }),
            (seq![Keys::Key(Key::Home)], CmdRc { command: Command::CursorHome }),
            (seq![Keys::Key(Key::N0)], CmdRc { command: Command::CursorHome }),
            (seq![Keys::Key(Key::LG), Keys::Key(Key::LG)], CmdRc { command: Command::CursorTopOfBuffer }),
            (seq![Keys::KeyAndMod { key: Key::LU, modk: Key::Ctrl }], CmdRc { command: Command::ScrollUp }),
            (seq![Keys::KeyAndMod { key: Key::LD, modk: Key::Ctrl }], CmdRc { command: Command::ScrollDown }),
            (seq![Keys::Key(Key::UG)], CmdRc { command: Command::CursorToBottomOfBuffer }),
            (seq![Keys::Key(Key::UZ), Keys::Key(Key::UQ)], CmdRc { command: Command::Quit }),
        ],
        Mode::Insert => seq![
            (seq![Keys::Key(Key::Esc)], CmdRc { command: Command::ChangeMode(Mode::Normal) }),
            (seq![Keys::Key(Key::Backspace)], CmdRc { command: Command::BackSpace }),
            (seq![Keys::Key(Key::Down)], CmdRc { command: Command::CursorDown }),
            (seq![Keys::Key(Key::Up)], CmdRc { command: Command::CursorUp }),
            (seq![Keys::Key(Key::Left)], CmdRc { command: Command::CursorLeft }),
            (seq![Keys::Key(Key::Right)], CmdRc { command: Command::CursorRight }),
            (seq![Keys::Key(Key::Home)], CmdRc { command: Command::CursorHome }),
        ],
        Mode::Command => seq![
            (seq![Keys::Key(Key::Esc)], CmdRc { command: Command::ChangeMode(Mode::Normal) }),
            (seq![Keys::Key(Key::Enter)], CmdRc { command: Command::ExecuteCommandLine }),
            (seq![Keys::Key(Key::Backspace)], CmdRc { command: Command::BackSpace }),
            (seq![Keys::KeyAndMod { key: Key::LH, modk: Key::Ctrl }], CmdRc { command: Command::CursorLeft }),
            (seq![Keys::KeyAndMod { key: Key::LL, modk: Key::Ctrl }], CmdRc { command: Command::CursorRight }),
        ],
    }
}

/// One more binding of a table, whose first key had no node: the bindings
/// follow the table one entry further.
proof fn lemma_table_step(
    before: Mapper,
    after: Mapper,
    mode: Mode,
    es: Seq<(Seq<Keys>, CmdRc)>,
    i: int,
    keys: Seq<Keys>,
    c: CmdRc,
    fk: Seq<Keys>,
)
    requires
        0 <= i < es.len(),
        es[i] == (keys, c),
        keys.len() > 0,
        node_keys(before.map_of(mode)) == fk,
        !fk.contains(keys[0]),
        forall|x: Keys| #[trigger] fk.contains(x) == table_has_first(es.take(i), x),
        forall|k: Seq<Keys>| #[trigger] before.binding(mode, k) == table_get(es.take(i), k),
        after.bound_after(before, mode, keys, c),
    ensures
        forall|x: Keys| #[trigger] fk.push(keys[0]).contains(x) == table_has_first(es.take(i + 1), x),
        forall|k: Seq<Keys>| #[trigger] after.binding(mode, k) == table_get(es.take(i + 1), k),
{
    let ms = before.map_of(mode);
    lemma_find_key(ms, keys[0]);
    if find_key(ms, keys[0]) < ms.len() {
        assert(fk[find_key(ms, keys[0])] == keys[0]);
    }
    assert(es.take(i + 1).drop_last() =~= es.take(i));
    assert(es.take(i + 1).last() == (keys, c));
    assert forall|x: Keys| #[trigger] fk.push(keys[0]).contains(x) == table_has_first(es.take(i + 1), x) by {
        if fk.contains(x) {
            let j = choose|j: int| 0 <= j < fk.len() && fk[j] == x;
            assert(fk.push(keys[0])[j] == x);
        }
        if x == keys[0] {
            assert(fk.push(keys[0])[fk.len() as int] == x);
        }
        if fk.push(keys[0]).contains(x) && x != keys[0] {
            let j = choose|j: int| 0 <= j < fk.len() + 1 && fk.push(keys[0])[j] == x;
            assert(fk[j] == x);
        }
    }
    assert forall|k: Seq<Keys>| #[trigger] after.binding(mode, k) == table_get(es.take(i + 1), k) by {
        assert(after.binding(mode, k) == get_after_insert(ms, keys, c, k));
        let t = es.take(i + 1);
        if k.len() == 0 {
            assert(after.binding(mode, k) == nodes_get(after.map_of(mode), k));
        } else if k[0] == keys[0] {
            assert(find_key(ms, keys[0]) == ms.len());
            assert(!ends_inside(ms, keys));
            assert(end_depth(ms, keys) is None);
            assert(nodes_get(ms, k) is None);
            assert(t.last().0[0] == k[0]);
            assert(table_get(t, k) == if keys_prefix(keys, k) { Some(c) } else { None });
        } else {
            lemma_other_first_key(ms, keys, c, k);
            assert(before.binding(mode, k) == table_get(es.take(i), k));
            assert(before.binding(mode, k) == nodes_get(ms, k));
            assert(table_get(t, k) == table_get(t.drop_last(), k));
        }
    }
}

/// Whether a sequence can grow into a bound one, read from the bindings:
/// its first key has a node, and it is that key alone or bound.
proof fn lemma_possible_by_get<C>(ms: Seq<MapNode<C>>, k: Seq<Keys>)
    ensures
        nodes_possible(ms, k) == (k.len() > 0 && node_keys(ms).contains(k[0]) && (k.len() == 1
            || nodes_get(ms, k) is Some)),
{
    if k.len() > 0 {
        lemma_find_key(ms, k[0]);
        let i = find_key(ms, k[0]);
        if i < ms.len() {
            assert(node_keys(ms)[i] == k[0]);
            lemma_node_size_le(ms, i);
        } else {
            assert forall|j: int| 0 <= j < node_keys(ms).len() implies node_keys(ms)[j] != k[0] by {
                assert(node_keys(ms)[j] == node_key(ms[j]));
            }
        }
    }
}

impl Mapper {
    /// Binds entry `i` of the table `es` in `mode`, when the bindings so far
    /// are the table's first `i` entries and none starts with the entry's
    /// first key.
    fn bind_fresh(
        self,
        mode: Mode,
        keys: &str,
        c: CmdRc,
        Ghost(es): Ghost<Seq<(Seq<Keys>, CmdRc)>>,
        Ghost(i): Ghost<int>,
        Ghost(fk): Ghost<Seq<Keys>>,
    ) -> (r: Mapper)
        requires
            parse_ok(keys@, 0),
            0 <= i < es.len(),
            es[i] == (keys_of(keys@), c),
            keys_of(keys@).len() > 0,
            node_keys(self.map_of(mode)) =~= fk,
            !fk.contains(keys_of(keys@)[0]),
            forall|x: Keys| #[trigger] node_keys(self.map_of(mode)).contains(x) == table_has_first(es.take(i), x),
            forall|k: Seq<Keys>| #[trigger] self.binding(mode, k) == table_get(es.take(i), k),
        ensures
            node_keys(r.map_of(mode)) == fk.push(keys_of(keys@)[0]),
            forall|x: Keys| #[trigger] node_keys(r.map_of(mode)).contains(x) == table_has_first(es.take(i + 1), x),
            forall|k: Seq<Keys>| #[trigger] r.binding(mode, k) == table_get(es.take(i + 1), k),
            r.binding(mode, keys_of(keys@)) == Some(c),
            forall|k2: Seq<Keys>|
                k2.len() > 0 && k2[0] != keys_of(keys@)[0] ==> #[trigger] r.binding(mode, k2)
                    == self.binding(mode, k2),
            forall|m: Mode| m != mode ==> #[trigger] r.map_of(m) == self.map_of(m),
    {
        let ghost before = self;
        let ghost cc = c;
        let ghost ks = keys_of(keys@);
        let r = self.with_mapping(mode, keys, c);
        proof {
            assert(node_keys(before.map_of(mode)) == fk);
            lemma_fresh_step(before, r, mode, ks, cc, fk);
            lemma_table_step(before, r, mode, es, i, ks, cc, fk);
        }
        r
    }

    /// Adds the built-in Normal mode bindings: `Esc`, the moves on `h` `j`
    /// `k` `l` and the arrows, `:` and `i` to Command and Insert mode, `x`
    /// and `Delete`, `dd`, `Home` and `0`, `gg`, scrolling on `C-u` and
    /// `C-d`, `G` to the last line, and `ZQ` to quit.
    #[verifier::rlimit(40)]
    fn build_normal(self) -> (r: Mapper)
        requires
            node_keys(self.map_of(Mode::Normal)) == Seq::<Keys>::empty(),
            forall|k: Seq<Keys>| #[trigger] self.binding(Mode::Normal, k) is None,
        ensures
            forall|k: Seq<Keys>| #[trigger] r.binding(Mode::Normal, k) == table_get(builtin(Mode::Normal), k),
            forall|x: Keys| #[trigger] node_keys(r.map_of(Mode::Normal)).contains(x) == table_has_first(builtin(Mode::Normal), x),
            r.binding(Mode::Normal, seq![Keys::Key(Key::Esc)]) == Some(CmdRc { command: Command::ChangeMode(Mode::Normal) }),
            r.binding(Mode::Normal, seq![Keys::Key(Key::LJ)]) == Some(CmdRc { command: Command::CursorDown }),
            r.binding(Mode::Normal, seq![Keys::Key(Key::Down)]) == Some(CmdRc { command: Command::CursorDown }),
            r.binding(Mode::Normal, seq![Keys::Key(Key::LK)]) == Some(CmdRc { command: Command::CursorUp }),
            r.binding(Mode::Normal, seq![Keys::Key(Key::Up)]) == Some(CmdRc { command: Command::CursorUp }),
            r.binding(Mode::Normal, seq![Keys::Key(Key::LH)]) == Some(CmdRc { command: Command::CursorLeft }),
            r.binding(Mode::Normal, seq![Keys::Key(Key::Left)]) == Some(CmdRc { command: Command::CursorLeft }),
            r.binding(Mode::Normal, seq![Keys::Key(Key::LL)]) == Some(CmdRc { command: Command::CursorRight }),
            r.binding(Mode::Normal, seq![Keys::Key(Key::Right)]) == Some(CmdRc { command: Command::CursorRight }),
            r.binding(Mode::Normal, seq![Keys::Key(Key::Colon)]) == Some(CmdRc { command: Command::ChangeMode(Mode::Command) }),
            r.binding(Mode::Normal, seq![Keys::Key(Key::LI)]) == Some(CmdRc { command: Command::ChangeMode(Mode::Insert) }),
            r.binding(Mode::Normal, seq![Keys::Key(Key::LX)]) == Some(CmdRc { command: Command::Delete }),
            r.binding(Mode::Normal, seq![Keys::Key(Key::Delete)]) == Some(CmdRc { command: Command::Delete }),
            r.binding(Mode::Normal, seq![Keys::Key(Key::LD), Keys::Key(Key::LD)]) == Some(CmdRc { command: Command::DeleteLine }),
            forall|m: Mode| m != Mode::Normal ==> #[trigger] r.map_of(m) == self.map_of(m),
    {
        let m0 = self;
        proof {
            lemma_lit_esc();
        }
        let m1 = m0.bind_fresh(Mode::Normal, "<esc>", CmdRc::new(Command::ChangeMode(Mode::Normal)), Ghost(builtin(Mode::Normal)), Ghost(0int), Ghost(Seq::<Keys>::empty()));
        proof {
            lemma_lit_j();
        }
        let ghost fk = seq![Keys::Key(Key::Esc)];
        let m2 = m1.bind_fresh(Mode::Normal, "j", CmdRc::new(Command::CursorDown), Ghost(builtin(Mode::Normal)), Ghost(1int), Ghost(fk));
        proof {
            lemma_lit_down();
        }
        let ghost fk = seq![Keys::Key(Key::Esc), Keys::Key(Key::LJ)];
        let m3 = m2.bind_fresh(Mode::Normal, "<down>", CmdRc::new(Command::CursorDown), Ghost(builtin(Mode::Normal)), Ghost(2int), Ghost(fk));
        proof {
            lemma_lit_k();
        }
        let ghost fk = seq![Keys::Key(Key::Esc), Keys::Key(Key::LJ), Keys::Key(Key::Down)];
        let m4 = m3.bind_fresh(Mode::Normal, "k", CmdRc::new(Command::CursorUp), Ghost(builtin(Mode::Normal)), Ghost(3int), Ghost(fk));
        proof {
            lemma_lit_up();
        }
        let ghost fk = seq![Keys::Key(Key::Esc), Keys::Key(Key::LJ), Keys::Key(Key::Down), Keys::Key(Key::LK)];
        let m5 = m4.bind_fresh(Mode::Normal, "<up>", CmdRc::new(Command::CursorUp), Ghost(builtin(Mode::Normal)), Ghost(4int), Ghost(fk));
        proof {
            lemma_lit_h();
        }
        let ghost fk = seq![Keys::Key(Key::Esc), Keys::Key(Key::LJ), Keys::Key(Key::Down), Keys::Key(Key::LK), Keys::Key(Key::Up)];
        let m6 = m5.bind_fresh(Mode::Normal, "h", CmdRc::new(Command::CursorLeft), Ghost(builtin(Mode::Normal)), Ghost(5int), Ghost(fk));
        proof {
            lemma_lit_left();
        }
        let ghost fk = seq![Keys::Key(Key::Esc), Keys::Key(Key::LJ), Keys::Key(Key::Down), Keys::Key(Key::LK), Keys::Key(Key::Up), Keys::Key(Key::LH)];
        let m7 = m6.bind_fresh(Mode::Normal, "<left>", CmdRc::new(Command::CursorLeft), Ghost(builtin(Mode::Normal)), Ghost(6int), Ghost(fk));
        proof {
            lemma_lit_l();
        }
        let ghost fk = seq![Keys::Key(Key::Esc), Keys::Key(Key::LJ), Keys::Key(Key::Down), Keys::Key(Key::LK), Keys::Key(Key::Up), Keys::Key(Key::LH), Keys::Key(Key::Left)];
        let m8 = m7.bind_fresh(Mode::Normal, "l", CmdRc::new(Command::CursorRight), Ghost(builtin(Mode::Normal)), Ghost(7int), Ghost(fk));
        proof {
            lemma_lit_right();
        }
        let ghost fk = seq![Keys::Key(Key::Esc), Keys::Key(Key::LJ), Keys::Key(Key::Down), Keys::Key(Key::LK), Keys::Key(Key::Up), Keys::Key(Key::LH), Keys::Key(Key::Left), Keys::Key(Key::LL)];
        let m9 = m8.bind_fresh(Mode::Normal, "<right>", CmdRc::new(Command::CursorRight), Ghost(builtin(Mode::Normal)), Ghost(8int), Ghost(fk));
        proof {
            lemma_lit_colon();
        }
        let ghost fk = seq![Keys::Key(Key::Esc), Keys::Key(Key::LJ), Keys::Key(Key::Down), Keys::Key(Key::LK), Keys::Key(Key::Up), Keys::Key(Key::LH), Keys::Key(Key::Left), Keys::Key(Key::LL), Keys::Key(Key::Right)];
        let m10 = m9.bind_fresh(Mode::Normal, ":", CmdRc::new(Command::ChangeMode(Mode::Command)), Ghost(builtin(Mode::Normal)), Ghost(9int), Ghost(fk));
        proof {
            lemma_lit_i();
        }
        let ghost fk = seq![Keys::Key(Key::Esc), Keys::Key(Key::LJ), Keys::Key(Key::Down), Keys::Key(Key::LK), Keys::Key(Key::Up), Keys::Key(Key::LH), Keys::Key(Key::Left), Keys::Key(Key::LL), Keys::Key(Key::Right), Keys::Key(Key::Colon)];
        let m11 = m10.bind_fresh(Mode::Normal, "i", CmdRc::new(Command::ChangeMode(Mode::Insert)), Ghost(builtin(Mode::Normal)), Ghost(10int), Ghost(fk));
        proof {
            lemma_lit_x();
        }
        let ghost fk = seq![Keys::Key(Key::Esc), Keys::Key(Key::LJ), Keys::Key(Key::Down), Keys::Key(Key::LK), Keys::Key(Key::Up), Keys::Key(Key::LH), Keys::Key(Key::Left), Keys::Key(Key::LL), Keys::Key(Key::Right), Keys::Key(Key::Colon), Keys::Key(Key::LI)];
        let m12 = m11.bind_fresh(Mode::Normal, "x", CmdRc::new(Command::Delete), Ghost(builtin(Mode::Normal)), Ghost(11int), Ghost(fk));
        proof {
            lemma_lit_delete();
        }
        let ghost fk = seq![Keys::Key(Key::Esc), Keys::Key(Key::LJ), Keys::Key(Key::Down), Keys::Key(Key::LK), Keys::Key(Key::Up), Keys::Key(Key::LH), Keys::Key(Key::Left), Keys::Key(Key::LL), Keys::Key(Key::Right), Keys::Key(Key::Colon), Keys::Key(Key::LI), Keys::Key(Key::LX)];
        let m13 = m12.bind_fresh(Mode::Normal, "<delete>", CmdRc::new(Command::Delete), Ghost(builtin(Mode::Normal)), Ghost(12int), Ghost(fk));
        proof {
            lemma_lit_dd();
        }
        let ghost fk = seq![Keys::Key(Key::Esc), Keys::Key(Key::LJ), Keys::Key(Key::Down), Keys::Key(Key::LK), Keys::Key(Key::Up), Keys::Key(Key::LH), Keys::Key(Key::Left), Keys::Key(Key::LL), Keys::Key(Key::Right), Keys::Key(Key::Colon), Keys::Key(Key::LI), Keys::Key(Key::LX), Keys::Key(Key::Delete)];
        let m14 = m13.bind_fresh(Mode::Normal, "dd", CmdRc::new(Command::DeleteLine), Ghost(builtin(Mode::Normal)), Ghost(13int), Ghost(fk));
        proof {
            lemma_lit_home();
        }
        let ghost fk = seq![Keys::Key(Key::Esc), Keys::Key(Key::LJ), Keys::Key(Key::Down), Keys::Key(Key::LK), Keys::Key(Key::Up), Keys::Key(Key::LH), Keys::Key(Key::Left), Keys::Key(Key::LL), Keys::Key(Key::Right), Keys::Key(Key::Colon), Keys::Key(Key::LI), Keys::Key(Key::LX), Keys::Key(Key::Delete), Keys::Key(Key::LD)];
        let m15 = m14.bind_fresh(Mode::Normal, "<home>", CmdRc::new(Command::CursorHome), Ghost(builtin(Mode::Normal)), Ghost(14int), Ghost(fk));
        proof {
            lemma_lit_zero();
        }
        let ghost fk = seq![Keys::Key(Key::Esc), Keys::Key(Key::LJ), Keys::Key(Key::Down), Keys::Key(Key::LK), Keys::Key(Key::Up), Keys::Key(Key::LH), Keys::Key(Key::Left), Keys::Key(Key::LL), Keys::Key(Key::Right), Keys::Key(Key::Colon), Keys::Key(Key::LI), Keys::Key(Key::LX), Keys::Key(Key::Delete), Keys::Key(Key::LD), Keys::Key(Key::Home)];
        let m16 = m15.bind_fresh(Mode::Normal, "0", CmdRc::new(Command::CursorHome), Ghost(builtin(Mode::Normal)), Ghost(15int), Ghost(fk));
        proof {
            lemma_lit_gg();
        }
        let ghost fk = seq![Keys::Key(Key::Esc), Keys::Key(Key::LJ), Keys::Key(Key::Down), Keys::Key(Key::LK), Keys::Key(Key::Up), Keys::Key(Key::LH), Keys::Key(Key::Left), Keys::Key(Key::LL), Keys::Key(Key::Right), Keys::Key(Key::Colon), Keys::Key(Key::LI), Keys::Key(Key::LX), Keys::Key(Key::Delete), Keys::Key(Key::LD), Keys::Key(Key::Home), Keys::Key(Key::N0)];
        let m17 = m16.bind_fresh(Mode::Normal, "gg", CmdRc::new(Command::CursorTopOfBuffer), Ghost(builtin(Mode::Normal)), Ghost(16int), Ghost(fk));
        proof {
            lemma_lit_c_u();
        }
        let ghost fk = seq![Keys::Key(Key::Esc), Keys::Key(Key::LJ), Keys::Key(Key::Down), Keys::Key(Key::LK), Keys::Key(Key::Up), Keys::Key(Key::LH), Keys::Key(Key::Left), Keys::Key(Key::LL), Keys::Key(Key::Right), Keys::Key(Key::Colon), Keys::Key(Key::LI), Keys::Key(Key::LX), Keys::Key(Key::Delete), Keys::Key(Key::LD), Keys::Key(Key::Home), Keys::Key(Key::N0), Keys::Key(Key::LG)];
        let m18 = m17.bind_fresh(Mode::Normal, "<c-u>", CmdRc::new(Command::ScrollUp), Ghost(builtin(Mode::Normal)), Ghost(17int), Ghost(fk));
        proof {
            lemma_lit_c_d();
        }
        let ghost fk = seq![Keys::Key(Key::Esc), Keys::Key(Key::LJ), Keys::Key(Key::Down), Keys::Key(Key::LK), Keys::Key(Key::Up), Keys::Key(Key::LH), Keys::Key(Key::Left), Keys::Key(Key::LL), Keys::Key(Key::Right), Keys::Key(Key::Colon), Keys::Key(Key::LI), Keys::Key(Key::LX), Keys::Key(Key::Delete), Keys::Key(Key::LD), Keys::Key(Key::Home), Keys::Key(Key::N0), Keys::Key(Key::LG), Keys::KeyAndMod { key: Key::LU, modk: Key::Ctrl }];
        let m19 = m18.bind_fresh(Mode::Normal, "<c-d>", CmdRc::new(Command::ScrollDown), Ghost(builtin(Mode::Normal)), Ghost(18int), Ghost(fk));
        proof {
            lemma_lit_ug();
        }
        let ghost fk = seq![Keys::Key(Key::Esc), Keys::Key(Key::LJ), Keys::Key(Key::Down), Keys::Key(Key::LK), Keys::Key(Key::Up), Keys::Key(Key::LH), Keys::Key(Key::Left), Keys::Key(Key::LL), Keys::Key(Key::Right), Keys::Key(Key::Colon), Keys::Key(Key::LI), Keys::Key(Key::LX), Keys::Key(Key::Delete), Keys::Key(Key::LD), Keys::Key(Key::Home), Keys::Key(Key::N0), Keys::Key(Key::LG), Keys::KeyAndMod { key: Key::LU, modk: Key::Ctrl }, Keys::KeyAndMod { key: Key::LD, modk: Key::Ctrl }];
        let m20 = m19.bind_fresh(Mode::Normal, "G", CmdRc::new(Command::CursorToBottomOfBuffer), Ghost(builtin(Mode::Normal)), Ghost(19int), Ghost(fk));
        proof {
            lemma_lit_zq();
        }
        let ghost fk = seq![Keys::Key(Key::Esc), Keys::Key(Key::LJ), Keys::Key(Key::Down), Keys::Key(Key::LK), Keys::Key(Key::Up), Keys::Key(Key::LH), Keys::Key(Key::Left), Keys::Key(Key::LL), Keys::Key(Key::Right), Keys::Key(Key::Colon), Keys::Key(Key::LI), Keys::Key(Key::LX), Keys::Key(Key::Delete), Keys::Key(Key::LD), Keys::Key(Key::Home), Keys::Key(Key::N0), Keys::Key(Key::LG), Keys::KeyAndMod { key: Key::LU, modk: Key::Ctrl }, Keys::KeyAndMod { key: Key::LD, modk: Key::Ctrl }, Keys::Key(Key::UG)];
        let m21 = m20.bind_fresh(Mode::Normal, "ZQ", CmdRc::new(Command::Quit), Ghost(builtin(Mode::Normal)), Ghost(20int), Ghost(fk));
        proof {
            assert(builtin(Mode::Normal).take(21) =~= builtin(Mode::Normal));
        }
        m21
    }

    /// Adds the built-in Insert mode bindings: `Esc` back to Normal mode,
    /// `Backspace`, and the arrow keys move.
    fn build_insert(self) -> (r: Mapper)
        requires
            node_keys(self.map_of(Mode::Insert)) == Seq::<Keys>::empty(),
            forall|k: Seq<Keys>| #[trigger] self.binding(Mode::Insert, k) is None,
        ensures
            forall|k: Seq<Keys>| #[trigger] r.binding(Mode::Insert, k) == table_get(builtin(Mode::Insert), k),
            forall|x: Keys| #[trigger] node_keys(r.map_of(Mode::Insert)).contains(x) == table_has_first(builtin(Mode::Insert), x),
            r.binding(Mode::Insert, seq![Keys::Key(Key::Esc)]) == Some(CmdRc { command: Command::ChangeMode(Mode::Normal) }),
            r.binding(Mode::Insert, seq![Keys::Key(Key::Backspace)]) == Some(CmdRc { command: Command::BackSpace }),
            forall|m: Mode| m != Mode::Insert ==> #[trigger] r.map_of(m) == self.map_of(m),
    {
        let m0 = self;
        proof {
            lemma_lit_esc();
        }
        let m1 = m0.bind_fresh(Mode::Insert, "<esc>", CmdRc::new(Command::ChangeMode(Mode::Normal)), Ghost(builtin(Mode::Insert)), Ghost(0int), Ghost(Seq::<Keys>::empty()));
        proof {
            lemma_lit_backspace();
        }
        let ghost fk = seq![Keys::Key(Key::Esc)];
        let m2 = m1.bind_fresh(Mode::Insert, "<backspace>", CmdRc::new(Command::BackSpace), Ghost(builtin(Mode::Insert)), Ghost(1int), Ghost(fk));
        proof {
            lemma_lit_down();
        }
        let ghost fk = seq![Keys::Key(Key::Esc), Keys::Key(Key::Backspace)];
        let m3 = m2.bind_fresh(Mode::Insert, "<down>", CmdRc::new(Command::CursorDown), Ghost(builtin(Mode::Insert)), Ghost(2int), Ghost(fk));
        proof {
            lemma_lit_up();
        }
        let ghost fk = seq![Keys::Key(Key::Esc), Keys::Key(Key::Backspace), Keys::Key(Key::Down)];
        let m4 = m3.bind_fresh(Mode::Insert, "<up>", CmdRc::new(Command::CursorUp), Ghost(builtin(Mode::Insert)), Ghost(3int), Ghost(fk));
        proof {
            lemma_lit_left();
        }
        let ghost fk = seq![Keys::Key(Key::Esc), Keys::Key(Key::Backspace), Keys::Key(Key::Down), Keys::Key(Key::Up)];
        let m5 = m4.bind_fresh(Mode::Insert, "<left>", CmdRc::new(Command::CursorLeft), Ghost(builtin(Mode::Insert)), Ghost(4int), Ghost(fk));
        proof {
            lemma_lit_right();
        }
        let ghost fk = seq![Keys::Key(Key::Esc), Keys::Key(Key::Backspace), Keys::Key(Key::Down), Keys::Key(Key::Up), Keys::Key(Key::Left)];
        let m6 = m5.bind_fresh(Mode::Insert, "<right>", CmdRc::new(Command::CursorRight), Ghost(builtin(Mode::Insert)), Ghost(5int), Ghost(fk));
        proof {
            lemma_lit_home();
        }
        let ghost fk = seq![Keys::Key(Key::Esc), Keys::Key(Key::Backspace), Keys::Key(Key::Down), Keys::Key(Key::Up), Keys::Key(Key::Left), Keys::Key(Key::Right)];
        let m7 = m6.bind_fresh(Mode::Insert, "<home>", CmdRc::new(Command::CursorHome), Ghost(builtin(Mode::Insert)), Ghost(6int), Ghost(fk));
        proof {
            assert(builtin(Mode::Insert).take(7) =~= builtin(Mode::Insert));
        }
        m7
    }

    /// Adds the built-in Command mode bindings.
    fn build_command(self) -> (r: Mapper)
        requires
            node_keys(self.map_of(Mode::Command)) == Seq::<Keys>::empty(),
            forall|k: Seq<Keys>| #[trigger] self.binding(Mode::Command, k) is None,
        ensures
            forall|k: Seq<Keys>| #[trigger] r.binding(Mode::Command, k) == table_get(builtin(Mode::Command), k),
            forall|x: Keys| #[trigger] node_keys(r.map_of(Mode::Command)).contains(x) == table_has_first(builtin(Mode::Command), x),
            r.binding(Mode::Command, seq![Keys::Key(Key::Esc)]) == Some(CmdRc { command: Command::ChangeMode(Mode::Normal) }),
            r.binding(Mode::Command, seq![Keys::Key(Key::Enter)]) == Some(CmdRc { command: Command::ExecuteCommandLine }),
            r.binding(Mode::Command, seq![Keys::Key(Key::Backspace)]) == Some(CmdRc { command: Command::BackSpace }),
            r.binding(Mode::Command, seq![Keys::KeyAndMod { key: Key::LH, modk: Key::Ctrl }]) == Some(CmdRc { command: Command::CursorLeft }),
            r.binding(Mode::Command, seq![Keys::KeyAndMod { key: Key::LL, modk: Key::Ctrl }]) == Some(CmdRc { command: Command::CursorRight }),
            forall|m: Mode| m != Mode::Command ==> #[trigger] r.map_of(m) == self.map_of(m),
    {
        let m0 = self;
        proof {
            lemma_lit_esc();
        }
        let m1 = m0.bind_fresh(Mode::Command, "<esc>", CmdRc::new(Command::ChangeMode(Mode::Normal)), Ghost(builtin(Mode::Command)), Ghost(0int), Ghost(Seq::<Keys>::empty()));
        proof {
            lemma_lit_enter();
        }
        let ghost fk = seq![Keys::Key(Key::Esc)];
        let m2 = m1.bind_fresh(Mode::Command, "<enter>", CmdRc::new(Command::ExecuteCommandLine), Ghost(builtin(Mode::Command)), Ghost(1int), Ghost(fk));
        proof {
            lemma_lit_backspace();
        }
        let ghost fk = seq![Keys::Key(Key::Esc), Keys::Key(Key::Enter)];
        let m3 = m2.bind_fresh(Mode::Command, "<backspace>", CmdRc::new(Command::BackSpace), Ghost(builtin(Mode::Command)), Ghost(2int), Ghost(fk));
        proof {
            lemma_lit_c_h();
        }
        let ghost fk = seq![Keys::Key(Key::Esc), Keys::Key(Key::Enter), Keys::Key(Key::Backspace)];
        let m4 = m3.bind_fresh(Mode::Command, "<c-h>", CmdRc::new(Command::CursorLeft), Ghost(builtin(Mode::Command)), Ghost(3int), Ghost(fk));
        proof {
            lemma_lit_c_l();
        }
        let ghost fk = seq![Keys::Key(Key::Esc), Keys::Key(Key::Enter), Keys::Key(Key::Backspace), Keys::KeyAndMod { key: Key::LH, modk: Key::Ctrl }];
        let m5 = m4.bind_fresh(Mode::Command, "<c-l>", CmdRc::new(Command::CursorRight), Ghost(builtin(Mode::Command)), Ghost(4int), Ghost(fk));
        proof {
            assert(builtin(Mode::Command).take(5) =~= builtin(Mode::Command));
        }
        m5
    }
}

impl Default for Mapper {
    /// The built-in bindings of the three modes, and nothing else: a
    /// sequence is bound exactly as the mode's table says, and can grow
    /// into a bound one exactly when it starts with a key of the table and
    /// is that key alone or bound.
    fn default() -> (r: Mapper)
        ensures
            forall|m: Mode, k: Seq<Keys>| #[trigger] r.binding(m, k) == table_get(builtin(m), k),
            forall|m: Mode, k: Seq<Keys>| #[trigger] r.possible(m, k) == table_possible(builtin(m), k),
    {
        let m = Self::new();
        proof {
            assert(node_keys(m.map_of(Mode::Normal)) =~= Seq::<Keys>::empty());
            assert(node_keys(m.map_of(Mode::Insert)) =~= Seq::<Keys>::empty());
            assert(node_keys(m.map_of(Mode::Command)) =~= Seq::<Keys>::empty());
        }
        let m1 = m.build_normal();
        proof {
            assert(m1.map_of(Mode::Insert) == m.map_of(Mode::Insert));
            assert forall|k: Seq<Keys>| #[trigger] m1.binding(Mode::Insert, k) is None by {
                assert(m.binding(Mode::Insert, k) is None);
            }
        }
        let m2 = m1.build_insert();
        proof {
            assert(m2.map_of(Mode::Command) == m.map_of(Mode::Command));
            assert forall|k: Seq<Keys>| #[trigger] m2.binding(Mode::Command, k) is None by {
                assert(m.binding(Mode::Command, k) is None);
            }
        }
        let r = m2.build_command();
        proof {
            assert(r.map_of(Mode::Normal) == m1.map_of(Mode::Normal));
            assert(r.map_of(Mode::Insert) == m2.map_of(Mode::Insert));
            assert forall|md: Mode, k: Seq<Keys>| #[trigger] r.binding(md, k) == table_get(builtin(md), k) by {
                match md {
                    Mode::Normal => assert(m1.binding(Mode::Normal, k) == table_get(builtin(Mode::Normal), k)),
                    Mode::Insert => assert(m2.binding(Mode::Insert, k) == table_get(builtin(Mode::Insert), k)),
                    Mode::Command => {},
                }
            }
            assert forall|md: Mode, k: Seq<Keys>| #[trigger] r.possible(md, k) == table_possible(builtin(md), k) by {
                lemma_possible_by_get(r.map_of(md), k);
                assert(r.binding(md, k) == table_get(builtin(md), k));
                if k.len() > 0 {
                    match md {
                        Mode::Normal => assert(node_keys(m1.map_of(Mode::Normal)).contains(k[0]) == table_has_first(builtin(Mode::Normal), k[0])),
                        Mode::Insert => assert(node_keys(m2.map_of(Mode::Insert)).contains(k[0]) == table_has_first(builtin(Mode::Insert), k[0])),
                        Mode::Command => assert(node_keys(r.map_of(Mode::Command)).contains(k[0]) == table_has_first(builtin(Mode::Command), k[0])),
                    }
                }
            }
        }
        r
    }
}
/// Reading what was just bound: after binding `keys` to `c`, `keys` and
/// every longer sequence that starts with it are bound to `c`, unless the
/// keys end where nodes lead on, which leaves every lookup as it was.
pub proof fn lemma_insert_then_get<C>(ms: Seq<MapNode<C>>, keys: Seq<Keys>, c: C, k2: Seq<Keys>)
    requires
        keys.len() > 0,
    ensures
        !ends_inside(ms, keys) && keys_prefix(keys, k2) ==> get_after_insert(ms, keys, c, k2)
            == Some(c),
        ends_inside(ms, keys) ==> get_after_insert(ms, keys, c, k2) == nodes_get(ms, k2),
        !ends_inside(ms, keys) ==> get_after_insert(ms, keys, c, keys) == Some(c),
{
    assert(keys.take(keys.len() as int) =~= keys);
}

/// A bound sequence is one that could still grow into a bound one.
pub proof fn lemma_bound_is_possible<C>(ms: Seq<MapNode<C>>, keys: Seq<Keys>)
    ensures
        nodes_get(ms, keys) is Some ==> nodes_possible(ms, keys),
{
    if keys.len() > 0 {
        let i = find_key(ms, keys[0]);
        if 0 <= i < ms.len() {
            lemma_node_size_le(ms, i);
        }
    }
}

/// In the built-in Normal-mode table `h`, `j`, `k` and `l` are bound as the
/// Left, Down, Up and Right arrows, which move the cursor that way; `x` is
/// bound as `Delete`, and `0` as `Home`; the arrows of Insert mode are
/// bound as those of Normal mode.
pub proof fn lemma_builtin_letters_as_arrows()
    ensures
        table_get(builtin(Mode::Normal), seq![Keys::Key(Key::LH)]) == table_get(builtin(Mode::Normal), seq![Keys::Key(Key::Left)]),
        table_get(builtin(Mode::Normal), seq![Keys::Key(Key::LJ)]) == table_get(builtin(Mode::Normal), seq![Keys::Key(Key::Down)]),
        table_get(builtin(Mode::Normal), seq![Keys::Key(Key::LK)]) == table_get(builtin(Mode::Normal), seq![Keys::Key(Key::Up)]),
        table_get(builtin(Mode::Normal), seq![Keys::Key(Key::LL)]) == table_get(builtin(Mode::Normal), seq![Keys::Key(Key::Right)]),
        table_get(builtin(Mode::Normal), seq![Keys::Key(Key::Left)]) == Some(CmdRc { command: Command::CursorLeft }),
        table_get(builtin(Mode::Normal), seq![Keys::Key(Key::Down)]) == Some(CmdRc { command: Command::CursorDown }),
        table_get(builtin(Mode::Normal), seq![Keys::Key(Key::Up)]) == Some(CmdRc { command: Command::CursorUp }),
        table_get(builtin(Mode::Normal), seq![Keys::Key(Key::Right)]) == Some(CmdRc { command: Command::CursorRight }),
        table_get(builtin(Mode::Normal), seq![Keys::Key(Key::LX)]) == table_get(builtin(Mode::Normal), seq![Keys::Key(Key::Delete)]),
        table_get(builtin(Mode::Normal), seq![Keys::Key(Key::N0)]) == table_get(builtin(Mode::Normal), seq![Keys::Key(Key::Home)]),
        table_get(builtin(Mode::Insert), seq![Keys::Key(Key::Left)]) == table_get(builtin(Mode::Normal), seq![Keys::Key(Key::Left)]),
        table_get(builtin(Mode::Insert), seq![Keys::Key(Key::Right)]) == table_get(builtin(Mode::Normal), seq![Keys::Key(Key::Right)]),
        table_get(builtin(Mode::Insert), seq![Keys::Key(Key::Up)]) == table_get(builtin(Mode::Normal), seq![Keys::Key(Key::Up)]),
        table_get(builtin(Mode::Insert), seq![Keys::Key(Key::Down)]) == table_get(builtin(Mode::Normal), seq![Keys::Key(Key::Down)]),
{
    reveal_with_fuel(table_get, 25);
    assert forall|k: Keys| #[trigger] seq![k].take(1) =~= seq![k] by {}
}

/// A terminal key event gives the key press that the key string naming the
/// same key parses to: the arrows, `Esc`, `Enter`, `Backspace`, `Home` and
/// `Delete` pressed alone give what `<left>` and the like name, a character
/// typed alone gives what that character as a key string names, and a
/// letter with Control held gives what `<c-...>` names.
pub proof fn lemma_events_match_key_strings()
    ensures
        keys_of_event(KeyEvent { code: KeyCode::Left, modifiers: KeyModifiers { bits: 0 } }) == keys_of("<left>"@)[0],
        keys_of_event(KeyEvent { code: KeyCode::Right, modifiers: KeyModifiers { bits: 0 } }) == keys_of("<right>"@)[0],
        keys_of_event(KeyEvent { code: KeyCode::Up, modifiers: KeyModifiers { bits: 0 } }) == keys_of("<up>"@)[0],
        keys_of_event(KeyEvent { code: KeyCode::Down, modifiers: KeyModifiers { bits: 0 } }) == keys_of("<down>"@)[0],
        keys_of_event(KeyEvent { code: KeyCode::Esc, modifiers: KeyModifiers { bits: 0 } }) == keys_of("<esc>"@)[0],
        keys_of_event(KeyEvent { code: KeyCode::Enter, modifiers: KeyModifiers { bits: 0 } }) == keys_of("<enter>"@)[0],
        keys_of_event(KeyEvent { code: KeyCode::Backspace, modifiers: KeyModifiers { bits: 0 } }) == keys_of("<backspace>"@)[0],
        keys_of_event(KeyEvent { code: KeyCode::Home, modifiers: KeyModifiers { bits: 0 } }) == keys_of("<home>"@)[0],
        keys_of_event(KeyEvent { code: KeyCode::Delete, modifiers: KeyModifiers { bits: 0 } }) == keys_of("<delete>"@)[0],
        keys_of_event(KeyEvent { code: KeyCode::Char('h'), modifiers: KeyModifiers { bits: 0 } }) == keys_of("h"@)[0],
        keys_of_event(KeyEvent { code: KeyCode::Char('j'), modifiers: KeyModifiers { bits: 0 } }) == keys_of("j"@)[0],
        keys_of_event(KeyEvent { code: KeyCode::Char('k'), modifiers: KeyModifiers { bits: 0 } }) == keys_of("k"@)[0],
        keys_of_event(KeyEvent { code: KeyCode::Char('l'), modifiers: KeyModifiers { bits: 0 } }) == keys_of("l"@)[0],
        keys_of_event(KeyEvent { code: KeyCode::Char('x'), modifiers: KeyModifiers { bits: 0 } }) == keys_of("x"@)[0],
        keys_of_event(KeyEvent { code: KeyCode::Char('i'), modifiers: KeyModifiers { bits: 0 } }) == keys_of("i"@)[0],
        keys_of_event(KeyEvent { code: KeyCode::Char(':'), modifiers: KeyModifiers { bits: 0 } }) == keys_of(":"@)[0],
        keys_of_event(KeyEvent { code: KeyCode::Char('0'), modifiers: KeyModifiers { bits: 0 } }) == keys_of("0"@)[0],
        keys_of_event(KeyEvent { code: KeyCode::Char('G'), modifiers: KeyModifiers { bits: 0 } }) == keys_of("G"@)[0],
        keys_of_event(KeyEvent { code: KeyCode::Char('u'), modifiers: KeyModifiers { bits: CONTROL } }) == keys_of("<c-u>"@)[0],
        keys_of_event(KeyEvent { code: KeyCode::Char('d'), modifiers: KeyModifiers { bits: CONTROL } }) == keys_of("<c-d>"@)[0],
{
    lemma_lit_left();
    lemma_lit_right();
    lemma_lit_up();
    lemma_lit_down();
    lemma_lit_esc();
    lemma_lit_enter();
    lemma_lit_backspace();
    lemma_lit_home();
    lemma_lit_delete();
    lemma_lit_h();
    lemma_lit_j();
    lemma_lit_k();
    lemma_lit_l();
    lemma_lit_x();
    lemma_lit_i();
    lemma_lit_colon();
    lemma_lit_zero();
    lemma_lit_ug();
    lemma_lit_c_u();
    lemma_lit_c_d();
    assert(0u8 & ALT == 0 && 0u8 & CONTROL == 0) by (bit_vector);
    assert(CONTROL & ALT == 0 && CONTROL & CONTROL != 0) by (bit_vector);
}

} // verus!
