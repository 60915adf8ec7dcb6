//! The key bindings of the editor's windows: per mode, which key sequence
//! stands for which list of window commands.
use vstd::prelude::*;
use crate::editor::revi_command::ReViCommand;
use crate::engine::mode::Mode;
use crate::ui::key::Key;

verus! {

/// Bindings from key sequences to command lists; binding a sequence again
/// replaces its commands.
#[derive(Debug)]
pub struct KeyMap {
    entries: Vec<(Vec<Key>, Vec<ReViCommand>)>,
}

/// The commands bound to `keys` among `entries`: those of the first entry
/// for `keys`.
pub open spec fn lookup(entries: Seq<(Seq<Key>, Seq<ReViCommand>)>, keys: Seq<Key>) -> Option<
    Seq<ReViCommand>,
>
    decreases entries.len(),
{
    if entries.len() == 0 {
        None
    } else if entries[0].0 == keys {
        Some(entries[0].1)
    } else {
        lookup(entries.drop_first(), keys)
    }
}

/// The entries with their sequences and lists as sequences.
pub open spec fn entry_views(v: Seq<(Vec<Key>, Vec<ReViCommand>)>) -> Seq<(Seq<Key>, Seq<ReViCommand>)> {
    v.map_values(|e: (Vec<Key>, Vec<ReViCommand>)| (e.0@, e.1@))
}

impl KeyMap {
    /// The commands bound to `keys`, if any.
    pub closed spec fn binding(&self, keys: Seq<Key>) -> Option<Seq<ReViCommand>> {
        lookup(entry_views(self.entries@), keys)
    }

    /// No bindings.
    pub fn new() -> (m: KeyMap)
        ensures
            forall|k: Seq<Key>| #[trigger] m.binding(k) is None,
    {
        KeyMap { entries: Vec::new() }
    }

    /// The commands bound to `keys`, if any.
    pub fn get(&self, keys: &[Key]) -> (r: Option<&Vec<ReViCommand>>)
        ensures
            match r {
                Some(v) => self.binding(keys@) == Some(v@),
                None => self.binding(keys@) is None,
            },
    {
        let ghost es = entry_views(self.entries@);
        let mut i: usize = 0;
        proof {
            assert(es.skip(0) =~= es);
        }
        while i < self.entries.len()
            invariant
                i <= self.entries@.len(),
                es == entry_views(self.entries@),
                lookup(es, keys@) == lookup(es.skip(i as int), keys@),
            decreases self.entries@.len() - i,
        {
            proof {
                assert(es.skip(i as int).drop_first() =~= es.skip(i + 1));
                assert(es.skip(i as int)[0] == es[i as int]);
            }
            if keys_eq(self.entries[i].0.as_slice(), keys) {
                return Some(&self.entries[i].1);
            }
            i += 1;
        }
        proof {
            assert(es.skip(i as int).len() == 0);
        }
        None
    }

    /// Binds `keys` to `commands`, replacing what `keys` was bound to.
    pub fn insert(&mut self, keys: Vec<Key>, commands: Vec<ReViCommand>)
        ensures
            final(self).binding(keys@) == Some(commands@),
            forall|k: Seq<Key>| k != keys@ ==> #[trigger] final(self).binding(k) == old(self).binding(k),
    {
        let ghost es = entry_views(self.entries@);
        let mut i: usize = 0;
        while i < self.entries.len()
            invariant
                i <= self.entries@.len(),
                es == entry_views(self.entries@),
                self.entries@ == old(self).entries@,
                forall|j: int| 0 <= j < i ==> es[j].0 != keys@,
            decreases self.entries@.len() - i,
        {
            if keys_eq(self.entries[i].0.as_slice(), keys.as_slice()) {
                let ghost before = self.entries@;
                self.entries.set(i, (keys, commands));
                proof {
                    lemma_lookup_update(es, i as int, (keys@, commands@));
                    assert(entry_views(self.entries@) =~= es.update(i as int, (keys@, commands@)));
                }
                return;
            }
            i += 1;
        }
        let ghost entry = (keys@, commands@);
        self.entries.push((keys, commands));
        proof {
            assert(entry_views(self.entries@) =~= es.push(entry));
            lemma_lookup_push(es, entry);
        }
    }
}

/// Whether `a` and `b` hold the same keys.
fn keys_eq(a: &[Key], b: &[Key]) -> (r: bool)
    ensures
        r == (a@ == b@),
{
    if a.len() != b.len() {
        return false;
    }
    let mut i: usize = 0;
    while i < a.len()
        invariant
            a@.len() == b@.len(),
            i <= a@.len(),
            forall|j: int| 0 <= j < i ==> a@[j] == b@[j],
        decreases a@.len() - i,
    {
        if a[i] != b[i] {
            return false;
        }
        i += 1;
    }
    assert(a@ =~= b@);
    true
}

/// Replacing the first entry for a sequence binds it anew and leaves the
/// other sequences as they were.
proof fn lemma_lookup_update(
    es: Seq<(Seq<Key>, Seq<ReViCommand>)>,
    i: int,
    e: (Seq<Key>, Seq<ReViCommand>),
)
    requires
        0 <= i < es.len(),
        es[i].0 == e.0,
        forall|j: int| 0 <= j < i ==> es[j].0 != e.0,
    ensures
        lookup(es.update(i, e), e.0) == Some(e.1),
        forall|k: Seq<Key>| k != e.0 ==> #[trigger] lookup(es.update(i, e), k) == lookup(es, k),
    decreases es.len(),
{
    let u = es.update(i, e);
    if i > 0 {
        lemma_lookup_update(es.drop_first(), i - 1, e);
        assert(u.drop_first() =~= es.drop_first().update(i - 1, e));
        assert(u[0] == es[0]);
    } else {
        assert(u.drop_first() =~= es.drop_first());
    }
    assert forall|k: Seq<Key>| k != e.0 implies #[trigger] lookup(u, k) == lookup(es, k) by {
        if i > 0 {
            if es[0].0 != k {
                assert(lookup(u, k) == lookup(u.drop_first(), k));
            }
        } else {
            assert(lookup(u, k) == lookup(u.drop_first(), k));
        }
    }
}

/// Adding an entry for a sequence with none binds it and leaves the other
/// sequences as they were.
proof fn lemma_lookup_push(es: Seq<(Seq<Key>, Seq<ReViCommand>)>, e: (Seq<Key>, Seq<ReViCommand>))
    requires
        forall|j: int| 0 <= j < es.len() ==> es[j].0 != e.0,
    ensures
        lookup(es.push(e), e.0) == Some(e.1),
        forall|k: Seq<Key>| k != e.0 ==> #[trigger] lookup(es.push(e), k) == lookup(es, k),
    decreases es.len(),
{
    let p = es.push(e);
    if es.len() > 0 {
        lemma_lookup_push(es.drop_first(), e);
        assert(p.drop_first() =~= es.drop_first().push(e));
        assert(p[0] == es[0]);
    } else {
        assert(p.drop_first() =~= Seq::<(Seq<Key>, Seq<ReViCommand>)>::empty());
    }
    assert forall|k: Seq<Key>| k != e.0 implies #[trigger] lookup(p, k) == lookup(es, k) by {
        if es.len() > 0 {
            if es[0].0 != k {
                assert(lookup(p, k) == lookup(p.drop_first(), k));
            }
        } else {
            assert(lookup(p, k) == lookup(p.drop_first(), k));
        }
    }
}


/// The bindings of each mode.
#[derive(Debug)]
pub struct Mapper {
    nmaps: KeyMap,
    imaps: KeyMap,
    cmaps: KeyMap,
}

/// The built-in bindings of Normal mode: `Esc` stays in Normal mode,
/// `ZZ` quits and saves, `ZQ` quits, `h` `j` `k` `l` move, `:` and `i`
/// enter Command and Insert mode, `x` and `Delete` delete a character.
pub open spec fn normal_default(keys: Seq<Key>) -> Option<Seq<ReViCommand>> {
    if keys == seq![Key::Esc] {
        Some(seq![ReViCommand::Mode(Mode::Normal)])
    } else if keys == seq![Key::UZ, Key::Shift, Key::UZ, Key::Shift] {
        Some(seq![ReViCommand::Quit, ReViCommand::Save])
    } else if keys == seq![Key::UZ, Key::Shift, Key::UQ, Key::Shift] {
        Some(seq![ReViCommand::Quit])
    } else if keys == seq![Key::LJ] {
        Some(seq![ReViCommand::CursorDown])
    } else if keys == seq![Key::LK] {
        Some(seq![ReViCommand::CursorUp])
    } else if keys == seq![Key::LH] {
        Some(seq![ReViCommand::CursorLeft])
    } else if keys == seq![Key::LL] {
        Some(seq![ReViCommand::CursorRight])
    } else if keys == seq![Key::Colon] {
        Some(seq![ReViCommand::Mode(Mode::Command)])
    } else if keys == seq![Key::LI] {
        Some(seq![ReViCommand::Mode(Mode::Insert)])
    } else if keys == seq![Key::LX] {
        Some(seq![ReViCommand::DeleteChar])
    } else if keys == seq![Key::Delete] {
        Some(seq![ReViCommand::DeleteChar])
    } else {
        None
    }
}

/// The built-in bindings of Insert mode: `Esc` back to Normal mode,
/// `Backspace` and `Enter`.
pub open spec fn insert_default(keys: Seq<Key>) -> Option<Seq<ReViCommand>> {
    if keys == seq![Key::Esc] {
        Some(seq![ReViCommand::Mode(Mode::Normal)])
    } else if keys == seq![Key::Backspace] {
        Some(seq![ReViCommand::Backspace])
    } else if keys == seq![Key::Enter] {
        Some(seq![ReViCommand::NewLine])
    } else {
        None
    }
}

/// The built-in bindings of Command mode: `Esc` back to Normal mode.
pub open spec fn command_default(keys: Seq<Key>) -> Option<Seq<ReViCommand>> {
    if keys == seq![Key::Esc] {
        Some(seq![ReViCommand::Mode(Mode::Normal)])
    } else {
        None
    }
}

/// The built-in bindings of each mode.
pub open spec fn default_binding(mode: Mode, keys: Seq<Key>) -> Option<Seq<ReViCommand>> {
    match mode {
        Mode::Normal => normal_default(keys),
        Mode::Insert => insert_default(keys),
        Mode::Command => command_default(keys),
    }
}

impl Mapper {
    /// The commands bound to `keys` in `mode`, if any.
    pub closed spec fn binding(&self, mode: Mode, keys: Seq<Key>) -> Option<Seq<ReViCommand>> {
        match mode {
            Mode::Normal => self.nmaps.binding(keys),
            Mode::Insert => self.imaps.binding(keys),
            Mode::Command => self.cmaps.binding(keys),
        }
    }

    /// No bindings in any mode.
    fn new() -> (m: Mapper)
        ensures
            forall|mode: Mode, k: Seq<Key>| #[trigger] m.binding(mode, k) is None,
    {
        let m = Mapper { nmaps: KeyMap::new(), imaps: KeyMap::new(), cmaps: KeyMap::new() };
        assert forall|mode: Mode, k: Seq<Key>| #[trigger] m.binding(mode, k) is None by {
            assert(m.nmaps.binding(k) is None);
            assert(m.imaps.binding(k) is None);
            assert(m.cmaps.binding(k) is None);
        }
        m
    }

    /// The bindings of `mode`.
    fn get_map(&self, mode: &Mode) -> (r: &KeyMap)
        ensures
            forall|k: Seq<Key>| #[trigger] r.binding(k) == self.binding(*mode, k),
    {
        match mode {
            Mode::Normal => &self.nmaps,
            Mode::Insert => &self.imaps,
            Mode::Command => &self.cmaps,
        }
    }

    /// The bindings of `mode`, to change in place; the other modes' stay.
    fn get_map_mut(&mut self, mode: &Mode) -> (r: &mut KeyMap)
        ensures
            forall|k: Seq<Key>| #[trigger] r.binding(k) == old(self).binding(*mode, k),
            forall|k: Seq<Key>| #[trigger] final(self).binding(*mode, k) == final(r).binding(k),
            forall|m: Mode, k: Seq<Key>|
                m != *mode ==> #[trigger] final(self).binding(m, k) == old(self).binding(m, k),
    {
        match mode {
            Mode::Normal => &mut self.nmaps,
            Mode::Insert => &mut self.imaps,
            Mode::Command => &mut self.cmaps,
        }
    }

    /// The commands bound to `event` in `mode`, if any.
    pub fn get_mapping(&self, mode: &Mode, event: &[Key]) -> (r: Option<&Vec<ReViCommand>>)
        ensures
            match r {
                Some(v) => self.binding(*mode, event@) == Some(v@),
                None => self.binding(*mode, event@) is None,
            },
    {
        let map = self.get_map(mode);
        let found = map.get(event);
        match found {
            Some(v) => Some(v),
            None => None,
        }
    }

    /// These bindings with `keys` bound to `commands` in `mode`, replacing
    /// what `keys` was bound to there.
    pub fn insert_mapping(self, mode: &Mode, keys: Vec<Key>, commands: Vec<ReViCommand>) -> (r: Mapper)
        ensures
            r.binding(*mode, keys@) == Some(commands@),
            forall|m: Mode, k: Seq<Key>|
                (m != *mode || k != keys@) ==> #[trigger] r.binding(m, k) == self.binding(m, k),
    {
        let mut r = self;
        r.get_map_mut(mode).insert(keys, commands);
        r
    }
}


/// A sequence equals a one-key or four-key literal exactly when its keys
/// do, position by position.
proof fn lemma_key_seq_cases(k: Seq<Key>)
    ensures
        k.len() == 1 ==> k == seq![k[0]],
        k.len() == 4 ==> k == seq![k[0], k[1], k[2], k[3]],
{
    if k.len() == 1 {
        assert(k =~= seq![k[0]]);
    }
    if k.len() == 4 {
        assert(k =~= seq![k[0], k[1], k[2], k[3]]);
    }
}

/// The key sequence of one key.
fn one_key(a: Key) -> (v: Vec<Key>)
    ensures
        v@ == seq![a],
{
    let mut v = Vec::new();
    v.push(a);
    v
}

/// The key sequence of four keys.
fn four_keys(a: Key, b: Key, c: Key, d: Key) -> (v: Vec<Key>)
    ensures
        v@ == seq![a, b, c, d],
{
    let mut v = Vec::new();
    v.push(a);
    v.push(b);
    v.push(c);
    v.push(d);
    v
}

/// The command list of one command.
fn one_command(a: ReViCommand) -> (v: Vec<ReViCommand>)
    ensures
        v@ == seq![a],
{
    let mut v = Vec::new();
    v.push(a);
    v
}

impl Mapper {
    /// These bindings with the built-in Normal mode bindings added.
    fn build_normal(self) -> (r: Mapper)
        ensures
            forall|k: Seq<Key>| #[trigger] r.binding(Mode::Normal, k) == match normal_default(k) {
                Some(c) => Some(c),
                None => self.binding(Mode::Normal, k),
            },
            forall|m: Mode, k: Seq<Key>|
                m != Mode::Normal ==> #[trigger] r.binding(m, k) == self.binding(m, k),
    {
        let n = Mode::Normal;
        let r1 = self.insert_mapping(&n, one_key(Key::Esc), one_command(ReViCommand::Mode(Mode::Normal)));
        let mut quit_save = one_command(ReViCommand::Quit);
        quit_save.push(ReViCommand::Save);
        let r2 = r1.insert_mapping(&n, four_keys(Key::UZ, Key::Shift, Key::UZ, Key::Shift), quit_save);
        let r3 = r2.insert_mapping(
            &n,
            four_keys(Key::UZ, Key::Shift, Key::UQ, Key::Shift),
            one_command(ReViCommand::Quit),
        );
        let r4 = r3.insert_mapping(&n, one_key(Key::LJ), one_command(ReViCommand::CursorDown));
        let r5 = r4.insert_mapping(&n, one_key(Key::LK), one_command(ReViCommand::CursorUp));
        let r6 = r5.insert_mapping(&n, one_key(Key::LH), one_command(ReViCommand::CursorLeft));
        let r7 = r6.insert_mapping(&n, one_key(Key::LL), one_command(ReViCommand::CursorRight));
        let r8 = r7.insert_mapping(&n, one_key(Key::Colon), one_command(ReViCommand::Mode(Mode::Command)));
        let r9 = r8.insert_mapping(&n, one_key(Key::LI), one_command(ReViCommand::Mode(Mode::Insert)));
        let r10 = r9.insert_mapping(&n, one_key(Key::LX), one_command(ReViCommand::DeleteChar));
        let r = r10.insert_mapping(&n, one_key(Key::Delete), one_command(ReViCommand::DeleteChar));
        proof {
            assert forall|k: Seq<Key>| #[trigger] r.binding(Mode::Normal, k) == match normal_default(k) {
                Some(c) => Some(c),
                None => self.binding(Mode::Normal, k),
            } by {
                lemma_key_seq_cases(k);
            }
        }
        r
    }

    /// These bindings with the built-in Insert mode bindings added.
    fn build_insert(self) -> (r: Mapper)
        ensures
            forall|k: Seq<Key>| #[trigger] r.binding(Mode::Insert, k) == match insert_default(k) {
                Some(c) => Some(c),
                None => self.binding(Mode::Insert, k),
            },
            forall|m: Mode, k: Seq<Key>|
                m != Mode::Insert ==> #[trigger] r.binding(m, k) == self.binding(m, k),
    {
        let i = Mode::Insert;
        let r1 = self.insert_mapping(&i, one_key(Key::Esc), one_command(ReViCommand::Mode(Mode::Normal)));
        let r2 = r1.insert_mapping(&i, one_key(Key::Backspace), one_command(ReViCommand::Backspace));
        let r = r2.insert_mapping(&i, one_key(Key::Enter), one_command(ReViCommand::NewLine));
        proof {
            assert forall|k: Seq<Key>| #[trigger] r.binding(Mode::Insert, k) == match insert_default(k) {
                Some(c) => Some(c),
                None => self.binding(Mode::Insert, k),
            } by {
                lemma_key_seq_cases(k);
            }
        }
        r
    }

    /// These bindings with the built-in Command mode binding added.
    fn build_command(self) -> (r: Mapper)
        ensures
            forall|k: Seq<Key>| #[trigger] r.binding(Mode::Command, k) == match command_default(k) {
                Some(c) => Some(c),
                None => self.binding(Mode::Command, k),
            },
            forall|m: Mode, k: Seq<Key>|
                m != Mode::Command ==> #[trigger] r.binding(m, k) == self.binding(m, k),
    {
        let c = Mode::Command;
        self.insert_mapping(&c, one_key(Key::Esc), one_command(ReViCommand::Mode(Mode::Normal)))
    }
}

/// The built-in bindings, and no others.
pub fn key_builder() -> (m: Mapper)
    ensures
        forall|mode: Mode, k: Seq<Key>| #[trigger] m.binding(mode, k) == default_binding(mode, k),
{
    let m = Mapper::new().build_normal().build_insert().build_command();
    assert forall|mode: Mode, k: Seq<Key>| #[trigger] m.binding(mode, k) == default_binding(mode, k) by {
        match mode {
            Mode::Normal => {},
            Mode::Insert => {},
            Mode::Command => {},
        }
    }
    m
}

} // verus!
