//! The modal keybinding resolver: a trie per input mode from key sequences to
//! commands, a buffer of partially matched keys, and an optional "sticky"
//! node that stays active across single keystrokes.
use vstd::prelude::*;

use crate::commands::MappableCommand;
use crate::editor::Mode;
use crate::keys::{KeyCode, KeyEvent};
use crate::text::copy_vec;

verus! {

/// An inner node of the key trie: a display label, a sticky flag, and the
/// ordered bindings from one key to the subtrie below it.
#[derive(Debug, PartialEq)]
#[verifier::ext_equal]
pub struct KeyTrieNode {
    pub name: String,
    pub map: Vec<(KeyEvent, KeyTrie)>,
    pub is_sticky: bool,
}

/// A trie of key sequences: a leaf command, a sequence of commands, or an
/// inner node.
#[derive(Debug, PartialEq)]
#[verifier::ext_equal]
pub enum KeyTrie {
    MappableCommand(MappableCommand),
    Sequence(Vec<MappableCommand>),
    Node(KeyTrieNode),
}

/// The mathematical value of a trie node: its label, its bindings in order,
/// and its sticky flag.
#[verifier::ext_equal]
pub struct NodeView {
    pub name: Seq<char>,
    pub bindings: Seq<(KeyEvent, TrieView)>,
    pub is_sticky: bool,
}

/// The mathematical value of a key trie.
#[verifier::ext_equal]
pub enum TrieView {
    Command(MappableCommand),
    Sequence(Seq<MappableCommand>),
    Node(NodeView),
}

/// The mathematical value of a node.
pub open spec fn node_view(n: KeyTrieNode) -> NodeView
    decreases n,
    via node_view_decreases
{
    NodeView {
        name: n.name@,
        bindings: Seq::new(
            n.map@.len(),
            |i: int|
                if 0 <= i < n.map@.len() {
                    (n.map@[i].0, trie_view(n.map@[i].1))
                } else {
                    arbitrary()
                },
        ),
        is_sticky: n.is_sticky,
    }
}

#[via_fn]
proof fn node_view_decreases(n: KeyTrieNode) {
    assert forall|i: int| 0 <= i < n.map@.len() implies decreases_to!(n => n.map@[i].1) by {
        assert(decreases_to!(n => n.map));
        vstd::std_specs::vec::axiom_vec_index_decreases(n.map, i);
        assert(decreases_to!(n.map@[i] => n.map@[i].1));
    }
}

/// The mathematical value of a trie.
pub open spec fn trie_view(t: KeyTrie) -> TrieView
    decreases t,
{
    match t {
        KeyTrie::MappableCommand(c) => TrieView::Command(c),
        KeyTrie::Sequence(cmds) => TrieView::Sequence(cmds@),
        KeyTrie::Node(n) => TrieView::Node(node_view(n)),
    }
}

/// The first binding for a key among ordered bindings.
pub open spec fn spec_assoc_get(m: Seq<(KeyEvent, TrieView)>, k: KeyEvent) -> Option<TrieView>
    decreases m.len(),
{
    if m.len() == 0 {
        None
    } else if m[0].0 == k {
        Some(m[0].1)
    } else {
        spec_assoc_get(m.drop_first(), k)
    }
}

/// Well-formed node: no key is bound twice, and every subtrie is well-formed.
pub open spec fn node_wf(nv: NodeView) -> bool
    decreases nv,
    via node_wf_decreases
{
    &&& (forall|i: int, j: int|
        0 <= i < j < nv.bindings.len() ==> (#[trigger] nv.bindings[i]).0 != (
        #[trigger] nv.bindings[j]).0)
    &&& (forall|i: int| 0 <= i < nv.bindings.len() ==> trie_wf((#[trigger] nv.bindings[i]).1))
}

#[via_fn]
proof fn node_wf_decreases(nv: NodeView) {
    assert forall|i: int| 0 <= i < nv.bindings.len() implies decreases_to!(nv => nv.bindings[i].1)
    by {
        assert(decreases_to!(nv => nv.bindings));
        vstd::seq::axiom_seq_index_decreases(nv.bindings, i);
        assert(decreases_to!(nv.bindings[i] => nv.bindings[i].1));
    }
}

/// Well-formed trie: every node in it is well-formed.
pub open spec fn trie_wf(tv: TrieView) -> bool
    decreases tv,
{
    match tv {
        TrieView::Command(_) => true,
        TrieView::Sequence(_) => true,
        TrieView::Node(nv) => node_wf(nv),
    }
}

/// Following a whole key sequence down a trie: the subtrie it leads to, if
/// each key in turn is bound at an inner node.
pub open spec fn spec_search(tv: TrieView, keys: Seq<KeyEvent>) -> Option<TrieView>
    decreases keys.len(),
{
    if keys.len() == 0 {
        Some(tv)
    } else {
        match tv {
            TrieView::Node(nv) => match spec_assoc_get(nv.bindings, keys[0]) {
                Some(sub) => spec_search(sub, keys.drop_first()),
                None => None,
            },
            _ => None,
        }
    }
}

/// A binding found by key lookup is one of the node's subtries.
pub proof fn lemma_assoc_get_found(m: Seq<(KeyEvent, TrieView)>, k: KeyEvent)
    requires
        spec_assoc_get(m, k) is Some,
    ensures
        exists|i: int|
            0 <= i < m.len() && (#[trigger] m[i]).0 == k && m[i].1 == spec_assoc_get(m, k)->Some_0,
    decreases m.len(),
{
    if m.len() > 0 && m[0].0 != k {
        lemma_assoc_get_found(m.drop_first(), k);
        let i0 = choose|i: int|
            0 <= i < m.drop_first().len() && (#[trigger] m.drop_first()[i]).0 == k
                && m.drop_first()[i].1 == spec_assoc_get(m.drop_first(), k)->Some_0;
        assert(m[i0 + 1] == m.drop_first()[i0]);
    }
}

/// The root a mode resolves to is one of the map's tries.
pub proof fn lemma_mode_root_found(m: Seq<(Mode, KeyTrie)>, mode: Mode)
    requires
        spec_mode_root(m, mode) is Some,
    ensures
        exists|i: int|
            0 <= i < m.len() && (#[trigger] m[i]).1 == spec_mode_root(m, mode)->Some_0,
    decreases m.len(),
{
    if m.len() > 0 && m[0].0 != mode {
        lemma_mode_root_found(m.drop_first(), mode);
        let i0 = choose|i: int|
            0 <= i < m.drop_first().len() && (#[trigger] m.drop_first()[i]).1 == spec_mode_root(
                m.drop_first(),
                mode,
            )->Some_0;
        assert(m[i0 + 1] == m.drop_first()[i0]);
    }
}

/// Searching a well-formed trie only ever reaches well-formed subtries.
pub proof fn lemma_search_wf(tv: TrieView, keys: Seq<KeyEvent>)
    requires
        trie_wf(tv),
        spec_search(tv, keys) is Some,
    ensures
        trie_wf(spec_search(tv, keys)->Some_0),
    decreases keys.len(),
{
    if keys.len() > 0 {
        match tv {
            TrieView::Node(nv) => {
                let sub = spec_assoc_get(nv.bindings, keys[0])->Some_0;
                lemma_assoc_get_found(nv.bindings, keys[0]);
                assert(trie_wf(sub));
                lemma_search_wf(sub, keys.drop_first());
            },
            _ => {},
        }
    }
}

impl KeyTrieNode {
    /// What this node binds, by key.
    pub open spec fn spec_get(&self, k: KeyEvent) -> Option<TrieView> {
        spec_assoc_get(node_view(*self).bindings, k)
    }

    /// A fresh node with the given label and bindings.
    pub fn new(name: &str, map: Vec<(KeyEvent, KeyTrie)>) -> (r: KeyTrieNode)
        ensures
            r.map@ == map@,
            r.name@ == name@,
            !r.is_sticky,
    {
        KeyTrieNode { name: name.to_owned(), map, is_sticky: false }
    }

    /// An empty node with the given label.
    pub fn empty(name: &str) -> (r: KeyTrieNode)
        ensures
            node_view(r) == (NodeView {
                name: name@,
                bindings: Seq::<(KeyEvent, TrieView)>::empty(),
                is_sticky: false,
            }),
            node_wf(node_view(r)),
    {
        let r = KeyTrieNode { name: name.to_owned(), map: Vec::new(), is_sticky: false };
        proof {
            assert(node_view(r).bindings =~= Seq::<(KeyEvent, TrieView)>::empty());
            assert(node_view(r) =~= (NodeView {
                name: name@,
                bindings: Seq::<(KeyEvent, TrieView)>::empty(),
                is_sticky: false,
            }));
        }
        r
    }

    /// Bind a key. Binding the same key twice is a construction-time error:
    /// the node is left unchanged and the offending key is handed back.
    pub fn insert(&mut self, key: KeyEvent, trie: KeyTrie) -> (r: Result<(), KeyEvent>)
        ensures
            old(self).spec_get(key) is Some ==> r == Err::<(), KeyEvent>(key) && *final(self)
                == *old(self),
            old(self).spec_get(key) is None ==> {
                &&& r == Ok::<(), KeyEvent>(())
                &&& node_view(*final(self)).bindings == node_view(*old(self)).bindings.push(
                    (key, trie_view(trie)),
                )
                &&& final(self).name == old(self).name
                &&& final(self).is_sticky == old(self).is_sticky
            },
    {
        if self.get(&key).is_some() {
            Err(key)
        } else {
            let ghost before = *self;
            self.map.push((key, trie));
            proof {
                assert(node_view(*self).bindings =~= node_view(before).bindings.push(
                    (key, trie_view(trie)),
                ));
            }
            Ok(())
        }
    }

    /// Look a key up among this node's bindings.
    pub fn get(&self, k: &KeyEvent) -> (r: Option<&KeyTrie>)
        ensures
            match r {
                Some(t) => self.spec_get(*k) == Some(trie_view(*t)),
                None => self.spec_get(*k) is None,
            },
    {
        let ghost b = node_view(*self).bindings;
        let n: usize = self.map.len();
        let mut i: usize = 0;
        proof {
            assert(b.skip(0) =~= b);
        }
        while i < n
            invariant
                b == node_view(*self).bindings,
                n == self.map@.len(),
                b.len() == n,
                i <= n,
                spec_assoc_get(b, *k) == spec_assoc_get(b.skip(i as int), *k),
            decreases n - i,
        {
            proof {
                assert(b.skip(i as int)[0] == b[i as int]);
                assert(b[i as int] == (self.map@[i as int].0, trie_view(self.map@[i as int].1)));
                assert(b.skip(i as int).drop_first() =~= b.skip(i as int + 1));
            }
            if self.map[i].0 == *k {
                return Some(&self.map[i].1);
            }
            i = i + 1;
        }
        proof {
            assert(b.skip(n as int) =~= Seq::<(KeyEvent, TrieView)>::empty());
        }
        None
    }

    /// A copy of this node with the same mathematical value.
    pub fn deep_clone(&self) -> (r: KeyTrieNode)
        ensures
            node_view(r) == node_view(*self),
        decreases *self,
    {
        let name = self.name.clone();
        let mut map: Vec<(KeyEvent, KeyTrie)> = Vec::new();
        let n: usize = self.map.len();
        let mut i: usize = 0;
        while i < n
            invariant
                n == self.map@.len(),
                i <= n,
                map@.len() == i,
                forall|j: int|
                    0 <= j < i ==> (#[trigger] map@[j]).0 == self.map@[j].0 && trie_view(map@[j].1)
                        == trie_view(self.map@[j].1),
            decreases n - i,
        {
            let sub = self.map[i].1.deep_clone();
            map.push((self.map[i].0, sub));
            i = i + 1;
        }
        let r = KeyTrieNode { name, map, is_sticky: self.is_sticky };
        proof {
            assert(node_view(r).bindings =~= node_view(*self).bindings);
            assert(node_view(r) =~= node_view(*self));
        }
        r
    }
}

impl KeyTrie {
    /// Follow a slice of keys down this trie.
    pub fn search<'a>(&'a self, keys: &[KeyEvent]) -> (r: Option<&'a KeyTrie>)
        ensures
            match r {
                Some(t) => spec_search(trie_view(*self), keys@) == Some(trie_view(*t)),
                None => spec_search(trie_view(*self), keys@) is None,
            },
    {
        let mut trie: &KeyTrie = self;
        let n: usize = keys.len();
        let mut i: usize = 0;
        proof {
            assert(keys@.skip(0) =~= keys@);
        }
        while i < n
            invariant
                n == keys@.len(),
                i <= n,
                spec_search(trie_view(*self), keys@) == spec_search(
                    trie_view(*trie),
                    keys@.skip(i as int),
                ),
            decreases n - i,
        {
            proof {
                assert(keys@.skip(i as int)[0] == keys@[i as int]);
                assert(keys@.skip(i as int).drop_first() =~= keys@.skip(i as int + 1));
            }
            trie = match trie {
                KeyTrie::Node(map) => match map.get(&keys[i]) {
                    Some(sub) => sub,
                    None => {
                        return None;
                    },
                },
                _ => {
                    return None;
                },
            };
            i = i + 1;
        }
        proof {
            assert(keys@.skip(n as int) =~= Seq::<KeyEvent>::empty());
        }
        Some(trie)
    }

    /// A copy of this trie with the same mathematical value.
    pub fn deep_clone(&self) -> (r: KeyTrie)
        ensures
            trie_view(r) == trie_view(*self),
        decreases *self,
    {
        match self {
            KeyTrie::MappableCommand(cmd) => KeyTrie::MappableCommand(*cmd),
            KeyTrie::Sequence(cmds) => KeyTrie::Sequence(copy_vec(cmds)),
            KeyTrie::Node(n) => KeyTrie::Node(n.deep_clone()),
        }
    }
}

/// What one keystroke resolved to.
#[derive(Debug, PartialEq)]
pub enum KeymapResult {
    /// Needs more keys to reach a command. Holds the node whose bindings are
    /// the valid next keystrokes.
    Pending(KeyTrieNode),
    Matched(MappableCommand),
    /// Matched a sequence of commands to execute.
    MatchedSequence(Vec<MappableCommand>),
    /// The key is not bound at the lookup root.
    NotFound,
    /// The key is invalid in combination with the previous keys. Holds the
    /// keys leading up to and including the current (invalid) key.
    Cancelled(Vec<KeyEvent>),
}

/// The plain Escape key, which cancels pending keystrokes.
pub open spec fn esc_key() -> KeyEvent {
    KeyEvent::spec_plain(KeyCode::Esc)
}

/// The keymap root bound to a mode.
pub open spec fn spec_mode_root(m: Seq<(Mode, KeyTrie)>, mode: Mode) -> Option<KeyTrie>
    decreases m.len(),
{
    if m.len() == 0 {
        None
    } else if m[0].0 == mode {
        Some(m[0].1)
    } else {
        spec_mode_root(m.drop_first(), mode)
    }
}

/// Where the first key of a buffer is looked up: the active sticky node if
/// one is set, else the mode's root.
pub open spec fn spec_stage1(
    sticky: Option<KeyTrieNode>,
    root: TrieView,
    first: KeyEvent,
) -> Option<TrieView> {
    match sticky {
        Some(n) => spec_assoc_get(node_view(n).bindings, first),
        None => match root {
            TrieView::Node(nv) => spec_assoc_get(nv.bindings, first),
            _ => None,
        },
    }
}

/// The per-mode keymaps, together with the resolver's transient state: the
/// pending-keys buffer and the optional active sticky node.
pub struct Keymaps {
    pub map: Vec<(Mode, KeyTrie)>,
    /// Pending keys waiting for the next keystroke, relative to the sticky
    /// node if one is active.
    pub state: Vec<KeyEvent>,
    /// The active sticky node, if one was entered.
    pub sticky: Option<KeyTrieNode>,
}

/// Everything `Keymaps::get` does to the resolver and returns, as one
/// relation between the state before (`s0`) and after (`s1`).
pub open spec fn get_post(
    s0: Keymaps,
    mode: Mode,
    key: KeyEvent,
    s1: Keymaps,
    r: KeymapResult,
) -> bool {
    let root = trie_view(spec_mode_root(s0.map@, mode)->Some_0);
    &&& s1.map == s0.map
    &&& if key == esc_key() && s0.state@.len() > 0 {
        &&& s1.state@.len() == 0
        &&& s1.sticky == s0.sticky
        &&& (r matches KeymapResult::Cancelled(v) && v@ == s0.state@)
    } else {
        let sticky1 = if key == esc_key() {
            None
        } else {
            s0.sticky
        };
        let first = if s0.state@.len() > 0 {
            s0.state@[0]
        } else {
            key
        };
        match spec_stage1(sticky1, root, first) {
            None => {
                &&& s1.state@ == s0.state@
                &&& s1.sticky == sticky1
                &&& r == KeymapResult::NotFound
            },
            Some(TrieView::Command(cmd)) => {
                &&& s1.state@ == s0.state@
                &&& s1.sticky == sticky1
                &&& r == KeymapResult::Matched(cmd)
            },
            Some(TrieView::Sequence(cmds)) => {
                &&& s1.state@ == s0.state@
                &&& s1.sticky == sticky1
                &&& (r matches KeymapResult::MatchedSequence(v) && v@ == cmds)
            },
            Some(TrieView::Node(nv)) => {
                let buf = s0.state@.push(key);
                match spec_search(TrieView::Node(nv), buf.drop_first()) {
                    Some(TrieView::Node(found)) => if found.is_sticky {
                        &&& s1.state@.len() == 0
                        &&& (s1.sticky matches Some(st) && node_view(st) == found)
                        &&& (r matches KeymapResult::Pending(p) && node_view(p) == found)
                    } else {
                        &&& s1.state@ == buf
                        &&& s1.sticky == sticky1
                        &&& (r matches KeymapResult::Pending(p) && node_view(p) == found)
                    },
                    Some(TrieView::Command(cmd)) => {
                        &&& s1.state@.len() == 0
                        &&& s1.sticky == sticky1
                        &&& r == KeymapResult::Matched(cmd)
                    },
                    Some(TrieView::Sequence(cmds)) => {
                        &&& s1.state@.len() == 0
                        &&& s1.sticky == sticky1
                        &&& (r matches KeymapResult::MatchedSequence(v) && v@ == cmds)
                    },
                    None => {
                        &&& s1.state@.len() == 0
                        &&& s1.sticky == sticky1
                        &&& (r matches KeymapResult::Cancelled(v) && v@ == buf)
                    },
                }
            },
        }
    }
}

impl Keymaps {
    /// Every trie well-formed, the sticky node too if one is active.
    pub open spec fn wf(&self) -> bool {
        &&& (forall|i: int|
            0 <= i < self.map@.len() ==> trie_wf(trie_view((#[trigger] self.map@[i]).1)))
        &&& match self.sticky {
            Some(n) => node_wf(node_view(n)),
            None => true,
        }
    }

    /// The per-mode roots.
    pub open spec fn spec_map(&self) -> Seq<(Mode, KeyTrie)> {
        self.map@
    }

    /// The pending-keys buffer.
    pub open spec fn spec_pending(&self) -> Seq<KeyEvent> {
        self.state@
    }

    /// A resolver over the given per-mode roots, with no pending keys and no
    /// sticky node.
    pub fn new(map: Vec<(Mode, KeyTrie)>) -> (r: Keymaps)
        ensures
            r.map == map,
            r.state@.len() == 0,
            r.sticky is None,
    {
        Keymaps { map, state: Vec::new(), sticky: None }
    }

    /// The per-mode roots.
    pub fn map(&self) -> (r: &Vec<(Mode, KeyTrie)>)
        ensures
            r == &self.map,
    {
        &self.map
    }

    /// The pending keys, in the order they were pressed.
    pub fn pending(&self) -> (r: &Vec<KeyEvent>)
        ensures
            r == &self.state,
    {
        &self.state
    }

    /// The trie root bound to a mode.
    fn mode_root(&self, mode: Mode) -> (r: &KeyTrie)
        requires
            spec_mode_root(self.map@, mode) is Some,
        ensures
            *r == spec_mode_root(self.map@, mode)->Some_0,
    {
        let n: usize = self.map.len();
        let mut i: usize = 0;
        proof {
            assert(self.map@.skip(0) =~= self.map@);
        }
        while i < n
            invariant
                n == self.map@.len(),
                i <= n,
                spec_mode_root(self.map@, mode) is Some,
                spec_mode_root(self.map@, mode) == spec_mode_root(self.map@.skip(i as int), mode),
            decreases n - i,
        {
            proof {
                assert(self.map@.skip(i as int)[0] == self.map@[i as int]);
                assert(self.map@.skip(i as int).drop_first() =~= self.map@.skip(i as int + 1));
            }
            if self.map[i].0 == mode {
                return &self.map[i].1;
            }
            i = i + 1;
        }
        proof {
            assert(self.map@.skip(n as int) =~= Seq::<(Mode, KeyTrie)>::empty());
        }
        vstd::pervasive::unreached()
    }

    /// Look `key` up and try to resolve a command. Escape cancels pending
    /// keystrokes; with no pending keystrokes it clears an active sticky
    /// node. Otherwise the pending buffer extended by `key` is followed from
    /// the lookup root: a leaf resolves, an inner node leaves the resolver
    /// pending (or installs the node, if it is sticky), a miss cancels or —
    /// with nothing pending — reports the key unbound.
    #[verifier::loop_isolation(false)]
    pub fn get(&mut self, mode: Mode, key: KeyEvent) -> (r: KeymapResult)
        requires
            old(self).wf(),
            spec_mode_root(old(self).map@, mode) is Some,
        ensures
            final(self).wf(),
            get_post(*old(self), mode, key, *final(self), r),
    {
        let ghost s0 = *self;
        let esc = key == KeyEvent::plain(KeyCode::Esc);
        if esc {
            if self.state.len() > 0 {
                let out = copy_vec(&self.state);
                self.state.clear();
                return KeymapResult::Cancelled(out);
            }
            self.sticky = None;
        }
        let ghost sticky1 = self.sticky;
        let ghost root = trie_view(spec_mode_root(s0.map@, mode)->Some_0);
        let first: KeyEvent = if self.state.len() > 0 {
            self.state[0]
        } else {
            key
        };
        let stage1: Option<&KeyTrie> = match &self.sticky {
            Some(n) => n.get(&first),
            None => match self.mode_root(mode) {
                KeyTrie::Node(n) => n.get(&first),
                _ => None,
            },
        };
        let t: &KeyTrie = match stage1 {
            None => {
                return KeymapResult::NotFound;
            },
            Some(KeyTrie::MappableCommand(cmd)) => {
                return KeymapResult::Matched(*cmd);
            },
            Some(KeyTrie::Sequence(cmds)) => {
                return KeymapResult::MatchedSequence(copy_vec(cmds));
            },
            Some(t) => t,
        };
        let ghost buf = s0.state@.push(key);
        let mut rest: Vec<KeyEvent> = Vec::new();
        let n_state: usize = self.state.len();
        if n_state > 0 {
            let mut i: usize = 1;
            while i < n_state
                invariant
                    1 <= i <= n_state,
                    n_state == self.state@.len(),
                    rest@ == self.state@.subrange(1, i as int),
                decreases n_state - i,
            {
                rest.push(self.state[i]);
                i = i + 1;
                proof {
                    assert(rest@ =~= self.state@.subrange(1, i as int));
                }
            }
            rest.push(key);
        }
        proof {
            assert(rest@ =~= buf.drop_first());
        }
        proof {
            let b = match sticky1 {
                Some(n) => node_view(n).bindings,
                None => root->Node_0.bindings,
            };
            if sticky1 is None {
                lemma_mode_root_found(s0.map@, mode);
            }
            lemma_assoc_get_found(b, first);
            assert(trie_wf(trie_view(*t)));
        }
        let found = t.search(rest.as_slice());
        proof {
            if found is Some {
                lemma_search_wf(trie_view(*t), rest@);
            }
        }
        match found {
            None => {
                let mut out = copy_vec(&self.state);
                out.push(key);
                self.state.clear();
                KeymapResult::Cancelled(out)
            },
            Some(KeyTrie::MappableCommand(cmd)) => {
                let c = *cmd;
                self.state.clear();
                KeymapResult::Matched(c)
            },
            Some(KeyTrie::Sequence(cmds)) => {
                let v = copy_vec(cmds);
                self.state.clear();
                KeymapResult::MatchedSequence(v)
            },
            Some(KeyTrie::Node(n)) => {
                if n.is_sticky {
                    let for_sticky = n.deep_clone();
                    let for_result = n.deep_clone();
                    self.state.clear();
                    self.sticky = Some(for_sticky);
                    KeymapResult::Pending(for_result)
                } else {
                    let p = n.deep_clone();
                    self.state.push(key);
                    KeymapResult::Pending(p)
                }
            },
        }
    }
}

/// The mathematical value of the default "Goto" node.
pub open spec fn spec_goto_node_view() -> NodeView {
    NodeView {
        name: "Goto"@,
        bindings: seq![
            (
                KeyEvent::spec_plain(KeyCode::Char('g')),
                TrieView::Command(MappableCommand::GotoFileStart),
            ),
            (
                KeyEvent::spec_plain(KeyCode::Char('e')),
                TrieView::Command(MappableCommand::GotoWordEnd),
            ),
        ],
        is_sticky: false,
    }
}

/// The mathematical value of the default Normal-mode root.
pub open spec fn spec_normal_root_view() -> NodeView {
    NodeView {
        name: "Normal mode"@,
        bindings: seq![
            (
                KeyEvent::spec_plain(KeyCode::Char('h')),
                TrieView::Command(MappableCommand::MoveCursorLeft),
            ),
            (KeyEvent::spec_plain(KeyCode::Left), TrieView::Command(MappableCommand::MoveCursorLeft)),
            (
                KeyEvent::spec_plain(KeyCode::Char('j')),
                TrieView::Command(MappableCommand::MoveCursorDown),
            ),
            (KeyEvent::spec_plain(KeyCode::Down), TrieView::Command(MappableCommand::MoveCursorDown)),
            (
                KeyEvent::spec_plain(KeyCode::Char('k')),
                TrieView::Command(MappableCommand::MoveCursorUp),
            ),
            (KeyEvent::spec_plain(KeyCode::Up), TrieView::Command(MappableCommand::MoveCursorUp)),
            (
                KeyEvent::spec_plain(KeyCode::Char('l')),
                TrieView::Command(MappableCommand::MoveCursorRight),
            ),
            (
                KeyEvent::spec_plain(KeyCode::Right),
                TrieView::Command(MappableCommand::MoveCursorRight),
            ),
            (
                KeyEvent::spec_plain(KeyCode::Char('v')),
                TrieView::Command(MappableCommand::SelectMode),
            ),
            (KeyEvent::spec_plain(KeyCode::Char('G')), TrieView::Command(MappableCommand::GotoLine)),
            (KeyEvent::spec_plain(KeyCode::Char('g')), TrieView::Node(spec_goto_node_view())),
            (
                KeyEvent::spec_plain(KeyCode::Char(':')),
                TrieView::Command(MappableCommand::CommandMode),
            ),
        ],
        is_sticky: false,
    }
}

/// The built-in keymap: Normal-mode movement, "G" to a line, the "g" Goto
/// node, "v" and ":" for mode switches.
pub fn default_keymap() -> (r: Vec<(Mode, KeyTrie)>)
    ensures
        r@.len() == 1,
        r@[0].0 == Mode::Normal,
        trie_view(r@[0].1) == TrieView::Node(spec_normal_root_view()),
        spec_mode_root(r@, Mode::Normal) == Some(r@[0].1),
        trie_wf(trie_view(r@[0].1)),
{
    let mut gmap: Vec<(KeyEvent, KeyTrie)> = Vec::new();
    gmap.push(
        (
            KeyEvent::plain(KeyCode::Char('g')),
            KeyTrie::MappableCommand(MappableCommand::GotoFileStart),
        ),
    );
    gmap.push(
        (
            KeyEvent::plain(KeyCode::Char('e')),
            KeyTrie::MappableCommand(MappableCommand::GotoWordEnd),
        ),
    );
    let goto_node = KeyTrieNode::new("Goto", gmap);
    proof {
        assert(node_view(goto_node).bindings =~= spec_goto_node_view().bindings);
        assert(node_view(goto_node) =~= spec_goto_node_view());
        assert(node_wf(node_view(goto_node)));
    }
    let mut nmap: Vec<(KeyEvent, KeyTrie)> = Vec::new();
    nmap.push(
        (
            KeyEvent::plain(KeyCode::Char('h')),
            KeyTrie::MappableCommand(MappableCommand::MoveCursorLeft),
        ),
    );
    nmap.push(
        (KeyEvent::plain(KeyCode::Left), KeyTrie::MappableCommand(MappableCommand::MoveCursorLeft)),
    );
    nmap.push(
        (
            KeyEvent::plain(KeyCode::Char('j')),
            KeyTrie::MappableCommand(MappableCommand::MoveCursorDown),
        ),
    );
    nmap.push(
        (KeyEvent::plain(KeyCode::Down), KeyTrie::MappableCommand(MappableCommand::MoveCursorDown)),
    );
    nmap.push(
        (
            KeyEvent::plain(KeyCode::Char('k')),
            KeyTrie::MappableCommand(MappableCommand::MoveCursorUp),
        ),
    );
    nmap.push(
        (KeyEvent::plain(KeyCode::Up), KeyTrie::MappableCommand(MappableCommand::MoveCursorUp)),
    );
    nmap.push(
        (
            KeyEvent::plain(KeyCode::Char('l')),
            KeyTrie::MappableCommand(MappableCommand::MoveCursorRight),
        ),
    );
    nmap.push(
        (
            KeyEvent::plain(KeyCode::Right),
            KeyTrie::MappableCommand(MappableCommand::MoveCursorRight),
        ),
    );
    nmap.push(
        (KeyEvent::plain(KeyCode::Char('v')), KeyTrie::MappableCommand(MappableCommand::SelectMode)),
    );
    nmap.push(
        (KeyEvent::plain(KeyCode::Char('G')), KeyTrie::MappableCommand(MappableCommand::GotoLine)),
    );
    nmap.push((KeyEvent::plain(KeyCode::Char('g')), KeyTrie::Node(goto_node)));
    nmap.push(
        (
            KeyEvent::plain(KeyCode::Char(':')),
            KeyTrie::MappableCommand(MappableCommand::CommandMode),
        ),
    );
    let normal = KeyTrieNode::new("Normal mode", nmap);
    proof {
        assert(node_view(normal).bindings =~= spec_normal_root_view().bindings);
        assert(node_view(normal) =~= spec_normal_root_view());
        let b = node_view(normal).bindings;
        assert forall|i: int| 0 <= i < b.len() implies trie_wf((#[trigger] b[i]).1) by {
            if i == 10 {
                assert(b[i].1 == TrieView::Node(spec_goto_node_view()));
            } else {
                assert(b[i].1 is Command);
            }
        }
        assert(node_wf(node_view(normal)));
    }
    let mut r: Vec<(Mode, KeyTrie)> = Vec::new();
    r.push((Mode::Normal, KeyTrie::Node(normal)));
    r
}

/// One step of feeding a bound path: with the first `i` keys of the path
/// pending and no sticky node active, the next key of the path leaves the
/// resolver Pending while the path is proper, and resolves the bound command
/// exactly at full-path completion.
pub proof fn lemma_prefix_step(
    s0: Keymaps,
    mode: Mode,
    keys: Seq<KeyEvent>,
    i: int,
    s1: Keymaps,
    r: KeymapResult,
)
    requires
        spec_mode_root(s0.map@, mode) is Some,
        trie_view(spec_mode_root(s0.map@, mode)->Some_0) is Node,
        0 <= i < keys.len(),
        forall|j: int| 0 <= j < keys.len() ==> keys[j] != esc_key(),
        s0.sticky is None,
        s0.state@ == keys.take(i),
        forall|j: int|
            1 <= j < keys.len() ==> ((#[trigger] spec_search(
                trie_view(spec_mode_root(s0.map@, mode)->Some_0),
                keys.take(j),
            )) matches Some(TrieView::Node(nv)) && !nv.is_sticky),
        spec_search(trie_view(spec_mode_root(s0.map@, mode)->Some_0), keys) matches Some(sub)
            && (sub is Command || sub is Sequence),
        get_post(s0, mode, keys[i], s1, r),
    ensures
        s1.sticky is None,
        s1.map == s0.map,
        i < keys.len() - 1 ==> (r is Pending && s1.state@ == keys.take(i + 1)),
        i == keys.len() - 1 ==> s1.state@.len() == 0,
        i == keys.len() - 1 ==> match spec_search(
            trie_view(spec_mode_root(s0.map@, mode)->Some_0),
            keys,
        ) {
            Some(TrieView::Command(cmd)) => r == KeymapResult::Matched(cmd),
            Some(TrieView::Sequence(cmds)) => r matches KeymapResult::MatchedSequence(v) && v@
                == cmds,
            _ => false,
        },
{
    let rootv = trie_view(spec_mode_root(s0.map@, mode)->Some_0);
    let rnv = rootv->Node_0;
    let key = keys[i];
    assert(key != esc_key());
    assert(s0.state@.len() == i);
    let first = if i > 0 {
        keys[0]
    } else {
        key
    };
    assert(first == keys[0]);
    let buf = s0.state@.push(key);
    assert(buf =~= keys.take(i + 1));
    // The one-key prefix pins down what stage 1 of the lookup finds.
    assert(spec_search(rootv, keys.take(1)) == {
        match spec_assoc_get(rnv.bindings, keys[0]) {
            Some(sub) => spec_search(sub, keys.take(1).drop_first()),
            None => None::<TrieView>,
        }
    });
    assert(keys.take(1).drop_first() =~= Seq::<KeyEvent>::empty());
    if keys.len() == 1 {
        // The whole path is one key: stage 1 already resolves it.
        assert(keys.take(1) =~= keys);
        let sub = spec_assoc_get(rnv.bindings, keys[0])->Some_0;
        assert(spec_search(rootv, keys) == Some(sub));
        assert(spec_stage1(s0.sticky, rootv, first) == Some(sub));
    } else {
        assert(spec_search(rootv, keys.take(1)) matches Some(TrieView::Node(nv)) && !nv.is_sticky);
        let sub = spec_assoc_get(rnv.bindings, keys[0])->Some_0;
        assert(spec_search(rootv, keys.take(1)) == Some(sub));
        assert(spec_stage1(s0.sticky, rootv, first) == Some(sub));
        let nv = sub->Node_0;
        // The second stage continues from the subtrie under the first key,
        // which is exactly how the full search decomposes.
        assert(spec_search(rootv, buf) == {
            match spec_assoc_get(rnv.bindings, buf[0]) {
                Some(s) => spec_search(s, buf.drop_first()),
                None => None::<TrieView>,
            }
        });
        assert(buf[0] == keys[0]);
        assert(spec_search(TrieView::Node(nv), buf.drop_first()) == spec_search(rootv, buf));
        if i < keys.len() - 1 {
            assert(spec_search(rootv, keys.take(i + 1)) matches Some(TrieView::Node(nv2))
                && !nv2.is_sticky);
        } else {
            assert(keys.take(i + 1) =~= keys);
        }
    }
}

/// Prefix resolution over a whole bound path: starting from an idle
/// resolver, feeding a path whose proper prefixes all reach non-sticky inner
/// nodes yields Pending at every prefix step and resolves the bound command
/// (or command sequence) exactly at full-path completion, leaving the buffer
/// clear.
#[verifier::rlimit(60)]
pub proof fn lemma_prefix_resolution(
    mode: Mode,
    keys: Seq<KeyEvent>,
    states: Seq<Keymaps>,
    results: Seq<KeymapResult>,
)
    requires
        keys.len() >= 1,
        states.len() == keys.len() + 1,
        results.len() == keys.len(),
        spec_mode_root(states[0].map@, mode) is Some,
        trie_view(spec_mode_root(states[0].map@, mode)->Some_0) is Node,
        forall|j: int| 0 <= j < keys.len() ==> keys[j] != esc_key(),
        states[0].sticky is None,
        states[0].state@.len() == 0,
        forall|j: int|
            1 <= j < keys.len() ==> ((#[trigger] spec_search(
                trie_view(spec_mode_root(states[0].map@, mode)->Some_0),
                keys.take(j),
            )) matches Some(TrieView::Node(nv)) && !nv.is_sticky),
        spec_search(trie_view(spec_mode_root(states[0].map@, mode)->Some_0), keys) matches Some(sub)
            && (sub is Command || sub is Sequence),
        forall|i: int|
            0 <= i < keys.len() ==> get_post(
                #[trigger] states[i],
                mode,
                keys[i],
                states[i + 1],
                results[i],
            ),
    ensures
        forall|i: int| 0 <= i < keys.len() - 1 ==> (#[trigger] results[i]) is Pending,
        match spec_search(trie_view(spec_mode_root(states[0].map@, mode)->Some_0), keys) {
            Some(TrieView::Command(cmd)) => results.last() == KeymapResult::Matched(cmd),
            Some(TrieView::Sequence(cmds)) => results.last()
                matches KeymapResult::MatchedSequence(v) && v@ == cmds,
            _ => false,
        },
        states.last().state@.len() == 0,
{
    assert forall|i: int| 0 <= i < keys.len() - 1 implies (#[trigger] results[i]) is Pending by {
        lemma_prefix_chain_invariant(mode, keys, states, results, i);
    }
    let last = keys.len() - 1;
    lemma_prefix_chain_invariant(mode, keys, states, results, last);
    assert(results.last() == results[last]);
    assert(states.last() == states[last + 1]);
}

proof fn lemma_prefix_chain_invariant(
    mode: Mode,
    keys: Seq<KeyEvent>,
    states: Seq<Keymaps>,
    results: Seq<KeymapResult>,
    i: int,
)
    requires
        keys.len() >= 1,
        states.len() == keys.len() + 1,
        results.len() == keys.len(),
        spec_mode_root(states[0].map@, mode) is Some,
        trie_view(spec_mode_root(states[0].map@, mode)->Some_0) is Node,
        forall|j: int| 0 <= j < keys.len() ==> keys[j] != esc_key(),
        states[0].sticky is None,
        states[0].state@.len() == 0,
        forall|j: int|
            1 <= j < keys.len() ==> ((#[trigger] spec_search(
                trie_view(spec_mode_root(states[0].map@, mode)->Some_0),
                keys.take(j),
            )) matches Some(TrieView::Node(nv)) && !nv.is_sticky),
        spec_search(trie_view(spec_mode_root(states[0].map@, mode)->Some_0), keys) matches Some(sub)
            && (sub is Command || sub is Sequence),
        forall|k: int|
            0 <= k < keys.len() ==> get_post(
                #[trigger] states[k],
                mode,
                keys[k],
                states[k + 1],
                results[k],
            ),
        0 <= i < keys.len(),
    ensures
        states[i].sticky is None,
        states[i].state@ == keys.take(i),
        states[i].map == states[0].map,
        states[i + 1].map == states[0].map,
        i < keys.len() - 1 ==> results[i] is Pending && states[i + 1].state@ == keys.take(i + 1)
            && states[i + 1].sticky is None,
        i == keys.len() - 1 ==> states[i + 1].state@.len() == 0 && match spec_search(
            trie_view(spec_mode_root(states[0].map@, mode)->Some_0),
            keys,
        ) {
            Some(TrieView::Command(cmd)) => results[i] == KeymapResult::Matched(cmd),
            Some(TrieView::Sequence(cmds)) => results[i] matches KeymapResult::MatchedSequence(v)
                && v@ == cmds,
            _ => false,
        },
    decreases i,
{
    if i == 0 {
        assert(states[0].state@ =~= keys.take(0));
    } else {
        lemma_prefix_chain_invariant(mode, keys, states, results, i - 1);
    }
    assert(get_post(states[i], mode, keys[i], states[i + 1], results[i]));
    lemma_prefix_step(states[i], mode, keys, i, states[i + 1], results[i]);
}

/// Feeding an unbound continuation after a partial match: the resolver
/// cancels and hands back the full accumulated buffer, the partial keys plus
/// the offending key.
pub proof fn lemma_unbound_continuation_cancelled(
    s0: Keymaps,
    mode: Mode,
    key: KeyEvent,
    s1: Keymaps,
    r: KeymapResult,
)
    requires
        spec_mode_root(s0.map@, mode) is Some,
        trie_view(spec_mode_root(s0.map@, mode)->Some_0) is Node,
        key != esc_key(),
        s0.sticky is None,
        s0.state@.len() > 0,
        // a partial match is pending: the buffer leads to an inner node
        spec_search(trie_view(spec_mode_root(s0.map@, mode)->Some_0), s0.state@) matches Some(
            TrieView::Node(_),
        ),
        // the continuation is unbound
        spec_search(
            trie_view(spec_mode_root(s0.map@, mode)->Some_0),
            s0.state@.push(key),
        ) is None,
        get_post(s0, mode, key, s1, r),
    ensures
        r matches KeymapResult::Cancelled(v) && v@ == s0.state@.push(key),
        s1.state@.len() == 0,
        s1.sticky is None,
{
    let rootv = trie_view(spec_mode_root(s0.map@, mode)->Some_0);
    let rnv = rootv->Node_0;
    let first = s0.state@[0];
    let p = s0.state@;
    assert(spec_search(rootv, p) == {
        match spec_assoc_get(rnv.bindings, p[0]) {
            Some(s) => spec_search(s, p.drop_first()),
            None => None::<TrieView>,
        }
    });
    let sub = spec_assoc_get(rnv.bindings, first)->Some_0;
    // the subtrie under the first key must be an inner node, else the search
    // over the nonempty buffer could not have reached a node
    if p.len() == 1 {
        assert(p.drop_first() =~= Seq::<KeyEvent>::empty());
        assert(spec_search(rootv, p) == Some(sub));
    } else {
        assert(sub is Node) by {
            if !(sub is Node) {
                assert(spec_search(sub, p.drop_first()) is None);
            }
        }
    }
    assert(spec_stage1(s0.sticky, rootv, first) == Some(sub));
    let buf = p.push(key);
    assert(spec_search(rootv, buf) == {
        match spec_assoc_get(rnv.bindings, buf[0]) {
            Some(s) => spec_search(s, buf.drop_first()),
            None => None::<TrieView>,
        }
    });
    assert(buf[0] == first);
    assert(spec_search(sub, buf.drop_first()) is None);
}

impl Default for Keymaps {
    /// A resolver over the default keymap.
    fn default() -> (r: Keymaps)
        ensures
            r.state@.len() == 0,
            r.sticky is None,
            r.wf(),
            spec_mode_root(r.map@, Mode::Normal) is Some,
            trie_view(spec_mode_root(r.map@, Mode::Normal)->Some_0) == TrieView::Node(
                spec_normal_root_view(),
            ),
    {
        Keymaps::new(default_keymap())
    }
}

} // verus!
