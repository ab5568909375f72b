//! Command groups: the tree of named commands and child groups through which
//! a call name of the form `group:command` is routed.

use vstd::prelude::*;

use crate::command::{spec_split_command, split_command};
use crate::value::number::{first_index, lemma_first_index_bound};

verus! {

/// Index of the first entry named `name`; the length when none is
pub open spec fn first_named<T>(entries: Seq<(String, T)>, name: Seq<char>) -> int
    decreases entries.len(),
{
    if entries.len() == 0 {
        0
    } else if entries[0].0@ == name {
        0
    } else {
        1 + first_named(entries.drop_first(), name)
    }
}

/// What a list of named entries holds under `name`: the first entry so named
pub open spec fn named<T>(entries: Seq<(String, T)>, name: Seq<char>) -> Option<T> {
    let i = first_named(entries, name);
    if 0 <= i < entries.len() {
        Some(entries[i].1)
    } else {
        None
    }
}

proof fn lemma_first_named_bound<T>(entries: Seq<(String, T)>, name: Seq<char>)
    ensures
        0 <= first_named(entries, name) <= entries.len(),
        first_named(entries, name) < entries.len() ==> entries[first_named(entries, name)].0@
            == name,
        forall|j: int| 0 <= j < first_named(entries, name) ==> entries[j].0@ != name,
    decreases entries.len(),
{
    if entries.len() > 0 && entries[0].0@ != name {
        lemma_first_named_bound(entries.drop_first(), name);
        assert forall|j: int| 0 <= j < first_named(entries, name) implies entries[j].0@
            != name by {
            if j > 0 {
                assert(entries[j] == entries.drop_first()[j - 1]);
            }
        }
    }
}

/// The first index named `name` is the only index before which no entry is so named
/// and at which one is (or which is the length).
proof fn lemma_first_named_unique<T>(entries: Seq<(String, T)>, name: Seq<char>, i: int)
    requires
        0 <= i <= entries.len(),
        i < entries.len() ==> entries[i].0@ == name,
        forall|j: int| 0 <= j < i ==> entries[j].0@ != name,
    ensures
        first_named(entries, name) == i,
{
    lemma_first_named_bound(entries, name);
    let k = first_named(entries, name);
    if k < i {
        assert(entries[k].0@ == name);
    } else if i < k {
        assert(entries[i].0@ != name);
    }
}

/// Storing `x` under `name` (in place of the first entry so named, or at the end)
/// changes what the entries hold under `name` and nothing else.
proof fn lemma_named_store<T>(
    entries: Seq<(String, T)>,
    name: String,
    x: T,
    after: Seq<(String, T)>,
    f: Seq<char>,
)
    requires
        ({
            let i = first_named(entries, name@);
            if i < entries.len() {
                after == entries.update(i, (name, x))
            } else {
                after == entries.push((name, x))
            }
        }),
    ensures
        named(after, f) == if f == name@ {
            Some(x)
        } else {
            named(entries, f)
        },
{
    lemma_first_named_bound(entries, name@);
    lemma_first_named_bound(entries, f);
    let i = first_named(entries, name@);
    let k = first_named(entries, f);
    if f == name@ {
        lemma_first_named_unique(after, f, i);
    } else if k < i {
        assert(after[k] == entries[k]);
        assert forall|j: int| 0 <= j < k implies after[j].0@ != f by {
            assert(after[j] == entries[j]);
        }
        lemma_first_named_unique(after, f, k);
    } else {
        // the entry for `f`, if any, lies past `i`, where `after` agrees with `entries`
        assert forall|j: int| 0 <= j < k implies after[j].0@ != f by {
            if j != i {
                assert(after[j] == entries[j]);
            }
        }
        if k < entries.len() {
            assert(after[k] == entries[k]);
            lemma_first_named_unique(after, f, k);
        } else {
            assert(i == entries.len() ==> after.len() == entries.len() + 1 && after[i].0@ != f);
            if i == entries.len() {
                assert forall|j: int| 0 <= j < after.len() implies after[j].0@ != f by {
                    if j < entries.len() {
                        assert(after[j] == entries[j]);
                    }
                }
                lemma_first_named_unique(after, f, after.len() as int);
            } else {
                lemma_first_named_unique(after, f, k);
            }
        }
    }
}

/// No two entries carry the same name
pub open spec fn names_unique<T>(entries: Seq<(String, T)>) -> bool {
    forall|i: int, j: int|
        0 <= i < j < entries.len() ==> #[trigger] entries[i].0@ != #[trigger] entries[j].0@
}

/// Storing under a name, in place of the entry so named or at the end, keeps
/// the names unique.
proof fn lemma_store_unique<T>(entries: Seq<(String, T)>, name: String, x: T, after: Seq<(String, T)>)
    requires
        names_unique(entries),
        ({
            let i = first_named(entries, name@);
            if i < entries.len() {
                after == entries.update(i, (name, x))
            } else {
                after == entries.push((name, x))
            }
        }),
    ensures
        names_unique(after),
{
    lemma_first_named_bound(entries, name@);
    let i = first_named(entries, name@);
    assert forall|a: int, b: int| 0 <= a < b < after.len() implies #[trigger] after[a].0@
        != #[trigger] after[b].0@ by {
        if i < entries.len() {
            if a == i {
                assert(entries[b].0@ != entries[i].0@);
            } else if b == i {
                assert(entries[a].0@ != entries[i].0@);
            } else {
                assert(after[a] == entries[a] && after[b] == entries[b]);
            }
        } else {
            if b == entries.len() {
                assert(after[a] == entries[a]);
            } else {
                assert(after[a] == entries[a] && after[b] == entries[b]);
            }
        }
    }
}

/// Finds the first entry named `name`.
fn find_named<T>(entries: &Vec<(String, T)>, name: &String) -> (r: usize)
    ensures
        r == first_named(entries@, name@),
{
    let mut k: usize = 0;
    assert(entries@.skip(0) =~= entries@);
    while k < entries.len()
        invariant
            k <= entries@.len(),
            first_named(entries@, name@) == k + first_named(entries@.skip(k as int), name@),
        decreases entries@.len() - k,
    {
        if entries[k].0 == *name {
            return k;
        }
        assert(entries@.skip(k as int).drop_first() =~= entries@.skip(k + 1));
        k = k + 1;
    }
    k
}

/// A group of commands: handlers of type `H` under their names, child groups
/// under theirs, and the group's own state `S`, which goes with each of its
/// commands when one is called.
///
/// Names are kept in vectors of pairs, each name at most once (the type
/// invariant), where a `HashMap<String, _>` would key them: vstd specifies a
/// `HashMap` only for keys whose hashing it models (`obeys_key_model`), which
/// it grants to integer keys and not to `String`.
pub struct CommandTree<H, S> {
    commands: Vec<(String, H)>,
    children: Vec<(String, CommandTree<H, S>)>,
    state: S,
}

impl<H, S> CommandTree<H, S> {
    /// What a group keeps, as a map keyed by name would: no two of its commands
    /// and no two of its child groups share a name.
    #[verifier::type_invariant]
    pub closed spec fn names_unique(self) -> bool {
        &&& names_unique(self.commands@)
        &&& names_unique(self.children@)
    }

    /// The group's own state
    pub closed spec fn spec_state(self) -> S {
        self.state
    }

    /// The command that the call name `f` reaches, with the state of the group
    /// that holds it. A name with a `:` goes to the child group named by what
    /// comes before its first `:`, with the rest of the name; a name without one
    /// is a command of this group.
    pub closed spec fn route(self, f: Seq<char>) -> Option<(H, S)>
        decreases f.len(),
    {
        let i = first_index(f, ':');
        if i < f.len() {
            proof {
                lemma_first_index_bound(f, ':');
            }
            let j = first_named(self.children@, f.take(i));
            if 0 <= j < self.children@.len() {
                self.children@[j].1.route(f.skip(i + 1))
            } else {
                None
            }
        } else {
            match named(self.commands@, f) {
                Some(h) => Some((h, self.state)),
                None => None,
            }
        }
    }

    /// A group with no commands and no child groups
    pub fn new(state: S) -> (r: Self)
        ensures
            r.spec_state() == state,
            forall|f: Seq<char>| #[trigger] r.route(f) is None,
    {
        let r = CommandTree { commands: Vec::new(), children: Vec::new(), state };
        assert forall|f: Seq<char>| #[trigger] r.route(f) is None by {
            lemma_first_index_bound(f, ':');
        }
        r
    }

    /// The group's own state
    pub fn state(&self) -> (r: &S)
        ensures
            *r == self.spec_state(),
    {
        &self.state
    }

    /// Puts `state` in place of the group's own state and gives back the old one.
    /// The group's own commands then go with the new state; calls into child
    /// groups reach what they did before.
    pub fn replace_state(&mut self, state: S) -> (r: S)
        ensures
            r == old(self).spec_state(),
            final(self).spec_state() == state,
            forall|f: Seq<char>| #[trigger]
                final(self).route(f) == if spec_split_command(f) is None {
                    match old(self).route(f) {
                        Some((h, _)) => Some((h, state)),
                        None => None,
                    }
                } else {
                    old(self).route(f)
                },
    {
        proof {
            use_type_invariant(&*self);
        }
        let mut old_state = state;
        std::mem::swap(&mut self.state, &mut old_state);
        old_state
    }

    /// Adds a command under `name`, in place of one already so named.
    /// A call of `name` then reaches it, unless `name` holds a `:`;
    /// every other call name reaches what it did before.
    pub fn command(self, name: String, handler: H) -> (r: Self)
        ensures
            r.spec_state() == self.spec_state(),
            forall|f: Seq<char>| #[trigger]
                r.route(f) == if f == name@ && spec_split_command(f) is None {
                    Some((handler, self.spec_state()))
                } else {
                    self.route(f)
                },
    {
        proof {
            use_type_invariant(&self);
        }
        let ghost old_self = self;
        let CommandTree { mut commands, children, state } = self;
        let ghost old_commands = commands@;
        let ghost h = handler;
        let i = find_named(&commands, &name);
        let ghost n = name;
        if i < commands.len() {
            commands.set(i, (name, handler));
        } else {
            commands.push((name, handler));
        }
        proof {
            lemma_store_unique(old_commands, n, h, commands@);
        }
        let s = CommandTree { commands, children, state };
        assert forall|f: Seq<char>| #[trigger]
            s.route(f) == if f == n@ && spec_split_command(f) is None {
                Some((h, old_self.spec_state()))
            } else {
                old_self.route(f)
            } by {
            lemma_first_index_bound(f, ':');
            lemma_named_store(old_commands, n, h, s.commands@, f);
        }
        s
    }

    /// Adds a child group under `name`, in place of one already so named.
    /// A call `name:rest` then reaches what `rest` reaches in the child,
    /// unless `name` holds a `:`; every other call name reaches what it did before.
    pub fn group(self, name: String, child: Self) -> (r: Self)
        ensures
            r.spec_state() == self.spec_state(),
            forall|f: Seq<char>| #[trigger]
                r.route(f) == match spec_split_command(f) {
                    Some((g, rest)) => if g == name@ {
                        child.route(rest)
                    } else {
                        self.route(f)
                    },
                    None => self.route(f),
                },
    {
        proof {
            use_type_invariant(&self);
        }
        let ghost old_self = self;
        let CommandTree { commands, mut children, state } = self;
        let ghost old_children = children@;
        let ghost c = child;
        let i = find_named(&children, &name);
        let ghost n = name;
        if i < children.len() {
            children.set(i, (name, child));
        } else {
            children.push((name, child));
        }
        proof {
            lemma_store_unique(old_children, n, c, children@);
        }
        let s = CommandTree { commands, children, state };
        assert forall|f: Seq<char>| #[trigger]
            s.route(f) == match spec_split_command(f) {
                Some((g, rest)) => if g == n@ {
                    c.route(rest)
                } else {
                    old_self.route(f)
                },
                None => old_self.route(f),
            } by {
            lemma_first_index_bound(f, ':');
            let k = first_index(f, ':');
            if k < f.len() {
                lemma_named_store(old_children, n, c, s.children@, f.take(k));
                lemma_first_named_bound(s.children@, f.take(k));
                lemma_first_named_bound(old_children, f.take(k));
            }
        }
        s
    }

    /// The command that the call name `function` reaches, with the state of the
    /// group that holds it; `None` when no command answers to the name.
    pub fn resolve(&self, function: &str) -> (r: Option<(&H, &S)>)
        ensures
            match r {
                Some((h, s)) => self.route(function@) == Some((*h, *s)),
                None => self.route(function@) is None,
            },
        decreases function@.len(),
    {
        proof {
            lemma_first_index_bound(function@, ':');
        }
        match split_command(function) {
            Some((g, rest)) => {
                let i = find_named(&self.children, &g);
                proof {
                    lemma_first_named_bound(self.children@, g@);
                }
                if i < self.children.len() {
                    self.children[i].1.resolve(rest.as_str())
                } else {
                    None
                }
            },
            None => {
                let name = String::from_str(function);
                let i = find_named(&self.commands, &name);
                proof {
                    lemma_first_named_bound(self.commands@, name@);
                }
                if i < self.commands.len() {
                    Some((&self.commands[i].1, &self.state))
                } else {
                    None
                }
            },
        }
    }
}

} // verus!
