use vstd::prelude::*;
use crate::error::{is_runtime_error, LoxResult};
use crate::object::Object;
use crate::token::Token;

verus! {

/// One scope record: its bindings, in definition order, and the index of
/// its enclosing scope, if any. Scope records live in the arena below and
/// are addressed by stable index, so several later scopes (nested blocks,
/// closures) may share one enclosing scope and all see mutations through it.
pub struct Scope {
    pub values: Vec<(String, Object)>,
    pub enclosing: Option<usize>,
}

/// The scope arena: scope records addressed by stable index, each holding
/// an optional enclosing index that always points earlier in the arena.
/// Scopes are never copied and never removed while an interpreter runs, so
/// a closure's captured index stays valid and observes later mutations.
pub struct Environment {
    pub scopes: Vec<Scope>,
}

/// The value bound to `name` in a binding list, or `None`; the first
/// binding with the name wins.
pub open spec fn alist_find(s: Seq<(String, Object)>, name: Seq<char>) -> Option<Object>
    decreases s.len(),
{
    if s.len() == 0 {
        None
    } else if s[0].0@ == name {
        Some(s[0].1)
    } else {
        alist_find(s.drop_first(), name)
    }
}

/// The value bound to `name` in one scope, not looking outward.
pub open spec fn scope_find(sc: Scope, name: Seq<char>) -> Option<Object> {
    alist_find(sc.values@, name)
}

/// Every object the binding list `t` holds is `value` or an object that
/// the list `s` already held.
pub open spec fn objects_from(
    s: Seq<(String, Object)>,
    t: Seq<(String, Object)>,
    value: Object,
) -> bool {
    forall|k: int|
        0 <= k < t.len() ==> (#[trigger] t[k]).1 == value || (exists|k2: int|
            0 <= k2 < s.len() && (#[trigger] s[k2]).1 == t[k].1)
}

/// Every enclosing link points strictly earlier in the arena.
pub open spec fn chain_ok(env: Seq<Scope>) -> bool {
    forall|i: int|
        0 <= i < env.len() ==> (#[trigger] env[i].enclosing matches Some(p) ==> p < i)
}

/// The index of the nearest scope, searching outward from `s` along the
/// enclosing links, that defines `name`; `None` if the chain is exhausted.
pub open spec fn resolve(env: Seq<Scope>, s: int, name: Seq<char>) -> Option<int>
    decreases s,
{
    if !(0 <= s < env.len()) {
        None
    } else if scope_find(env[s], name) is Some {
        Some(s)
    } else {
        match env[s].enclosing {
            Some(p) => if p < s {
                resolve(env, p as int, name)
            } else {
                None
            },
            None => None,
        }
    }
}

/// The value `name` denotes when read from scope `s`: the binding in the
/// nearest scope of the chain that defines it.
pub open spec fn lookup(env: Seq<Scope>, s: int, name: Seq<char>) -> Option<Object> {
    match resolve(env, s, name) {
        Some(j) => scope_find(env[j], name),
        None => None,
    }
}

/// Where `resolve` answers, it answers with a scope of the chain that
/// defines the name.
pub proof fn lemma_resolve_props(env: Seq<Scope>, s: int, name: Seq<char>)
    requires
        resolve(env, s, name) is Some,
    ensures
        resolve(env, s, name) matches Some(j) && 0 <= j <= s && j < env.len() && scope_find(
            env[j],
            name,
        ) is Some,
    decreases s,
{
    if 0 <= s < env.len() && scope_find(env[s], name) is None {
        if let Some(p) = env[s].enclosing {
            if p < s {
                lemma_resolve_props(env, p as int, name);
            }
        }
    }
}

/// Resolution from `s` reads only the records at indices `0 ..= s`, so two
/// arenas that agree there resolve and look up alike — in particular,
/// defining or assigning in a scope created later than `s` cannot change
/// what a read from `s` sees.
pub proof fn lemma_lookup_prefix(env1: Seq<Scope>, env2: Seq<Scope>, s: int, name: Seq<char>)
    requires
        s < env1.len(),
        s < env2.len(),
        forall|i: int| 0 <= i <= s ==> env1[i] == env2[i],
    ensures
        resolve(env1, s, name) == resolve(env2, s, name),
        lookup(env1, s, name) == lookup(env2, s, name),
    decreases s,
{
    if 0 <= s {
        if scope_find(env1[s], name) is None {
            if let Some(p) = env1[s].enclosing {
                if p < s {
                    lemma_lookup_prefix(env1, env2, p as int, name);
                }
            }
        }
        if resolve(env1, s, name) is Some {
            lemma_resolve_props(env1, s, name);
            lemma_resolve_props(env2, s, name);
        }
    }
}

/// How one update frames: if `env2` differs from `env1` only in scope `j`,
/// and scope `j` keeps its enclosing link, then resolution from any scope
/// `s` is unchanged for a name that scope `j` defines in both arenas, and
/// both resolution and lookup are unchanged for every name whose binding
/// in scope `j` is untouched.
pub proof fn lemma_resolve_frame(
    env1: Seq<Scope>,
    env2: Seq<Scope>,
    j: int,
    s: int,
    name: Seq<char>,
)
    requires
        env1.len() == env2.len(),
        0 <= j < env1.len(),
        forall|i: int| 0 <= i < env1.len() && i != j ==> env1[i] == env2[i],
        env2[j].enclosing == env1[j].enclosing,
        scope_find(env2[j], name) is Some <==> scope_find(env1[j], name) is Some,
    ensures
        resolve(env1, s, name) == resolve(env2, s, name),
    decreases s,
{
    if 0 <= s < env1.len() {
        if scope_find(env1[s], name) is None && (s != j || scope_find(env1[j], name) is None) {
            if let Some(p) = env1[s].enclosing {
                if p < s {
                    lemma_resolve_frame(env1, env2, j, p as int, name);
                }
            }
        }
    }
}

/// A found binding is a member of the list: whatever `alist_find` returns
/// is an object the list holds.
pub proof fn lemma_alist_find_member(s: Seq<(String, Object)>, name: Seq<char>)
    requires
        alist_find(s, name) is Some,
    ensures
        exists|k: int| 0 <= k < s.len() && Some((#[trigger] s[k]).1) == alist_find(s, name),
    decreases s.len(),
{
    if s.len() > 0 && s[0].0@ != name {
        lemma_alist_find_member(s.drop_first(), name);
        let k0 = choose|k: int|
            0 <= k < s.drop_first().len() && Some((#[trigger] s.drop_first()[k]).1) == alist_find(
                s.drop_first(),
                name,
            );
        assert(s[k0 + 1] == s.drop_first()[k0]);
    }
}

/// Skipping past bindings that do not carry the name leaves the search
/// result unchanged.
proof fn lemma_find_skip(s: Seq<(String, Object)>, i: int, name: Seq<char>)
    requires
        0 <= i <= s.len(),
        forall|j: int| 0 <= j < i ==> (#[trigger] s[j]).0@ != name,
    ensures
        alist_find(s, name) == alist_find(s.skip(i), name),
    decreases i,
{
    if i > 0 {
        lemma_find_skip(s.drop_first(), i - 1, name);
        assert(s.drop_first().skip(i - 1) =~= s.skip(i));
    } else {
        assert(s.skip(0) =~= s);
    }
}

/// Rebinding the entry at index `i` does not change the search result for
/// any other name, as long as the key at `i` keeps its text.
proof fn lemma_find_update_other(
    s: Seq<(String, Object)>,
    t: Seq<(String, Object)>,
    i: int,
    n: Seq<char>,
)
    requires
        0 <= i < s.len(),
        t.len() == s.len(),
        forall|j: int| 0 <= j < s.len() && j != i ==> s[j] == t[j],
        t[i].0@ == s[i].0@,
        n != s[i].0@,
    ensures
        alist_find(t, n) == alist_find(s, n),
    decreases i,
{
    if i == 0 {
        assert(t.drop_first() =~= s.drop_first());
    } else {
        if s[0].0@ != n {
            assert(t.drop_first() =~= s.drop_first().update(i - 1, t[i]));
            lemma_find_update_other(s.drop_first(), t.drop_first(), i - 1, n);
        }
    }
}

/// Appending a binding for one name does not change the search result for
/// any other name.
proof fn lemma_find_push_other(s: Seq<(String, Object)>, p: (String, Object), n: Seq<char>)
    requires
        p.0@ != n,
    ensures
        alist_find(s.push(p), n) == alist_find(s, n),
    decreases s.len(),
{
    if s.len() == 0 {
        reveal_with_fuel(alist_find, 2);
        assert(s.push(p)[0] == p);
        assert(s.push(p).drop_first() =~= Seq::<(String, Object)>::empty());
    } else {
        assert(s.push(p)[0] == s[0]);
        assert(s.push(p).drop_first() =~= s.drop_first().push(p));
        lemma_find_push_other(s.drop_first(), p, n);
    }
}

/// The index of the first binding carrying `name`, if any.
fn find_index(values: &Vec<(String, Object)>, name: &String) -> (r: Option<usize>)
    ensures
        match r {
            Some(i) => i < values@.len() && values@[i as int].0@ == name@ && alist_find(
                values@,
                name@,
            ) == Some(values@[i as int].1) && (forall|j: int|
                0 <= j < i ==> (#[trigger] values@[j]).0@ != name@),
            None => alist_find(values@, name@) is None && (forall|j: int|
                0 <= j < values@.len() ==> (#[trigger] values@[j]).0@ != name@),
        },
{
    let n = values.len();
    let mut i: usize = 0;
    while i < n
        invariant
            n == values@.len(),
            i <= n,
            forall|j: int| 0 <= j < i ==> (#[trigger] values@[j]).0@ != name@,
        decreases n - i,
    {
        let p: &(String, Object) = &values[i];
        if p.0 == *name {
            proof {
                lemma_find_skip(values@, i as int, name@);
            }
            return Some(i);
        }
        i = i + 1;
    }
    proof {
        lemma_find_skip(values@, n as int, name@);
    }
    None
}

fn undefined_message(name: &Token, tail: &str) -> (r: String)
    ensures
        r@ == "Undefined variable "@ + name.lexeme@ + tail@,
{
    proof {
        reveal_strlit("Undefined variable ");
    }
    let mut msg = String::new();
    msg.append("Undefined variable ");
    msg.append(name.lexeme.as_str());
    msg.append(tail);
    proof {
        assert(msg@ =~= "Undefined variable "@ + name.lexeme@ + tail@);
    }
    msg
}

impl Environment {
    /// A fresh arena holding a single scope, the global one, at index 0.
    pub fn new() -> (env: Environment)
        ensures
            env.scopes@.len() == 1,
            env.scopes@[0].values@.len() == 0,
            env.scopes@[0].enclosing is None,
            chain_ok(env.scopes@),
    {
        let global = Scope { values: Vec::new(), enclosing: None };
        let mut scopes: Vec<Scope> = Vec::new();
        scopes.push(global);
        Environment { scopes }
    }

    /// A new, empty scope enclosed by the given one; its index is returned.
    /// Every scope already in the arena is untouched, so reads through old
    /// indices are unaffected.
    pub fn new_with_enclosing(&mut self, enclosing: usize) -> (idx: usize)
        requires
            enclosing < old(self).scopes@.len(),
        ensures
            idx == old(self).scopes@.len(),
            final(self).scopes@.len() == old(self).scopes@.len() + 1,
            forall|i: int|
                0 <= i < old(self).scopes@.len() ==> final(self).scopes@[i] == old(
                    self,
                ).scopes@[i],
            final(self).scopes@[idx as int].values@.len() == 0,
            final(self).scopes@[idx as int].enclosing == Some(enclosing),
            chain_ok(old(self).scopes@) ==> chain_ok(final(self).scopes@),
    {
        let idx = self.scopes.len();
        self.scopes.push(Scope { values: Vec::new(), enclosing: Some(enclosing) });
        idx
    }

    /// Bind `name` to `value` in the given scope and that scope only,
    /// inserting or overwriting, never searching outward. Every other
    /// scope, every other name in this scope, and the chain structure are
    /// untouched; the scope afterwards holds no object it did not hold
    /// before, other than `value`.
    pub fn define(&mut self, scope: usize, name: &String, value: Object)
        requires
            scope < old(self).scopes@.len(),
        ensures
            final(self).scopes@.len() == old(self).scopes@.len(),
            forall|i: int|
                0 <= i < old(self).scopes@.len() && i != scope ==> final(self).scopes@[i] == old(
                    self,
                ).scopes@[i],
            final(self).scopes@[scope as int].enclosing == old(
                self,
            ).scopes@[scope as int].enclosing,
            scope_find(final(self).scopes@[scope as int], name@) == Some(value),
            forall|n: Seq<char>|
                n != name@ ==> #[trigger] scope_find(final(self).scopes@[scope as int], n)
                    == scope_find(old(self).scopes@[scope as int], n),
            objects_from(
                old(self).scopes@[scope as int].values@,
                final(self).scopes@[scope as int].values@,
                value,
            ),
            chain_ok(old(self).scopes@) ==> chain_ok(final(self).scopes@),
    {
        let ghost s_old = self.scopes@[scope as int].values@;
        match find_index(&self.scopes[scope].values, name) {
            Some(i) => {
                let sc = &mut self.scopes[scope];
                sc.values[i] = (name.clone(), value);
                proof {
                    let t = self.scopes@[scope as int].values@;
                    lemma_find_skip(t, i as int, name@);
                    assert(t.skip(i as int)[0] == t[i as int]);
                    assert(scope_find(self.scopes@[scope as int], name@) == Some(value));
                    assert forall|n: Seq<char>| n != name@ implies #[trigger] scope_find(
                        self.scopes@[scope as int],
                        n,
                    ) == scope_find(old(self).scopes@[scope as int], n) by {
                        lemma_find_update_other(s_old, t, i as int, n);
                    }
                }
            },
            None => {
                let sc = &mut self.scopes[scope];
                sc.values.push((name.clone(), value));
                proof {
                    let t = self.scopes@[scope as int].values@;
                    lemma_find_skip(t, s_old.len() as int, name@);
                    assert(t.skip(s_old.len() as int) =~= seq![t[s_old.len() as int]]);
                    assert(scope_find(self.scopes@[scope as int], name@) == Some(value));
                    assert forall|n: Seq<char>| n != name@ implies #[trigger] scope_find(
                        self.scopes@[scope as int],
                        n,
                    ) == scope_find(old(self).scopes@[scope as int], n) by {
                        lemma_find_push_other(s_old, (t[s_old.len() as int]), n);
                        assert(t =~= s_old.push(t[s_old.len() as int]));
                    }
                }
            },
        }
    }

    /// Read `name` from scope `scope`, searching outward along the chain;
    /// an undefined name is a runtime error naming the variable.
    pub fn get(&self, scope: usize, name: &Token) -> (r: Result<Object, LoxResult>)
        requires
            scope < self.scopes@.len(),
            chain_ok(self.scopes@),
        ensures
            match lookup(self.scopes@, scope as int, name.lexeme@) {
                Some(v) => r matches Ok(o) && o == v,
                None => r matches Err(e) && is_runtime_error(
                    e,
                    *name,
                    "Undefined variable "@ + name.lexeme@ + "."@,
                ),
            },
    {
        let mut cur = scope;
        loop
            invariant
                cur < self.scopes@.len(),
                chain_ok(self.scopes@),
                resolve(self.scopes@, scope as int, name.lexeme@) == resolve(
                    self.scopes@,
                    cur as int,
                    name.lexeme@,
                ),
            decreases cur,
        {
            match find_index(&self.scopes[cur].values, &name.lexeme) {
                Some(i) => {
                    return Ok(self.scopes[cur].values[i].1.dup());
                },
                None => {},
            }
            match &self.scopes[cur].enclosing {
                Some(p) => {
                    cur = *p;
                },
                None => {
                    proof {
                        reveal_strlit(".");
                    }
                    let msg = undefined_message(name, ".");
                    return Err(LoxResult::runtime_error(name, msg.as_str()));
                },
            }
        }
    }

    /// Rebind `name` where the nearest scope of the chain already defines
    /// it; if no scope of the chain does, nothing changes and the result
    /// is a runtime error — assignment never creates a binding.
    pub fn assign(&mut self, scope: usize, name: &Token, value: Object) -> (r: Result<
        (),
        LoxResult,
    >)
        requires
            scope < old(self).scopes@.len(),
            chain_ok(old(self).scopes@),
        ensures
            match resolve(old(self).scopes@, scope as int, name.lexeme@) {
                Some(j) => {
                    &&& r is Ok
                    &&& final(self).scopes@.len() == old(self).scopes@.len()
                    &&& forall|i: int|
                        0 <= i < old(self).scopes@.len() && i != j ==> final(self).scopes@[i]
                            == old(self).scopes@[i]
                    &&& final(self).scopes@[j].enclosing == old(self).scopes@[j].enclosing
                    &&& scope_find(final(self).scopes@[j], name.lexeme@) == Some(value)
                    &&& forall|n: Seq<char>|
                        n != name.lexeme@ ==> #[trigger] scope_find(final(self).scopes@[j], n)
                            == scope_find(old(self).scopes@[j], n)
                    &&& objects_from(old(self).scopes@[j].values@, final(self).scopes@[j].values@, value)
                    &&& lookup(final(self).scopes@, scope as int, name.lexeme@) == Some(value)
                    &&& chain_ok(final(self).scopes@)
                },
                None => {
                    &&& r matches Err(e) && is_runtime_error(
                        e,
                        *name,
                        "Undefined variable "@ + name.lexeme@ + " ."@,
                    )
                    &&& *final(self) == *old(self)
                },
            },
    {
        let mut cur = scope;
        loop
            invariant
                cur < self.scopes@.len(),
                chain_ok(self.scopes@),
                *self == *old(self),
                resolve(self.scopes@, scope as int, name.lexeme@) == resolve(
                    self.scopes@,
                    cur as int,
                    name.lexeme@,
                ),
            decreases cur,
        {
            match find_index(&self.scopes[cur].values, &name.lexeme) {
                Some(i) => {
                    let ghost s_old = self.scopes@[cur as int].values@;
                    let sc = &mut self.scopes[cur];
                    sc.values[i] = (name.lexeme.clone(), value);
                    proof {
                        let t = self.scopes@[cur as int].values@;
                        lemma_find_skip(t, i as int, name.lexeme@);
                        assert(t.skip(i as int)[0] == t[i as int]);
                        assert forall|n: Seq<char>| n != name.lexeme@ implies #[trigger] scope_find(
                            self.scopes@[cur as int],
                            n,
                        ) == scope_find(old(self).scopes@[cur as int], n) by {
                            lemma_find_update_other(s_old, t, i as int, n);
                        }
                        lemma_resolve_frame(
                            old(self).scopes@,
                            self.scopes@,
                            cur as int,
                            scope as int,
                            name.lexeme@,
                        );
                    }
                    return Ok(());
                },
                None => {},
            }
            match &self.scopes[cur].enclosing {
                Some(p) => {
                    cur = *p;
                },
                None => {
                    proof {
                        reveal_strlit(" .");
                    }
                    let msg = undefined_message(name, " .");
                    return Err(LoxResult::runtime_error(name, msg.as_str()));
                },
            }
        }
    }
}

/// Closure-by-reference, at the level of the scope chain: when two chains
/// — say, the running block's and a closure's captured one — both resolve
/// `name` to the same scope `j`, then after `name` is rebound in scope `j`
/// (what `assign` does), a read through *either* chain sees the new value:
/// a scope is shared by reference, never snapshotted.
pub proof fn lemma_shared_scope_sees_assignment(
    env1: Seq<Scope>,
    env2: Seq<Scope>,
    j: int,
    s2: int,
    name: Seq<char>,
    value: Object,
)
    requires
        env1.len() == env2.len(),
        0 <= j < env1.len(),
        forall|i: int| 0 <= i < env1.len() && i != j ==> env1[i] == env2[i],
        env2[j].enclosing == env1[j].enclosing,
        scope_find(env1[j], name) is Some,
        scope_find(env2[j], name) == Some(value),
        resolve(env1, s2, name) == Some(j),
    ensures
        lookup(env2, s2, name) == Some(value),
{
    lemma_resolve_frame(env1, env2, j, s2, name);
}

} // verus!
