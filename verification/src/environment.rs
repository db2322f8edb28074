//! Lexical environments.
//!
//! An [`Environment`] is one scope: bindings from names to values, and
//! an optional link to the enclosing scope. Scopes live in an arena (a
//! `Vec<Environment>`) owned by the caller of the evaluator; a scope
//! names its parent, and a closure names its captured scope, by index
//! into that arena. Sharing a handle is what makes closures capture by
//! reference: a binding added to a scope later is seen through every
//! handle to it.
//!
//! The ghost model is [`ScopeV`]: a `Map` from names to value views
//! plus the parent handle. Name lookup walks the chain, nearest scope
//! first ([`env_lookup`]); `set` writes the current scope only.

use vstd::prelude::*;
use crate::object::ObjV;
use crate::object::Object;

verus! {

/// The ghost view of one scope.
pub struct ScopeV {
    pub bindings: Map<Seq<char>, ObjV>,
    pub outer: Option<int>,
}

#[derive(Debug)]
pub struct Environment {
    store: Vec<(String, Object)>,
    outer: Option<usize>,
}

/// The bindings of an association list as a map; a later pair for the
/// same name wins, as an overwriting insert does.
pub open spec fn assoc_map(s: Seq<(String, Object)>) -> Map<Seq<char>, ObjV>
    decreases s.len(),
{
    if s.len() == 0 {
        Map::empty()
    } else {
        assoc_map(s.drop_last()).insert(s.last().0@, s.last().1@)
    }
}

/// Lookup in an association list, later pairs first.
pub open spec fn assoc_lookup(s: Seq<(String, Object)>, name: Seq<char>) -> Option<ObjV>
    decreases s.len(),
{
    if s.len() == 0 {
        None
    } else if s.last().0@ == name {
        Some(s.last().1@)
    } else {
        assoc_lookup(s.drop_last(), name)
    }
}

pub proof fn lemma_assoc_lookup(s: Seq<(String, Object)>, name: Seq<char>)
    ensures
        assoc_map(s).contains_key(name) <==> assoc_lookup(s, name) is Some,
        assoc_map(s).contains_key(name) ==> assoc_lookup(s, name) == Some(assoc_map(s)[name]),
    decreases s.len(),
{
    if s.len() > 0 {
        lemma_assoc_lookup(s.drop_last(), name);
    }
}

impl View for Environment {
    type V = ScopeV;

    closed spec fn view(&self) -> ScopeV {
        ScopeV {
            bindings: assoc_map(self.store@),
            outer: match self.outer {
                Some(h) => Some(h as int),
                None => None,
            },
        }
    }
}

/// A fresh scope with no bindings and no enclosing scope: the global
/// environment of a program run.
pub fn new_environment() -> (e: Environment)
    ensures
        e@.bindings == Map::<Seq<char>, ObjV>::empty(),
        e@.outer is None,
{
    Environment { store: Vec::new(), outer: None }
}

/// A fresh scope enclosed by the scope with handle `outer`: created for
/// each function call, with the function's captured scope as parent.
pub fn new_enclosed_environment(outer: usize) -> (e: Environment)
    ensures
        e@.bindings == Map::<Seq<char>, ObjV>::empty(),
        e@.outer == Some(outer as int),
{
    Environment { store: Vec::new(), outer: Some(outer) }
}

/// The view of every scope in the arena.
pub open spec fn arena_view(envs: Seq<Environment>) -> Seq<ScopeV> {
    envs.map(|i: int, e: Environment| e@)
}

/// A value is well formed for an arena of `len` scopes: every
/// environment handle it carries points into the arena.
pub open spec fn obj_wf(o: ObjV, len: int) -> bool
    decreases o,
{
    match o {
        ObjV::Func { env, .. } => 0 <= env < len,
        ObjV::Return { value } => obj_wf(*value, len),
        _ => true,
    }
}

/// A scope at index `i` is well formed: its parent was created earlier
/// (so parent chains end), and every value it binds points into the
/// arena.
pub open spec fn scope_wf(sc: ScopeV, i: int, len: int) -> bool {
    &&& match sc.outer {
        Some(j) => 0 <= j < i,
        None => true,
    }
    &&& forall|k: Seq<char>| #[trigger] sc.bindings.contains_key(k) ==> obj_wf(sc.bindings[k], len)
}

/// Every scope of the arena is well formed.
pub open spec fn arena_wf(envs: Seq<ScopeV>) -> bool {
    forall|i: int| 0 <= i < envs.len() ==> scope_wf(#[trigger] envs[i], i, envs.len() as int)
}

/// What a value view looks through an `Option`.
pub open spec fn opt_obj_view(r: Option<Object>) -> Option<ObjV> {
    match r {
        Some(o) => Some(o@),
        None => None,
    }
}

/// Name lookup through a scope chain, nearest scope first; the nearest
/// binding wins (shadowing).
pub open spec fn env_lookup(envs: Seq<ScopeV>, h: int, name: Seq<char>) -> Option<ObjV>
    decreases (if h >= 0 {
        h
    } else {
        0
    }),
{
    if 0 <= h < envs.len() {
        let sc = envs[h];
        if sc.bindings.contains_key(name) {
            Some(sc.bindings[name])
        } else {
            match sc.outer {
                Some(j) => if 0 <= j < h {
                    env_lookup(envs, j, name)
                } else {
                    None
                },
                None => None,
            }
        }
    } else {
        None
    }
}

/// A well-formed value stays well formed when the arena grows.
pub proof fn lemma_obj_wf_grow(o: ObjV, len1: int, len2: int)
    requires
        obj_wf(o, len1),
        len1 <= len2,
    ensures
        obj_wf(o, len2),
    decreases o,
{
    match o {
        ObjV::Return { value } => lemma_obj_wf_grow(*value, len1, len2),
        _ => {},
    }
}

impl Environment {
    /// The binding for `name` in this scope alone, copied out; `None`
    /// when this scope does not bind the name.
    fn get_local(&self, name: &String) -> (r: Option<Object>)
        ensures
            opt_obj_view(r) == lookup_scope(self@, name@),
    {
        proof {
            assert(self.store@.take(self.store@.len() as int) =~= self.store@);
        }
        let mut i: usize = self.store.len();
        loop
            invariant
                i <= self.store@.len(),
                assoc_lookup(self.store@, name@) == assoc_lookup(self.store@.take(i as int), name@),
            decreases i,
        {
            if i == 0 {
                proof {
                    assert(self.store@.take(0) =~= Seq::<(String, Object)>::empty());
                    lemma_assoc_lookup(self.store@, name@);
                }
                return None;
            }
            i = i - 1;
            let pair: &(String, Object) = &self.store[i];
            proof {
                assert(self.store@.take(i as int + 1).last() == self.store@[i as int]);
                assert(self.store@.take(i as int + 1).drop_last() =~= self.store@.take(i as int));
            }
            if pair.0 == *name {
                proof {
                    lemma_assoc_lookup(self.store@, name@);
                }
                return Some(pair.1.duplicate());
            }
        }
    }

    /// The value bound to `name`, looked up from the scope with handle
    /// `env` outward through its parents; `None` when no scope in the
    /// chain binds the name.
    pub fn get(envs: &Vec<Environment>, env: usize, name: &String) -> (r: Option<Object>)
        requires
            env < envs@.len(),
            arena_wf(arena_view(envs@)),
        ensures
            opt_obj_view(r) == env_lookup(arena_view(envs@), env as int, name@),
    {
        let mut h = env;
        loop
            invariant
                h < envs@.len(),
                arena_wf(arena_view(envs@)),
                env_lookup(arena_view(envs@), env as int, name@) == env_lookup(
                    arena_view(envs@),
                    h as int,
                    name@,
                ),
            decreases h,
        {
            let sc: &Environment = &envs[h];
            proof {
                assert(arena_view(envs@)[h as int] == sc@);
            }
            let local = sc.get_local(name);
            match local {
                Some(v) => {
                    return Some(v);
                },
                None => {
                    match sc.outer {
                        Some(j) => {
                            proof {
                                assert(scope_wf(arena_view(envs@)[h as int], h as int, arena_view(envs@).len() as int));
                            }
                            h = j;
                        },
                        None => {
                            return None;
                        },
                    }
                },
            }
        }
    }

    /// Binds `name` to `val` in this scope alone: an existing binding
    /// for the name in this scope is replaced, and enclosing scopes are
    /// never written through.
    pub fn set(&mut self, name: String, val: Object)
        ensures
            final(self)@.bindings == old(self)@.bindings.insert(name@, val@),
            final(self)@.outer == old(self)@.outer,
    {
        let ghost prev = self.store@;
        self.store.push((name, val));
        proof {
            assert(self.store@.drop_last() =~= prev);
        }
    }
}

/// The binding for a name in one scope alone.
pub open spec fn lookup_scope(sc: ScopeV, name: Seq<char>) -> Option<ObjV> {
    if sc.bindings.contains_key(name) {
        Some(sc.bindings[name])
    } else {
        None
    }
}

} // verus!
verus! {

/// Whatever a chain lookup finds in a well-formed arena is itself well
/// formed for that arena.
pub proof fn lemma_env_lookup_wf(envs: Seq<ScopeV>, h: int, name: Seq<char>)
    requires
        arena_wf(envs),
    ensures
        match env_lookup(envs, h, name) {
            Some(v) => obj_wf(v, envs.len() as int),
            None => true,
        },
    decreases (if h >= 0 {
        h
    } else {
        0
    }),
{
    if 0 <= h < envs.len() {
        let sc = envs[h];
        assert(scope_wf(envs[h], h, envs.len() as int));
        if !sc.bindings.contains_key(name) {
            match sc.outer {
                Some(j) => {
                    if 0 <= j < h {
                        lemma_env_lookup_wf(envs, j, name);
                    }
                },
                None => {},
            }
        }
    }
}

pub proof fn lemma_arena_view_push(envs: Seq<Environment>, e: Environment)
    ensures
        arena_view(envs.push(e)) == arena_view(envs).push(e@),
{
    assert(arena_view(envs.push(e)) =~= arena_view(envs).push(e@));
}

/// Pushing a scope whose parent handle and bound values point into the
/// grown arena keeps the arena well formed.
pub proof fn lemma_arena_wf_push(envs: Seq<ScopeV>, sc: ScopeV)
    requires
        arena_wf(envs),
        match sc.outer {
            Some(j) => 0 <= j < envs.len(),
            None => true,
        },
        forall|k: Seq<char>| #[trigger] sc.bindings.contains_key(k) ==> obj_wf(
            sc.bindings[k],
            envs.len() + 1 as int,
        ),
    ensures
        arena_wf(envs.push(sc)),
{
    let grown = envs.push(sc);
    assert forall|i: int| 0 <= i < grown.len() implies scope_wf(
        #[trigger] grown[i],
        i,
        grown.len() as int,
    ) by {
        if i < envs.len() {
            assert(scope_wf(envs[i], i, envs.len() as int));
            assert forall|k: Seq<char>| #[trigger] grown[i].bindings.contains_key(k) implies obj_wf(
                grown[i].bindings[k],
                grown.len() as int,
            ) by {
                lemma_obj_wf_grow(envs[i].bindings[k], envs.len() as int, grown.len() as int);
            }
        }
    }
}

} // verus!
