//! Scopes: the variables and handlers visible to running code, with an
//! optional enclosing scope that lookups fall back to.
use vstd::prelude::*;
use crate::ast::{Handler, SpecHandler, SpecValue, Value};
use crate::channel::Channel;
use crate::text::copy_string;

verus! {

broadcast use vstd::std_specs::vec::group_vec_axioms;

/// A scope of variables and handlers.
#[derive(Debug)]
pub struct Scope {
    parent: Option<Box<Scope>>,
    bindings: Vec<(String, Value)>,
    handlers: Vec<Handler>,
    dirty: bool,
}

/// The mathematical form of a [`Scope`].
pub struct SpecScope {
    pub bindings: Map<Seq<char>, SpecValue>,
    pub handlers: Seq<SpecHandler>,
    pub parent: Option<Box<SpecScope>>,
    pub dirty: bool,
}

/// The value a name has in a scope: its own binding, else the enclosing
/// scope's.
pub open spec fn spec_lookup(s: SpecScope, name: Seq<char>) -> Option<SpecValue>
    decreases s,
{
    if s.bindings.contains_key(name) {
        Some(s.bindings[name])
    } else {
        match s.parent {
            Some(p) => spec_lookup(*p, name),
            None => None,
        }
    }
}

/// The scope with `name` bound to `v` in its own bindings.
pub open spec fn spec_bind(s: SpecScope, name: Seq<char>, v: SpecValue) -> SpecScope {
    SpecScope { bindings: s.bindings.insert(name, v), dirty: true, ..s }
}

/// A scope's handlers followed by those of the enclosing scopes.
pub open spec fn spec_all_handlers(s: SpecScope) -> Seq<SpecHandler>
    decreases s,
{
    match s.parent {
        Some(p) => s.handlers + spec_all_handlers(*p),
        None => s.handlers,
    }
}

/// The empty scope.
pub open spec fn spec_empty_scope() -> SpecScope {
    SpecScope { bindings: Map::empty(), handlers: Seq::empty(), parent: None, dirty: false }
}

/// The views of the first `n` bindings, as a map from names to values.
pub open spec fn bindings_map(bs: Seq<(String, Value)>, n: int) -> Map<Seq<char>, SpecValue>
    decreases n,
{
    if n <= 0 || n > bs.len() {
        Map::empty()
    } else {
        bindings_map(bs, n - 1).insert(bs[n - 1].0@, bs[n - 1].1@)
    }
}

/// No name is bound twice.
pub open spec fn names_unique(bs: Seq<(String, Value)>) -> bool {
    forall|i: int, j: int| 0 <= i < j < bs.len() ==> (#[trigger] bs[i]).0@ != (#[trigger] bs[j]).0@
}

pub closed spec fn scope_view(s: Scope) -> SpecScope
    decreases s,
{
    SpecScope {
        bindings: bindings_map(s.bindings@, s.bindings@.len() as int),
        handlers: crate::ast::handlers_of(s.handlers@),
        parent: match s.parent {
            Some(p) => Some(Box::new(scope_view(*p))),
            None => None,
        },
        dirty: s.dirty,
    }
}

impl View for Scope {
    type V = SpecScope;

    closed spec fn view(&self) -> SpecScope {
        scope_view(*self)
    }
}

proof fn lemma_bindings_prefix(s: Seq<(String, Value)>, t: Seq<(String, Value)>, n: int)
    requires
        0 <= n <= s.len(),
        n <= t.len(),
        forall|i: int| 0 <= i < n ==> (#[trigger] s[i]).0@ == t[i].0@ && s[i].1@ == t[i].1@,
    ensures
        bindings_map(s, n) == bindings_map(t, n),
    decreases n,
{
    if n > 0 {
        lemma_bindings_prefix(s, t, n - 1);
    }
}

proof fn lemma_bindings_lookup(bs: Seq<(String, Value)>, n: int, k: Seq<char>)
    requires
        0 <= n <= bs.len(),
        names_unique(bs),
    ensures
        bindings_map(bs, n).contains_key(k) <==> exists|i: int| 0 <= i < n && (#[trigger] bs[i]).0@ == k,
        forall|i: int| 0 <= i < n && (#[trigger] bs[i]).0@ == k ==> bindings_map(bs, n)[k] == bs[i].1@,
    decreases n,
{
    if n > 0 {
        lemma_bindings_lookup(bs, n - 1, k);
        if bs[n - 1].0@ != k {
            assert forall|i: int| 0 <= i < n && (#[trigger] bs[i]).0@ == k implies i < n - 1 by {}
        } else {
            assert forall|i: int| 0 <= i < n && (#[trigger] bs[i]).0@ == k implies i == n - 1 by {
                if i < n - 1 {
                    assert(bs[i].0@ != bs[n - 1].0@);
                }
            }
        }
    }
}

proof fn lemma_bindings_update(bs: Seq<(String, Value)>, i: int, x: (String, Value), n: int)
    requires
        0 <= i < bs.len(),
        i < n <= bs.len(),
        names_unique(bs),
        x.0@ == bs[i].0@,
    ensures
        bindings_map(bs.update(i, x), n) == bindings_map(bs, n).insert(x.0@, x.1@),
    decreases n,
{
    let u = bs.update(i, x);
    if n == i + 1 {
        lemma_bindings_prefix(u, bs, i);
        assert(bindings_map(bs, n).insert(x.0@, x.1@) =~= bindings_map(bs, i).insert(x.0@, x.1@));
    } else {
        lemma_bindings_update(bs, i, x, n - 1);
        assert(bs[n - 1].0@ != x.0@);
        assert(bindings_map(u, n) =~= bindings_map(bs, n).insert(x.0@, x.1@));
    }
}

impl Scope {
    #[verifier::type_invariant]
    spec fn inv(self) -> bool {
        names_unique(self.bindings@)
    }

    /// An empty scope without an enclosing one.
    pub fn new() -> (r: Scope)
        ensures
            r@ == spec_empty_scope(),
    {
        let s = Scope { parent: None, bindings: Vec::new(), handlers: Vec::new(), dirty: false };
        proof {
            crate::ast::lemma_handlers_of(s.handlers@);
            assert(s@.bindings =~= Map::empty());
            assert(s@.handlers =~= Seq::<SpecHandler>::empty());
        }
        s
    }

    /// An empty scope enclosed by `parent`.
    pub fn with_parent(parent: Scope) -> (r: Scope)
        ensures
            r@ == (SpecScope { parent: Some(Box::new(parent@)), ..spec_empty_scope() }),
    {
        let s = Scope { parent: Some(Box::new(parent)), bindings: Vec::new(), handlers: Vec::new(), dirty: false };
        proof {
            crate::ast::lemma_handlers_of(s.handlers@);
            assert(s@.bindings =~= Map::empty());
            assert(s@.handlers =~= Seq::<SpecHandler>::empty());
        }
        s
    }

    /// Whether a binding or a handler was added since the scope was made.
    pub fn is_dirty(&self) -> (r: bool)
        ensures
            r == self@.dirty,
    {
        self.dirty
    }

    fn position_of(&self, name: &String) -> (r: Option<usize>)
        ensures
            match r {
                Some(i) => i < self.bindings@.len() && self.bindings@[i as int].0@ == name@,
                None => forall|i: int| 0 <= i < self.bindings@.len() ==> (#[trigger] self.bindings@[i]).0@ != name@,
            },
    {
        let mut i: usize = 0;
        while i < self.bindings.len()
            invariant
                i <= self.bindings@.len(),
                forall|j: int| 0 <= j < i ==> (#[trigger] self.bindings@[j]).0@ != name@,
            decreases self.bindings@.len() - i,
        {
            if self.bindings[i].0 == *name {
                return Some(i);
            }
            i += 1;
        }
        None
    }

    /// A copy of the value that `name` has here or in an enclosing scope.
    pub fn get(&self, name: &String) -> (r: Option<Value>)
        ensures
            match r {
                Some(v) => spec_lookup(self@, name@) == Some(v@),
                None => spec_lookup(self@, name@) is None,
            },
        decreases *self,
    {
        proof {
            use_type_invariant(self);
            lemma_bindings_lookup(self.bindings@, self.bindings@.len() as int, name@);
        }
        match self.position_of(name) {
            Some(i) => Some(self.bindings[i].1.duplicate()),
            None => {
                match &self.parent {
                    Some(p) => p.get(name),
                    None => None,
                }
            },
        }
    }

    /// A copy of the value of a name given as a string slice.
    pub fn get_str(&self, name: &str) -> (r: Option<Value>)
        ensures
            match r {
                Some(v) => spec_lookup(self@, name@) == Some(v@),
                None => spec_lookup(self@, name@) is None,
            },
    {
        self.get(&String::from_str(name))
    }

    /// Binds `name` to `value` in this scope, replacing an own binding of
    /// the same name.
    pub fn set(&mut self, name: String, value: Value)
        ensures
            final(self)@ == spec_bind(old(self)@, name@, value@),
    {
        proof {
            use_type_invariant(&*self);
        }
        let ghost old_bs = self.bindings@;
        let pos = self.position_of(&name);
        let mut bs: Vec<(String, Value)> = Vec::new();
        std::mem::swap(&mut bs, &mut self.bindings);
        match pos {
            Some(i) => {
                proof {
                    lemma_bindings_update(old_bs, i as int, (name, value), old_bs.len() as int);
                }
                bs.set(i, (name, value));
                proof {
                    assert forall|a: int, b: int| 0 <= a < b < bs@.len() implies
                        (#[trigger] bs@[a]).0@ != (#[trigger] bs@[b]).0@ by {
                        assert(old_bs[a].0@ != old_bs[b].0@);
                    }
                }
            },
            None => {
                bs.push((name, value));
                proof {
                    lemma_bindings_prefix(bs@, old_bs, old_bs.len() as int);
                }
            },
        }
        std::mem::swap(&mut bs, &mut self.bindings);
        self.dirty = true;
        proof {
            assert(self@.bindings =~= old(self)@.bindings.insert(name@, value@));
        }
    }

    /// Adds a handler to this scope.
    pub fn add_handler(&mut self, handler: Handler)
        ensures
            final(self)@ == (SpecScope { handlers: old(self)@.handlers.push(handler@), dirty: true, ..old(self)@ }),
    {
        proof {
            use_type_invariant(&*self);
        }
        let ghost old_hs = self.handlers@;
        let mut hs: Vec<Handler> = Vec::new();
        std::mem::swap(&mut hs, &mut self.handlers);
        hs.push(handler);
        std::mem::swap(&mut hs, &mut self.handlers);
        self.dirty = true;
        proof {
            crate::ast::lemma_handlers_of(old_hs);
            crate::ast::lemma_handlers_of(self.handlers@);
            assert(crate::ast::handlers_of(self.handlers@) =~= crate::ast::handlers_of(old_hs).push(handler@));
        }
    }

    /// Copies of the handlers of this scope, then of the enclosing ones.
    pub fn get_handlers(&self) -> (r: Vec<Handler>)
        ensures
            crate::ast::handlers_of(r@) == spec_all_handlers(self@),
        decreases *self,
    {
        let mut out: Vec<Handler> = Vec::new();
        let mut i: usize = 0;
        proof {
            crate::ast::lemma_handlers_of(self.handlers@);
        }
        while i < self.handlers.len()
            invariant
                i <= self.handlers@.len(),
                out@.len() == i,
                forall|j: int| 0 <= j < i ==> (#[trigger] out@[j])@ == self.handlers@[j]@,
            decreases self.handlers@.len() - i,
        {
            out.push(self.handlers[i].duplicate());
            i += 1;
        }
        let ghost own = out@;
        match &self.parent {
            Some(p) => {
                let mut more = p.get_handlers();
                let ghost more_v = more@;
                out.append(&mut more);
                proof {
                    crate::ast::lemma_handlers_of(own);
                    crate::ast::lemma_handlers_of(more_v);
                    crate::ast::lemma_handlers_of(out@);
                    assert(crate::ast::handlers_of(out@) =~= crate::ast::handlers_of(self.handlers@) + crate::ast::handlers_of(more_v));
                }
            },
            None => {
                proof {
                    crate::ast::lemma_handlers_of(out@);
                    assert(crate::ast::handlers_of(out@) =~= crate::ast::handlers_of(self.handlers@));
                }
            },
        }
        out
    }

    /// Copies of this scope's own bindings, each name once.
    pub fn iter(&self) -> (r: Vec<(String, Value)>)
        ensures
            names_unique(r@),
            bindings_map(r@, r@.len() as int) == self@.bindings,
    {
        proof {
            use_type_invariant(self);
        }
        let mut out: Vec<(String, Value)> = Vec::new();
        let mut i: usize = 0;
        while i < self.bindings.len()
            invariant
                i <= self.bindings@.len(),
                out@.len() == i,
                names_unique(self.bindings@),
                forall|j: int| 0 <= j < i ==> (#[trigger] out@[j]).0@ == self.bindings@[j].0@ && out@[j].1@ == self.bindings@[j].1@,
            decreases self.bindings@.len() - i,
        {
            out.push((copy_string(&self.bindings[i].0), self.bindings[i].1.duplicate()));
            i += 1;
        }
        proof {
            lemma_bindings_prefix(out@, self.bindings@, out@.len() as int);
            assert forall|a: int, b: int| 0 <= a < b < out@.len() implies
                (#[trigger] out@[a]).0@ != (#[trigger] out@[b]).0@ by {
                assert(self.bindings@[a].0@ != self.bindings@[b].0@);
            }
        }
        out
    }

    /// The channels bound in this scope's own bindings, in binding order.
    pub fn channels(&self) -> (r: Vec<Channel>)
        ensures
            forall|i: int| 0 <= i < r@.len() ==> self@.bindings.values().contains(SpecValue::Channel(#[trigger] r@[i])),
            forall|k: Seq<char>| #[trigger] self@.bindings.contains_key(k) && self@.bindings[k] is Channel
                ==> r@.contains(self@.bindings[k]->Channel_0),
    {
        proof {
            use_type_invariant(self);
        }
        let ghost m = self@.bindings;
        let ghost bs = self.bindings@;
        proof {
            assert forall|i: int| 0 <= i < bs.len() implies m.contains_key((#[trigger] bs[i]).0@) && m[bs[i].0@] == bs[i].1@ by {
                lemma_bindings_lookup(bs, bs.len() as int, bs[i].0@);
            }
        }
        let mut out: Vec<Channel> = Vec::new();
        let mut i: usize = 0;
        while i < self.bindings.len()
            invariant
                i <= bs.len(),
                bs == self.bindings@,
                m == self@.bindings,
                forall|i: int| 0 <= i < bs.len() ==> m.contains_key((#[trigger] bs[i]).0@) && m[bs[i].0@] == bs[i].1@,
                forall|j: int| 0 <= j < out@.len() ==> m.values().contains(SpecValue::Channel(#[trigger] out@[j])),
                forall|j: int| 0 <= j < i && (#[trigger] bs[j]).1@ is Channel ==> out@.contains(bs[j].1@->Channel_0),
            decreases bs.len() - i,
        {
            let ghost prev = out@;
            match &self.bindings[i].1 {
                Value::Channel(c) => {
                    proof {
                        assert(m.contains_key(bs[i as int].0@));
                        assert(m[bs[i as int].0@] == SpecValue::Channel(*c));
                    }
                    out.push(*c);
                    proof {
                        assert(out@[out@.len() - 1] == *c);
                    }
                },
                _ => {},
            }
            proof {
                assert forall|j: int| 0 <= j < i + 1 && (#[trigger] bs[j]).1@ is Channel implies out@.contains(bs[j].1@->Channel_0) by {
                    if j < i {
                        let k = choose|k: int| 0 <= k < prev.len() && prev[k] == bs[j].1@->Channel_0;
                        assert(out@[k] == prev[k]);
                    } else {
                        assert(out@[out@.len() - 1] == bs[j].1@->Channel_0);
                    }
                }
            }
            i += 1;
        }
        proof {
            assert forall|k: Seq<char>| #[trigger] m.contains_key(k) && m[k] is Channel implies out@.contains(m[k]->Channel_0) by {
                lemma_bindings_lookup(bs, bs.len() as int, k);
                let i = choose|i: int| 0 <= i < bs.len() && (#[trigger] bs[i]).0@ == k;
                assert(m[k] == bs[i].1@);
            }
        }
        out
    }

    /// Takes the own bindings of `other` as this scope's own bindings,
    /// keeping this scope's handlers, enclosing scope and dirty flag: what
    /// a scope sees when a copy that shares its bindings was written to.
    pub fn adopt_bindings(&mut self, other: &Scope)
        ensures
            final(self)@ == (SpecScope { bindings: other@.bindings, ..old(self)@ }),
    {
        let mut bs = other.iter();
        std::mem::swap(&mut bs, &mut self.bindings);
        proof {
            assert(self@.bindings == other@.bindings);
            assert(self@.handlers == old(self)@.handlers);
        }
    }

    /// A copy of the scope.
    pub fn duplicate(&self) -> (r: Scope)
        ensures
            r@ == self@,
        decreases *self,
    {
        proof {
            use_type_invariant(self);
        }
        let parent = match &self.parent {
            Some(p) => Some(Box::new(p.duplicate())),
            None => None,
        };
        let bindings = self.iter();
        let mut handlers: Vec<Handler> = Vec::new();
        let mut i: usize = 0;
        while i < self.handlers.len()
            invariant
                i <= self.handlers@.len(),
                handlers@.len() == i,
                forall|j: int| 0 <= j < i ==> (#[trigger] handlers@[j])@ == self.handlers@[j]@,
            decreases self.handlers@.len() - i,
        {
            handlers.push(self.handlers[i].duplicate());
            i += 1;
        }
        proof {
            crate::ast::lemma_handlers_of(handlers@);
            crate::ast::lemma_handlers_of(self.handlers@);
            assert(crate::ast::handlers_of(handlers@) =~= crate::ast::handlers_of(self.handlers@));
        }
        Scope { parent, bindings, handlers, dirty: self.dirty }
    }
}

/// After binding a name, the name has the bound value.
pub proof fn lemma_lookup_after_bind(s: SpecScope, name: Seq<char>, v: SpecValue)
    ensures
        spec_lookup(spec_bind(s, name, v), name) == Some(v),
{
}

/// Binding a name leaves every other name as it was.
pub proof fn lemma_lookup_other_after_bind(s: SpecScope, name: Seq<char>, other: Seq<char>, v: SpecValue)
    requires
        other != name,
    ensures
        spec_lookup(spec_bind(s, name, v), other) == spec_lookup(s, other),
{
    assert(s.bindings.insert(name, v).contains_key(other) == s.bindings.contains_key(other));
}

/// A name not bound in a scope has the value it has in the enclosing one.
pub proof fn lemma_lookup_falls_back(s: SpecScope, p: SpecScope, name: Seq<char>)
    requires
        s.parent == Some(Box::new(p)),
        !s.bindings.contains_key(name),
    ensures
        spec_lookup(s, name) == spec_lookup(p, name),
{
}

} // verus!
