use vstd::hash_map::StringHashMap;
use vstd::prelude::*;
use vstd::string::StringExecFns;

verus! {

/// The names of one lexical scope, each with what is known of it.
#[verifier::reject_recursive_types(T)]
pub struct Scope<T> {
    vars: StringHashMap<T>,
}

impl<T> Scope<T> {
    /// The scope as a map from names to values.
    pub closed spec fn view(&self) -> Map<Seq<char>, T> {
        self.vars@
    }

    pub fn new() -> (out: Scope<T>)
        ensures
            out@ == Map::<Seq<char>, T>::empty(),
    {
        Scope { vars: StringHashMap::new() }
    }

    pub fn find(&self, name: &str) -> (out: Option<&T>)
        ensures
            match out {
                Some(value) => self@.contains_key(name@) && *value == self@[name@],
                None => !self@.contains_key(name@),
            },
    {
        self.vars.get(name)
    }

    /// Binds `name` unless the scope already holds it; a scope that holds it
    /// stays as it is.
    pub fn insert(&mut self, name: String, value: T) -> (out: Option<&T>)
        ensures
            old(self)@.contains_key(name@) ==> out is None && final(self)@ == old(self)@,
            !old(self)@.contains_key(name@) ==> out == Some(&value) && final(self)@ == old(self)@.insert(name@, value),
    {
        if self.vars.contains_key(name.as_str()) {
            None
        } else {
            let key = name.clone();
            self.vars.insert(name, value);
            self.vars.get(key.as_str())
        }
    }
}

/// What a lookup in a stack of scopes finds: the binding of the innermost
/// scope that holds the name.
pub open spec fn scopes_find<T>(scopes: Seq<Map<Seq<char>, T>>, name: Seq<char>) -> Option<T>
    decreases scopes.len(),
{
    if scopes.len() == 0 {
        None
    } else if scopes.last().contains_key(name) {
        Some(scopes.last()[name])
    } else {
        scopes_find(scopes.drop_last(), name)
    }
}

/// Whether the innermost scope of a stack is free to take `name`.
pub open spec fn scopes_can_insert<T>(scopes: Seq<Map<Seq<char>, T>>, name: Seq<char>) -> bool {
    scopes.len() > 0 && !scopes.last().contains_key(name)
}

/// The stack after `name` was bound in its innermost scope.
pub open spec fn scopes_insert<T>(
    scopes: Seq<Map<Seq<char>, T>>,
    name: Seq<char>,
    value: T,
) -> Seq<Map<Seq<char>, T>>
    recommends
        scopes.len() > 0,
{
    scopes.update(scopes.len() - 1, scopes.last().insert(name, value))
}

/// The stack with each binding replaced by what `f` makes of it.
pub open spec fn scopes_map<T, U>(scopes: Seq<Map<Seq<char>, T>>, f: spec_fn(T) -> U) -> Seq<
    Map<Seq<char>, U>,
> {
    Seq::new(scopes.len(), |i: int| scopes[i].map_values(f))
}

pub proof fn lemma_map_push<T, U>(scopes: Seq<Map<Seq<char>, T>>, f: spec_fn(T) -> U)
    ensures
        scopes_map(scopes.push(Map::empty()), f) == scopes_map(scopes, f).push(Map::empty()),
{
    let a = scopes_map(scopes.push(Map::empty()), f);
    let b = scopes_map(scopes, f).push(Map::empty());
    assert(a.len() == b.len());
    assert forall|i: int| 0 <= i < a.len() implies a[i] == b[i] by {
        if i == scopes.len() {
            assert(a[i] =~= Map::<Seq<char>, U>::empty());
        }
    }
    assert(a =~= b);
}

pub proof fn lemma_map_drop_last<T, U>(scopes: Seq<Map<Seq<char>, T>>, f: spec_fn(T) -> U)
    requires
        scopes.len() > 0,
    ensures
        scopes_map(scopes.drop_last(), f) == scopes_map(scopes, f).drop_last(),
{
    assert(scopes_map(scopes.drop_last(), f) =~= scopes_map(scopes, f).drop_last());
}

/// A lookup in the mapped stack finds what `f` makes of the binding found
/// in the stack itself.
pub proof fn lemma_map_find<T, U>(scopes: Seq<Map<Seq<char>, T>>, f: spec_fn(T) -> U, name: Seq<char>)
    ensures
        scopes_find(scopes_map(scopes, f), name) == match scopes_find(scopes, name) {
            Some(value) => Some(f(value)),
            None => None,
        },
    decreases scopes.len(),
{
    if scopes.len() > 0 {
        lemma_map_drop_last(scopes, f);
        lemma_map_find(scopes.drop_last(), f, name);
    }
}

pub proof fn lemma_map_insert<T, U>(
    scopes: Seq<Map<Seq<char>, T>>,
    f: spec_fn(T) -> U,
    name: Seq<char>,
    value: T,
)
    requires
        scopes.len() > 0,
    ensures
        scopes_can_insert(scopes_map(scopes, f), name) == scopes_can_insert(scopes, name),
        scopes_map(scopes_insert(scopes, name, value), f) == scopes_insert(
            scopes_map(scopes, f),
            name,
            f(value),
        ),
{
    let a = scopes_map(scopes_insert(scopes, name, value), f);
    let b = scopes_insert(scopes_map(scopes, f), name, f(value));
    assert(a.len() == b.len());
    assert forall|i: int| 0 <= i < a.len() implies a[i] == b[i] by {
        if i == scopes.len() - 1 {
            assert(a[i] =~= b[i]);
        }
    }
    assert(a =~= b);
}

/// What a lookup finds is bound in one of the scopes.
pub proof fn lemma_find_witness<T>(scopes: Seq<Map<Seq<char>, T>>, name: Seq<char>) -> (s: int)
    requires
        scopes_find(scopes, name) is Some,
    ensures
        0 <= s < scopes.len(),
        scopes[s].contains_key(name),
        scopes_find(scopes, name) == Some(scopes[s][name]),
    decreases scopes.len(),
{
    if scopes.last().contains_key(name) {
        scopes.len() - 1
    } else {
        lemma_find_witness(scopes.drop_last(), name)
    }
}

/// A name that is declared in an inner scope hides the same name of an
/// outer scope and does not clash with it; when the inner scope is closed
/// the outer binding is found again.
pub proof fn lemma_inner_name_shadows<T>(
    scopes: Seq<Map<Seq<char>, T>>,
    name: Seq<char>,
    outer: T,
    inner: T,
)
    requires
        scopes_find(scopes, name) == Some(outer),
    ensures
        scopes_can_insert(scopes.push(Map::empty()), name),
        scopes_find(scopes_insert(scopes.push(Map::empty()), name, inner), name) == Some(inner),
        scopes_insert(scopes.push(Map::empty()), name, inner).drop_last() == scopes,
{
    let opened = scopes.push(Map::<Seq<char>, T>::empty());
    let declared = scopes_insert(opened, name, inner);
    assert(declared.last().contains_key(name));
    assert(declared.drop_last() =~= scopes);
}

/// A name cannot be declared twice in one scope: once it is there, the
/// scope is not free to take it again.
pub proof fn lemma_no_redeclaration<T>(scopes: Seq<Map<Seq<char>, T>>, name: Seq<char>, first: T)
    requires
        scopes_can_insert(scopes, name),
    ensures
        !scopes_can_insert(scopes_insert(scopes, name, first), name),
        scopes_find(scopes_insert(scopes, name, first), name) == Some(first),
{
    let declared = scopes_insert(scopes, name, first);
    assert(declared.last().contains_key(name));
}

/// The same name in two blocks that stand side by side does not clash:
/// when the first block is closed its names are gone.
pub proof fn lemma_sibling_scopes_independent<T>(
    scopes: Seq<Map<Seq<char>, T>>,
    name: Seq<char>,
    first: T,
    second: T,
)
    ensures
        scopes_insert(scopes.push(Map::empty()), name, first).drop_last() == scopes,
        scopes_can_insert(
            scopes_insert(scopes.push(Map::empty()), name, first).drop_last().push(Map::empty()),
            name,
        ),
{
    let opened = scopes.push(Map::<Seq<char>, T>::empty());
    let declared = scopes_insert(opened, name, first);
    assert(declared.drop_last() =~= scopes);
}

/// A stack of lexical scopes, the innermost last.
#[verifier::reject_recursive_types(T)]
pub struct ScopeBuilder<T> {
    scopes: Vec<Scope<T>>,
}

impl<T> ScopeBuilder<T> {
    /// The stack as a sequence of maps, the innermost scope last.
    pub closed spec fn view(&self) -> Seq<Map<Seq<char>, T>> {
        Seq::new(self.scopes@.len(), |i: int| self.scopes@[i]@)
    }

    pub fn new() -> (out: ScopeBuilder<T>)
        ensures
            out@ == Seq::<Map<Seq<char>, T>>::empty(),
    {
        let out = ScopeBuilder { scopes: Vec::new() };
        assert(out@ =~= Seq::<Map<Seq<char>, T>>::empty());
        out
    }

    /// Opens a new innermost scope.
    pub fn push_scope(&mut self)
        ensures
            final(self)@ == old(self)@.push(Map::<Seq<char>, T>::empty()),
    {
        self.scopes.push(Scope::new());
        assert(self@ =~= old(self)@.push(Map::<Seq<char>, T>::empty()));
    }

    /// Closes the innermost scope, if there is one.
    pub fn pop_scope(&mut self)
        ensures
            old(self)@.len() > 0 ==> final(self)@ == old(self)@.drop_last(),
            old(self)@.len() == 0 ==> final(self)@ == old(self)@,
    {
        self.scopes.pop();
        assert(old(self)@.len() > 0 ==> self@ =~= old(self)@.drop_last());
        assert(old(self)@.len() == 0 ==> self@ =~= old(self)@);
    }

    /// Looks `name` up from the innermost scope outwards.
    pub fn find_name_rec(&self, name: &str) -> (out: Option<&T>)
        ensures
            match out {
                Some(value) => scopes_find(self@, name@) == Some(*value),
                None => scopes_find(self@, name@) is None,
            },
    {
        let mut i: usize = self.scopes.len();
        assert(self@.take(i as int) =~= self@);
        while i > 0
            invariant
                i <= self.scopes.len(),
                scopes_find(self@, name@) == scopes_find(self@.take(i as int), name@),
            decreases i,
        {
            i -= 1;
            assert(self@.take(i + 1).last() == self.scopes@[i as int]@);
            assert(self@.take(i + 1).drop_last() =~= self@.take(i as int));
            if let Some(value) = self.scopes[i].find(name) {
                return Some(value);
            }
        }
        None
    }

    /// Binds `name` in the innermost scope unless that scope already holds
    /// it; then nothing changes.
    pub fn insert(&mut self, name: &str, id: T) -> (out: Option<&T>)
        requires
            old(self)@.len() > 0,
        ensures
            scopes_can_insert(old(self)@, name@) ==> out == Some(&id) && final(self)@
                == scopes_insert(old(self)@, name@, id),
            !scopes_can_insert(old(self)@, name@) ==> out is None && final(self)@ == old(self)@,
    {
        let last = self.scopes.len() - 1;
        let inserted = self.scopes[last].insert(String::from_str(name), id).is_some();
        assert(inserted == scopes_can_insert(old(self)@, name@));
        assert(inserted ==> self@ =~= scopes_insert(old(self)@, name@, id));
        assert(!inserted ==> self@ =~= old(self)@);
        if inserted {
            self.scopes[last].find(name)
        } else {
            None
        }
    }
}

} // verus!
