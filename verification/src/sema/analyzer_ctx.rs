use vstd::prelude::*;

verus! {

/// One scope: the names declared in it with their symbol ids, in order of
/// declaration. A later entry for a name hides an earlier one.
pub type ScopeV = Seq<(Seq<char>, usize)>;

/// The symbol id bound to `name` in one scope.
pub open spec fn scope_lookup(sc: ScopeV, name: Seq<char>) -> Option<usize>
    decreases sc.len(),
{
    if sc.len() == 0 {
        None
    } else if sc.last().0 == name {
        Some(sc.last().1)
    } else {
        scope_lookup(sc.drop_last(), name)
    }
}

/// The symbol id bound to `name`, searching from the innermost scope outwards.
pub open spec fn scopes_lookup(scs: Seq<ScopeV>, name: Seq<char>) -> Option<usize>
    decreases scs.len(),
{
    if scs.len() == 0 {
        None
    } else {
        match scope_lookup(scs.last(), name) {
            Some(id) => Some(id),
            None => scopes_lookup(scs.drop_last(), name),
        }
    }
}

/// The symbol id bound to `name` in the innermost scope.
pub open spec fn current_lookup(scs: Seq<ScopeV>, name: Seq<char>) -> Option<usize> {
    if scs.len() == 0 {
        None
    } else {
        scope_lookup(scs.last(), name)
    }
}

/// The scopes with `name` bound to `id` in the innermost one.
pub open spec fn spec_bind(scs: Seq<ScopeV>, name: Seq<char>, id: usize) -> Seq<ScopeV> {
    scs.update(scs.len() - 1, scs.last().push((name, id)))
}

/// The scopes with the innermost one closed (none closed when there is none).
pub open spec fn spec_exit(scs: Seq<ScopeV>) -> Seq<ScopeV> {
    if scs.len() == 0 {
        scs
    } else {
        scs.drop_last()
    }
}

pub open spec fn scope_view(v: Seq<(String, usize)>) -> ScopeV {
    v.map_values(|e: (String, usize)| (e.0@, e.1))
}

/// The stack of scopes that name resolution walks through.
pub struct AnalyzerCtx {
    scopes: Vec<Vec<(String, usize)>>,
}

impl View for AnalyzerCtx {
    type V = Seq<ScopeV>;

    closed spec fn view(&self) -> Seq<ScopeV> {
        self.scopes@.map_values(|v: Vec<(String, usize)>| scope_view(v@))
    }
}

impl AnalyzerCtx {
    /// A context with the global scope open and empty.
    pub fn new() -> (c: Self)
        ensures
            c@ == seq![Seq::<(Seq<char>, usize)>::empty()],
    {
        let mut scopes: Vec<Vec<(String, usize)>> = Vec::new();
        scopes.push(Vec::new());
        let c = AnalyzerCtx { scopes };
        proof {
            assert(scope_view(c.scopes@[0]@) =~= Seq::empty());
            assert(c@ =~= seq![Seq::<(Seq<char>, usize)>::empty()]);
        }
        c
    }

    pub fn enter_scope(&mut self)
        ensures
            final(self)@ == old(self)@.push(Seq::empty()),
    {
        self.scopes.push(Vec::new());
        proof {
            assert(scope_view(self.scopes@.last()@) =~= Seq::empty());
            assert(self@ =~= old(self)@.push(Seq::empty()));
        }
    }

    pub fn exit_scope(&mut self)
        ensures
            final(self)@ == spec_exit(old(self)@),
    {
        self.scopes.pop();
        proof {
            assert(self@ =~= spec_exit(old(self)@));
        }
    }

    /// Binds `name` to `id` in the innermost scope.
    pub fn add_symbol_id(&mut self, name: String, id: usize)
        requires
            old(self)@.len() > 0,
        ensures
            final(self)@ == spec_bind(old(self)@, name@, id),
    {
        let ghost n = name@;
        let last = self.scopes.len() - 1;
        let mut scope = self.scopes.remove(last);
        let ghost old_scope = scope@;
        scope.push((name, id));
        proof {
            assert(scope_view(scope@) =~= scope_view(old_scope).push((n, id)));
        }
        self.scopes.push(scope);
        proof {
            assert(self@ =~= spec_bind(old(self)@, n, id));
        }
    }

    /// The symbol id bound to `name` in the innermost scope that binds it.
    pub fn lookup_symbol(&self, name: &str) -> (id: Option<usize>)
        ensures
            id == scopes_lookup(self@, name@),
    {
        let key = name.to_owned();
        let mut i = self.scopes.len();
        proof {
            assert(self@.take(i as int) =~= self@);
        }
        while i > 0
            invariant
                i <= self.scopes@.len(),
                key@ == name@,
                scopes_lookup(self@, name@) == scopes_lookup(self@.take(i as int), name@),
            decreases i,
        {
            proof {
                assert(self@.take(i as int).drop_last() =~= self@.take(i - 1));
                assert(self@.take(i as int).last() == scope_view(self.scopes@[i - 1]@));
            }
            match lookup_in_scope(&self.scopes[i - 1], &key) {
                Some(id) => {
                    return Some(id);
                },
                None => {},
            }
            i = i - 1;
        }
        None
    }

    /// The symbol id bound to `name` in the innermost scope.
    pub fn lookup_current_scope(&self, name: &str) -> (id: Option<usize>)
        ensures
            id == current_lookup(self@, name@),
    {
        let key = name.to_owned();
        let n = self.scopes.len();
        if n == 0 {
            None
        } else {
            proof {
                assert(self@.last() == scope_view(self.scopes@[n - 1]@));
            }
            lookup_in_scope(&self.scopes[n - 1], &key)
        }
    }
}

fn lookup_in_scope(scope: &Vec<(String, usize)>, key: &String) -> (id: Option<usize>)
    ensures
        id == scope_lookup(scope_view(scope@), key@),
{
    let mut j = scope.len();
    proof {
        assert(scope_view(scope@).take(j as int) =~= scope_view(scope@));
    }
    while j > 0
        invariant
            j <= scope@.len(),
            scope_lookup(scope_view(scope@), key@) == scope_lookup(
                scope_view(scope@).take(j as int),
                key@,
            ),
        decreases j,
    {
        let ghost sv = scope_view(scope@).take(j as int);
        proof {
            assert(sv.drop_last() =~= scope_view(scope@).take(j - 1));
            assert(sv.last() == (scope@[j - 1].0@, scope@[j - 1].1));
        }
        if scope[j - 1].0 == *key {
            return Some(scope[j - 1].1);
        }
        j = j - 1;
    }
    None
}

} // verus!

verus! {

/// A name bound in the innermost scope is found there, and by a lookup
/// through all scopes.
pub proof fn lemma_lookup_after_bind(scs: Seq<ScopeV>, name: Seq<char>, id: usize)
    requires
        scs.len() > 0,
    ensures
        current_lookup(spec_bind(scs, name, id), name) == Some(id),
        scopes_lookup(spec_bind(scs, name, id), name) == Some(id),
{
    let b = spec_bind(scs, name, id);
    assert(b.last() == scs.last().push((name, id)));
}

/// Binding a name changes what no other name is bound to.
pub proof fn lemma_bind_other_name(scs: Seq<ScopeV>, name: Seq<char>, id: usize, other: Seq<char>)
    requires
        scs.len() > 0,
        other != name,
    ensures
        current_lookup(spec_bind(scs, name, id), other) == current_lookup(scs, other),
        scopes_lookup(spec_bind(scs, name, id), other) == scopes_lookup(scs, other),
{
    let b = spec_bind(scs, name, id);
    assert(b.last() == scs.last().push((name, id)));
    assert(b.last().drop_last() =~= scs.last());
    assert(b.drop_last() =~= scs.drop_last());
}

/// A name bound in an inner scope hides the same name in the scopes around it.
pub proof fn lemma_inner_scope_shadows(scs: Seq<ScopeV>, name: Seq<char>, id: usize)
    requires
        scs.len() > 0,
    ensures
        scopes_lookup(spec_bind(scs.push(Seq::empty()), name, id), name) == Some(id),
{
    lemma_lookup_after_bind(scs.push(Seq::empty()), name, id);
}

/// Closing the scope just opened gives back the scopes as they were, and
/// with them every binding.
pub proof fn lemma_exit_undoes_enter(scs: Seq<ScopeV>)
    ensures
        spec_exit(scs.push(Seq::empty())) == scs,
{
    assert(scs.push(Seq::empty()).drop_last() =~= scs);
}

} // verus!
