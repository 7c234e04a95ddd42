use vstd::prelude::*;

use crate::error::CompileError;

verus! {

/// The declared type and the stack offset of a variable.
pub struct Symbol {
    pub symb_type: String,
    pub offset: u64,
}

/// One binding of a scope, as a value: name, declared type, offset.
pub type BindingView = (Seq<char>, Seq<char>, u64);

/// One scope, as a value: its bindings in the order of declaration and the
/// largest offset declared in it (or the offset it started from).
pub struct ScopeView {
    pub bindings: Seq<BindingView>,
    pub cur_offset: u64,
}

/// The latest binding of `name` among `b`, as its type and offset.
pub open spec fn find_in(b: Seq<BindingView>, name: Seq<char>) -> Option<(Seq<char>, u64)>
    decreases b.len(),
{
    if b.len() == 0 {
        None
    } else if b.last().0 == name {
        Some((b.last().1, b.last().2))
    } else {
        find_in(b.drop_last(), name)
    }
}

/// The binding of `name` in the innermost scope of `scopes` that declares it.
pub open spec fn lookup(scopes: Seq<ScopeView>, name: Seq<char>) -> Option<(Seq<char>, u64)>
    decreases scopes.len(),
{
    if scopes.len() == 0 {
        None
    } else {
        match find_in(scopes.last().bindings, name) {
            Some(x) => Some(x),
            None => lookup(scopes.drop_last(), name),
        }
    }
}

/// `scopes` with `name` declared in the innermost scope, whose running
/// maximum offset takes the new offset into account.
pub open spec fn declare(scopes: Seq<ScopeView>, name: Seq<char>, ty: Seq<char>, offset: u64) -> Seq<
    ScopeView,
> {
    let top = scopes.last();
    scopes.drop_last().push(
        ScopeView {
            bindings: top.bindings.push((name, ty, offset)),
            cur_offset: if top.cur_offset < offset {
                offset
            } else {
                top.cur_offset
            },
        },
    )
}

/// `scopes` with a new, empty innermost scope that starts at offset `base`.
pub open spec fn enter(scopes: Seq<ScopeView>, base: u64) -> Seq<ScopeView> {
    scopes.push(ScopeView { bindings: Seq::empty(), cur_offset: base })
}

/// The running maximum offset of the innermost scope.
pub open spec fn top_offset(scopes: Seq<ScopeView>) -> u64 {
    scopes.last().cur_offset
}

/// Leaving a scope entered for a block brings back exactly the scopes that
/// were there before it: a variable declared in the block is no longer
/// visible, an outer one of the same name is visible again, and the running
/// maximum offset of the enclosing scope is the one it had before the block.
pub proof fn lemma_block_scope_restores(
    scopes: Seq<ScopeView>,
    base: u64,
    name: Seq<char>,
    ty: Seq<char>,
    offset: u64,
)
    requires
        scopes.len() > 0,
    ensures
        declare(enter(scopes, base), name, ty, offset).drop_last() == scopes,
        lookup(declare(enter(scopes, base), name, ty, offset).drop_last(), name) == lookup(
            scopes,
            name,
        ),
        top_offset(declare(enter(scopes, base), name, ty, offset).drop_last()) == top_offset(
            scopes,
        ),
        lookup(declare(enter(scopes, base), name, ty, offset), name) == Some((ty, offset)),
{
    let inner = declare(enter(scopes, base), name, ty, offset);
    assert(inner.drop_last() =~= scopes);
    assert(inner.last().bindings.last() == (name, ty, offset));
}

struct Binding {
    name: String,
    symbol: Symbol,
}

struct Scope {
    bindings: Vec<Binding>,
    cur_offset: u64,
}

spec fn binding_view(b: Binding) -> BindingView {
    (b.name@, b.symbol.symb_type@, b.symbol.offset)
}

spec fn scope_view(s: Scope) -> ScopeView {
    ScopeView { bindings: s.bindings@.map_values(|b: Binding| binding_view(b)), cur_offset: s.cur_offset }
}

/// The scopes of a compile, innermost last.  The first is the root scope,
/// which is never left.
pub struct SymbolTable {
    scopes: Vec<Scope>,
}

impl SymbolTable {
    pub closed spec fn view(&self) -> Seq<ScopeView> {
        self.scopes@.map_values(|s: Scope| scope_view(s))
    }

    pub open spec fn wf(&self) -> bool {
        self.view().len() > 0
    }

    /// A table with only the empty root scope, at offset 0.
    pub fn new() -> (r: SymbolTable)
        ensures
            r.view() == seq![ScopeView { bindings: Seq::empty(), cur_offset: 0 }],
    {
        let mut scopes: Vec<Scope> = Vec::new();
        scopes.push(Scope { bindings: Vec::new(), cur_offset: 0 });
        let r = SymbolTable { scopes };
        assert(r.view()[0].bindings =~= Seq::<BindingView>::empty());
        assert(r.view() =~= seq![ScopeView { bindings: Seq::empty(), cur_offset: 0 }]);
        r
    }

    /// `parent` with a new, empty innermost scope at offset 0, as a function
    /// body starts one.
    pub fn new_from_outer(parent: SymbolTable) -> (r: SymbolTable)
        ensures
            r.view() == enter(parent.view(), 0),
    {
        let mut r = parent;
        r.enter_scope(0);
        r
    }

    /// Opens a new, empty innermost scope that starts at offset `base`.
    pub fn enter_scope(&mut self, base: u64)
        ensures
            final(self).view() == enter(old(self).view(), base),
    {
        self.scopes.push(Scope { bindings: Vec::new(), cur_offset: base });
        assert(self.view().last().bindings =~= Seq::<BindingView>::empty());
        assert(self.view() =~= enter(old(self).view(), base));
    }

    /// Leaves the innermost scope.  Leaving the root scope is an error, and
    /// leaves the table as it was.
    pub fn move_out(&mut self) -> (r: Result<(), CompileError>)
        ensures
            r is Ok <==> old(self).view().len() > 1,
            r is Ok ==> final(self).view() == old(self).view().drop_last(),
            r is Err ==> final(self).view() == old(self).view() && r matches Err(
                CompileError::ScopeUnderflow,
            ),
    {
        if self.scopes.len() <= 1 {
            return Err(CompileError::ScopeUnderflow);
        }
        self.scopes.pop();
        assert(self.view() =~= old(self).view().drop_last());
        Ok(())
    }

    /// Declares `name` in the innermost scope.
    pub fn add(&mut self, name: String, s: Symbol)
        requires
            old(self).wf(),
        ensures
            final(self).view() == declare(old(self).view(), name@, s.symb_type@, s.offset),
    {
        let ghost n = name@;
        let ghost t = s.symb_type@;
        let ghost o = s.offset;
        let mut top = self.scopes.pop().unwrap();
        if top.cur_offset < s.offset {
            top.cur_offset = s.offset;
        }
        top.bindings.push(Binding { name, symbol: s });
        assert(scope_view(top).bindings =~= old(self).view().last().bindings.push((n, t, o)));
        self.scopes.push(top);
        assert(self.view() =~= declare(old(self).view(), n, t, o));
    }

    /// The running maximum offset of the innermost scope.
    pub fn cur_offset(&self) -> (r: u64)
        requires
            self.wf(),
        ensures
            r == top_offset(self.view()),
    {
        self.scopes[self.scopes.len() - 1].cur_offset
    }

    /// The nearest enclosing binding of `name`.
    pub fn get(&self, name: &String) -> (r: Option<Symbol>)
        ensures
            r is None <==> lookup(self.view(), name@) is None,
            r is Some ==> lookup(self.view(), name@) == Some(
                (r->0.symb_type@, r->0.offset),
            ),
    {
        let ghost all = self.view();
        let mut i: usize = self.scopes.len();
        assert(all.subrange(0, i as int) =~= all);
        while i > 0
            invariant
                i <= self.scopes@.len(),
                all == self.view(),
                lookup(all, name@) == lookup(all.subrange(0, i as int), name@),
            decreases i,
        {
            let scope = &self.scopes[i - 1];
            let ghost sv = scope_view(*scope);
            assert(all.subrange(0, i as int).last() == sv);
            assert(all.subrange(0, i as int).drop_last() =~= all.subrange(0, i - 1));
            let mut j: usize = scope.bindings.len();
            assert(sv.bindings.subrange(0, j as int) =~= sv.bindings);
            while j > 0
                invariant
                    j <= scope.bindings@.len(),
                    sv == scope_view(*scope),
                    0 < i <= self.scopes@.len(),
                    all == self.view(),
                    lookup(all, name@) == lookup(all.subrange(0, i as int), name@),
                    all.subrange(0, i as int).last() == sv,
                    find_in(sv.bindings, name@) == find_in(sv.bindings.subrange(0, j as int), name@),
                decreases j,
            {
                let b = &scope.bindings[j - 1];
                assert(sv.bindings.subrange(0, j as int).last() == binding_view(*b));
                assert(sv.bindings.subrange(0, j as int).drop_last() =~= sv.bindings.subrange(
                    0,
                    j - 1,
                ));
                if b.name == *name {
                    assert(find_in(sv.bindings, name@) == Some((b.symbol.symb_type@, b.symbol.offset)));
                    assert(lookup(all.subrange(0, i as int), name@) == Some(
                        (b.symbol.symb_type@, b.symbol.offset),
                    ));
                    return Some(Symbol { symb_type: b.symbol.symb_type.clone(), offset: b.symbol.offset });
                }
                j = j - 1;
            }
            assert(sv.bindings.subrange(0, 0) =~= Seq::<BindingView>::empty());
            i = i - 1;
        }
        assert(all.subrange(0, 0) =~= Seq::<ScopeView>::empty());
        None
    }
}

} // verus!
