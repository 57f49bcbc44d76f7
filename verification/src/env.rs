//! The per-scope environment: read-only references to the global
//! name-to-identity and identity-to-kind tables, plus the ordered list
//! of parameters bound in the current scope. A parameter's positional
//! index is its position in that list, innermost scope first, so
//! entering a nested binding scope prepends the new binders and thereby
//! shifts every existing index up by their count.

use vstd::prelude::*;
use crate::ast::{Identifier, ParameterKind};
use crate::error::LowerError;
use crate::ir::{ItemId, TypeKind};
use crate::maps::{AssocNameMap, IdMap, NameMap};

verus! {

/// What a type-position name resolved to: a global item or a bound
/// parameter's positional index.
#[derive(Clone, Copy, Debug, PartialEq, Eq, Structural)]
pub enum NameLookup {
    Type(ItemId),
    Parameter(usize),
}

/// What a lifetime-position name resolved to.
#[derive(Clone, Copy, Debug, PartialEq, Eq, Structural)]
pub enum LifetimeLookup {
    Parameter(usize),
}

pub struct Env<'k> {
    pub type_ids: &'k NameMap,
    pub type_kinds: &'k IdMap<TypeKind>,
    pub associated_ty_ids: &'k AssocNameMap,
    pub parameter_map: Vec<ParameterKind<Identifier>>,
}

/// The mathematical content of a registered type kind.
pub ghost struct TypeKindModel {
    pub sort: crate::ir::TypeSort,
    pub name: Identifier,
    pub parameter_kinds: Seq<ParameterKind<Identifier>>,
}

pub open spec fn tk_model(tk: TypeKind) -> TypeKindModel {
    TypeKindModel { sort: tk.sort, name: tk.name, parameter_kinds: tk.parameter_kinds@ }
}

pub open spec fn tk_models(m: Map<int, TypeKind>) -> Map<int, TypeKindModel> {
    Map::new(|i: int| m.contains_key(i), |i: int| tk_model(m[i]))
}

/// The mathematical content of an environment: everything name
/// resolution depends on.
pub ghost struct EnvModel {
    pub params: Seq<ParameterKind<Identifier>>,
    pub type_ids: Map<Identifier, ItemId>,
    pub type_kinds: Map<int, TypeKindModel>,
    pub assoc_ty_ids: Map<(int, Identifier), ItemId>,
}

impl EnvModel {
    /// Internal consistency: every identity the name table hands out has
    /// a registered kind, and no registered kind has a parameter list so
    /// long that its count plus the synthetic self parameter overflows a
    /// `usize` (a machine limit: arity errors carry that count). Every
    /// environment the lowering pass builds satisfies this.
    pub open spec fn wf(self) -> bool {
        &&& forall|n: Identifier|
            self.type_ids.contains_key(n) ==> self.type_kinds.contains_key(
                (#[trigger] self.type_ids[n]).index as int,
            )
        &&& forall|i: int|
            self.type_kinds.contains_key(i) ==> (#[trigger] self.type_kinds[i]).parameter_kinds.len()
                < usize::MAX
    }

    /// The same environment with different bound parameters.
    pub open spec fn with_params(self, params: Seq<ParameterKind<Identifier>>) -> EnvModel {
        EnvModel {
            params,
            type_ids: self.type_ids,
            type_kinds: self.type_kinds,
            assoc_ty_ids: self.assoc_ty_ids,
        }
    }
}

/// The index of the first entry equal to `k`, or -1 if there is none.
pub open spec fn param_index(pm: Seq<ParameterKind<Identifier>>, k: ParameterKind<Identifier>) -> int
    decreases pm.len(),
{
    if pm.len() == 0 {
        -1
    } else if pm[0] == k {
        0
    } else if param_index(pm.skip(1), k) < 0 {
        -1
    } else {
        param_index(pm.skip(1), k) + 1
    }
}

pub proof fn lemma_param_index_props(pm: Seq<ParameterKind<Identifier>>, k: ParameterKind<Identifier>)
    ensures
        param_index(pm, k) >= 0 ==> param_index(pm, k) < pm.len() && pm[param_index(pm, k)] == k
            && (forall|j: int| 0 <= j < param_index(pm, k) ==> pm[j] != k),
        param_index(pm, k) < 0 ==> param_index(pm, k) == -1 && (forall|j: int|
            0 <= j < pm.len() ==> pm[j] != k),
    decreases pm.len(),
{
    if pm.len() == 0 {
    } else if pm[0] == k {
    } else {
        lemma_param_index_props(pm.skip(1), k);
        let p1 = param_index(pm.skip(1), k);
        if p1 < 0 {
            assert forall|j: int| 0 <= j < pm.len() implies pm[j] != k by {
                if j > 0 {
                    assert(pm.skip(1)[j - 1] == pm[j]);
                    assert(pm.skip(1)[j - 1] != k);
                }
            }
        } else {
            assert(pm.skip(1)[p1] == pm[p1 + 1]);
            assert forall|j: int| 0 <= j < p1 + 1 implies pm[j] != k by {
                if j > 0 {
                    assert(pm.skip(1)[j - 1] == pm[j]);
                    assert(pm.skip(1)[j - 1] != k);
                }
            }
        }
    }
}

/// The first match is the only thing lookup depends on: equal prefixes
/// give equal indices.
pub proof fn lemma_param_index_is_first_match(
    pm: Seq<ParameterKind<Identifier>>,
    k: ParameterKind<Identifier>,
    i: int,
)
    requires
        0 <= i < pm.len(),
        pm[i] == k,
        forall|j: int| 0 <= j < i ==> pm[j] != k,
    ensures
        param_index(pm, k) == i,
{
    lemma_param_index_props(pm, k);
    if param_index(pm, k) < 0 {
        assert(pm[i] != k);
    } else {
        let p = param_index(pm, k);
        if p < i {
            assert(pm[p] != k);
        } else if p > i {
            assert(pm[i] != k);
        }
    }
}

/// What `lookup` returns: the innermost type parameter of that name if
/// one is bound (parameters shadow globals), else the global item of
/// that name, else an unresolved-name error.
pub open spec fn lookup_spec(m: EnvModel, name: Identifier) -> Result<NameLookup, LowerError> {
    let i = param_index(m.params, ParameterKind::Ty(name));
    if i >= 0 {
        Ok(NameLookup::Parameter(i as usize))
    } else if m.type_ids.contains_key(name) {
        Ok(NameLookup::Type(m.type_ids[name]))
    } else {
        Err(LowerError::UnresolvedName(name))
    }
}

/// What `lookup_lifetime` returns: the innermost bound lifetime
/// parameter of that name, or an unresolved-lifetime error. Lifetimes
/// never resolve to globals.
pub open spec fn lookup_lifetime_spec(m: EnvModel, name: Identifier) -> Result<
    LifetimeLookup,
    LowerError,
> {
    let i = param_index(m.params, ParameterKind::Lifetime(name));
    if i >= 0 {
        Ok(LifetimeLookup::Parameter(i as usize))
    } else {
        Err(LowerError::UnresolvedLifetime(name))
    }
}

impl<'k> Env<'k> {
    pub open spec fn model(self) -> EnvModel {
        EnvModel {
            params: self.parameter_map@,
            type_ids: self.type_ids@,
            type_kinds: tk_models(self.type_kinds@),
            assoc_ty_ids: self.associated_ty_ids@,
        }
    }

    /// Finds the first entry of the wanted kind and name; its position
    /// is the parameter's index.
    fn find_param(&self, k: ParameterKind<Identifier>) -> (r: Option<usize>)
        ensures
            match r {
                Some(i) => param_index(self.parameter_map@, k) == i,
                None => param_index(self.parameter_map@, k) == -1,
            },
    {
        let mut i: usize = 0;
        while i < self.parameter_map.len()
            invariant
                i <= self.parameter_map@.len(),
                forall|j: int| 0 <= j < i ==> self.parameter_map@[j] != k,
            decreases self.parameter_map@.len() - i,
        {
            if self.parameter_map[i] == k {
                proof {
                    lemma_param_index_is_first_match(self.parameter_map@, k, i as int);
                }
                return Some(i);
            }
            i = i + 1;
        }
        proof {
            lemma_param_index_props(self.parameter_map@, k);
            if param_index(self.parameter_map@, k) >= 0 {
                assert(self.parameter_map@[param_index(self.parameter_map@, k)] != k);
            }
        }
        None
    }

    /// Resolves a name in type position: bound type parameters first (so
    /// a parameter shadows a global of the same name), then the global
    /// table.
    pub fn lookup(&self, name: Identifier) -> (r: Result<NameLookup, LowerError>)
        ensures
            r == lookup_spec(self.model(), name),
    {
        match self.find_param(ParameterKind::Ty(name)) {
            Some(i) => Ok(NameLookup::Parameter(i)),
            None => match self.type_ids.get(name) {
                Some(id) => Ok(NameLookup::Type(id)),
                None => Err(LowerError::UnresolvedName(name)),
            },
        }
    }

    /// Resolves a name in lifetime position: bound lifetime parameters
    /// only.
    pub fn lookup_lifetime(&self, name: Identifier) -> (r: Result<LifetimeLookup, LowerError>)
        ensures
            r == lookup_lifetime_spec(self.model(), name),
    {
        match self.find_param(ParameterKind::Lifetime(name)) {
            Some(i) => Ok(LifetimeLookup::Parameter(i)),
            None => Err(LowerError::UnresolvedLifetime(name)),
        }
    }

    /// The registered kind of a global identity. Only called with
    /// identities the tables handed out, which always have one.
    pub fn type_kind(&self, id: ItemId) -> (r: &TypeKind)
        requires
            self.model().type_kinds.contains_key(id.index as int),
        ensures
            tk_model(*r) == self.model().type_kinds[id.index as int],
    {
        let r = self.type_kinds.get(id);
        r.unwrap()
    }

    /// Enters a nested binding scope: the new binders take indices
    /// `0..binders.len()` in order, and every previously bound
    /// parameter's index is shifted up by their count, preserving
    /// relative order.
    pub fn introduce(&self, binders: &Vec<ParameterKind<Identifier>>) -> (r: Env<'k>)
        ensures
            r.model() == self.model().with_params(binders@ + self.parameter_map@),
    {
        let mut pm: Vec<ParameterKind<Identifier>> = Vec::new();
        let mut i: usize = 0;
        while i < binders.len()
            invariant
                i <= binders@.len(),
                pm@ == binders@.take(i as int),
            decreases binders@.len() - i,
        {
            pm.push(binders[i]);
            proof {
                assert(binders@.take(i as int).push(binders@[i as int]) =~= binders@.take(
                    i as int + 1,
                ));
            }
            i = i + 1;
        }
        let mut j: usize = 0;
        while j < self.parameter_map.len()
            invariant
                j <= self.parameter_map@.len(),
                pm@ == binders@.take(binders@.len() as int) + self.parameter_map@.take(j as int),
            decreases self.parameter_map@.len() - j,
        {
            pm.push(self.parameter_map[j]);
            proof {
                assert((binders@.take(binders@.len() as int) + self.parameter_map@.take(
                    j as int,
                )).push(self.parameter_map@[j as int]) =~= binders@.take(binders@.len() as int)
                    + self.parameter_map@.take(j as int + 1));
            }
            j = j + 1;
        }
        proof {
            assert(binders@.take(binders@.len() as int) =~= binders@);
            assert(self.parameter_map@.take(self.parameter_map@.len() as int)
                =~= self.parameter_map@);
        }
        Env {
            type_ids: self.type_ids,
            type_kinds: self.type_kinds,
            associated_ty_ids: self.associated_ty_ids,
            parameter_map: pm,
        }
    }
}

} // verus!
