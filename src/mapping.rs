//! The group registry: every group declaration, indexed by identity and by
//! struct name, with the origin relation among groups.

use vstd::prelude::*;

use crate::config::{nest_struct_name, DerivedStructClassSelection, NestOpts};
use crate::error::GenError;

verus! {

/// How a group's values are produced from its origin.
#[derive(Debug, Clone)]
pub enum MapStrategy {
    /// An existing `From<&Origin>` conversion is reused.
    Reuse,
    /// The named transformer type performs the conversion.
    Delegate(String),
}

/// What tells two strategies apart: `None` for reuse, the transformer's name
/// for delegation.
pub open spec fn strategy_key(s: MapStrategy) -> Option<Seq<char>> {
    match s {
        MapStrategy::Reuse => None,
        MapStrategy::Delegate(t) => Some(t@),
    }
}

impl MapStrategy {
    /// A copy equal to `self`.
    pub fn copied(&self) -> (r: MapStrategy)
        ensures
            r == *self,
    {
        match self {
            MapStrategy::Reuse => MapStrategy::Reuse,
            MapStrategy::Delegate(t) => MapStrategy::Delegate(t.clone()),
        }
    }

    pub fn same_as(&self, other: &MapStrategy) -> (r: bool)
        ensures
            r == (strategy_key(*self) == strategy_key(*other)),
    {
        match (self, other) {
            (MapStrategy::Reuse, MapStrategy::Reuse) => true,
            (MapStrategy::Delegate(a), MapStrategy::Delegate(b)) => *a == *b,
            _ => false,
        }
    }
}

/// Whether a group declares both strategies.
pub open spec fn strategy_conflict(o: NestOpts) -> bool {
    o.from && o.transform is Some
}

/// The strategy of a group that declares at most one: its own, else the one
/// `inherited` from its origin group when it is deeply nested, else the
/// shared transformer. `None` when there is none.
pub open spec fn strategy_of(
    o: NestOpts,
    shared: Option<String>,
    inherited: Option<MapStrategy>,
) -> Option<MapStrategy> {
    if o.from {
        Some(MapStrategy::Reuse)
    } else if o.transform is Some {
        Some(MapStrategy::Delegate(o.transform->0))
    } else if o.nested is Some {
        inherited
    } else if shared is Some {
        Some(MapStrategy::Delegate(shared->0))
    } else {
        None
    }
}

/// One field of the data struct as a group holds it.
#[derive(Debug, Clone)]
pub struct NestField {
    pub name: String,
    /// Pass-through attributes of the field for this group.
    pub attrs: Vec<String>,
}

/// Struct pass-through attributes of a group, by the class of struct they go to.
#[derive(Debug, Clone)]
pub struct NestStructAttrInfo {
    pub wrapper: Vec<String>,
    pub extra: Vec<String>,
    pub nest: Vec<String>,
}

impl NestStructAttrInfo {
    pub fn new() -> (r: Self)
        ensures
            r.wrapper@.len() == 0,
            r.extra@.len() == 0,
            r.nest@.len() == 0,
    {
        NestStructAttrInfo { wrapper: Vec::new(), extra: Vec::new(), nest: Vec::new() }
    }

    pub fn add_wrapper_attr(&mut self, attr: String)
        ensures
            final(self).wrapper@ == old(self).wrapper@.push(attr),
            final(self).extra@ == old(self).extra@,
            final(self).nest@ == old(self).nest@,
    {
        self.wrapper.push(attr);
    }

    pub fn add_extra_attr(&mut self, attr: String)
        ensures
            final(self).extra@ == old(self).extra@.push(attr),
            final(self).wrapper@ == old(self).wrapper@,
            final(self).nest@ == old(self).nest@,
    {
        self.extra.push(attr);
    }

    pub fn add_nest_attr(&mut self, attr: String)
        ensures
            final(self).nest@ == old(self).nest@.push(attr),
            final(self).wrapper@ == old(self).wrapper@,
            final(self).extra@ == old(self).extra@,
    {
        self.nest.push(attr);
    }

    pub fn wrapper(&self) -> (r: &Vec<String>)
        ensures
            r == &self.wrapper,
    {
        &self.wrapper
    }

    pub fn extra(&self) -> (r: &Vec<String>)
        ensures
            r == &self.extra,
    {
        &self.extra
    }

    pub fn nest(&self) -> (r: &Vec<String>)
        ensures
            r == &self.nest,
    {
        &self.nest
    }
}

/// A registered group.
#[derive(Debug, Clone)]
pub struct NestInfo {
    /// The name of the group's struct.
    pub ident: String,
    /// The position of the origin group; `None` when the origin is the root.
    pub parent: Option<usize>,
    pub opts: NestOpts,
    pub strategy: MapStrategy,
    pub struct_attrs: NestStructAttrInfo,
    /// The fields the group holds, in the data struct's order.
    pub fields: Vec<NestField>,
}

/// The registry of the groups of one data struct, in declaration order.
#[derive(Debug, Clone)]
pub struct NestRepo {
    pub nests: Vec<NestInfo>,
    pub root_ident: String,
    /// The shared transformer type, if any.
    pub transform: Option<String>,
}

/// The name of the struct that group `i` is sourced from.
pub open spec fn origin_ident_of(r: NestRepo, i: int) -> Seq<char> {
    match r.nests@[i].parent {
        Some(k) => r.nests@[k as int].ident@,
        None => r.root_ident@,
    }
}

/// The strategy that group `i` inherits from its origin, if deeply nested.
pub open spec fn inherited_strategy(r: NestRepo, i: int) -> Option<MapStrategy> {
    match r.nests@[i].parent {
        Some(k) => Some(r.nests@[k as int].strategy),
        None => None,
    }
}

/// Whether some registered group has identity `id`.
pub open spec fn has_id(nests: Seq<NestInfo>, id: Seq<char>) -> bool {
    exists|k: int| 0 <= k < nests.len() && #[trigger] nests[k].opts.id@ == id
}

/// Whether some registered group has struct name `name`.
pub open spec fn has_ident(nests: Seq<NestInfo>, name: Seq<char>) -> bool {
    exists|k: int| 0 <= k < nests.len() && #[trigger] nests[k].ident@ == name
}

/// The names of a group's fields are distinct.
pub open spec fn fields_distinct(fields: Seq<NestField>) -> bool {
    forall|a: int, b: int|
        0 <= a < b < fields.len() ==> #[trigger] fields[a].name@ != #[trigger] fields[b].name@
}

impl NestRepo {
    /// The registry's invariant: identities and struct names are unique;
    /// each group's origin is the root or a group declared before it, named
    /// by identity; each group's name and strategy are resolved.
    pub open spec fn wf(&self) -> bool {
        &&& forall|i: int, j: int|
            0 <= i < j < self.nests@.len() ==> #[trigger] self.nests@[i].opts.id@
                != #[trigger] self.nests@[j].opts.id@
        &&& forall|i: int, j: int|
            0 <= i < j < self.nests@.len() ==> #[trigger] self.nests@[i].ident@
                != #[trigger] self.nests@[j].ident@
        &&& forall|i: int| 0 <= i < self.nests@.len() ==> #[trigger] self.nest_wf(i)
    }

    pub open spec fn nest_wf(&self, i: int) -> bool {
        let n = self.nests@[i];
        &&& n.opts.id@.len() > 0
        &&& match n.parent {
            Some(k) => {
                &&& k < i
                &&& n.opts.nested is Some
                &&& n.opts.nested->0.origin@ == self.nests@[k as int].opts.id@
            },
            None => n.opts.nested is None,
        }
        &&& n.ident@ == nest_struct_name(n.opts, origin_ident_of(*self, i))
        &&& !strategy_conflict(n.opts)
        &&& Some(n.strategy) == strategy_of(n.opts, self.transform, inherited_strategy(*self, i))
        &&& fields_distinct(n.fields@)
    }

    pub fn new(root_ident: String, transform: Option<String>) -> (r: Self)
        ensures
            r.wf(),
            r.nests@.len() == 0,
            r.root_ident == root_ident,
            r.transform == transform,
    {
        NestRepo { nests: Vec::new(), root_ident, transform }
    }

    pub fn count(&self) -> (r: usize)
        ensures
            r == self.nests@.len(),
    {
        self.nests.len()
    }

    pub fn root_ident(&self) -> (r: &String)
        ensures
            r == &self.root_ident,
    {
        &self.root_ident
    }

    /// The position of the group with identity `id`.
    pub fn position_of_id(&self, id: &String) -> (r: Option<usize>)
        ensures
            r matches Some(k) ==> k < self.nests@.len() && self.nests@[k as int].opts.id@ == id@,
            r is None <==> !has_id(self.nests@, id@),
    {
        let mut k: usize = 0;
        while k < self.nests.len()
            invariant
                k <= self.nests@.len(),
                forall|j: int| 0 <= j < k ==> self.nests@[j].opts.id@ != id@,
            decreases self.nests@.len() - k,
        {
            if self.nests[k].opts.id == *id {
                return Some(k);
            }
            k = k + 1;
        }
        None
    }

    /// The position of the group whose struct is named `ident`.
    pub fn position_of_ident(&self, ident: &String) -> (r: Option<usize>)
        ensures
            r matches Some(k) ==> k < self.nests@.len() && self.nests@[k as int].ident@ == ident@,
            r is None <==> !has_ident(self.nests@, ident@),
    {
        let mut k: usize = 0;
        while k < self.nests.len()
            invariant
                k <= self.nests@.len(),
                forall|j: int| 0 <= j < k ==> self.nests@[j].ident@ != ident@,
            decreases self.nests@.len() - k,
        {
            if self.nests[k].ident == *ident {
                return Some(k);
            }
            k = k + 1;
        }
        None
    }

    pub fn get_by_id(&self, nest_id: &String) -> (r: Option<&NestInfo>)
        ensures
            r matches Some(n) ==> n.opts.id@ == nest_id@ && self.nests@.contains(*n),
            r is None <==> !has_id(self.nests@, nest_id@),
    {
        match self.position_of_id(nest_id) {
            Some(k) => Some(&self.nests[k]),
            None => None,
        }
    }

    pub fn get_by_ident(&self, nest_ident: &String) -> (r: Option<&NestInfo>)
        ensures
            r matches Some(n) ==> n.ident@ == nest_ident@ && self.nests@.contains(*n),
            r is None <==> !has_ident(self.nests@, nest_ident@),
    {
        match self.position_of_ident(nest_ident) {
            Some(k) => Some(&self.nests[k]),
            None => None,
        }
    }

    pub fn id_exists(&self, nest_id: &String) -> (r: bool)
        ensures
            r == has_id(self.nests@, nest_id@),
    {
        self.position_of_id(nest_id).is_some()
    }

    pub fn contains_nest_ident(&self, nest_ident: &String) -> (r: bool)
        ensures
            r == has_ident(self.nests@, nest_ident@),
    {
        self.position_of_ident(nest_ident).is_some()
    }

    /// Every identity, in declaration order.
    pub fn get_all_ids(&self) -> (r: Vec<String>)
        ensures
            r@.len() == self.nests@.len(),
            forall|k: int| 0 <= k < r@.len() ==> #[trigger] r@[k] == self.nests@[k].opts.id,
    {
        let mut r: Vec<String> = Vec::new();
        let mut k: usize = 0;
        while k < self.nests.len()
            invariant
                k <= self.nests@.len(),
                r@.len() == k,
                forall|j: int| 0 <= j < k ==> #[trigger] r@[j] == self.nests@[j].opts.id,
            decreases self.nests@.len() - k,
        {
            r.push(self.nests[k].opts.id.clone());
            k = k + 1;
        }
        r
    }
}


/// Where a declaration's origin resolves among the registered groups:
/// `Some(None)` for the root, `Some(Some(k))` for group `k`, `None` when it
/// names no registered group.
pub open spec fn resolve_origin(nests: Seq<NestInfo>, o: NestOpts) -> Option<Option<int>> {
    match o.nested {
        None => Some(None),
        Some(nd) => if has_id(nests, nd.origin@) {
            Some(Some(choose|k: int| 0 <= k < nests.len() && #[trigger] nests[k].opts.id@ == nd.origin@))
        } else {
            None
        },
    }
}

/// The struct name of a declaration whose origin resolves.
pub open spec fn resolved_name(r: NestRepo, o: NestOpts) -> Seq<char> {
    match resolve_origin(r.nests@, o) {
        Some(Some(k)) => nest_struct_name(o, r.nests@[k].ident@),
        _ => nest_struct_name(o, r.root_ident@),
    }
}

/// The strategy a declaration whose origin resolves would inherit.
pub open spec fn resolved_inherited(r: NestRepo, o: NestOpts) -> Option<MapStrategy> {
    match resolve_origin(r.nests@, o) {
        Some(Some(k)) => Some(r.nests@[k].strategy),
        _ => None,
    }
}

/// What `insert` answers to the next declaration `o`: the first check that
/// fails, in the order that the error variants are listed, or success.
pub open spec fn insert_outcome(r: NestRepo, o: NestOpts) -> Result<(), GenError> {
    let n = r.nests@.len() as usize;
    if o.id@.len() == 0 {
        Err(GenError::EmptyNestId { nest: n })
    } else if has_id(r.nests@, o.id@) {
        let first = choose|k: int| 0 <= k < r.nests@.len() && #[trigger] r.nests@[k].opts.id@ == o.id@;
        Err(GenError::DuplicateNestId { first: first as usize, second: n })
    } else if resolve_origin(r.nests@, o) is None {
        Err(GenError::UnknownOrigin { nest: n })
    } else if has_ident(r.nests@, resolved_name(r, o)) {
        let first = choose|k: int|
            0 <= k < r.nests@.len() && #[trigger] r.nests@[k].ident@ == resolved_name(r, o);
        Err(GenError::DuplicateNestName { first: first as usize, second: n })
    } else if strategy_conflict(o) {
        Err(GenError::ConflictingStrategy { nest: n })
    } else if strategy_of(o, r.transform, resolved_inherited(r, o)) is None {
        Err(GenError::MissingStrategy { nest: n })
    } else {
        Ok(())
    }
}

impl NestRepo {
    /// In a well-formed registry the group with a given identity is the one
    /// that `choose` picks.
    pub proof fn lemma_unique_id(&self, k: int, id: Seq<char>)
        requires
            self.wf(),
            0 <= k < self.nests@.len(),
            self.nests@[k].opts.id@ == id,
        ensures
            k == choose|c: int| 0 <= c < self.nests@.len() && #[trigger] self.nests@[c].opts.id@ == id,
    {
        let c = choose|c: int| 0 <= c < self.nests@.len() && #[trigger] self.nests@[c].opts.id@ == id;
        if c < k {
            assert(self.nests@[c].opts.id@ != self.nests@[k].opts.id@);
        } else if k < c {
            assert(self.nests@[k].opts.id@ != self.nests@[c].opts.id@);
        }
    }

    /// In a well-formed registry the group with a given struct name is the
    /// one that `choose` picks.
    pub proof fn lemma_unique_ident(&self, k: int, name: Seq<char>)
        requires
            self.wf(),
            0 <= k < self.nests@.len(),
            self.nests@[k].ident@ == name,
        ensures
            k == choose|c: int| 0 <= c < self.nests@.len() && #[trigger] self.nests@[c].ident@ == name,
    {
        let c = choose|c: int| 0 <= c < self.nests@.len() && #[trigger] self.nests@[c].ident@ == name;
        if c < k {
            assert(self.nests@[c].ident@ != self.nests@[k].ident@);
        } else if k < c {
            assert(self.nests@[k].ident@ != self.nests@[c].ident@);
        }
    }

    /// Registers the next group declaration. It is rejected, in this order of
    /// checks, for an empty identity, an identity already registered, an
    /// origin that names no registered group, a struct name already
    /// registered, and a strategy that conflicts or is missing. Errors name
    /// the declaration by its position, and the first conflicting one too.
    pub fn insert(&mut self, opts: NestOpts) -> (r: Result<(), GenError>)
        requires
            old(self).wf(),
        ensures
            final(self).wf(),
            final(self).root_ident == old(self).root_ident,
            final(self).transform == old(self).transform,
            r == insert_outcome(*old(self), opts),
            r is Err ==> final(self).nests@ == old(self).nests@,
            r is Ok ==> final(self).nests@.len() == old(self).nests@.len() + 1
                && final(self).nests@.drop_last() == old(self).nests@ && ({
                let info = final(self).nests@.last();
                &&& info.opts == opts
                &&& info.ident@ == resolved_name(*old(self), opts)
                &&& info.parent == match resolve_origin(old(self).nests@, opts) {
                    Some(Some(k)) => Some(k as usize),
                    _ => None,
                }
                &&& Some(info.strategy) == strategy_of(
                    opts,
                    old(self).transform,
                    resolved_inherited(*old(self), opts),
                )
                &&& info.fields@.len() == 0
                &&& info.struct_attrs.wrapper@.len() == 0
                &&& info.struct_attrs.extra@.len() == 0
                &&& info.struct_attrs.nest@.len() == 0
            }),
    {
        let n = self.nests.len();
        if opts.id.as_str().is_empty() {
            return Err(GenError::EmptyNestId { nest: n });
        }
        if let Some(first) = self.position_of_id(&opts.id) {
            proof {
                self.lemma_unique_id(first as int, opts.id@);
            }
            return Err(GenError::DuplicateNestId { first, second: n });
        }
        let parent: Option<usize> = match &opts.nested {
            None => None,
            Some(nd) => match self.position_of_id(&nd.origin) {
                None => {
                    return Err(GenError::UnknownOrigin { nest: n });
                },
                Some(k) => {
                    proof {
                        self.lemma_unique_id(k as int, nd.origin@);
                    }
                    Some(k)
                },
            },
        };
        let ident = match parent {
            Some(k) => opts.struct_name(&self.nests[k].ident),
            None => opts.struct_name(&self.root_ident),
        };
        assert(ident@ == resolved_name(*self, opts));
        if let Some(first) = self.position_of_ident(&ident) {
            proof {
                self.lemma_unique_ident(first as int, ident@);
            }
            return Err(GenError::DuplicateNestName { first, second: n });
        }
        if opts.from && opts.transform.is_some() {
            return Err(GenError::ConflictingStrategy { nest: n });
        }
        let strategy = if opts.from {
            MapStrategy::Reuse
        } else if let Some(t) = &opts.transform {
            MapStrategy::Delegate(t.clone())
        } else if opts.nested.is_some() {
            match parent {
                Some(k) => self.nests[k].strategy.copied(),
                None => {
                    return Err(GenError::MissingStrategy { nest: n });
                },
            }
        } else if let Some(t) = &self.transform {
            MapStrategy::Delegate(t.clone())
        } else {
            return Err(GenError::MissingStrategy { nest: n });
        };
        let info = NestInfo {
            ident,
            parent,
            opts,
            strategy,
            struct_attrs: NestStructAttrInfo::new(),
            fields: Vec::new(),
        };
        let ghost old_repo = *self;
        self.nests.push(info);
        proof {
            assert(self.nests@.drop_last() =~= old_repo.nests@);
            assert forall|i: int| 0 <= i < self.nests@.len() implies #[trigger] self.nest_wf(i) by {
                if i < n {
                    assert(self.nests@[i] == old_repo.nests@[i]);
                    assert(old_repo.nest_wf(i));
                    if let Some(k) = self.nests@[i].parent {
                        assert(self.nests@[k as int] == old_repo.nests@[k as int]);
                    }
                } else {
                    if let Some(k) = parent {
                        assert(self.nests@[k as int] == old_repo.nests@[k as int]);
                    }
                }
            }
        }
        Ok(())
    }
}

/// The positions below `n` of the groups whose origin is `parent` (`None`
/// for the root), in declaration order.
pub open spec fn children_upto(nests: Seq<NestInfo>, parent: Option<usize>, n: int) -> Seq<usize>
    decreases n,
{
    if n <= 0 {
        Seq::empty()
    } else {
        children_upto(nests, parent, n - 1) + if nests[n - 1].parent == parent {
            seq![(n - 1) as usize]
        } else {
            Seq::empty()
        }
    }
}

/// The positions of the groups whose origin is `parent`, in declaration order.
pub open spec fn children_of(r: NestRepo, parent: Option<usize>) -> Seq<usize> {
    children_upto(r.nests@, parent, r.nests@.len() as int)
}

/// Whether group `k` is the origin of some group.
pub open spec fn is_parent(r: NestRepo, k: int) -> bool {
    exists|j: int| 0 <= j < r.nests@.len() && #[trigger] r.nests@[j].parent == Some(k as usize)
}

/// The `k`-th origin up the chain from group `i`: the group itself for
/// `k == 0`, `None` once the chain has reached the root.
pub open spec fn ancestor(r: NestRepo, i: int, k: nat) -> Option<int>
    decreases k,
{
    if k == 0 {
        Some(i)
    } else {
        match ancestor(r, i, (k - 1) as nat) {
            Some(a) => match r.nests@[a].parent {
                Some(p) => Some(p as int),
                None => None,
            },
            None => None,
        }
    }
}

/// Every group in `children_upto(.., n)` is below `n` and has origin `parent`,
/// and each such group is in it.
pub proof fn lemma_children_upto(nests: Seq<NestInfo>, parent: Option<usize>, n: int)
    requires
        0 <= n <= nests.len(),
        nests.len() <= usize::MAX,
    ensures
        forall|c: usize| #[trigger] children_upto(nests, parent, n).contains(c) <==> (c < n
            && nests[c as int].parent == parent),
        forall|a: int, b: int|
            0 <= a < b < children_upto(nests, parent, n).len() ==> children_upto(nests, parent, n)[a]
                < children_upto(nests, parent, n)[b],
    decreases n,
{
    if n > 0 {
        lemma_children_upto(nests, parent, n - 1);
        let prev = children_upto(nests, parent, n - 1);
        let cur = children_upto(nests, parent, n);
        if nests[n - 1].parent == parent {
            assert(cur == prev.push((n - 1) as usize));
            assert forall|c: usize| #[trigger] cur.contains(c) <==> (c < n && nests[c as int].parent
                == parent) by {
                if c == n - 1 {
                    assert(cur[prev.len() as int] == c);
                    assert(cur.contains(c));
                } else if cur.contains(c) {
                    let i = choose|i: int| 0 <= i < cur.len() && cur[i] == c;
                    assert(cur[prev.len() as int] == (n - 1) as usize);
                    assert(i != prev.len());
                    assert(prev[i] == c);
                    assert(prev.contains(c));
                } else if c < n && nests[c as int].parent == parent {
                    assert(prev.contains(c));
                    let i = choose|i: int| 0 <= i < prev.len() && prev[i] == c;
                    assert(cur[i] == c);
                }
            }
            assert forall|a: int, b: int| 0 <= a < b < cur.len() implies cur[a] < cur[b] by {
                if b == prev.len() {
                    assert(prev.contains(cur[a]));
                } else {
                    assert(cur[a] == prev[a] && cur[b] == prev[b]);
                }
            }
        } else {
            assert(cur =~= prev);
        }
    }
}

impl NestRepo {
    /// Acyclicity: in a well-formed registry each origin is declared before
    /// the groups it is the origin of, so no chain of origins starting at a
    /// group comes back to it.
    pub proof fn lemma_acyclic(&self, i: int, k: nat)
        requires
            self.wf(),
            0 <= i < self.nests@.len(),
            k >= 1,
        ensures
            ancestor(*self, i, k) matches Some(a) ==> 0 <= a < i,
        decreases k,
    {
        if k > 1 {
            self.lemma_acyclic(i, (k - 1) as nat);
            if let Some(a) = ancestor(*self, i, (k - 1) as nat) {
                assert(self.nest_wf(a));
            }
        } else {
            assert(ancestor(*self, i, 0) == Some(i));
            assert(self.nest_wf(i));
        }
    }

    /// The groups whose origin is `parent` (`None` for the root), in
    /// declaration order.
    pub fn get_children_by_origin(&self, parent: Option<usize>) -> (r: Vec<usize>)
        ensures
            r@ == children_of(*self, parent),
    {
        let mut r: Vec<usize> = Vec::new();
        let mut k: usize = 0;
        while k < self.nests.len()
            invariant
                k <= self.nests@.len(),
                r@ == children_upto(self.nests@, parent, k as int),
            decreases self.nests@.len() - k,
        {
            if self.nests[k].parent == parent {
                r.push(k);
            }
            k = k + 1;
            assert(r@ =~= children_upto(self.nests@, parent, k as int));
        }
        r
    }

    /// The groups sourced from the struct named `origin_ident`: the root's
    /// when it is the root's name, else those of the group with that name.
    pub fn get_children_by_origin_ident(&self, origin_ident: &String) -> (r: Vec<usize>)
        ensures
            origin_ident@ == self.root_ident@ ==> r@ == children_of(*self, None),
            origin_ident@ != self.root_ident@ && !has_ident(self.nests@, origin_ident@) ==> r@.len()
                == 0,
            origin_ident@ != self.root_ident@ ==> forall|k: int|
                0 <= k < self.nests@.len() && self.nests@[k].ident@ == origin_ident@ && self.wf()
                    ==> r@ == children_of(*self, Some(k as usize)),
    {
        if *origin_ident == self.root_ident {
            return self.get_children_by_origin(None);
        }
        match self.position_of_ident(origin_ident) {
            Some(k) => {
                proof {
                    assert forall|j: int|
                        0 <= j < self.nests@.len() && self.nests@[j].ident@ == origin_ident@
                            && self.wf() implies j == k by {
                        if j < k {
                            assert(self.nests@[j].ident@ != self.nests@[k as int].ident@);
                        } else if k < j {
                            assert(self.nests@[k as int].ident@ != self.nests@[j].ident@);
                        }
                    }
                }
                self.get_children_by_origin(Some(k))
            },
            None => Vec::new(),
        }
    }

    /// Whether group `k` is the origin of some group.
    pub fn is_parent_index(&self, k: usize) -> (r: bool)
        ensures
            r == is_parent(*self, k as int),
    {
        let mut j: usize = 0;
        while j < self.nests.len()
            invariant
                j <= self.nests@.len(),
                forall|i: int| 0 <= i < j ==> self.nests@[i].parent != Some(k),
            decreases self.nests@.len() - j,
        {
            if self.nests[j].parent == Some(k) {
                assert(self.nests@[j as int].parent == Some(k));
                return true;
            }
            j = j + 1;
        }
        false
    }

    /// Whether the struct named `ident` is the origin of some group: the
    /// data struct when `ident` is its name, else the group of that name.
    pub fn is_parent_ident(&self, ident: &String) -> (r: bool)
        requires
            self.wf(),
        ensures
            ident@ == self.root_ident@ ==> (r == (children_of(*self, None).len() > 0)),
            ident@ != self.root_ident@ && !has_ident(self.nests@, ident@) ==> !r,
            ident@ != self.root_ident@ ==> forall|k: int|
                0 <= k < self.nests@.len() && self.nests@[k].ident@ == ident@ ==> (r == is_parent(
                    *self,
                    k,
                )),
    {
        if *ident == self.root_ident {
            let ch = self.get_children_by_origin(None);
            return ch.len() > 0;
        }
        match self.position_of_ident(ident) {
            Some(k) => {
                proof {
                    assert forall|j: int|
                        0 <= j < self.nests@.len() && self.nests@[j].ident@ == ident@ implies j
                            == k by {
                        self.lemma_unique_ident(j, ident@);
                        self.lemma_unique_ident(k as int, ident@);
                    }
                }
                self.is_parent_index(k)
            },
            None => false,
        }
    }

    /// The name of the struct that the group named `nest_ident` is sourced from.
    pub fn get_parent_ident(&self, nest_ident: &String) -> (r: Option<String>)
        requires
            self.wf(),
        ensures
            r is None <==> !has_ident(self.nests@, nest_ident@),
            forall|k: int|
                0 <= k < self.nests@.len() && self.nests@[k].ident@ == nest_ident@ ==> (r matches Some(
                    o,
                ) && o@ == origin_ident_of(*self, k)),
    {
        match self.position_of_ident(nest_ident) {
            Some(k) => {
                proof {
                    self.lemma_unique_ident(k as int, nest_ident@);
                    assert forall|j: int|
                        0 <= j < self.nests@.len() && self.nests@[j].ident@ == nest_ident@ implies j
                            == k by {
                        self.lemma_unique_ident(j, nest_ident@);
                    }
                }
                match self.nests[k].parent {
                    Some(p) => {
                        assert(self.nest_wf(k as int));
                        Some(self.nests[p].ident.clone())
                    },
                    None => Some(self.root_ident.clone()),
                }
            },
            None => None,
        }
    }

    /// Assigns a field of the data struct (at position `field_index`) to the
    /// group with identity `nest_id`. An unknown identity and a field that the
    /// group holds already are errors.
    pub fn add_field_to_nest(&mut self, nest_id: &String, field: NestField, field_index: usize) -> (r:
        Result<(), GenError>)
        requires
            old(self).wf(),
        ensures
            final(self).wf(),
            final(self).root_ident == old(self).root_ident,
            final(self).transform == old(self).transform,
            final(self).nests@.len() == old(self).nests@.len(),
            r is Err ==> final(self).nests@ == old(self).nests@,
            !has_id(old(self).nests@, nest_id@) ==> (r matches Err(
                GenError::UnknownNestInField { field, id },
            ) && field == field_index && id@ == nest_id@),
            forall|k: int|
                0 <= k < old(self).nests@.len() && old(self).nests@[k].opts.id@ == nest_id@ ==> {
                    let info = old(self).nests@[k];
                    if exists|a: int|
                        0 <= a < info.fields@.len() && #[trigger] info.fields@[a].name@
                            == field.name@ {
                        (r matches Err(GenError::DuplicateFieldInNest { field, nest }) && field
                            == field_index && nest == k)
                    } else {
                        &&& r is Ok
                        &&& final(self).nests@[k].fields@ == info.fields@.push(field)
                        &&& final(self).nests@[k].ident == info.ident
                        &&& final(self).nests@[k].parent == info.parent
                        &&& final(self).nests@[k].opts == info.opts
                        &&& final(self).nests@[k].strategy == info.strategy
                        &&& final(self).nests@[k].struct_attrs == info.struct_attrs
                        &&& forall|j: int|
                            0 <= j < old(self).nests@.len() && j != k ==> final(self).nests@[j]
                                == old(self).nests@[j]
                    }
                },
    {
        match self.position_of_id(nest_id) {
            None => Err(GenError::UnknownNestInField { field: field_index, id: nest_id.clone() }),
            Some(k) => {
                proof {
                    assert forall|j: int|
                        0 <= j < self.nests@.len() && self.nests@[j].opts.id@ == nest_id@ implies j
                            == k by {
                        self.lemma_unique_id(j, nest_id@);
                        self.lemma_unique_id(k as int, nest_id@);
                    }
                }
                let mut a: usize = 0;
                while a < self.nests[k].fields.len()
                    invariant
                        *self == *old(self),
                        self.wf(),
                        k < self.nests@.len(),
                        self.nests@[k as int].opts.id@ == nest_id@,
                        a <= self.nests@[k as int].fields@.len(),
                        forall|b: int|
                            0 <= b < a ==> self.nests@[k as int].fields@[b].name@ != field.name@,
                    decreases self.nests@[k as int].fields@.len() - a,
                {
                    if self.nests[k].fields[a].name == field.name {
                        assert(self.nests@[k as int].fields@[a as int].name@ == field.name@);
                        return Err(GenError::DuplicateFieldInNest { field: field_index, nest: k });
                    }
                    a = a + 1;
                }
                let ghost old_repo = *self;
                self.nests[k].fields.push(field);
                proof {
                    assert forall|i: int| 0 <= i < self.nests@.len() implies #[trigger] self.nest_wf(
                        i,
                    ) by {
                        assert(old_repo.nest_wf(i));
                        if let Some(p) = self.nests@[i].parent {
                            assert(self.nests@[p as int].ident == old_repo.nests@[p as int].ident);
                            assert(self.nests@[p as int].opts == old_repo.nests@[p as int].opts);
                            assert(self.nests@[p as int].strategy == old_repo.nests@[p as int].strategy);
                        }
                        if i == k {
                            let f = self.nests@[i].fields@;
                            assert forall|a: int, b: int| 0 <= a < b < f.len() implies #[trigger] f[a].name@
                                != #[trigger] f[b].name@ by {
                                if b < f.len() - 1 {
                                    assert(f[a] == old_repo.nests@[i].fields@[a]);
                                    assert(f[b] == old_repo.nests@[i].fields@[b]);
                                } else {
                                    assert(f[a] == old_repo.nests@[i].fields@[a]);
                                }
                            }
                        }
                    }
                    assert forall|i: int, j: int|
                        0 <= i < j < self.nests@.len() implies #[trigger] self.nests@[i].opts.id@
                            != #[trigger] self.nests@[j].opts.id@ by {
                        assert(self.nests@[i].opts == old_repo.nests@[i].opts);
                        assert(self.nests@[j].opts == old_repo.nests@[j].opts);
                    }
                    assert forall|i: int, j: int|
                        0 <= i < j < self.nests@.len() implies #[trigger] self.nests@[i].ident@
                            != #[trigger] self.nests@[j].ident@ by {
                        assert(self.nests@[i].ident == old_repo.nests@[i].ident);
                        assert(self.nests@[j].ident == old_repo.nests@[j].ident);
                    }
                }
                Ok(())
            },
        }
    }
}

impl NestRepo {
    /// Appends `attr` to the struct attributes of group `k` for each class
    /// that `class` selects.
    pub fn add_struct_attr(&mut self, k: usize, attr: &String, class: DerivedStructClassSelection)
        requires
            old(self).wf(),
            k < old(self).nests@.len(),
        ensures
            final(self).wf(),
            final(self).root_ident == old(self).root_ident,
            final(self).transform == old(self).transform,
            final(self).nests@.len() == old(self).nests@.len(),
            forall|j: int|
                0 <= j < old(self).nests@.len() && j != k ==> final(self).nests@[j] == old(self).nests@[j],
            ({
                let (a, b) = (old(self).nests@[k as int], final(self).nests@[k as int]);
                &&& b.ident == a.ident
                &&& b.parent == a.parent
                &&& b.opts == a.opts
                &&& b.strategy == a.strategy
                &&& b.fields == a.fields
                &&& b.struct_attrs.wrapper@ == if class.wrapper {
                    a.struct_attrs.wrapper@.push(*attr)
                } else {
                    a.struct_attrs.wrapper@
                }
                &&& b.struct_attrs.extra@ == if class.extra {
                    a.struct_attrs.extra@.push(*attr)
                } else {
                    a.struct_attrs.extra@
                }
                &&& b.struct_attrs.nest@ == if class.nest {
                    a.struct_attrs.nest@.push(*attr)
                } else {
                    a.struct_attrs.nest@
                }
            }),
    {
        let ghost old_repo = *self;
        if class.wrapper {
            self.nests[k].struct_attrs.add_wrapper_attr(attr.clone());
        }
        if class.extra {
            self.nests[k].struct_attrs.add_extra_attr(attr.clone());
        }
        if class.nest {
            self.nests[k].struct_attrs.add_nest_attr(attr.clone());
        }
        proof {
            assert forall|i: int| 0 <= i < self.nests@.len() implies #[trigger] self.nest_wf(i) by {
                assert(old_repo.nest_wf(i));
                if let Some(p) = self.nests@[i].parent {
                    assert(self.nests@[p as int].ident == old_repo.nests@[p as int].ident);
                    assert(self.nests@[p as int].opts == old_repo.nests@[p as int].opts);
                    assert(self.nests@[p as int].strategy == old_repo.nests@[p as int].strategy);
                }
            }
            assert forall|i: int, j: int|
                0 <= i < j < self.nests@.len() implies #[trigger] self.nests@[i].opts.id@
                    != #[trigger] self.nests@[j].opts.id@ by {
                assert(self.nests@[i].opts == old_repo.nests@[i].opts);
                assert(self.nests@[j].opts == old_repo.nests@[j].opts);
            }
            assert forall|i: int, j: int|
                0 <= i < j < self.nests@.len() implies #[trigger] self.nests@[i].ident@
                    != #[trigger] self.nests@[j].ident@ by {
                assert(self.nests@[i].ident == old_repo.nests@[i].ident);
                assert(self.nests@[j].ident == old_repo.nests@[j].ident);
            }
        }
    }
}
impl NestRepo {
    /// Every deeply nested group names as its origin a group declared
    /// before it, so a group whose origin is itself, or a group declared
    /// later, or no group, never enters a well-formed registry.
    pub proof fn lemma_origin_declared_before(&self, i: int)
        requires
            self.wf(),
            0 <= i < self.nests@.len(),
            self.nests@[i].opts.nested is Some,
        ensures
            exists|j: int|
                0 <= j < i && #[trigger] self.nests@[j].opts.id@ == self.nests@[i].opts.nested->0.origin@,
    {
        assert(self.nest_wf(i));
        let k = self.nests@[i].parent->0 as int;
        assert(self.nests@[k].opts.id@ == self.nests@[i].opts.nested->0.origin@);
    }
}

} // verus!
