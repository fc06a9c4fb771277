//! Folding a configuration into the group registry: group declarations,
//! field assignments and pass-through attributes.

use vstd::prelude::*;

use crate::config::{
    nest_struct_name,
    names_contain, selects, DeriveItemFieldOpts, DeriveItemOpts, DerivedStructClass, ExtraOpts, GlobalOpts, NestSelection,
    PassthroughFieldAttribute, PassthroughStructAttribute, WrapperOpts,
};
use crate::error::GenError;
use crate::mapping::{has_id, insert_outcome, resolve_origin, resolved_name, strategy_conflict, NestField, NestInfo, NestRepo};
use crate::model::texts;

verus! {

/// The pass-through attributes of a field that apply to group `id`, in order.
pub open spec fn field_attrs_for(attrs: Seq<PassthroughFieldAttribute>, id: Seq<char>) -> Seq<Seq<char>>
    decreases attrs.len(),
{
    if attrs.len() == 0 {
        Seq::empty()
    } else {
        field_attrs_for(attrs.drop_last(), id) + if selects(attrs.last().nests, id) {
            seq![attrs.last().attr@]
        } else {
            Seq::empty()
        }
    }
}

/// What a group holds of one field: its name and its attributes.
pub open spec fn nest_field_view(f: NestField) -> (Seq<char>, Seq<Seq<char>>) {
    (f.name@, texts(f.attrs@))
}

pub open spec fn nest_field_views(v: Seq<NestField>) -> Seq<(Seq<char>, Seq<Seq<char>>)> {
    v.map_values(|f: NestField| nest_field_view(f))
}

/// The fields among the first `n` of the data struct that group `id` holds,
/// in order, with their attributes for that group.
pub open spec fn nest_fields_upto(fields: Seq<DeriveItemFieldOpts>, id: Seq<char>, n: int) -> Seq<
    (Seq<char>, Seq<Seq<char>>),
>
    decreases n,
{
    if n <= 0 {
        Seq::empty()
    } else {
        nest_fields_upto(fields, id, n - 1) + if fields[n - 1].ident is Some && names_contain(
            fields[n - 1].nests@,
            id,
        ) {
            seq![(fields[n - 1].ident->0@, field_attrs_for(fields[n - 1].attrs@, id))]
        } else {
            Seq::empty()
        }
    }
}

/// The struct attributes that reach group `id` for structs of class `class`,
/// in order.
pub open spec fn struct_attrs_for(
    attrs: Seq<PassthroughStructAttribute>,
    id: Seq<char>,
    class: DerivedStructClass,
) -> Seq<Seq<char>>
    decreases attrs.len(),
{
    if attrs.len() == 0 {
        Seq::empty()
    } else {
        struct_attrs_for(attrs.drop_last(), id, class) + if selects(attrs.last().nests, id)
            && attrs.last().class@.contains(class) {
            seq![attrs.last().attr@]
        } else {
            Seq::empty()
        }
    }
}

/// Every identity that a restricted selection names is registered.
pub open spec fn selection_known(nests: Seq<NestInfo>, sel: NestSelection) -> bool {
    sel matches NestSelection::Restricted(ids) ==> forall|i: int|
        0 <= i < ids@.len() ==> has_id(nests, #[trigger] ids@[i]@)
}

/// Every group that a field names, in its list or in its attributes, is
/// registered (a tuple field's list is never read).
pub open spec fn field_refs_known(nests: Seq<NestInfo>, f: DeriveItemFieldOpts) -> bool {
    &&& f.ident is Some ==> forall|j: int| 0 <= j < f.nests@.len() ==> has_id(nests, #[trigger] f.nests@[j]@)
    &&& forall|a: int| 0 <= a < f.attrs@.len() ==> selection_known(nests, #[trigger] f.attrs@[a].nests)
}

/// A named field lists each group at most once.
pub open spec fn lists_once(f: DeriveItemFieldOpts) -> bool {
    f.ident is Some ==> forall|a: int, b: int|
        0 <= a < b < f.nests@.len() ==> #[trigger] f.nests@[a]@ != #[trigger] f.nests@[b]@
}

/// The pass-through attributes of a field that apply to group `id`.
pub fn parse_field_attrs(attrs: &Vec<PassthroughFieldAttribute>, id: &String) -> (r: Vec<String>)
    ensures
        texts(r@) == field_attrs_for(attrs@, id@),
{
    let mut r: Vec<String> = Vec::new();
    let mut k: usize = 0;
    while k < attrs.len()
        invariant
            k <= attrs@.len(),
            texts(r@) == field_attrs_for(attrs@.subrange(0, k as int), id@),
        decreases attrs@.len() - k,
    {
        if attrs[k].nests.admits(id) {
            r.push(attrs[k].attr.clone());
        }
        proof {
            let s = attrs@.subrange(0, k + 1);
            assert(s.drop_last() =~= attrs@.subrange(0, k as int));
            assert(texts(r@) =~= field_attrs_for(s, id@));
        }
        k = k + 1;
    }
    assert(attrs@.subrange(0, attrs@.len() as int) =~= attrs@);
    r
}

/// The first identity of a restricted selection that names no registered
/// group, if any.
pub fn unknown_nest_in(repo: &NestRepo, sel: &NestSelection) -> (r: Option<String>)
    ensures
        r matches Some(id) ==> !has_id(repo.nests@, id@) && (sel matches NestSelection::Restricted(
            ids,
        ) && names_contain(ids@, id@)),
        r is None ==> selection_known(repo.nests@, *sel),
{
    match sel {
        NestSelection::Unrestricted => None,
        NestSelection::Restricted(ids) => {
            let mut i: usize = 0;
            while i < ids.len()
                invariant
                    i <= ids@.len(),
                    *sel == NestSelection::Restricted(*ids),
                    forall|j: int| 0 <= j < i ==> has_id(repo.nests@, #[trigger] ids@[j]@),
                decreases ids@.len() - i,
            {
                if !repo.id_exists(&ids[i]) {
                    return Some(ids[i].clone());
                }
                i = i + 1;
            }
            None
        },
    }
}


/// Field `fi` would enter group `id` a second time: it lists the group at
/// two positions, or an earlier field of the same name is in the group.
pub open spec fn field_listed_twice(fields: Seq<DeriveItemFieldOpts>, fi: int, id: Seq<char>) -> bool {
    ||| exists|a: int, b: int|
        0 <= a < b < fields[fi].nests@.len() && #[trigger] fields[fi].nests@[a]@ == id
            && #[trigger] fields[fi].nests@[b]@ == id
    ||| exists|f: int|
        0 <= f < fi && (#[trigger] fields[f]).ident is Some && fields[fi].ident is Some
            && fields[f].ident->0@ == fields[fi].ident->0@ && names_contain(fields[f].nests@, id)
}

/// Each field that group `id` holds among the first `n` comes from a named
/// field that lists the group.
proof fn lemma_upto_member(fields: Seq<DeriveItemFieldOpts>, id: Seq<char>, n: int, a: int)
    requires
        0 <= n <= fields.len(),
        0 <= a < nest_fields_upto(fields, id, n).len(),
    ensures
        exists|f: int|
            0 <= f < n && (#[trigger] fields[f]).ident is Some && fields[f].ident->0@ == nest_fields_upto(
                fields,
                id,
                n,
            )[a].0 && names_contain(fields[f].nests@, id),
    decreases n,
{
    let prev = nest_fields_upto(fields, id, n - 1);
    if a < prev.len() {
        lemma_upto_member(fields, id, n - 1, a);
        let f = choose|f: int|
            0 <= f < n - 1 && (#[trigger] fields[f]).ident is Some && fields[f].ident->0@ == prev[a].0
                && names_contain(fields[f].nests@, id);
        assert(nest_fields_upto(fields, id, n)[a] == prev[a]);
        assert(fields[f].ident->0@ == nest_fields_upto(fields, id, n)[a].0);
    } else {
        assert(fields[n - 1].ident is Some);
    }
}

/// The configuration that generation reads, with the registry built from it.
pub struct State {
    pub nest_repo: NestRepo,
    pub global: GlobalOpts,
    pub wrapper_opts: WrapperOpts,
    pub extra_opts: ExtraOpts,
    pub root_ident: String,
}

/// `b` differs from `a` at most in the fields that its groups hold.
pub open spec fn same_but_fields(a: NestRepo, b: NestRepo) -> bool {
    &&& b.root_ident == a.root_ident
    &&& b.transform == a.transform
    &&& b.nests@.len() == a.nests@.len()
    &&& forall|k: int|
        0 <= k < a.nests@.len() ==> {
            &&& (#[trigger] b.nests@[k]).ident == a.nests@[k].ident
            &&& b.nests@[k].parent == a.nests@[k].parent
            &&& b.nests@[k].opts == a.nests@[k].opts
            &&& b.nests@[k].strategy == a.nests@[k].strategy
            &&& b.nests@[k].struct_attrs == a.nests@[k].struct_attrs
        }
}

/// Registries that differ only in their groups' fields know the same identities.
pub proof fn lemma_same_ids(a: NestRepo, b: NestRepo)
    requires
        same_but_fields(a, b),
    ensures
        forall|id: Seq<char>| has_id(a.nests@, id) <==> has_id(b.nests@, id),
{
    assert forall|id: Seq<char>| has_id(a.nests@, id) <==> has_id(b.nests@, id) by {
        if has_id(a.nests@, id) {
            let k = choose|k: int| 0 <= k < a.nests@.len() && #[trigger] a.nests@[k].opts.id@ == id;
            assert(b.nests@[k].opts == a.nests@[k].opts);
            assert(b.nests@[k].opts.id@ == id);
        }
        if has_id(b.nests@, id) {
            let k = choose|k: int| 0 <= k < b.nests@.len() && #[trigger] b.nests@[k].opts.id@ == id;
            assert(b.nests@[k].opts == a.nests@[k].opts);
            assert(a.nests@[k].opts.id@ == id);
        }
    }
}

impl State {
    pub fn new(global: GlobalOpts, wrapper: WrapperOpts, extra: ExtraOpts, root_ident: String) -> (r:
        Self)
        ensures
            r.nest_repo.wf(),
            r.nest_repo.nests@.len() == 0,
            r.nest_repo.root_ident == root_ident,
            r.nest_repo.transform == global.transform,
            r.global == global,
            r.wrapper_opts == wrapper,
            r.extra_opts == extra,
            r.root_ident == root_ident,
    {
        let transform = match &global.transform {
            Some(t) => Some(t.clone()),
            None => None,
        };
        State {
            nest_repo: NestRepo::new(root_ident.clone(), transform),
            global,
            wrapper_opts: wrapper,
            extra_opts: extra,
            root_ident,
        }
    }
}

/// Assigns each named field of the data struct to the groups it lists, with
/// its pass-through attributes for each. Unknown groups, in the field's list
/// or in its attributes, and a field assigned twice to one group are errors.
fn assign_fields(repo: &mut NestRepo, fields: &Vec<DeriveItemFieldOpts>) -> (r: Result<(), GenError>)
    requires
        old(repo).wf(),
        forall|k: int| 0 <= k < old(repo).nests@.len() ==> (#[trigger] old(repo).nests@[k]).fields@.len() == 0,
    ensures
        final(repo).wf(),
        same_but_fields(*old(repo), *final(repo)),
        r is Ok ==> forall|k: int|
            0 <= k < final(repo).nests@.len() ==> nest_field_views((#[trigger] final(repo).nests@[k]).fields@)
                == nest_fields_upto(fields@, final(repo).nests@[k].opts.id@, fields@.len() as int),
        r is Ok ==> forall|f: int| 0 <= f < fields@.len() ==> field_refs_known(old(repo).nests@, #[trigger] fields@[f]),
        r is Ok ==> forall|f: int| 0 <= f < fields@.len() ==> lists_once(#[trigger] fields@[f]),
        r matches Err(GenError::UnknownNestInField { field, id }) ==> field < fields@.len()
            && fields@[field as int].ident is Some && !has_id(old(repo).nests@, id@) && names_contain(fields@[field as int].nests@, id@),
        r matches Err(GenError::UnknownNestInFieldAttr { field, attr, id }) ==> field < fields@.len()
            && attr < fields@[field as int].attrs@.len() && !has_id(old(repo).nests@, id@)
            && (fields@[field as int].attrs@[attr as int].nests matches NestSelection::Restricted(ids)
            && names_contain(ids@, id@)),
        r matches Err(GenError::DuplicateFieldInNest { field, nest }) ==> field < fields@.len() && nest
            < old(repo).nests@.len() && fields@[field as int].ident is Some && names_contain(
            fields@[field as int].nests@,
            old(repo).nests@[nest as int].opts.id@,
        ) && field_listed_twice(fields@, field as int, old(repo).nests@[nest as int].opts.id@),
        r is Err ==> (r matches Err(GenError::UnknownNestInField { .. })) || (r matches Err(
            GenError::UnknownNestInFieldAttr { .. },
        )) || (r matches Err(GenError::DuplicateFieldInNest { .. })),
{
    let ghost start = *repo;
    let mut fi: usize = 0;
    while fi < fields.len()
        invariant
            fi <= fields@.len(),
            start == *old(repo),
            repo.wf(),
            same_but_fields(start, *repo),
            forall|k: int|
                0 <= k < repo.nests@.len() ==> nest_field_views((#[trigger] repo.nests@[k]).fields@)
                    == nest_fields_upto(fields@, repo.nests@[k].opts.id@, fi as int),
            forall|f: int| 0 <= f < fi ==> field_refs_known(start.nests@, #[trigger] fields@[f]),
            forall|f: int| 0 <= f < fi ==> lists_once(#[trigger] fields@[f]),
        decreases fields@.len() - fi,
    {
        let field = &fields[fi];
        let mut ai: usize = 0;
        while ai < field.attrs.len()
            invariant
                fi < fields@.len(),
                ai <= field.attrs@.len(),
                *field == fields@[fi as int],
                start == *old(repo),
                repo.wf(),
                same_but_fields(start, *repo),
                forall|k: int|
                    0 <= k < repo.nests@.len() ==> nest_field_views((#[trigger] repo.nests@[k]).fields@)
                        == nest_fields_upto(fields@, repo.nests@[k].opts.id@, fi as int),
                forall|f: int| 0 <= f < fi ==> field_refs_known(start.nests@, #[trigger] fields@[f]),
                forall|f: int| 0 <= f < fi ==> lists_once(#[trigger] fields@[f]),
                forall|a: int| 0 <= a < ai ==> selection_known(start.nests@, #[trigger] field.attrs@[a].nests),
            decreases field.attrs@.len() - ai,
        {
            proof {
                lemma_same_ids(start, *repo);
            }
            if let Some(id) = unknown_nest_in(repo, &field.attrs[ai].nests) {
                proof {
                    lemma_same_ids(start, *repo);
                }
                return Err(GenError::UnknownNestInFieldAttr { field: fi, attr: ai, id });
            }
            ai = ai + 1;
        }
        if let Some(name) = &field.ident {
            let mut j: usize = 0;
            while j < field.nests.len()
                invariant
                    fi < fields@.len(),
                    j <= field.nests@.len(),
                    *field == fields@[fi as int],
                    start == *old(repo),
                    field.ident == Some(*name),
                    repo.wf(),
                    same_but_fields(start, *repo),
                    forall|f: int| 0 <= f < fi ==> field_refs_known(start.nests@, #[trigger] fields@[f]),
                    forall|a: int| 0 <= a < field.attrs@.len() ==> selection_known(start.nests@, #[trigger] field.attrs@[a].nests),
                    forall|i: int| 0 <= i < j ==> has_id(start.nests@, #[trigger] field.nests@[i]@),
                    forall|f: int| 0 <= f < fi ==> lists_once(#[trigger] fields@[f]),
                    forall|a: int, b: int|
                        0 <= a < b < j ==> #[trigger] field.nests@[a]@ != #[trigger] field.nests@[b]@,
                    forall|k: int|
                        0 <= k < repo.nests@.len() ==> nest_field_views(
                            (#[trigger] repo.nests@[k]).fields@,
                        ) == nest_fields_upto(fields@, repo.nests@[k].opts.id@, fi as int) + if names_contain(
                            field.nests@.subrange(0, j as int),
                            repo.nests@[k].opts.id@,
                        ) {
                            seq![(name@, field_attrs_for(field.attrs@, repo.nests@[k].opts.id@))]
                        } else {
                            Seq::empty()
                        },
                decreases field.nests@.len() - j,
            {
                let id = &field.nests[j];
                let attrs = parse_field_attrs(&field.attrs, id);
                let nest_field = NestField { name: name.clone(), attrs };
                let ghost before = *repo;
                let res = repo.add_field_to_nest(id, nest_field, fi);
                if res.is_err() {
                    proof {
                        lemma_same_ids(start, before);
                        if has_id(before.nests@, id@) {
                            assert(names_contain(field.nests@, id@)) by {
                                assert(field.nests@[j as int]@ == id@);
                            }
                            assert(same_but_fields(start, *repo));
                            let k = choose|k: int| 0 <= k < before.nests@.len() && #[trigger] before.nests@[k].opts.id@ == id@;
                            assert(before.nests@[k].opts == start.nests@[k].opts);
                            let info = before.nests@[k];
                            let kid = info.opts.id@;
                            if exists|a: int| 0 <= a < info.fields@.len() && #[trigger] info.fields@[a].name@ == name@ {
                                let a = choose|a: int| 0 <= a < info.fields@.len() && #[trigger] info.fields@[a].name@ == name@;
                                let base = nest_fields_upto(fields@, kid, fi as int);
                                let views = nest_field_views(info.fields@);
                                assert(views[a] == nest_field_view(info.fields@[a]));
                                if a < base.len() {
                                    assert(views[a] == base[a]);
                                    lemma_upto_member(fields@, kid, fi as int, a);
                                    let f = choose|f: int|
                                        0 <= f < fi && (#[trigger] fields@[f]).ident is Some && fields@[f].ident->0@ == base[a].0
                                            && names_contain(fields@[f].nests@, kid);
                                    assert(field_listed_twice(fields@, fi as int, kid));
                                } else {
                                    let pre = field.nests@.subrange(0, j as int);
                                    assert(names_contain(pre, kid));
                                    let i = choose|i: int| 0 <= i < pre.len() && #[trigger] pre[i]@ == kid;
                                    assert(field.nests@[i]@ == kid && field.nests@[j as int]@ == kid);
                                    assert(field_listed_twice(fields@, fi as int, kid));
                                }
                            }
                        } else {
                            assert(field.nests@[j as int]@ == id@);
                        }
                        assert(same_but_fields(start, *repo));
                    }
                    return res;
                }
                proof {
                    lemma_same_ids(start, before);
                    assert(has_id(start.nests@, field.nests@[j as int]@));
                    let next = field.nests@.subrange(0, j + 1);
                    let prev = field.nests@.subrange(0, j as int);
                    assert forall|x: Seq<char>| names_contain(next, x) <==> (names_contain(prev, x)
                        || id@ == x) by {
                        if names_contain(next, x) {
                            let i = choose|i: int| 0 <= i < next.len() && #[trigger] next[i]@ == x;
                            if i < j {
                                assert(prev[i] == next[i]);
                            }
                        }
                        if names_contain(prev, x) {
                            let i = choose|i: int| 0 <= i < prev.len() && #[trigger] prev[i]@ == x;
                            assert(prev[i] == next[i]);
                        }
                        if id@ == x {
                            assert(next[j as int]@ == x);
                        }
                    }
                    let k0 = choose|k: int| 0 <= k < before.nests@.len() && #[trigger] before.nests@[k].opts.id@ == id@;
                    assert forall|k: int|
                        0 <= k < repo.nests@.len() implies nest_field_views(
                            (#[trigger] repo.nests@[k]).fields@,
                        ) == nest_fields_upto(fields@, repo.nests@[k].opts.id@, fi as int) + if names_contain(
                            next,
                            repo.nests@[k].opts.id@,
                        ) {
                            seq![(name@, field_attrs_for(field.attrs@, repo.nests@[k].opts.id@))]
                        } else {
                            Seq::empty()
                        } by {
                        if k == k0 {
                            let f = before.nests@[k].fields@;
                            if names_contain(prev, id@) {
                                let base = nest_fields_upto(fields@, id@, fi as int);
                                assert(nest_field_views(f) == base.push(
                                    (name@, field_attrs_for(field.attrs@, id@)),
                                ));
                                assert(nest_field_views(f)[f.len() - 1] == nest_field_view(f[f.len() - 1]));
                                assert(f[f.len() - 1].name@ == name@);
                            }
                            assert(nest_field_views(repo.nests@[k].fields@) =~= nest_field_views(f).push(
                                (name@, field_attrs_for(field.attrs@, id@)),
                            ));
                        } else {
                            if k < k0 {
                                assert(before.nests@[k].opts.id@ != before.nests@[k0].opts.id@);
                            } else {
                                assert(before.nests@[k0].opts.id@ != before.nests@[k].opts.id@);
                            }
                        }
                    }
                    if names_contain(prev, id@) {
                        let f = before.nests@[k0].fields@;
                        let base = nest_fields_upto(fields@, id@, fi as int);
                        assert(nest_field_views(f) == base.push((name@, field_attrs_for(field.attrs@, id@))));
                        assert(nest_field_views(f)[f.len() - 1] == nest_field_view(f[f.len() - 1]));
                        assert(f[f.len() - 1].name@ == name@);
                    }
                    assert(!names_contain(prev, id@));
                    assert forall|a: int, b: int|
                        0 <= a < b < j + 1 implies #[trigger] field.nests@[a]@ != #[trigger] field.nests@[b]@ by {
                        if b == j {
                            assert(prev[a] == field.nests@[a]);
                            if field.nests@[a]@ == id@ {
                                assert(names_contain(prev, id@));
                            }
                        }
                    }
                }
                j = j + 1;
            }
            proof {
                assert(field.nests@.subrange(0, field.nests@.len() as int) =~= field.nests@);
                assert forall|k: int|
                    0 <= k < repo.nests@.len() implies nest_field_views((#[trigger] repo.nests@[k]).fields@)
                        == nest_fields_upto(fields@, repo.nests@[k].opts.id@, fi + 1) by {
                    assert(nest_fields_upto(fields@, repo.nests@[k].opts.id@, fi + 1) =~= nest_fields_upto(
                        fields@,
                        repo.nests@[k].opts.id@,
                        fi as int,
                    ) + if names_contain(field.nests@, repo.nests@[k].opts.id@) {
                        seq![(name@, field_attrs_for(field.attrs@, repo.nests@[k].opts.id@))]
                    } else {
                        Seq::empty()
                    });
                }
            }
        } else {
            proof {
                assert forall|k: int|
                    0 <= k < repo.nests@.len() implies nest_field_views((#[trigger] repo.nests@[k]).fields@)
                        == nest_fields_upto(fields@, repo.nests@[k].opts.id@, fi + 1) by {
                    assert(nest_fields_upto(fields@, repo.nests@[k].opts.id@, fi + 1) =~= nest_fields_upto(
                        fields@,
                        repo.nests@[k].opts.id@,
                        fi as int,
                    ));
                }
            }
        }
        fi = fi + 1;
    }
    Ok(())
}

/// `b` differs from `a` at most in its groups' struct attributes.
pub open spec fn same_but_struct_attrs(a: NestRepo, b: NestRepo) -> bool {
    &&& b.root_ident == a.root_ident
    &&& b.transform == a.transform
    &&& b.nests@.len() == a.nests@.len()
    &&& forall|k: int|
        0 <= k < a.nests@.len() ==> {
            &&& (#[trigger] b.nests@[k]).ident == a.nests@[k].ident
            &&& b.nests@[k].parent == a.nests@[k].parent
            &&& b.nests@[k].opts == a.nests@[k].opts
            &&& b.nests@[k].strategy == a.nests@[k].strategy
            &&& b.nests@[k].fields == a.nests@[k].fields
        }
}

/// Registries that differ only in their groups' struct attributes know the
/// same identities.
pub proof fn lemma_same_ids_attrs(a: NestRepo, b: NestRepo)
    requires
        same_but_struct_attrs(a, b),
    ensures
        forall|id: Seq<char>| has_id(a.nests@, id) <==> has_id(b.nests@, id),
{
    assert forall|id: Seq<char>| has_id(a.nests@, id) <==> has_id(b.nests@, id) by {
        if has_id(a.nests@, id) {
            let k = choose|k: int| 0 <= k < a.nests@.len() && #[trigger] a.nests@[k].opts.id@ == id;
            assert(b.nests@[k].opts == a.nests@[k].opts);
            assert(b.nests@[k].opts.id@ == id);
        }
        if has_id(b.nests@, id) {
            let k = choose|k: int| 0 <= k < b.nests@.len() && #[trigger] b.nests@[k].opts.id@ == id;
            assert(b.nests@[k].opts == a.nests@[k].opts);
            assert(a.nests@[k].opts.id@ == id);
        }
    }
}

/// The struct attributes of group `k` for each class, as text.
pub open spec fn attrs_of_class(repo: NestRepo, k: int, class: DerivedStructClass) -> Seq<Seq<char>> {
    match class {
        DerivedStructClass::Wrapper => texts(repo.nests@[k].struct_attrs.wrapper@),
        DerivedStructClass::Extra => texts(repo.nests@[k].struct_attrs.extra@),
        DerivedStructClass::Nest => texts(repo.nests@[k].struct_attrs.nest@),
    }
}

/// Hands each struct pass-through attribute to the groups it selects, for
/// the classes of struct it selects. An unknown group is an error.
pub fn parse_struct_attrs(repo: &mut NestRepo, attrs: &Vec<PassthroughStructAttribute>) -> (r: Result<
    (),
    GenError,
>)
    requires
        old(repo).wf(),
        forall|k: int, c: DerivedStructClass|
            0 <= k < old(repo).nests@.len() ==> #[trigger] attrs_of_class(*old(repo), k, c).len() == 0,
    ensures
        final(repo).wf(),
        same_but_struct_attrs(*old(repo), *final(repo)),
        r is Ok ==> forall|k: int, c: DerivedStructClass|
            0 <= k < final(repo).nests@.len() ==> #[trigger] attrs_of_class(*final(repo), k, c)
                == struct_attrs_for(attrs@, final(repo).nests@[k].opts.id@, c),
        r is Ok ==> forall|a: int| 0 <= a < attrs@.len() ==> selection_known(old(repo).nests@, #[trigger] attrs@[a].nests),
        r is Err ==> (r matches Err(GenError::UnknownNestInStructAttr { attr, id }) && attr
            < attrs@.len() && !has_id(old(repo).nests@, id@) && (attrs@[attr as int].nests matches NestSelection::Restricted(
            ids,
        ) && names_contain(ids@, id@))),
{
    let ghost start = *repo;
    let mut ai: usize = 0;
    while ai < attrs.len()
        invariant
            ai <= attrs@.len(),
            start == *old(repo),
            repo.wf(),
            same_but_struct_attrs(start, *repo),
            forall|k: int, c: DerivedStructClass|
                0 <= k < repo.nests@.len() ==> #[trigger] attrs_of_class(*repo, k, c) == struct_attrs_for(
                    attrs@.subrange(0, ai as int),
                    repo.nests@[k].opts.id@,
                    c,
                ),
            forall|a: int| 0 <= a < ai ==> selection_known(start.nests@, #[trigger] attrs@[a].nests),
        decreases attrs@.len() - ai,
    {
        let attr = &attrs[ai];
        proof {
            lemma_same_ids_attrs(start, *repo);
        }
        if let Some(id) = unknown_nest_in(repo, &attr.nests) {
            proof {
                assert forall|x: Seq<char>| has_id(start.nests@, x) <==> has_id(repo.nests@, x) by {
                    if has_id(start.nests@, x) {
                        let k = choose|k: int| 0 <= k < start.nests@.len() && #[trigger] start.nests@[k].opts.id@ == x;
                        assert(repo.nests@[k].opts == start.nests@[k].opts);
                        assert(repo.nests@[k].opts.id@ == x);
                    }
                    if has_id(repo.nests@, x) {
                        let k = choose|k: int| 0 <= k < repo.nests@.len() && #[trigger] repo.nests@[k].opts.id@ == x;
                        assert(repo.nests@[k].opts == start.nests@[k].opts);
                        assert(start.nests@[k].opts.id@ == x);
                    }
                }
            }
            return Err(GenError::UnknownNestInStructAttr { attr: ai, id });
        }
        let ghost pre = attrs@.subrange(0, ai as int);
        let ghost next = attrs@.subrange(0, ai + 1);
        proof {
            assert(next.drop_last() =~= pre);
            assert(next.last() == *attr);
        }
        let mut k: usize = 0;
        while k < repo.nests.len()
            invariant
                ai < attrs@.len(),
                *attr == attrs@[ai as int],
                pre == attrs@.subrange(0, ai as int),
                next == attrs@.subrange(0, ai + 1),
                next.drop_last() == pre,
                next.last() == *attr,
                k <= repo.nests@.len(),
                start == *old(repo),
                repo.wf(),
                same_but_struct_attrs(start, *repo),
                forall|a: int| 0 <= a <= ai ==> selection_known(start.nests@, #[trigger] attrs@[a].nests),
                forall|j: int, c: DerivedStructClass|
                    0 <= j < repo.nests@.len() ==> #[trigger] attrs_of_class(*repo, j, c) == if j < k {
                        struct_attrs_for(next, repo.nests@[j].opts.id@, c)
                    } else {
                        struct_attrs_for(pre, repo.nests@[j].opts.id@, c)
                    },
            decreases repo.nests@.len() - k,
        {
            let ghost before = *repo;
            if attr.nests.admits(&repo.nests[k].opts.id) {
                repo.add_struct_attr(k, &attr.attr, attr.class);
            }
            proof {
                assert forall|j: int, c: DerivedStructClass|
                    0 <= j < repo.nests@.len() implies #[trigger] attrs_of_class(*repo, j, c) == if j < k + 1 {
                        struct_attrs_for(next, repo.nests@[j].opts.id@, c)
                    } else {
                        struct_attrs_for(pre, repo.nests@[j].opts.id@, c)
                    } by {
                    assert(attrs_of_class(before, j, c) == if j < k {
                        struct_attrs_for(next, before.nests@[j].opts.id@, c)
                    } else {
                        struct_attrs_for(pre, before.nests@[j].opts.id@, c)
                    });
                    if j == k {
                        let id = repo.nests@[j].opts.id@;
                        assert(struct_attrs_for(next, id, c) == struct_attrs_for(pre, id, c) + if selects(attr.nests, id)
                            && attr.class@.contains(c) {
                            seq![attr.attr@]
                        } else {
                            Seq::empty()
                        });
                        match c {
                            DerivedStructClass::Wrapper => {
                                assert(texts(repo.nests@[j].struct_attrs.wrapper@) =~= struct_attrs_for(next, id, c));
                            },
                            DerivedStructClass::Extra => {
                                assert(texts(repo.nests@[j].struct_attrs.extra@) =~= struct_attrs_for(next, id, c));
                            },
                            DerivedStructClass::Nest => {
                                assert(texts(repo.nests@[j].struct_attrs.nest@) =~= struct_attrs_for(next, id, c));
                            },
                        }
                    }
                }
            }
            k = k + 1;
        }
        ai = ai + 1;
    }
    assert(attrs@.subrange(0, attrs@.len() as int) =~= attrs@);
    Ok(())
}

/// A registry built from `cfg`: its groups are the declarations in order,
/// each holding the fields and struct attributes that select it.
pub open spec fn built_from(repo: NestRepo, cfg: DeriveItemOpts) -> bool {
    &&& repo.wf()
    &&& repo.root_ident == cfg.ident
    &&& repo.transform == cfg.global_opts.transform
    &&& repo.nests@.len() == cfg.nest_opts@.len()
    &&& forall|k: int|
        0 <= k < repo.nests@.len() ==> (#[trigger] repo.nests@[k]).opts == cfg.nest_opts@[k]
    &&& forall|k: int|
        0 <= k < repo.nests@.len() ==> nest_field_views((#[trigger] repo.nests@[k]).fields@)
            == nest_fields_upto(cfg.fields@, repo.nests@[k].opts.id@, cfg.fields@.len() as int)
    &&& forall|k: int, c: DerivedStructClass|
        0 <= k < repo.nests@.len() ==> #[trigger] attrs_of_class(repo, k, c) == struct_attrs_for(
            cfg.attrs@,
            repo.nests@[k].opts.id@,
            c,
        )
    &&& forall|f: int| 0 <= f < cfg.fields@.len() ==> field_refs_known(repo.nests@, #[trigger] cfg.fields@[f])
    &&& forall|a: int| 0 <= a < cfg.attrs@.len() ==> selection_known(repo.nests@, #[trigger] cfg.attrs@[a].nests)
    &&& forall|f: int| 0 <= f < cfg.fields@.len() ==> lists_once(#[trigger] cfg.fields@[f])
}

/// The position of the first declaration before `k` whose identity is the
/// origin that declaration `k` names, if any.
pub open spec fn decl_origin(cfg: DeriveItemOpts, k: int) -> Option<int> {
    match cfg.nest_opts@[k].nested {
        Some(n) => if exists|j: int| 0 <= j < k && #[trigger] cfg.nest_opts@[j].id@ == n.origin@ {
            Some(choose|j: int| 0 <= j < k && #[trigger] cfg.nest_opts@[j].id@ == n.origin@)
        } else {
            None
        },
        None => None,
    }
}

/// The struct name that declaration `k` resolves to: its own name over the
/// name of the struct its data is sourced from.
pub open spec fn decl_name(cfg: DeriveItemOpts, k: int) -> Seq<char>
    decreases k,
{
    if 0 <= k < cfg.nest_opts@.len() {
        match decl_origin(cfg, k) {
            Some(j) => if 0 <= j < k {
                nest_struct_name(cfg.nest_opts@[k], decl_name(cfg, j))
            } else {
                Seq::empty()
            },
            None => nest_struct_name(cfg.nest_opts@[k], cfg.ident@),
        }
    } else {
        Seq::empty()
    }
}

/// The name that `insert` resolves for declaration `k`, on a registry that
/// holds the declarations before it, is `decl_name(cfg, k)`.
proof fn lemma_resolved_name(cfg: DeriveItemOpts, before: NestRepo, k: int)
    requires
        before.wf(),
        0 <= k < cfg.nest_opts@.len(),
        before.nests@.len() == k,
        before.root_ident == cfg.ident,
        forall|j: int| 0 <= j < k ==> (#[trigger] before.nests@[j]).opts == cfg.nest_opts@[j],
        forall|j: int| 0 <= j < k ==> (#[trigger] before.nests@[j]).ident@ == decl_name(cfg, j),
        resolve_origin(before.nests@, cfg.nest_opts@[k]) is Some,
    ensures
        resolved_name(before, cfg.nest_opts@[k]) == decl_name(cfg, k),
{
    let o = cfg.nest_opts@[k];
    if let Some(n) = o.nested {
        let p = choose|p: int| 0 <= p < before.nests@.len() && #[trigger] before.nests@[p].opts.id@ == n.origin@;
        assert(before.nests@[p].opts == cfg.nest_opts@[p]);
        assert(cfg.nest_opts@[p].id@ == n.origin@);
        let c = choose|j: int| 0 <= j < k && #[trigger] cfg.nest_opts@[j].id@ == n.origin@;
        assert(decl_origin(cfg, k) == Some(c));
        assert(before.nests@[c].opts == cfg.nest_opts@[c]);
        if c < p {
            assert(before.nests@[c].opts.id@ != before.nests@[p].opts.id@);
        } else if p < c {
            assert(before.nests@[p].opts.id@ != before.nests@[c].opts.id@);
        }
        assert(before.nests@[c].ident@ == decl_name(cfg, c));
    }
}

/// What an error from building the registry says of the configuration.
pub open spec fn build_error_holds(e: GenError, cfg: DeriveItemOpts) -> bool {
    let nests = cfg.nest_opts@;
    match e {
        GenError::EmptyNestId { nest } => nest < nests.len() && nests[nest as int].id@.len() == 0,
        GenError::DuplicateNestId { first, second } => first < second < nests.len()
            && nests[first as int].id@ == nests[second as int].id@,
        GenError::DuplicateNestName { first, second } => first < second < nests.len() && decl_name(
            cfg,
            first as int,
        ) == decl_name(cfg, second as int),
        GenError::UnknownOrigin { nest } => nest < nests.len() && nests[nest as int].nested is Some
            && forall|j: int|
            0 <= j < nest ==> #[trigger] nests[j].id@ != nests[nest as int].nested->0.origin@,
        GenError::ConflictingStrategy { nest } => nest < nests.len() && strategy_conflict(
            nests[nest as int],
        ),
        GenError::MissingStrategy { nest } => nest < nests.len() && !nests[nest as int].from
            && nests[nest as int].transform is None && nests[nest as int].nested is None
            && cfg.global_opts.transform is None,
        GenError::UnknownNestInField { field, id } => field < cfg.fields@.len()
            && cfg.fields@[field as int].ident is Some && (forall|j: int|
            0 <= j < nests.len() ==> #[trigger] nests[j].id@ != id@) && names_contain(
            cfg.fields@[field as int].nests@,
            id@,
        ),
        GenError::UnknownNestInFieldAttr { field, attr, id } => field < cfg.fields@.len() && attr
            < cfg.fields@[field as int].attrs@.len() && (forall|j: int|
            0 <= j < nests.len() ==> #[trigger] nests[j].id@ != id@) && (
        cfg.fields@[field as int].attrs@[attr as int].nests matches NestSelection::Restricted(ids)
            && names_contain(ids@, id@)),
        GenError::UnknownNestInStructAttr { attr, id } => attr < cfg.attrs@.len() && (forall|j: int|
            0 <= j < nests.len() ==> #[trigger] nests[j].id@ != id@) && (
        cfg.attrs@[attr as int].nests matches NestSelection::Restricted(ids) && names_contain(
            ids@,
            id@,
        )),
        GenError::DuplicateFieldInNest { field, nest } => field < cfg.fields@.len() && nest
            < nests.len() && cfg.fields@[field as int].ident is Some && names_contain(
            cfg.fields@[field as int].nests@,
            nests[nest as int].id@,
        ) && field_listed_twice(cfg.fields@, field as int, nests[nest as int].id@),
        GenError::StructNameCollision { .. } => false,
    }
}

/// Registers the groups, assigns the fields, then the struct attributes,
/// stopping at the first configuration error.
fn build_registry(derive_opts: DeriveItemOpts) -> (r: Result<State, GenError>)
    ensures
        r matches Ok(st) ==> built_from(st.nest_repo, derive_opts) && st.global == derive_opts.global_opts
            && st.wrapper_opts == derive_opts.wrapper_opts && st.extra_opts == derive_opts.extra_opts
            && st.root_ident == derive_opts.ident,
        r matches Err(e) ==> build_error_holds(e, derive_opts),
{
    let ghost cfg = derive_opts;
    let DeriveItemOpts { ident, fields, attrs, global_opts, wrapper_opts, extra_opts, nest_opts } =
        derive_opts;
    let mut state = State::new(global_opts, wrapper_opts, extra_opts, ident);
    let total = nest_opts.len();
    let mut rest = nest_opts;
    let mut k: usize = 0;
    while rest.len() > 0
        invariant
            cfg == derive_opts,
            total == cfg.nest_opts@.len(),
            k + rest@.len() == total,
            rest@ == cfg.nest_opts@.subrange(k as int, cfg.nest_opts@.len() as int),
            state.nest_repo.wf(),
            state.nest_repo.nests@.len() == k,
            state.nest_repo.root_ident == cfg.ident,
            state.nest_repo.transform == cfg.global_opts.transform,
            state.global == cfg.global_opts,
            state.wrapper_opts == cfg.wrapper_opts,
            state.extra_opts == cfg.extra_opts,
            state.root_ident == cfg.ident,
            forall|j: int| 0 <= j < k ==> (#[trigger] state.nest_repo.nests@[j]).opts == cfg.nest_opts@[j],
            forall|j: int| 0 <= j < k ==> (#[trigger] state.nest_repo.nests@[j]).ident@ == decl_name(cfg, j),
            forall|j: int| 0 <= j < k ==> (#[trigger] state.nest_repo.nests@[j]).fields@.len() == 0,
            forall|j: int, c: DerivedStructClass|
                0 <= j < k ==> #[trigger] attrs_of_class(state.nest_repo, j, c).len() == 0,
        decreases rest@.len(),
    {
        let opts = rest.remove(0);
        let ghost before = state.nest_repo;
        let ghost this = opts;
        assert(opts == cfg.nest_opts@[k as int]);
        let res = state.nest_repo.insert(opts);
        if let Err(e) = res {
            proof {
                let nests = cfg.nest_opts@;
                assert(res == insert_outcome(before, this));
                assert(k < nests.len());
                assert(this == nests[k as int]);
                if e is DuplicateNestId {
                    let f = choose|f: int| 0 <= f < before.nests@.len() && #[trigger] before.nests@[f].opts.id@ == opts.id@;
                    assert(before.nests@[f].opts == nests[f]);
                } else if e is UnknownOrigin {
                    let nest = e->UnknownOrigin_nest;
                    assert forall|j: int| 0 <= j < nest implies #[trigger] nests[j].id@ != nests[nest as int].nested->0.origin@ by {
                        assert(before.nests@[j].opts == nests[j]);
                        if nests[j].id@ == opts.nested->0.origin@ {
                            assert(has_id(before.nests@, opts.nested->0.origin@));
                        }
                    }
                } else if e is DuplicateNestName {
                    lemma_resolved_name(cfg, before, k as int);
                    let f = e->DuplicateNestName_first as int;
                    assert(before.nests@[f].ident@ == resolved_name(before, this));
                }
                assert(build_error_holds(e, cfg));
            }
            return Err(e);
        }
        proof {
            let last = state.nest_repo.nests@.last();
            assert(state.nest_repo.nests@[k as int] == last);
            lemma_resolved_name(cfg, before, k as int);
            assert forall|j: int| 0 <= j < k + 1 implies (#[trigger] state.nest_repo.nests@[j]).ident@ == decl_name(cfg, j) by {
                if j < k {
                    assert(state.nest_repo.nests@[j] == before.nests@[j]);
                }
            }
            assert forall|j: int, c: DerivedStructClass|
                0 <= j < k + 1 implies #[trigger] attrs_of_class(state.nest_repo, j, c).len() == 0 by {
                if j < k {
                    assert(state.nest_repo.nests@[j] == before.nests@[j]);
                    assert(attrs_of_class(before, j, c).len() == 0);
                }
            }
            assert forall|j: int| 0 <= j < k + 1 implies (#[trigger] state.nest_repo.nests@[j]).opts == cfg.nest_opts@[j] by {
                if j < k {
                    assert(state.nest_repo.nests@[j] == before.nests@[j]);
                }
            }
            assert forall|j: int| 0 <= j < k + 1 implies (#[trigger] state.nest_repo.nests@[j]).fields@.len() == 0 by {
                if j < k {
                    assert(state.nest_repo.nests@[j] == before.nests@[j]);
                }
            }
            assert(rest@ =~= cfg.nest_opts@.subrange(k + 1, cfg.nest_opts@.len() as int));
        }
        k = k + 1;
    }
    let ghost registered = state.nest_repo;
    let mapped = assign_fields(&mut state.nest_repo, &fields);
    if let Err(e) = mapped {
        proof {
            lemma_same_ids(registered, state.nest_repo);
            if e is UnknownNestInField {
                let id = e->UnknownNestInField_id;
                assert forall|j: int| 0 <= j < cfg.nest_opts@.len() implies #[trigger] cfg.nest_opts@[j].id@ != id@ by {
                    if cfg.nest_opts@[j].id@ == id@ {
                        assert(registered.nests@[j].opts.id@ == id@);
                    }
                }
            } else if e is UnknownNestInFieldAttr {
                let id = e->UnknownNestInFieldAttr_id;
                assert forall|j: int| 0 <= j < cfg.nest_opts@.len() implies #[trigger] cfg.nest_opts@[j].id@ != id@ by {
                    if cfg.nest_opts@[j].id@ == id@ {
                        assert(registered.nests@[j].opts.id@ == id@);
                    }
                }
            } else if e is DuplicateFieldInNest {
                let nest = e->DuplicateFieldInNest_nest;
                assert(registered.nests@[nest as int].opts == cfg.nest_opts@[nest as int]);
            }
        }
        return Err(e);
    }
    let ghost mapped_repo = state.nest_repo;
    proof {
        assert forall|j: int, c: DerivedStructClass|
            0 <= j < mapped_repo.nests@.len() implies #[trigger] attrs_of_class(mapped_repo, j, c).len() == 0 by {
            assert(mapped_repo.nests@[j].struct_attrs == registered.nests@[j].struct_attrs);
            assert(attrs_of_class(registered, j, c).len() == 0);
        }
    }
    let parsed = parse_struct_attrs(&mut state.nest_repo, &attrs);
    if let Err(e) = parsed {
        proof {
            assert forall|j: int| 0 <= j < cfg.nest_opts@.len() implies #[trigger] cfg.nest_opts@[j].id@ != e->UnknownNestInStructAttr_id@ by {
                if cfg.nest_opts@[j].id@ == e->UnknownNestInStructAttr_id@ {
                    assert(mapped_repo.nests@[j].opts == registered.nests@[j].opts);
                    assert(mapped_repo.nests@[j].opts.id@ == e->UnknownNestInStructAttr_id@);
                }
            }
        }
        return Err(e);
    }
    proof {
        lemma_same_ids(registered, mapped_repo);
        lemma_same_ids_attrs(mapped_repo, state.nest_repo);
        assert forall|f: int| 0 <= f < cfg.fields@.len() implies field_refs_known(state.nest_repo.nests@, #[trigger] cfg.fields@[f]) by {
            let fo = cfg.fields@[f];
            assert(field_refs_known(registered.nests@, fo));
            if fo.ident is Some {
                assert forall|j: int| 0 <= j < fo.nests@.len() implies has_id(state.nest_repo.nests@, #[trigger] fo.nests@[j]@) by {
                    assert(has_id(registered.nests@, fo.nests@[j]@));
                }
            }
            assert forall|a: int| 0 <= a < fo.attrs@.len() implies selection_known(state.nest_repo.nests@, #[trigger] fo.attrs@[a].nests) by {
                assert(selection_known(registered.nests@, fo.attrs@[a].nests));
            }
        }
        assert forall|a: int| 0 <= a < cfg.attrs@.len() implies selection_known(state.nest_repo.nests@, #[trigger] cfg.attrs@[a].nests) by {
            assert(selection_known(mapped_repo.nests@, cfg.attrs@[a].nests));
        }
        assert forall|j: int| 0 <= j < state.nest_repo.nests@.len() implies (#[trigger] state.nest_repo.nests@[j]).opts == cfg.nest_opts@[j] by {
            assert(state.nest_repo.nests@[j].opts == mapped_repo.nests@[j].opts);
            assert(mapped_repo.nests@[j].opts == registered.nests@[j].opts);
        }
        assert forall|j: int| 0 <= j < state.nest_repo.nests@.len() implies nest_field_views((#[trigger] state.nest_repo.nests@[j]).fields@)
            == nest_fields_upto(cfg.fields@, state.nest_repo.nests@[j].opts.id@, cfg.fields@.len() as int) by {
            assert(state.nest_repo.nests@[j].fields == mapped_repo.nests@[j].fields);
            assert(nest_field_views(mapped_repo.nests@[j].fields@)
                == nest_fields_upto(cfg.fields@, mapped_repo.nests@[j].opts.id@, cfg.fields@.len() as int));
        }
    }
    Ok(state)
}
/// Whether a group identity is declared.
pub open spec fn declared(cfg: DeriveItemOpts, id: Seq<char>) -> bool {
    exists|k: int| 0 <= k < cfg.nest_opts@.len() && #[trigger] cfg.nest_opts@[k].id@ == id
}

/// Every identity that a restricted selection names is declared.
pub open spec fn selection_declared(cfg: DeriveItemOpts, sel: NestSelection) -> bool {
    sel matches NestSelection::Restricted(ids) ==> forall|i: int|
        0 <= i < ids@.len() ==> declared(cfg, #[trigger] ids@[i]@)
}

/// No named field enters a group it lists a second time.
pub open spec fn fields_enter_once(fields: Seq<DeriveItemFieldOpts>) -> bool {
    forall|f: int, j: int|
        0 <= f < fields.len() && fields[f].ident is Some && 0 <= j < fields[f].nests@.len()
            ==> !field_listed_twice(fields, f, #[trigger] fields[f].nests@[j]@)
}

/// A configuration that generation accepts: identities non-empty and
/// unique; each origin declared earlier; resolved struct names distinct;
/// exactly one strategy for each group (its own, inherited, or the shared
/// transformer); every group that a field or attribute names declared; and
/// no field entering a group twice.
pub open spec fn config_ok(cfg: DeriveItemOpts) -> bool {
    let nests = cfg.nest_opts@;
    &&& forall|k: int| 0 <= k < nests.len() ==> (#[trigger] nests[k]).id@.len() > 0
    &&& forall|i: int, j: int| 0 <= i < j < nests.len() ==> #[trigger] nests[i].id@ != #[trigger] nests[j].id@
    &&& forall|k: int|
        0 <= k < nests.len() && (#[trigger] nests[k]).nested is Some ==> exists|j: int|
            0 <= j < k && #[trigger] nests[j].id@ == nests[k].nested->0.origin@
    &&& forall|i: int, j: int|
        0 <= i < j < nests.len() ==> #[trigger] decl_name(cfg, i) != #[trigger] decl_name(cfg, j)
    &&& forall|k: int| 0 <= k < nests.len() ==> !strategy_conflict(#[trigger] nests[k])
    &&& forall|k: int|
        0 <= k < nests.len() ==> (#[trigger] nests[k]).from || nests[k].transform is Some
            || nests[k].nested is Some || cfg.global_opts.transform is Some
    &&& forall|f: int, j: int|
        0 <= f < cfg.fields@.len() && cfg.fields@[f].ident is Some && 0 <= j < cfg.fields@[f].nests@.len()
            ==> declared(cfg, #[trigger] cfg.fields@[f].nests@[j]@)
    &&& forall|f: int, a: int|
        0 <= f < cfg.fields@.len() && 0 <= a < cfg.fields@[f].attrs@.len() ==> selection_declared(
            cfg,
            #[trigger] cfg.fields@[f].attrs@[a].nests,
        )
    &&& forall|a: int| 0 <= a < cfg.attrs@.len() ==> selection_declared(cfg, #[trigger] cfg.attrs@[a].nests)
    &&& fields_enter_once(cfg.fields@)
}

/// No error of a registry build holds of a configuration that is ok.
pub proof fn lemma_ok_config_has_no_error(cfg: DeriveItemOpts, e: GenError)
    ensures
        config_ok(cfg) ==> !build_error_holds(e, cfg),
{
    if config_ok(cfg) && build_error_holds(e, cfg) {
        lemma_error_contradicts_ok(cfg, e);
    }
}

proof fn lemma_error_contradicts_ok(cfg: DeriveItemOpts, e: GenError)
    requires
        config_ok(cfg),
        build_error_holds(e, cfg),
    ensures
        !config_ok(cfg),
{
    let nests = cfg.nest_opts@;
    match e {
        GenError::EmptyNestId { nest } => {
            assert(nests[nest as int].id@.len() > 0);
        },
        GenError::DuplicateNestId { first, second } => {
            assert(nests[first as int].id@ != nests[second as int].id@);
        },
        GenError::DuplicateNestName { first, second } => {
            assert(decl_name(cfg, first as int) != decl_name(cfg, second as int));
        },
        GenError::UnknownOrigin { nest } => {
            let k = nest as int;
            assert(nests[k].nested is Some);
            let j = choose|j: int| 0 <= j < k && #[trigger] nests[j].id@ == nests[k].nested->0.origin@;
            assert(nests[j].id@ != nests[k].nested->0.origin@);
        },
        GenError::ConflictingStrategy { nest } => {
            assert(!strategy_conflict(nests[nest as int]));
        },
        GenError::MissingStrategy { nest } => {
            assert(nests[nest as int].from || nests[nest as int].transform is Some
                || nests[nest as int].nested is Some || cfg.global_opts.transform is Some);
        },
        GenError::UnknownNestInField { field, id } => {
            let f = field as int;
            let i = choose|i: int| 0 <= i < cfg.fields@[f].nests@.len() && #[trigger] cfg.fields@[f].nests@[i]@ == id@;
            assert(declared(cfg, cfg.fields@[f].nests@[i]@));
            let k = choose|k: int| 0 <= k < nests.len() && #[trigger] nests[k].id@ == id@;
            assert(nests[k].id@ != id@);
        },
        GenError::UnknownNestInFieldAttr { field, attr, id } => {
            let sel = cfg.fields@[field as int].attrs@[attr as int].nests;
            assert(selection_declared(cfg, sel));
            let ids = sel->Restricted_0;
            let i = choose|i: int| 0 <= i < ids@.len() && #[trigger] ids@[i]@ == id@;
            assert(declared(cfg, ids@[i]@));
            let k = choose|k: int| 0 <= k < nests.len() && #[trigger] nests[k].id@ == id@;
            assert(nests[k].id@ != id@);
        },
        GenError::UnknownNestInStructAttr { attr, id } => {
            let sel = cfg.attrs@[attr as int].nests;
            assert(selection_declared(cfg, sel));
            let ids = sel->Restricted_0;
            let i = choose|i: int| 0 <= i < ids@.len() && #[trigger] ids@[i]@ == id@;
            assert(declared(cfg, ids@[i]@));
            let k = choose|k: int| 0 <= k < nests.len() && #[trigger] nests[k].id@ == id@;
            assert(nests[k].id@ != id@);
        },
        GenError::DuplicateFieldInNest { field, nest } => {
            let fi = field as int;
            let id = nests[nest as int].id@;
            let fs = cfg.fields@;
            let j = choose|j: int| 0 <= j < fs[fi].nests@.len() && #[trigger] fs[fi].nests@[j]@ == id;
            assert(!field_listed_twice(fs, fi, fs[fi].nests@[j]@));
        },
        GenError::StructNameCollision { .. } => {},
    }
}
/// Every group that the fields name is registered, and no named field
/// enters a group twice.
pub open spec fn fields_ok(nests: Seq<NestInfo>, fields: Seq<DeriveItemFieldOpts>) -> bool {
    &&& forall|f: int| 0 <= f < fields.len() ==> field_refs_known(nests, #[trigger] fields[f])
    &&& fields_enter_once(fields)
}

/// Assigns each named field of the data struct to the groups it lists, with
/// its pass-through attributes for each. Unknown groups, in the field's list
/// or in its attributes, and a field entering a group twice are errors; on
/// fields that name only registered groups, each once, it succeeds.
pub fn map_fields(repo: &mut NestRepo, fields: &Vec<DeriveItemFieldOpts>) -> (r: Result<(), GenError>)
    requires
        old(repo).wf(),
        forall|k: int| 0 <= k < old(repo).nests@.len() ==> (#[trigger] old(repo).nests@[k]).fields@.len() == 0,
    ensures
        final(repo).wf(),
        same_but_fields(*old(repo), *final(repo)),
        r is Ok ==> forall|k: int|
            0 <= k < final(repo).nests@.len() ==> nest_field_views((#[trigger] final(repo).nests@[k]).fields@)
                == nest_fields_upto(fields@, final(repo).nests@[k].opts.id@, fields@.len() as int),
        r is Ok ==> forall|f: int| 0 <= f < fields@.len() ==> field_refs_known(old(repo).nests@, #[trigger] fields@[f]),
        r matches Err(GenError::UnknownNestInField { field, id }) ==> field < fields@.len()
            && fields@[field as int].ident is Some && !has_id(old(repo).nests@, id@) && names_contain(fields@[field as int].nests@, id@),
        r matches Err(GenError::UnknownNestInFieldAttr { field, attr, id }) ==> field < fields@.len()
            && attr < fields@[field as int].attrs@.len() && !has_id(old(repo).nests@, id@)
            && (fields@[field as int].attrs@[attr as int].nests matches NestSelection::Restricted(ids)
            && names_contain(ids@, id@)),
        r matches Err(GenError::DuplicateFieldInNest { field, nest }) ==> field < fields@.len() && nest
            < old(repo).nests@.len() && fields@[field as int].ident is Some && names_contain(
            fields@[field as int].nests@,
            old(repo).nests@[nest as int].opts.id@,
        ) && field_listed_twice(fields@, field as int, old(repo).nests@[nest as int].opts.id@),
        r is Err ==> (r matches Err(GenError::UnknownNestInField { .. })) || (r matches Err(
            GenError::UnknownNestInFieldAttr { .. },
        )) || (r matches Err(GenError::DuplicateFieldInNest { .. })),
        r is Ok ==> forall|f: int| 0 <= f < fields@.len() ==> lists_once(#[trigger] fields@[f]),
        fields_ok(old(repo).nests@, fields@) ==> r is Ok,
{
    let ghost start = *repo;
    let r = assign_fields(repo, fields);
    proof {
        if fields_ok(start.nests@, fields@) && r is Err {
            let fs = fields@;
            let e = r->Err_0;
            if e is UnknownNestInField {
                let f = e->UnknownNestInField_field as int;
                let id = e->UnknownNestInField_id;
                let i = choose|i: int| 0 <= i < fs[f].nests@.len() && #[trigger] fs[f].nests@[i]@ == id@;
                assert(field_refs_known(start.nests@, fs[f]));
                assert(has_id(start.nests@, fs[f].nests@[i]@));
            } else if e is UnknownNestInFieldAttr {
                let f = e->UnknownNestInFieldAttr_field as int;
                let at = e->UnknownNestInFieldAttr_attr as int;
                let id = e->UnknownNestInFieldAttr_id;
                assert(field_refs_known(start.nests@, fs[f]));
                let sel = fs[f].attrs@[at].nests;
                assert(selection_known(start.nests@, sel));
                let ids = sel->Restricted_0;
                let i = choose|i: int| 0 <= i < ids@.len() && #[trigger] ids@[i]@ == id@;
                assert(has_id(start.nests@, ids@[i]@));
            } else {
                let fi = e->DuplicateFieldInNest_field as int;
                let id = start.nests@[e->DuplicateFieldInNest_nest as int].opts.id@;
                let j = choose|j: int| 0 <= j < fs[fi].nests@.len() && #[trigger] fs[fi].nests@[j]@ == id;
                assert(!field_listed_twice(fs, fi, fs[fi].nests@[j]@));
            }
        }
    }
    r
}

/// Builds the registry from a configuration: registers the groups in
/// declaration order, assigns the fields, then the struct attributes. The
/// first configuration error stops the build; a configuration that is ok
/// always builds.
pub fn build_state(derive_opts: DeriveItemOpts) -> (r: Result<State, GenError>)
    ensures
        r matches Ok(st) ==> built_from(st.nest_repo, derive_opts) && st.global == derive_opts.global_opts
            && st.wrapper_opts == derive_opts.wrapper_opts && st.extra_opts == derive_opts.extra_opts
            && st.root_ident == derive_opts.ident,
        r matches Err(e) ==> build_error_holds(e, derive_opts),
        config_ok(derive_opts) ==> r is Ok,
{
    let ghost cfg = derive_opts;
    let r = build_registry(derive_opts);
    proof {
        if r is Err {
            lemma_ok_config_has_no_error(cfg, r->Err_0);
        }
    }
    r
}
/// A named field among the first `n` that lists group `id` has its entry
/// in `nest_fields_upto(.., n)`.
pub proof fn lemma_upto_has(fields: Seq<DeriveItemFieldOpts>, id: Seq<char>, n: int, f: int)
    requires
        0 <= f < n <= fields.len(),
        fields[f].ident is Some,
        names_contain(fields[f].nests@, id),
    ensures
        exists|a: int|
            0 <= a < nest_fields_upto(fields, id, n).len() && (#[trigger] nest_fields_upto(fields, id, n)[a]).0
                == fields[f].ident->0@,
    decreases n,
{
    let prev = nest_fields_upto(fields, id, n - 1);
    if f < n - 1 {
        lemma_upto_has(fields, id, n - 1, f);
        let a = choose|a: int| 0 <= a < prev.len() && (#[trigger] prev[a]).0 == fields[f].ident->0@;
        assert(nest_fields_upto(fields, id, n)[a] == prev[a]);
    } else {
        assert(nest_fields_upto(fields, id, n)[prev.len() as int].0 == fields[f].ident->0@);
    }
}

/// Two named fields that list group `id` have two entries, in order.
pub proof fn lemma_upto_two(fields: Seq<DeriveItemFieldOpts>, id: Seq<char>, n: int, f1: int, f2: int)
    requires
        0 <= f1 < f2 < n <= fields.len(),
        fields[f1].ident is Some,
        fields[f2].ident is Some,
        names_contain(fields[f1].nests@, id),
        names_contain(fields[f2].nests@, id),
    ensures
        exists|a: int, b: int|
            0 <= a < b < nest_fields_upto(fields, id, n).len() && (#[trigger] nest_fields_upto(fields, id, n)[a]).0
                == fields[f1].ident->0@ && (#[trigger] nest_fields_upto(fields, id, n)[b]).0
                == fields[f2].ident->0@,
    decreases n,
{
    let prev = nest_fields_upto(fields, id, n - 1);
    let cur = nest_fields_upto(fields, id, n);
    if f2 < n - 1 {
        lemma_upto_two(fields, id, n - 1, f1, f2);
        let (a, b) = choose|a: int, b: int|
            0 <= a < b < prev.len() && (#[trigger] prev[a]).0 == fields[f1].ident->0@
                && (#[trigger] prev[b]).0 == fields[f2].ident->0@;
        assert(cur[a] == prev[a] && cur[b] == prev[b]);
    } else {
        lemma_upto_has(fields, id, n - 1, f1);
        let a = choose|a: int| 0 <= a < prev.len() && (#[trigger] prev[a]).0 == fields[f1].ident->0@;
        assert(cur[a] == prev[a]);
        assert(cur[prev.len() as int].0 == fields[f2].ident->0@);
    }
}
} // verus!
