use vstd::prelude::*;

use crate::infra_cache::{refers_to_track, InfraCache};
use crate::objects::{ObjectRef, ObjectType};

verus! {

/// One entry of an edit log.
#[derive(Debug, Clone, PartialEq, Eq)]
pub enum OperationResult {
    /// An object was created; the reference designates it.
    Create(ObjectRef),
    /// An object was updated; the reference designates it.
    Update(ObjectRef),
    /// An object was deleted; the reference designates it.
    Delete(ObjectRef),
}

/// A store operation on a layer table, for one infra.
#[derive(Debug, Clone, PartialEq, Eq)]
pub enum StoreCall {
    /// Delete every row of the layer.
    Clear,
    /// Derive every row of the layer from the authoritative store.
    Regenerate,
    /// Delete the rows of these object ids.
    Delete(Vec<String>),
    /// Insert or update the rows of these object ids from the authoritative store.
    Upsert(Vec<String>),
}

/// What to tell the downstream spatial cache after the store calls.
#[derive(Debug, Clone, Copy, PartialEq, Eq, Structural)]
pub enum Invalidation {
    /// Nothing changed: no signal.
    Nothing,
    /// The whole layer is stale.
    WholeLayer,
    /// The zone touched by the batch is stale.
    Zone,
}

/// The store calls to run in order, inside one transaction, then the signal to emit.
#[derive(Debug, Clone, PartialEq, Eq)]
pub struct LayerPlan {
    pub calls: Vec<StoreCall>,
    pub invalidation: Invalidation,
}

/// The object ids held by `ids`.
pub open spec fn id_set(ids: Seq<String>) -> Set<Seq<char>> {
    Set::new(|id: Seq<char>| exists|i: int| 0 <= i < ids.len() && (#[trigger] ids[i])@ == id)
}

/// No id occurs twice in `ids`.
pub open spec fn distinct_ids(ids: Seq<String>) -> bool {
    forall|i: int, j: int| 0 <= i < ids.len() && 0 <= j < ids.len() && i != j ==> (#[trigger] ids[i])@ != (#[trigger] ids[j])@
}

/// Ids of the objects of type `obj_type` placed on the track `track`.
pub open spec fn objects_on_track(c: InfraCache, track: Seq<char>, obj_type: ObjectType) -> Set<Seq<char>> {
    Set::new(|id: Seq<char>| refers_to_track(c.track_refs@, track, obj_type, id))
}

/// Ids that one log entry asks to re-derive in the layer of `obj_type`.
pub open spec fn op_update_ids(op: OperationResult, c: InfraCache, obj_type: ObjectType) -> Set<Seq<char>> {
    match op {
        OperationResult::Create(o) | OperationResult::Update(o) => {
            let own = if o.obj_type == obj_type { set![o.obj_id@] } else { Set::empty() };
            let placed = if o.obj_type == ObjectType::TrackSection {
                objects_on_track(c, o.obj_id@, obj_type)
            } else {
                Set::empty()
            };
            own.union(placed)
        },
        OperationResult::Delete(_) => Set::empty(),
    }
}

/// Ids that one log entry asks to delete from the layer of `obj_type`.
pub open spec fn op_delete_ids(op: OperationResult, obj_type: ObjectType) -> Set<Seq<char>> {
    match op {
        OperationResult::Delete(o) => if o.obj_type == obj_type { set![o.obj_id@] } else { Set::empty() },
        _ => Set::empty(),
    }
}

/// The re-derivation set of a log for the layer of `obj_type`.
pub open spec fn update_ids(log: Seq<OperationResult>, c: InfraCache, obj_type: ObjectType) -> Set<Seq<char>>
    decreases log.len(),
{
    if log.len() == 0 {
        Set::empty()
    } else {
        update_ids(log.drop_last(), c, obj_type).union(op_update_ids(log.last(), c, obj_type))
    }
}

/// The deletion set of a log for the layer of `obj_type`.
pub open spec fn delete_ids(log: Seq<OperationResult>, obj_type: ObjectType) -> Set<Seq<char>>
    decreases log.len(),
{
    if log.len() == 0 {
        Set::empty()
    } else {
        delete_ids(log.drop_last(), obj_type).union(op_delete_ids(log.last(), obj_type))
    }
}

/// `calls` deletes exactly `dels` if it is not empty, then upserts exactly `ups`
/// if it is not empty, and does nothing else.
pub open spec fn deletes_then_upserts(calls: Seq<StoreCall>, dels: Set<Seq<char>>, ups: Set<Seq<char>>) -> bool {
    &&& calls.len() == (if dels.is_empty() { 0int } else { 1int }) + (if ups.is_empty() { 0int } else { 1int })
    &&& !dels.is_empty() ==> (calls[0] matches StoreCall::Delete(ids) && id_set(ids@) == dels && distinct_ids(ids@))
    &&& !ups.is_empty() ==> (calls.last() matches StoreCall::Upsert(ids) && id_set(ids@) == ups && distinct_ids(ids@))
}

/// Adds `id` to the id set `ids`.
fn insert_id(ids: &mut Vec<String>, id: &String)
    requires
        distinct_ids(old(ids)@),
    ensures
        distinct_ids(final(ids)@),
        id_set(final(ids)@) == id_set(old(ids)@).insert(id@),
{
    let mut i: usize = 0;
    while i < ids.len()
        invariant
            i <= ids@.len(),
            ids@ == old(ids)@,
            distinct_ids(ids@),
            forall|j: int| 0 <= j < i ==> (#[trigger] ids@[j])@ != id@,
        decreases ids@.len() - i,
    {
        if ids[i] == *id {
            assert(id_set(ids@) =~= id_set(ids@).insert(id@));
            return;
        }
        i += 1;
    }
    let ghost before = ids@;
    ids.push(id.clone());
    assert forall|x: Seq<char>| #[trigger] id_set(ids@).contains(x) <==> id_set(before).insert(id@).contains(x) by {
        if id_set(before).contains(x) {
            let j = choose|j: int| 0 <= j < before.len() && (#[trigger] before[j])@ == x;
            assert(ids@[j] == before[j]);
        }
        if id_set(ids@).contains(x) {
            let j = choose|j: int| 0 <= j < ids@.len() && (#[trigger] ids@[j])@ == x;
            if j < before.len() {
                assert(ids@[j] == before[j]);
            }
        }
        if x == id@ {
            assert(ids@[before.len() as int]@ == x);
        }
    }
    assert(id_set(ids@) =~= id_set(before).insert(id@));
}

/// Adds to `results` the ids of every object of type `obj_type` that the cache
/// places on track `track_id`.
pub fn fill_objects_track_refs(
    infra_cache: &InfraCache,
    track_id: &String,
    obj_type: ObjectType,
    results: &mut Vec<String>,
)
    requires
        distinct_ids(old(results)@),
    ensures
        distinct_ids(final(results)@),
        id_set(final(results)@) == id_set(old(results)@).union(objects_on_track(*infra_cache, track_id@, obj_type)),
{
    let refs = infra_cache.get_track_refs_type(track_id, obj_type);
    let ghost start = id_set(results@);
    let mut k: usize = 0;
    while k < refs.len()
        invariant
            k <= refs@.len(),
            distinct_ids(results@),
            id_set(results@) == start.union(Set::new(|id: Seq<char>| exists|j: int| 0 <= j < k && (#[trigger] refs@[j]).obj_id@ == id)),
        decreases refs@.len() - k,
    {
        let ghost before = id_set(results@);
        insert_id(results, &refs[k].obj_id);
        assert(Set::new(|id: Seq<char>| exists|j: int| 0 <= j < k + 1 && (#[trigger] refs@[j]).obj_id@ == id)
            =~= Set::new(|id: Seq<char>| exists|j: int| 0 <= j < k && (#[trigger] refs@[j]).obj_id@ == id).insert(refs@[k as int].obj_id@));
        assert(id_set(results@) =~= start.union(Set::new(|id: Seq<char>| exists|j: int| 0 <= j < k + 1 && (#[trigger] refs@[j]).obj_id@ == id)));
        k += 1;
    }
    assert(Set::new(|id: Seq<char>| exists|j: int| 0 <= j < refs@.len() && (#[trigger] refs@[j]).obj_id@ == id)
        =~= objects_on_track(*infra_cache, track_id@, obj_type));
}

/// A layer: a table derived from the objects of one type, kept in sync with them.
pub trait Layer {
    /// The object type the layer is derived from.
    spec fn spec_obj_type() -> ObjectType;

    /// Name of the layer table in the store.
    fn get_table_name() -> &'static str;

    /// Name of the layer for the downstream spatial cache.
    fn layer_name() -> &'static str;

    fn get_obj_type() -> (r: ObjectType)
        ensures
            r == Self::spec_obj_type(),
    ;

    /// Clears and fully regenerates the layer, then invalidates all of it.
    fn refresh() -> (r: LayerPlan)
        ensures
            r.calls@.len() == 2,
            r.calls@[0] == StoreCall::Clear,
            r.calls@[1] == StoreCall::Regenerate,
            r.invalidation == Invalidation::WholeLayer,
    {
        let mut calls: Vec<StoreCall> = Vec::new();
        calls.push(StoreCall::Clear);
        calls.push(StoreCall::Regenerate);
        LayerPlan { calls, invalidation: Invalidation::WholeLayer }
    }

    /// Store calls that insert or update the rows of `obj_ids`: none when it is empty.
    fn insert_update_list(obj_ids: Vec<String>) -> (r: Vec<StoreCall>)
        ensures
            obj_ids@.len() == 0 ==> r@.len() == 0,
            obj_ids@.len() > 0 ==> r@ == seq![StoreCall::Upsert(obj_ids)],
    {
        let mut calls: Vec<StoreCall> = Vec::new();
        if obj_ids.len() > 0 {
            calls.push(StoreCall::Upsert(obj_ids));
        }
        calls
    }

    /// Store calls that delete the rows of `obj_ids`: none when it is empty.
    fn delete_list(obj_ids: Vec<String>) -> (r: Vec<StoreCall>)
        ensures
            obj_ids@.len() == 0 ==> r@.len() == 0,
            obj_ids@.len() > 0 ==> r@ == seq![StoreCall::Delete(obj_ids)],
    {
        let mut calls: Vec<StoreCall> = Vec::new();
        if obj_ids.len() > 0 {
            calls.push(StoreCall::Delete(obj_ids));
        }
        calls
    }

    /// Plans the layer update for an edit log: deletes the rows of the deleted
    /// objects of the layer's type, then re-derives those of the created or updated
    /// ones and of those placed on a created or updated track, then invalidates
    /// the touched zone. A log that touches nothing gives an empty plan.
    fn update(operations: &Vec<OperationResult>, infra_cache: &InfraCache) -> (r: LayerPlan)
        ensures
            deletes_then_upserts(
                r.calls@,
                delete_ids(operations@, Self::spec_obj_type()),
                update_ids(operations@, *infra_cache, Self::spec_obj_type()),
            ),
            r.invalidation == (if delete_ids(operations@, Self::spec_obj_type()).is_empty() && update_ids(
                operations@,
                *infra_cache,
                Self::spec_obj_type(),
            ).is_empty() {
                Invalidation::Nothing
            } else {
                Invalidation::Zone
            }),
    {
        let obj_type = Self::get_obj_type();
        let mut update_obj_ids: Vec<String> = Vec::new();
        let mut delete_obj_ids: Vec<String> = Vec::new();
        let mut i: usize = 0;
        while i < operations.len()
            invariant
                i <= operations@.len(),
                obj_type == Self::spec_obj_type(),
                distinct_ids(update_obj_ids@),
                distinct_ids(delete_obj_ids@),
                id_set(update_obj_ids@) == update_ids(operations@.take(i as int), *infra_cache, obj_type),
                id_set(delete_obj_ids@) == delete_ids(operations@.take(i as int), obj_type),
            decreases operations@.len() - i,
        {
            let op = &operations[i];
            assert(operations@.take(i + 1).drop_last() =~= operations@.take(i as int));
            match op {
                OperationResult::Create(obj) | OperationResult::Update(obj) => {
                    let ghost before = id_set(update_obj_ids@);
                    if obj.obj_type == obj_type {
                        insert_id(&mut update_obj_ids, &obj.obj_id);
                    }
                    if obj.obj_type == ObjectType::TrackSection {
                        fill_objects_track_refs(infra_cache, &obj.obj_id, obj_type, &mut update_obj_ids);
                    }
                    assert(id_set(update_obj_ids@) =~= before.union(op_update_ids(*op, *infra_cache, obj_type)));
                    assert(id_set(delete_obj_ids@) =~= delete_ids(operations@.take(i + 1), obj_type));
                },
                OperationResult::Delete(obj) => {
                    let ghost before = id_set(delete_obj_ids@);
                    if obj.obj_type == obj_type {
                        insert_id(&mut delete_obj_ids, &obj.obj_id);
                    }
                    assert(id_set(delete_obj_ids@) =~= before.union(op_delete_ids(*op, obj_type)));
                    assert(id_set(update_obj_ids@) =~= update_ids(operations@.take(i + 1), *infra_cache, obj_type));
                },
            }
            i += 1;
        }
        assert(operations@.take(operations@.len() as int) =~= operations@);
        proof {
            lemma_id_set_empty(update_obj_ids@);
            lemma_id_set_empty(delete_obj_ids@);
        }
        if update_obj_ids.len() == 0 && delete_obj_ids.len() == 0 {
            return LayerPlan { calls: Vec::new(), invalidation: Invalidation::Nothing };
        }
        let mut calls = Self::delete_list(delete_obj_ids);
        let mut upserts = Self::insert_update_list(update_obj_ids);
        calls.append(&mut upserts);
        LayerPlan { calls, invalidation: Invalidation::Zone }
    }
}

proof fn lemma_id_set_empty(ids: Seq<String>)
    ensures
        id_set(ids).is_empty() <==> ids.len() == 0,
{
    if ids.len() > 0 {
        assert(id_set(ids).contains(ids[0]@));
    } else {
        assert(id_set(ids) =~= Set::empty());
    }
}

/// Row ids present in a layer after one store call; `all` holds the ids of every
/// object of the layer's type, which a regeneration derives.
pub open spec fn apply_call(rows: Set<Seq<char>>, call: StoreCall, all: Set<Seq<char>>) -> Set<Seq<char>> {
    match call {
        StoreCall::Clear => Set::empty(),
        StoreCall::Regenerate => rows.union(all),
        StoreCall::Delete(ids) => rows.difference(id_set(ids@)),
        StoreCall::Upsert(ids) => rows.union(id_set(ids@)),
    }
}

/// Row ids present in a layer after store calls run in order.
pub open spec fn apply_calls(rows: Set<Seq<char>>, calls: Seq<StoreCall>, all: Set<Seq<char>>) -> Set<Seq<char>>
    decreases calls.len(),
{
    if calls.len() == 0 {
        rows
    } else {
        apply_calls(apply_call(rows, calls[0], all), calls.drop_first(), all)
    }
}

proof fn lemma_update_ids_contains(log: Seq<OperationResult>, c: InfraCache, obj_type: ObjectType, i: int, id: Seq<char>)
    requires
        0 <= i < log.len(),
        op_update_ids(log[i], c, obj_type).contains(id),
    ensures
        update_ids(log, c, obj_type).contains(id),
    decreases log.len(),
{
    if i < log.len() - 1 {
        assert(log.drop_last()[i] == log[i]);
        lemma_update_ids_contains(log.drop_last(), c, obj_type, i, id);
    }
}

proof fn lemma_delete_ids_contains(log: Seq<OperationResult>, obj_type: ObjectType, i: int, id: Seq<char>)
    requires
        0 <= i < log.len(),
        op_delete_ids(log[i], obj_type).contains(id),
    ensures
        delete_ids(log, obj_type).contains(id),
    decreases log.len(),
{
    if i < log.len() - 1 {
        assert(log.drop_last()[i] == log[i]);
        lemma_delete_ids_contains(log.drop_last(), obj_type, i, id);
    }
}

/// A log entry that touches no object of the layer's type: it is about another
/// type, and a track it creates or updates carries no object of the layer's type.
pub open spec fn untouched(op: OperationResult, c: InfraCache, obj_type: ObjectType) -> bool {
    match op {
        OperationResult::Create(o) | OperationResult::Update(o) => o.obj_type != obj_type && (o.obj_type
            == ObjectType::TrackSection ==> objects_on_track(c, o.obj_id@, obj_type).is_empty()),
        OperationResult::Delete(o) => o.obj_type != obj_type,
    }
}

/// A log that touches no object of the layer's type asks for nothing: a plan that
/// deletes then upserts what it asks for holds no store call.
pub proof fn lemma_untouched_log(log: Seq<OperationResult>, c: InfraCache, obj_type: ObjectType, calls: Seq<StoreCall>)
    requires
        forall|i: int| 0 <= i < log.len() ==> untouched(#[trigger] log[i], c, obj_type),
        deletes_then_upserts(calls, delete_ids(log, obj_type), update_ids(log, c, obj_type)),
    ensures
        update_ids(log, c, obj_type).is_empty(),
        delete_ids(log, obj_type).is_empty(),
        calls.len() == 0,
{
    assert forall|id: Seq<char>| !update_ids(log, c, obj_type).contains(id) by {
        if update_ids(log, c, obj_type).contains(id) {
            lemma_update_ids_only(log, c, obj_type, id);
            let i = choose|i: int| 0 <= i < log.len() && op_update_ids(#[trigger] log[i], c, obj_type).contains(id);
            assert(untouched(log[i], c, obj_type));
        }
    }
    assert forall|id: Seq<char>| !delete_ids(log, obj_type).contains(id) by {
        if delete_ids(log, obj_type).contains(id) {
            lemma_delete_ids_only(log, obj_type, id);
            let i = choose|i: int| 0 <= i < log.len() && op_delete_ids(#[trigger] log[i], obj_type).contains(id);
            assert(untouched(log[i], c, obj_type));
        }
    }
    assert(update_ids(log, c, obj_type) =~= Set::empty());
    assert(delete_ids(log, obj_type) =~= Set::empty());
}

proof fn lemma_update_ids_only(log: Seq<OperationResult>, c: InfraCache, obj_type: ObjectType, id: Seq<char>)
    requires
        update_ids(log, c, obj_type).contains(id),
    ensures
        exists|i: int| 0 <= i < log.len() && op_update_ids(#[trigger] log[i], c, obj_type).contains(id),
    decreases log.len(),
{
    if op_update_ids(log.last(), c, obj_type).contains(id) {
        assert(op_update_ids(log[log.len() - 1], c, obj_type).contains(id));
    } else {
        lemma_update_ids_only(log.drop_last(), c, obj_type, id);
        let i = choose|i: int| 0 <= i < log.drop_last().len() && op_update_ids(#[trigger] log.drop_last()[i], c, obj_type).contains(id);
        assert(log.drop_last()[i] == log[i]);
    }
}

proof fn lemma_delete_ids_only(log: Seq<OperationResult>, obj_type: ObjectType, id: Seq<char>)
    requires
        delete_ids(log, obj_type).contains(id),
    ensures
        exists|i: int| 0 <= i < log.len() && op_delete_ids(#[trigger] log[i], obj_type).contains(id),
    decreases log.len(),
{
    if op_delete_ids(log.last(), obj_type).contains(id) {
        assert(op_delete_ids(log[log.len() - 1], obj_type).contains(id));
    } else {
        lemma_delete_ids_only(log.drop_last(), obj_type, id);
        let i = choose|i: int| 0 <= i < log.drop_last().len() && op_delete_ids(#[trigger] log.drop_last()[i], obj_type).contains(id);
        assert(log.drop_last()[i] == log[i]);
    }
}

/// Creating or updating a track puts every object of the layer's type that the
/// cache places on it into the re-derivation set.
pub proof fn lemma_track_edit_rederives_placed(
    log: Seq<OperationResult>,
    c: InfraCache,
    obj_type: ObjectType,
    i: int,
    track: ObjectRef,
    id: Seq<char>,
)
    requires
        0 <= i < log.len(),
        log[i] == OperationResult::Create(track) || log[i] == OperationResult::Update(track),
        track.obj_type == ObjectType::TrackSection,
        refers_to_track(c.track_refs@, track.obj_id@, obj_type, id),
    ensures
        update_ids(log, c, obj_type).contains(id),
{
    assert(op_update_ids(log[i], c, obj_type).contains(id));
    lemma_update_ids_contains(log, c, obj_type, i, id);
}

/// A plan that deletes then upserts leaves the layer with the rows it had, less
/// the deleted ids, plus the re-derived ones.
pub proof fn lemma_apply_deletes_then_upserts(
    calls: Seq<StoreCall>,
    dels: Set<Seq<char>>,
    ups: Set<Seq<char>>,
    rows: Set<Seq<char>>,
    all: Set<Seq<char>>,
)
    requires
        deletes_then_upserts(calls, dels, ups),
    ensures
        apply_calls(rows, calls, all) == rows.difference(dels).union(ups),
{
    let rest = calls.drop_first();
    if dels.is_empty() {
        assert(rows.difference(dels) =~= rows);
        if ups.is_empty() {
            assert(rows.union(ups) =~= rows);
        } else {
            assert(calls[0] == calls.last());
            assert(rest.len() == 0);
            assert(apply_calls(rows, calls, all) == apply_calls(apply_call(rows, calls[0], all), rest, all));
        }
    } else {
        let after = apply_call(rows, calls[0], all);
        assert(after == rows.difference(dels));
        assert(apply_calls(rows, calls, all) == apply_calls(after, rest, all));
        if ups.is_empty() {
            assert(rest.len() == 0);
            assert(after.union(ups) =~= after);
        } else {
            assert(rest[0] == calls.last());
            assert(rest.drop_first().len() == 0);
            assert(apply_calls(after, rest, all) == apply_calls(apply_call(after, rest[0], all), rest.drop_first(), all));
        }
    }
}

/// An object deleted then created again in one log is present after the plan
/// runs: its row is derived anew, as a full regeneration would.
pub proof fn lemma_delete_then_create(
    log: Seq<OperationResult>,
    c: InfraCache,
    obj_type: ObjectType,
    i: int,
    j: int,
    x: ObjectRef,
    calls: Seq<StoreCall>,
    rows: Set<Seq<char>>,
    all: Set<Seq<char>>,
)
    requires
        0 <= i < j < log.len(),
        x.obj_type == obj_type,
        log[i] == OperationResult::Delete(x),
        log[j] == OperationResult::Create(x),
        deletes_then_upserts(calls, delete_ids(log, obj_type), update_ids(log, c, obj_type)),
    ensures
        delete_ids(log, obj_type).contains(x.obj_id@),
        update_ids(log, c, obj_type).contains(x.obj_id@),
        apply_calls(rows, calls, all).contains(x.obj_id@),
{
    assert(op_update_ids(log[j], c, obj_type).contains(x.obj_id@));
    lemma_update_ids_contains(log, c, obj_type, j, x.obj_id@);
    assert(op_delete_ids(log[i], obj_type).contains(x.obj_id@));
    lemma_delete_ids_contains(log, obj_type, i, x.obj_id@);
    lemma_apply_deletes_then_upserts(calls, delete_ids(log, obj_type), update_ids(log, c, obj_type), rows, all);
}

} // verus!
