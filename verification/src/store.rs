//! The instance store and texture cache.
//!
//! A `PaperdollAsset` owns the catalog, every live paperdoll instance, and
//! each instance's most recently rendered composite image. All instance
//! lifecycle and selection operations pass through it; every successful
//! mutation re-renders the targeted instance and refreshes its cache entry,
//! and every failed operation leaves the store exactly as it was.

use crate::catalog::{
    all_doll_ids, catalog_renderable, doll_table, fragment_table, lookup_doll_slots,
    lookup_fragment, lookup_slot, render_image, render_result, render_safe, slot_table, DollDef,
    FragmentDef, RasterImage, SlotDef,
};
use crate::errors::PaperdollError;
use crate::selector::{next_selection, prev_selection, vec_contains};
use std::collections::HashMap;
use vstd::prelude::*;

verus! {

broadcast use vstd::std_specs::hash::group_hash_axioms;

/// The id a caller uses to refer to one live paperdoll instance.
pub type PaperdollId = u32;

/// Issues unique, strictly increasing instance ids, starting at 1.
pub struct IdAllocator {
    next: u32,
}

impl IdAllocator {
    /// The id the next allocation will return.
    pub closed spec fn next_unused(self) -> u32 {
        self.next
    }

    pub fn new() -> (r: IdAllocator)
        ensures
            r.next_unused() == 1,
    {
        IdAllocator { next: 1 }
    }

    /// Returns a previously unissued id; ids grow strictly.
    pub fn next_id(&mut self) -> (r: u32)
        requires
            old(self).next_unused() < u32::MAX,
        ensures
            r == old(self).next_unused(),
            final(self).next_unused() == old(self).next_unused() + 1,
    {
        let id = self.next;
        self.next = self.next + 1;
        id
    }
}

/// A live paperdoll: the doll it instantiates and its current
/// slot-to-fragment selection. A slot with no entry is empty.
pub struct PaperdollInstance {
    doll_id: u32,
    mapping: HashMap<u32, u32>,
}

impl PaperdollInstance {
    /// The id of the doll this instance was built from.
    pub closed spec fn spec_doll_id(self) -> u32 {
        self.doll_id
    }

    /// The current slot-to-fragment selection.
    pub closed spec fn selection(self) -> Map<u32, u32> {
        self.mapping@
    }

    pub fn doll_id(&self) -> (r: u32)
        ensures
            r == self.spec_doll_id(),
    {
        self.doll_id
    }

    /// The fragment currently selected in the given slot, if any.
    pub fn current_fragment(&self, slot_id: u32) -> (r: Option<u32>)
        ensures
            r == if self.selection().contains_key(slot_id) {
                Some(self.selection()[slot_id])
            } else {
                None::<u32>
            },
    {
        match self.mapping.get(&slot_id) {
            Some(fid) => Some(*fid),
            None => None,
        }
    }
}

/// A cache entry: the most recent composite image rendered for an instance,
/// together with (in ghost state) the selection it was rendered from.
pub struct CachedTexture {
    pub image: RasterImage,
    pub rendered_from: Ghost<Map<u32, u32>>,
}

/// The selection a freshly created instance of a doll starts with: walking
/// the doll's slot list in order, every slot that exists in the catalog, is
/// required, and has at least one candidate is set to its first candidate;
/// every other slot stays empty.
pub open spec fn fill_required(
    f: paperdoll_tar::paperdoll::PaperdollFactory,
    slots: Seq<u32>,
) -> Map<u32, u32>
    decreases slots.len(),
{
    if slots.len() == 0 {
        Map::empty()
    } else {
        let m = fill_required(f, slots.drop_last());
        let s = slots.last();
        if slot_table(f).contains_key(s) && slot_table(f)[s].0 && slot_table(f)[s].1.len() > 0 {
            m.insert(s, slot_table(f)[s].1[0])
        } else {
            m
        }
    }
}

/// Creation fills required slots, and nothing else: the initial selection
/// holds exactly the required slots of the walked list that exist and have a
/// candidate, each at that slot's first candidate.
pub proof fn lemma_fill_required(f: paperdoll_tar::paperdoll::PaperdollFactory, slots: Seq<u32>)
    ensures
        forall|s: u32|
            #[trigger] fill_required(f, slots).contains_key(s) <==> (slots.contains(s)
                && slot_table(f).contains_key(s) && slot_table(f)[s].0 && slot_table(f)[s].1.len()
                > 0),
        forall|s: u32|
            fill_required(f, slots).contains_key(s) ==> #[trigger] fill_required(f, slots)[s]
                == slot_table(f)[s].1[0],
    decreases slots.len(),
{
    if slots.len() > 0 {
        let prefix = slots.drop_last();
        let lastv = slots.last();
        lemma_fill_required(f, prefix);
        assert(slots.contains(lastv)) by {
            assert(slots[slots.len() as int - 1] == lastv);
        }
        assert forall|s: u32| slots.contains(s) && s != lastv implies prefix.contains(s) by {
            let i = choose|i: int| 0 <= i < slots.len() && slots[i] == s;
            assert(prefix[i] == s);
        }
        assert forall|s: u32| prefix.contains(s) implies slots.contains(s) by {
            let i = choose|i: int| 0 <= i < prefix.len() && prefix[i] == s;
            assert(slots[i] == s);
        }
        let m = fill_required(f, prefix);
        let whole = fill_required(f, slots);
        if slot_table(f).contains_key(lastv) && slot_table(f)[lastv].0 && slot_table(
            f,
        )[lastv].1.len() > 0 {
            assert(whole == m.insert(lastv, slot_table(f)[lastv].1[0]));
        } else {
            assert(whole == m);
        }
        assert forall|s: u32| #[trigger] whole.contains_key(s) implies (slots.contains(s)
            && slot_table(f).contains_key(s) && slot_table(f)[s].0 && slot_table(f)[s].1.len()
            > 0) by {
            if s != lastv {
                assert(m.contains_key(s));
            }
        }
        assert forall|s: u32| (slots.contains(s) && slot_table(f).contains_key(s) && slot_table(
            f,
        )[s].0 && slot_table(f)[s].1.len() > 0) implies #[trigger] whole.contains_key(s) by {
            if s != lastv {
                assert(prefix.contains(s));
                assert(m.contains_key(s));
            }
        }
    }
}

/// The slot ids of `ids` that exist in the catalog, in their original order.
pub open spec fn known_slots(
    f: paperdoll_tar::paperdoll::PaperdollFactory,
    ids: Seq<u32>,
) -> Seq<u32>
    decreases ids.len(),
{
    if ids.len() == 0 {
        Seq::empty()
    } else {
        let rest = known_slots(f, ids.drop_last());
        if slot_table(f).contains_key(ids.last()) {
            rest.push(ids.last())
        } else {
            rest
        }
    }
}

/// The fragment ids of `ids` that exist in the catalog, in their original
/// order.
pub open spec fn known_fragments(
    f: paperdoll_tar::paperdoll::PaperdollFactory,
    ids: Seq<u32>,
) -> Seq<u32>
    decreases ids.len(),
{
    if ids.len() == 0 {
        Seq::empty()
    } else {
        let rest = known_fragments(f, ids.drop_last());
        if fragment_table(f).contains_key(ids.last()) {
            rest.push(ids.last())
        } else {
            rest
        }
    }
}

/// `r` lists exactly the slots `ks`, in order, each with the catalog's
/// required flag and candidate list.
pub open spec fn slots_match(
    f: paperdoll_tar::paperdoll::PaperdollFactory,
    ks: Seq<u32>,
    r: Seq<SlotDef>,
) -> bool {
    &&& r.len() == ks.len()
    &&& forall|i: int|
        0 <= i < r.len() ==> (#[trigger] r[i]).id == ks[i] && slot_table(f).contains_key(ks[i])
            && r[i].required == slot_table(f)[ks[i]].0 && r[i].candidates@ == slot_table(f)[ks[i]].1
}

/// `r` lists exactly the fragments `kf`, in order, each with the catalog's
/// description.
pub open spec fn fragments_match(
    f: paperdoll_tar::paperdoll::PaperdollFactory,
    kf: Seq<u32>,
    r: Seq<FragmentDef>,
) -> bool {
    &&& r.len() == kf.len()
    &&& forall|i: int|
        0 <= i < r.len() ==> (#[trigger] r[i]).id == kf[i] && fragment_table(f).contains_key(kf[i])
            && r[i].desc@ == fragment_table(f)[kf[i]]
}

/// Everything but instance `id` (and the catalog and allocator, which are
/// also pinned) is the same in `post` as in `pre`.
pub open spec fn others_unchanged(pre: PaperdollAsset, post: PaperdollAsset, id: u32) -> bool {
    &&& post.catalog() == pre.catalog()
    &&& forall|o: u32|
        o != id ==> ((#[trigger] post.live(o) <==> pre.live(o)) && (pre.live(o)
            ==> post.instances_view()[o] == pre.instances_view()[o]))
    &&& forall|o: u32|
        o != id ==> ((#[trigger] post.cached(o) <==> pre.cached(o)) && (pre.cached(o)
            ==> post.textures_view()[o] == pre.textures_view()[o]))
}

/// What a legal mutation request guarantees about its outcome: it succeeds
/// exactly when the catalog is renderable and the renderer produces an image
/// for the prospective selection; on success the store moves to that
/// selection with the produced image cached, and otherwise it reports
/// `RenderFailed` with nothing changed.
pub open spec fn mutation_outcome(
    pre: PaperdollAsset,
    post: PaperdollAsset,
    r: Result<(), PaperdollError>,
    id: u32,
    new_sel: Map<u32, u32>,
) -> bool {
    &&& (r is Ok <==> (render_safe(pre.catalog()) && render_result(
        pre.catalog(),
        pre.doll_of(id),
        new_sel,
    ) is Some))
    &&& (r is Ok ==> mutation_ok(pre, post, id, new_sel) && Some(post.textures_view()[id].image)
        == render_result(pre.catalog(), pre.doll_of(id), new_sel))
    &&& (!(r is Ok) ==> r == Err::<(), PaperdollError>(PaperdollError::RenderFailed))
}

/// What every successful mutation of instance `id` guarantees: the instance
/// is still live with the same doll, its selection is exactly `new_sel`, a
/// fresh cache entry rendered from `new_sel` is present, and nothing else
/// changed.
pub open spec fn mutation_ok(
    pre: PaperdollAsset,
    post: PaperdollAsset,
    id: u32,
    new_sel: Map<u32, u32>,
) -> bool {
    &&& post.live(id)
    &&& post.doll_of(id) == pre.doll_of(id)
    &&& post.selection(id) == new_sel
    &&& post.cached(id)
    &&& post.textures_view()[id].rendered_from@ == new_sel
    &&& post.next_unused_id() == pre.next_unused_id()
    &&& others_unchanged(pre, post, id)
}

/// A selection state applied to one slot: a fragment replaces the slot's
/// entry, empty removes it.
pub open spec fn apply_state(sel: Map<u32, u32>, slot_id: u32, st: Option<u32>) -> Map<u32, u32> {
    match st {
        Some(fid) => sel.insert(slot_id, fid),
        None => sel.remove(slot_id),
    }
}

/// How one selection operation addresses a slot: empty it, or put a given
/// fragment into it.
enum SlotAction {
    Empty,
    Fragment(u32),
}

/// The store: the catalog, every live instance, and the texture cache.
pub struct PaperdollAsset {
    factory: paperdoll_tar::paperdoll::PaperdollFactory,
    renderable: bool,
    ids: IdAllocator,
    instances: HashMap<u32, PaperdollInstance>,
    textures: HashMap<u32, CachedTexture>,
}

impl PaperdollAsset {
    /// The catalog this store reads.
    pub closed spec fn catalog(self) -> paperdoll_tar::paperdoll::PaperdollFactory {
        self.factory
    }

    /// All live instances, by id.
    pub closed spec fn instances_view(self) -> Map<u32, PaperdollInstance> {
        self.instances@
    }

    /// All cached renders, by instance id.
    pub closed spec fn textures_view(self) -> Map<u32, CachedTexture> {
        self.textures@
    }

    /// The id the next creation will use.
    pub closed spec fn next_unused_id(self) -> u32 {
        self.ids.next_unused()
    }

    /// Whether the catalog passed the consistency check at construction.
    pub closed spec fn spec_renderable(self) -> bool {
        self.renderable
    }

    /// Instance `id` is live.
    pub open spec fn live(self, id: u32) -> bool {
        self.instances_view().contains_key(id)
    }

    /// The doll instance `id` was built from.
    pub open spec fn doll_of(self, id: u32) -> u32 {
        self.instances_view()[id].spec_doll_id()
    }

    /// The current selection of instance `id`.
    pub open spec fn selection(self, id: u32) -> Map<u32, u32> {
        self.instances_view()[id].selection()
    }

    /// Instance `id` has a cached render.
    pub open spec fn cached(self, id: u32) -> bool {
        self.textures_view().contains_key(id)
    }

    /// The slot ids of instance `id`'s doll.
    pub open spec fn doll_slots(self, id: u32) -> Seq<u32> {
        doll_table(self.catalog())[self.doll_of(id)]
    }

    /// `slot_id` exists in the catalog and belongs to instance `id`'s doll.
    pub open spec fn slot_of(self, id: u32, slot_id: u32) -> bool {
        &&& slot_table(self.catalog()).contains_key(slot_id)
        &&& self.doll_slots(id).contains(slot_id)
    }

    /// The catalog's required flag for a slot.
    pub open spec fn slot_required(self, slot_id: u32) -> bool {
        slot_table(self.catalog())[slot_id].0
    }

    /// The catalog's candidate list for a slot.
    pub open spec fn candidates(self, slot_id: u32) -> Seq<u32> {
        slot_table(self.catalog())[slot_id].1
    }

    /// The selection state of one slot of a live instance.
    pub open spec fn slot_state(self, id: u32, slot_id: u32) -> Option<u32> {
        if self.selection(id).contains_key(slot_id) {
            Some(self.selection(id)[slot_id])
        } else {
            None
        }
    }

    /// Instance `id` is legal with respect to the catalog: its doll exists,
    /// every selected slot belongs to the doll and holds one of that slot's
    /// candidates, and every required slot of the doll that has a candidate
    /// is selected.
    pub open spec fn instance_wf(self, id: u32) -> bool {
        &&& doll_table(self.catalog()).contains_key(self.doll_of(id))
        &&& forall|s: u32|
            #[trigger] self.selection(id).contains_key(s) ==> self.slot_of(id, s)
                && self.candidates(s).contains(self.selection(id)[s])
        &&& forall|s: u32|
            self.doll_slots(id).contains(s) && slot_table(self.catalog()).contains_key(s)
                && self.slot_required(s) && self.candidates(s).len() > 0
                ==> #[trigger] self.selection(id).contains_key(s)
    }

    /// The store's invariant: the renderability flag records the catalog
    /// check, every live instance has an id below the allocator's cursor and
    /// is legal, and every cache entry belongs to a live instance and holds
    /// exactly the renderer's image for that instance's current selection —
    /// never stale, never orphaned.
    pub open spec fn wf(self) -> bool {
        &&& self.next_unused_id() >= 1
        &&& self.spec_renderable() == render_safe(self.catalog())
        &&& forall|id: u32|
            #[trigger] self.live(id) ==> 1 <= id < self.next_unused_id() && self.instance_wf(id)
        &&& forall|id: u32|
            #[trigger] self.cached(id) ==> self.live(id) && self.textures_view()[id].rendered_from@
                == self.selection(id) && Some(self.textures_view()[id].image) == render_result(
                self.catalog(),
                self.doll_of(id),
                self.selection(id),
            )
    }

    /// Wraps a catalog into an empty store, checking once whether the
    /// catalog's dimensions and pixel buffers are consistent enough for the
    /// renderer; a store around an inconsistent catalog reports
    /// `RenderFailed` on every render instead of calling the renderer.
    pub fn new(factory: paperdoll_tar::paperdoll::PaperdollFactory) -> (r: PaperdollAsset)
        ensures
            r.wf(),
            r.catalog() == factory,
            r.instances_view() == Map::<u32, PaperdollInstance>::empty(),
            r.textures_view() == Map::<u32, CachedTexture>::empty(),
            r.next_unused_id() == 1,
    {
        let renderable = catalog_renderable(&factory);
        PaperdollAsset {
            factory,
            renderable,
            ids: IdAllocator::new(),
            instances: HashMap::new(),
            textures: HashMap::new(),
        }
    }

    /// Whether an instance with the given id is live.
    pub fn has_instance(&self, id: PaperdollId) -> (r: bool)
        ensures
            r == self.live(id),
    {
        self.instances.contains_key(&id)
    }

    /// Whether the catalog passed the consistency check: only then can any
    /// render succeed.
    pub fn is_renderable(&self) -> (r: bool)
        requires
            self.wf(),
        ensures
            r == render_safe(self.catalog()),
    {
        self.renderable
    }

    /// Creates a paperdoll instance from the doll with the given id: fills
    /// every required slot that has a candidate with its first candidate,
    /// renders the result, and caches the image. Fails with `NotFound` if
    /// the doll is unknown, and with `RenderFailed` exactly when the catalog
    /// fails the renderability check or the renderer reports an error for
    /// the initial selection; on failure nothing changes and no id is
    /// consumed.
    pub fn create_paperdoll(&mut self, doll_id: u32) -> (r: Result<PaperdollId, PaperdollError>)
        requires
            old(self).wf(),
            old(self).next_unused_id() < u32::MAX,
        ensures
            final(self).wf(),
            r matches Err(e) ==> *final(self) == *old(self) && (e == PaperdollError::NotFound || e
                == PaperdollError::RenderFailed),
            !doll_table(old(self).catalog()).contains_key(doll_id) ==> r == Err::<
                PaperdollId,
                PaperdollError,
            >(PaperdollError::NotFound),
            doll_table(old(self).catalog()).contains_key(doll_id) ==> {
                &&& (r is Ok <==> (render_safe(old(self).catalog()) && render_result(
                    old(self).catalog(),
                    doll_id,
                    fill_required(old(self).catalog(), doll_table(old(self).catalog())[doll_id]),
                ) is Some))
                &&& (!(r is Ok) ==> r == Err::<PaperdollId, PaperdollError>(
                    PaperdollError::RenderFailed,
                ))
            },
            r matches Ok(id) ==> {
                &&& id == old(self).next_unused_id()
                &&& !old(self).live(id)
                &&& final(self).next_unused_id() == old(self).next_unused_id() + 1
                &&& final(self).live(id)
                &&& final(self).doll_of(id) == doll_id
                &&& final(self).selection(id) == fill_required(
                    old(self).catalog(),
                    doll_table(old(self).catalog())[doll_id],
                )
                &&& final(self).cached(id)
                &&& Some(final(self).textures_view()[id].image) == render_result(
                    old(self).catalog(),
                    doll_id,
                    fill_required(old(self).catalog(), doll_table(old(self).catalog())[doll_id]),
                )
                &&& others_unchanged(*old(self), *final(self), id)
            },
    {
        let slots = match lookup_doll_slots(&self.factory, doll_id) {
            None => {
                return Err(PaperdollError::NotFound);
            },
            Some(v) => v,
        };
        if !self.renderable {
            return Err(PaperdollError::RenderFailed);
        }
        let mut mapping: HashMap<u32, u32> = HashMap::new();
        let mut i: usize = 0;
        while i < slots.len()
            invariant
                0 <= i <= slots@.len(),
                mapping@ == fill_required(self.factory, slots@.subrange(0, i as int)),
            decreases slots@.len() - i,
        {
            let s = slots[i];
            match lookup_slot(&self.factory, s) {
                Some(sd) => {
                    if sd.required && sd.candidates.len() > 0 {
                        mapping.insert(s, sd.candidates[0]);
                    }
                },
                None => {},
            }
            proof {
                let whole = slots@.subrange(0, i + 1);
                assert(whole.drop_last() =~= slots@.subrange(0, i as int));
                assert(whole.last() == slots@[i as int]);
            }
            i = i + 1;
        }
        proof {
            assert(slots@.subrange(0, slots@.len() as int) =~= slots@);
            lemma_fill_required(self.factory, slots@);
            assert forall|s: u32|
                #[trigger] mapping@.contains_key(s) && slot_table(self.factory).contains_key(
                    s,
                ) implies slot_table(self.factory)[s].1.contains(mapping@[s]) by {
                assert(slot_table(self.factory)[s].1[0] == mapping@[s]);
            }
        }
        let img = match render_image(&self.factory, doll_id, &mapping) {
            Err(_) => {
                return Err(PaperdollError::RenderFailed);
            },
            Ok(img) => img,
        };
        let id = self.ids.next_id();
        let ghost snapshot = mapping@;
        self.instances.insert(id, PaperdollInstance { doll_id, mapping });
        self.textures.insert(id, CachedTexture { image: img, rendered_from: Ghost(snapshot) });
        proof {
            lemma_fill_required(self.factory, slots@);
            let pre = *old(self);
            let post = *self;
            assert(post.selection(id) == snapshot);
            assert forall|s: u32| #[trigger] post.selection(id).contains_key(s) implies post.slot_of(
                id,
                s,
            ) && post.candidates(s).contains(post.selection(id)[s]) by {
                assert(slots@.contains(s));
                assert(post.candidates(s).len() > 0);
                assert(post.candidates(s).contains(post.candidates(s)[0]));
                assert(post.candidates(s)[0] == post.selection(id)[s]);
            }
            assert(post.instance_wf(id));
            assert(Some(post.textures_view()[id].image) == render_result(
                post.catalog(),
                post.doll_of(id),
                post.selection(id),
            ));
            assert forall|x: u32| #[trigger] post.live(x) && x != id implies 1 <= x
                < post.next_unused_id() && post.instance_wf(x) by {
                assert(pre.live(x));
                assert(pre.instance_wf(x));
                assert(post.instances_view()[x] == pre.instances_view()[x]);
                assert(post.selection(x) == pre.selection(x));
                assert(post.doll_of(x) == pre.doll_of(x));
            }
            assert forall|x: u32| #[trigger] post.cached(x) implies post.live(x)
                && post.textures_view()[x].rendered_from@ == post.selection(x) && Some(
                post.textures_view()[x].image,
            ) == render_result(post.catalog(), post.doll_of(x), post.selection(x)) by {
                if x != id {
                    assert(pre.cached(x));
                    assert(post.textures_view()[x] == pre.textures_view()[x]);
                    assert(post.selection(x) == pre.selection(x));
                    assert(post.doll_of(x) == pre.doll_of(x));
                }
            }
            assert(post.wf());
        }
        Ok(id)
    }

    /// Renders the prospective selection for instance `id` and, only if the
    /// renderer succeeds, commits it and overwrites the cache entry. It
    /// succeeds exactly when the catalog passed the renderability check and
    /// `render_result` names an image for the new selection; otherwise it
    /// reports `RenderFailed` with nothing changed, and the renderer is
    /// never called on a catalog that could make it panic.
    fn commit(&mut self, id: u32, doll_id: u32, new_map: HashMap<u32, u32>) -> (r: Result<
        (),
        PaperdollError,
    >)
        requires
            old(self).wf(),
            old(self).live(id),
            old(self).doll_of(id) == doll_id,
            forall|s: u32|
                #[trigger] new_map@.contains_key(s) ==> old(self).slot_of(id, s) && old(
                    self,
                ).candidates(s).contains(new_map@[s]),
            forall|s: u32|
                old(self).doll_slots(id).contains(s) && slot_table(
                    old(self).catalog(),
                ).contains_key(s) && old(self).slot_required(s) && old(self).candidates(s).len()
                    > 0 ==> #[trigger] new_map@.contains_key(s),
        ensures
            final(self).wf(),
            mutation_outcome(*old(self), *final(self), r, id, new_map@),
            r matches Err(e) ==> e == PaperdollError::RenderFailed && *final(self) == *old(self),
    {
        if !self.renderable {
            return Err(PaperdollError::RenderFailed);
        }
        let ghost snapshot = new_map@;
        let img = match render_image(&self.factory, doll_id, &new_map) {
            Err(_) => {
                return Err(PaperdollError::RenderFailed);
            },
            Ok(img) => img,
        };
        self.instances.insert(id, PaperdollInstance { doll_id, mapping: new_map });
        self.textures.insert(id, CachedTexture { image: img, rendered_from: Ghost(snapshot) });
        proof {
            let pre = *old(self);
            let post = *self;
            assert(post.selection(id) == snapshot);
            assert(post.instance_wf(id));
            assert(Some(post.textures_view()[id].image) == render_result(
                post.catalog(),
                post.doll_of(id),
                post.selection(id),
            ));
            assert forall|x: u32| #[trigger] post.live(x) && x != id implies 1 <= x
                < post.next_unused_id() && post.instance_wf(x) by {
                assert(pre.live(x));
                assert(pre.instance_wf(x));
                assert(post.instances_view()[x] == pre.instances_view()[x]);
                assert(post.selection(x) == pre.selection(x));
                assert(post.doll_of(x) == pre.doll_of(x));
            }
            assert forall|x: u32| #[trigger] post.cached(x) implies post.live(x)
                && post.textures_view()[x].rendered_from@ == post.selection(x) && Some(
                post.textures_view()[x].image,
            ) == render_result(post.catalog(), post.doll_of(x), post.selection(x)) by {
                if x != id {
                    assert(pre.cached(x));
                    assert(post.textures_view()[x] == pre.textures_view()[x]);
                    assert(post.selection(x) == pre.selection(x));
                    assert(post.doll_of(x) == pre.doll_of(x));
                }
            }
            assert(post.wf());
        }
        Ok(())
    }

    /// Applies one slot action to a live instance: validates the target
    /// slot and the action's legality, computes the prospective selection,
    /// and commits it through a render; a legal request succeeds or fails
    /// exactly as `mutation_outcome` says.
    fn set_slot(&mut self, id: u32, slot_id: u32, action: SlotAction) -> (r: Result<
        (),
        PaperdollError,
    >)
        requires
            old(self).wf(),
        ensures
            final(self).wf(),
            r matches Err(_) ==> *final(self) == *old(self),
            !old(self).live(id) ==> r == Err::<(), PaperdollError>(PaperdollError::NotFound),
            old(self).live(id) && !old(self).slot_of(id, slot_id) ==> r == Err::<
                (),
                PaperdollError,
            >(PaperdollError::NotFound),
            old(self).live(id) && old(self).slot_of(id, slot_id) ==> match action {
                SlotAction::Empty => {
                    if old(self).slot_required(slot_id) {
                        r == Err::<(), PaperdollError>(PaperdollError::RequiredSlotViolation)
                    } else {
                        mutation_outcome(
                            *old(self),
                            *final(self),
                            r,
                            id,
                            old(self).selection(id).remove(slot_id),
                        )
                    }
                },
                SlotAction::Fragment(fid) => {
                    if !old(self).candidates(slot_id).contains(fid) {
                        r == Err::<(), PaperdollError>(PaperdollError::InvalidAssignment)
                    } else {
                        mutation_outcome(
                            *old(self),
                            *final(self),
                            r,
                            id,
                            old(self).selection(id).insert(slot_id, fid),
                        )
                    }
                },
            },
    {
        let (doll_id, mut new_map) = match self.instances.get(&id) {
            None => {
                return Err(PaperdollError::NotFound);
            },
            Some(inst) => (inst.doll_id, inst.mapping.clone()),
        };
        let slots = match lookup_doll_slots(&self.factory, doll_id) {
            None => {
                return Err(PaperdollError::NotFound);
            },
            Some(v) => v,
        };
        if !vec_contains(&slots, slot_id) {
            return Err(PaperdollError::NotFound);
        }
        let slot = match lookup_slot(&self.factory, slot_id) {
            None => {
                return Err(PaperdollError::NotFound);
            },
            Some(s) => s,
        };
        match &action {
            SlotAction::Empty => {
                if slot.required {
                    return Err(PaperdollError::RequiredSlotViolation);
                }
                new_map.remove(&slot_id);
            },
            SlotAction::Fragment(fid) => {
                if !vec_contains(&slot.candidates, *fid) {
                    return Err(PaperdollError::InvalidAssignment);
                }
                new_map.insert(slot_id, *fid);
            },
        }
        proof {
            let pre = *old(self);
            assert(pre.live(id));
            assert(pre.instance_wf(id));
            assert(pre.doll_of(id) == doll_id);
            assert(pre.doll_slots(id) == slots@);
            assert(pre.slot_of(id, slot_id));
            match action {
                SlotAction::Empty => {
                    assert(new_map@ == pre.selection(id).remove(slot_id));
                },
                SlotAction::Fragment(fid) => {
                    assert(new_map@ == pre.selection(id).insert(slot_id, fid));
                },
            }
            assert forall|s: u32| #[trigger] new_map@.contains_key(s) implies pre.slot_of(id, s)
                && pre.candidates(s).contains(new_map@[s]) by {
                if s != slot_id {
                    assert(pre.selection(id).contains_key(s));
                    assert(new_map@[s] == pre.selection(id)[s]);
                }
            }
            assert forall|s: u32|
                pre.doll_slots(id).contains(s) && slot_table(pre.catalog()).contains_key(s)
                    && pre.slot_required(s) && pre.candidates(s).len() > 0 implies #[trigger] new_map@.contains_key(
                s,
            ) by {
                assert(pre.selection(id).contains_key(s));
            }
        }
        self.commit(id, doll_id, new_map)
    }

    /// Sets the given slot of the given instance to empty. Fails with
    /// `NotFound` if the instance is not live or the slot is not a slot of
    /// its doll, with `RequiredSlotViolation` if the slot is required, and
    /// with `RenderFailed` exactly when the catalog fails the
    /// renderability check or the renderer reports an error for the
    /// prospective selection; on any failure nothing
    /// changes.
    pub fn slot_use_empty(&mut self, id: PaperdollId, slot_id: u32) -> (r: Result<
        (),
        PaperdollError,
    >)
        requires
            old(self).wf(),
        ensures
            final(self).wf(),
            r matches Err(_) ==> *final(self) == *old(self),
            !old(self).live(id) ==> r == Err::<(), PaperdollError>(PaperdollError::NotFound),
            old(self).live(id) && !old(self).slot_of(id, slot_id) ==> r == Err::<
                (),
                PaperdollError,
            >(PaperdollError::NotFound),
            old(self).live(id) && old(self).slot_of(id, slot_id) && old(self).slot_required(
                slot_id,
            ) ==> r == Err::<(), PaperdollError>(PaperdollError::RequiredSlotViolation),
            old(self).live(id) && old(self).slot_of(id, slot_id) && !old(self).slot_required(
                slot_id,
            ) ==> mutation_outcome(
                *old(self),
                *final(self),
                r,
                id,
                old(self).selection(id).remove(slot_id),
            ),
    {
        self.set_slot(id, slot_id, SlotAction::Empty)
    }

    /// Sets the given slot of the given instance to the given fragment.
    /// Fails with `NotFound` if the instance is not live or the slot is not
    /// a slot of its doll, with `InvalidAssignment` if the fragment is not
    /// one of the slot's candidates, and with `RenderFailed` exactly when the catalog fails the renderability
    /// check or the renderer reports an error for the prospective
    /// selection; on any failure nothing changes.
    pub fn slot_use_fragment(&mut self, id: PaperdollId, slot_id: u32, fragment_id: u32) -> (r:
        Result<(), PaperdollError>)
        requires
            old(self).wf(),
        ensures
            final(self).wf(),
            r matches Err(_) ==> *final(self) == *old(self),
            !old(self).live(id) ==> r == Err::<(), PaperdollError>(PaperdollError::NotFound),
            old(self).live(id) && !old(self).slot_of(id, slot_id) ==> r == Err::<
                (),
                PaperdollError,
            >(PaperdollError::NotFound),
            old(self).live(id) && old(self).slot_of(id, slot_id) && !old(self).candidates(
                slot_id,
            ).contains(fragment_id) ==> r == Err::<(), PaperdollError>(
                PaperdollError::InvalidAssignment,
            ),
            old(self).live(id) && old(self).slot_of(id, slot_id) && old(self).candidates(
                slot_id,
            ).contains(fragment_id) ==> mutation_outcome(
                *old(self),
                *final(self),
                r,
                id,
                old(self).selection(id).insert(slot_id, fragment_id),
            ),
    {
        self.set_slot(id, slot_id, SlotAction::Fragment(fragment_id))
    }

    /// Sets the given slot of the given instance to the candidate at the
    /// given position of its candidate list. Fails with `NotFound` if the
    /// instance is not live, the slot is not a slot of its doll, or the
    /// position is out of range, and with `RenderFailed` exactly when the catalog fails the renderability
    /// check or the renderer reports an error for the prospective
    /// selection; on any failure nothing changes.
    pub fn slot_use_index(&mut self, id: PaperdollId, slot_id: u32, index: usize) -> (r: Result<
        (),
        PaperdollError,
    >)
        requires
            old(self).wf(),
        ensures
            final(self).wf(),
            r matches Err(_) ==> *final(self) == *old(self),
            !old(self).live(id) ==> r == Err::<(), PaperdollError>(PaperdollError::NotFound),
            old(self).live(id) && !old(self).slot_of(id, slot_id) ==> r == Err::<
                (),
                PaperdollError,
            >(PaperdollError::NotFound),
            old(self).live(id) && old(self).slot_of(id, slot_id) && index >= old(self).candidates(
                slot_id,
            ).len() ==> r == Err::<(), PaperdollError>(PaperdollError::NotFound),
            old(self).live(id) && old(self).slot_of(id, slot_id) && index < old(self).candidates(
                slot_id,
            ).len() ==> mutation_outcome(
                *old(self),
                *final(self),
                r,
                id,
                old(self).selection(id).insert(slot_id, old(self).candidates(slot_id)[index as int]),
            ),
    {
        let doll_id = match self.instances.get(&id) {
            None => {
                return Err(PaperdollError::NotFound);
            },
            Some(inst) => inst.doll_id,
        };
        let slots = match lookup_doll_slots(&self.factory, doll_id) {
            None => {
                return Err(PaperdollError::NotFound);
            },
            Some(v) => v,
        };
        if !vec_contains(&slots, slot_id) {
            return Err(PaperdollError::NotFound);
        }
        let slot = match lookup_slot(&self.factory, slot_id) {
            None => {
                return Err(PaperdollError::NotFound);
            },
            Some(s) => s,
        };
        if index >= slot.candidates.len() {
            return Err(PaperdollError::NotFound);
        }
        let fid = slot.candidates[index];
        proof {
            assert(old(self).candidates(slot_id).contains(fid)) by {
                assert(old(self).candidates(slot_id)[index as int] == fid);
            }
        }
        self.set_slot(id, slot_id, SlotAction::Fragment(fid))
    }

    /// Moves the given slot of the given instance to the next selection in
    /// cycling order, as `next_selection` describes, then re-renders. Fails
    /// with `NotFound` if the instance is not live or the slot is not a slot
    /// of its doll, with the error `next_selection` names when the current
    /// state refuses a step, and with `RenderFailed` exactly when the catalog fails the renderability
    /// check or the renderer reports an error for the prospective
    /// selection; on any failure nothing changes.
    pub fn slot_use_next(&mut self, id: PaperdollId, slot_id: u32) -> (r: Result<
        (),
        PaperdollError,
    >)
        requires
            old(self).wf(),
        ensures
            final(self).wf(),
            r matches Err(_) ==> *final(self) == *old(self),
            !old(self).live(id) ==> r == Err::<(), PaperdollError>(PaperdollError::NotFound),
            old(self).live(id) && !old(self).slot_of(id, slot_id) ==> r == Err::<
                (),
                PaperdollError,
            >(PaperdollError::NotFound),
            old(self).live(id) && old(self).slot_of(id, slot_id) ==> match next_selection(
                old(self).slot_required(slot_id),
                old(self).candidates(slot_id),
                old(self).slot_state(id, slot_id),
            ) {
                Err(e) => r == Err::<(), PaperdollError>(e),
                Ok(st) => mutation_outcome(
                    *old(self),
                    *final(self),
                    r,
                    id,
                    apply_state(old(self).selection(id), slot_id, st),
                ),
            },
    {
        let (doll_id, current) = match self.instances.get(&id) {
            None => {
                return Err(PaperdollError::NotFound);
            },
            Some(inst) => {
                let cur = match inst.mapping.get(&slot_id) {
                    Some(f) => Some(*f),
                    None => None,
                };
                (inst.doll_id, cur)
            },
        };
        let slots = match lookup_doll_slots(&self.factory, doll_id) {
            None => {
                return Err(PaperdollError::NotFound);
            },
            Some(v) => v,
        };
        if !vec_contains(&slots, slot_id) {
            return Err(PaperdollError::NotFound);
        }
        let slot = match lookup_slot(&self.factory, slot_id) {
            None => {
                return Err(PaperdollError::NotFound);
            },
            Some(s) => s,
        };
        let st = match crate::selector::select_next(slot.required, &slot.candidates, current) {
            Err(e) => {
                return Err(e);
            },
            Ok(st) => st,
        };
        proof {
            crate::selector::lemma_next_selection_in_candidates(
                slot.required,
                slot.candidates@,
                current,
            );
        }
        match st {
            Some(fid) => self.set_slot(id, slot_id, SlotAction::Fragment(fid)),
            None => self.set_slot(id, slot_id, SlotAction::Empty),
        }
    }

    /// Moves the given slot of the given instance to the previous selection
    /// in cycling order, as `prev_selection` describes, then re-renders.
    /// Fails with `NotFound` if the instance is not live or the slot is not
    /// a slot of its doll, with the error `prev_selection` names when the
    /// current state refuses a step, and with `RenderFailed` exactly when the catalog fails the renderability
    /// check or the renderer reports an error for the prospective
    /// selection; on any failure nothing changes.
    pub fn slot_use_prev(&mut self, id: PaperdollId, slot_id: u32) -> (r: Result<
        (),
        PaperdollError,
    >)
        requires
            old(self).wf(),
        ensures
            final(self).wf(),
            r matches Err(_) ==> *final(self) == *old(self),
            !old(self).live(id) ==> r == Err::<(), PaperdollError>(PaperdollError::NotFound),
            old(self).live(id) && !old(self).slot_of(id, slot_id) ==> r == Err::<
                (),
                PaperdollError,
            >(PaperdollError::NotFound),
            old(self).live(id) && old(self).slot_of(id, slot_id) ==> match prev_selection(
                old(self).slot_required(slot_id),
                old(self).candidates(slot_id),
                old(self).slot_state(id, slot_id),
            ) {
                Err(e) => r == Err::<(), PaperdollError>(e),
                Ok(st) => mutation_outcome(
                    *old(self),
                    *final(self),
                    r,
                    id,
                    apply_state(old(self).selection(id), slot_id, st),
                ),
            },
    {
        let (doll_id, current) = match self.instances.get(&id) {
            None => {
                return Err(PaperdollError::NotFound);
            },
            Some(inst) => {
                let cur = match inst.mapping.get(&slot_id) {
                    Some(f) => Some(*f),
                    None => None,
                };
                (inst.doll_id, cur)
            },
        };
        let slots = match lookup_doll_slots(&self.factory, doll_id) {
            None => {
                return Err(PaperdollError::NotFound);
            },
            Some(v) => v,
        };
        if !vec_contains(&slots, slot_id) {
            return Err(PaperdollError::NotFound);
        }
        let slot = match lookup_slot(&self.factory, slot_id) {
            None => {
                return Err(PaperdollError::NotFound);
            },
            Some(s) => s,
        };
        let st = match crate::selector::select_prev(slot.required, &slot.candidates, current) {
            Err(e) => {
                return Err(e);
            },
            Ok(st) => st,
        };
        proof {
            crate::selector::lemma_prev_selection_in_candidates(
                slot.required,
                slot.candidates@,
                current,
            );
        }
        match st {
            Some(fid) => self.set_slot(id, slot_id, SlotAction::Fragment(fid)),
            None => self.set_slot(id, slot_id, SlotAction::Empty),
        }
    }

    /// Borrows the cached composite image for the given instance, if one is
    /// present.
    pub fn get_texture(&self, id: PaperdollId) -> (r: Option<&RasterImage>)
        ensures
            match r {
                Some(img) => self.cached(id) && *img == self.textures_view()[id].image,
                None => !self.cached(id),
            },
    {
        match self.textures.get(&id) {
            Some(entry) => Some(&entry.image),
            None => None,
        }
    }

    /// Removes and hands out the cached composite image for the given
    /// instance: afterwards no entry is cached for it until the next
    /// successful mutation re-renders.
    pub fn take_texture(&mut self, id: PaperdollId) -> (r: Option<RasterImage>)
        requires
            old(self).wf(),
        ensures
            final(self).wf(),
            final(self).textures_view() == old(self).textures_view().remove(id),
            final(self).instances_view() == old(self).instances_view(),
            final(self).catalog() == old(self).catalog(),
            final(self).next_unused_id() == old(self).next_unused_id(),
            match r {
                Some(img) => old(self).cached(id) && img == old(self).textures_view()[id].image,
                None => !old(self).cached(id),
            },
    {
        let r = match self.textures.remove(&id) {
            Some(entry) => Some(entry.image),
            None => None,
        };
        proof {
            let pre = *old(self);
            let post = *self;
            assert forall|x: u32| #[trigger] post.live(x) implies 1 <= x < post.next_unused_id()
                && post.instance_wf(x) by {
                assert(pre.live(x));
                assert(pre.instance_wf(x));
                assert(post.instances_view()[x] == pre.instances_view()[x]);
                assert(post.selection(x) == pre.selection(x));
                assert(post.doll_of(x) == pre.doll_of(x));
            }
            assert forall|x: u32| #[trigger] post.cached(x) implies post.live(x)
                && post.textures_view()[x].rendered_from@ == post.selection(x) && Some(
                post.textures_view()[x].image,
            ) == render_result(post.catalog(), post.doll_of(x), post.selection(x)) by {
                assert(pre.cached(x));
                assert(post.textures_view()[x] == pre.textures_view()[x]);
                assert(post.selection(x) == pre.selection(x));
                assert(post.doll_of(x) == pre.doll_of(x));
            }
        }
        r
    }

    /// Removes an instance and its cache entry; returns the removed
    /// instance, or nothing if the id was not live. Idempotent: all further
    /// operations on the id fail with `NotFound`.
    pub fn remove_paperdoll(&mut self, id: PaperdollId) -> (r: Option<PaperdollInstance>)
        requires
            old(self).wf(),
        ensures
            final(self).wf(),
            final(self).instances_view() == old(self).instances_view().remove(id),
            final(self).textures_view() == old(self).textures_view().remove(id),
            final(self).catalog() == old(self).catalog(),
            final(self).next_unused_id() == old(self).next_unused_id(),
            match r {
                Some(inst) => old(self).live(id) && inst == old(self).instances_view()[id],
                None => !old(self).live(id),
            },
    {
        let removed = self.instances.remove(&id);
        self.textures.remove(&id);
        proof {
            let pre = *old(self);
            let post = *self;
            assert forall|x: u32| #[trigger] post.live(x) implies 1 <= x < post.next_unused_id()
                && post.instance_wf(x) by {
                assert(pre.live(x));
                assert(pre.instance_wf(x));
                assert(post.instances_view()[x] == pre.instances_view()[x]);
                assert(post.selection(x) == pre.selection(x));
                assert(post.doll_of(x) == pre.doll_of(x));
            }
            assert forall|x: u32| #[trigger] post.cached(x) implies post.live(x)
                && post.textures_view()[x].rendered_from@ == post.selection(x) && Some(
                post.textures_view()[x].image,
            ) == render_result(post.catalog(), post.doll_of(x), post.selection(x)) by {
                assert(pre.cached(x));
                assert(post.textures_view()[x] == pre.textures_view()[x]);
                assert(post.selection(x) == pre.selection(x));
                assert(post.doll_of(x) == pre.doll_of(x));
            }
        }
        removed
    }

    /// Returns the fragment currently used in the given slot of the given
    /// instance: its definition from the catalog, or nothing if the
    /// instance is not live, the slot is empty, or the fragment is unknown
    /// to the catalog.
    pub fn get_slot_fragment(&self, id: PaperdollId, slot_id: u32) -> (r: Option<FragmentDef>)
        ensures
            match r {
                Some(fr) => self.live(id) && self.selection(id).contains_key(slot_id) && fr.id
                    == self.selection(id)[slot_id] && fragment_table(self.catalog()).contains_key(
                    fr.id,
                ) && fr.desc@ == fragment_table(self.catalog())[fr.id],
                None => !self.live(id) || !self.selection(id).contains_key(slot_id)
                    || !fragment_table(self.catalog()).contains_key(self.selection(id)[slot_id]),
            },
    {
        let inst = match self.instances.get(&id) {
            None => {
                return None;
            },
            Some(inst) => inst,
        };
        let fid = match inst.mapping.get(&slot_id) {
            None => {
                return None;
            },
            Some(fid) => *fid,
        };
        lookup_fragment(&self.factory, fid)
    }

    /// Lists the slots of the given instance's doll, in the doll's order,
    /// keeping those the catalog knows; an unknown instance yields an empty
    /// list.
    pub fn get_slots(&self, id: PaperdollId) -> (r: Vec<SlotDef>)
        requires
            self.wf(),
        ensures
            !self.live(id) ==> r@.len() == 0,
            self.live(id) ==> slots_match(
                self.catalog(),
                known_slots(self.catalog(), self.doll_slots(id)),
                r@,
            ),
    {
        let doll_id = match self.instances.get(&id) {
            None => {
                return Vec::new();
            },
            Some(inst) => inst.doll_id,
        };
        let slots = match lookup_doll_slots(&self.factory, doll_id) {
            None => {
                return Vec::new();
            },
            Some(v) => v,
        };
        let mut r: Vec<SlotDef> = Vec::new();
        let mut i: usize = 0;
        while i < slots.len()
            invariant
                0 <= i <= slots@.len(),
                slots_match(self.factory, known_slots(self.factory, slots@.subrange(0, i as int)), r@),
            decreases slots@.len() - i,
        {
            let s = slots[i];
            let ghost pre = known_slots(self.factory, slots@.subrange(0, i as int));
            match lookup_slot(&self.factory, s) {
                Some(sd) => {
                    r.push(sd);
                },
                None => {},
            }
            proof {
                let whole = slots@.subrange(0, i + 1);
                assert(whole.drop_last() =~= slots@.subrange(0, i as int));
                assert(whole.last() == slots@[i as int]);
                let ks = known_slots(self.factory, whole);
                if slot_table(self.factory).contains_key(s) {
                    assert(ks == pre.push(s));
                } else {
                    assert(ks == pre);
                }
            }
            i = i + 1;
        }
        proof {
            assert(slots@.subrange(0, slots@.len() as int) =~= slots@);
            assert(self.doll_of(id) == doll_id);
            assert(self.doll_slots(id) == slots@);
        }
        r
    }

    /// Lists the candidate fragments of the given slot, in candidate order,
    /// keeping those the catalog knows; an unknown slot yields an empty
    /// list.
    pub fn get_fragments_by_slot(&self, slot_id: u32) -> (r: Vec<FragmentDef>)
        ensures
            !slot_table(self.catalog()).contains_key(slot_id) ==> r@.len() == 0,
            slot_table(self.catalog()).contains_key(slot_id) ==> fragments_match(
                self.catalog(),
                known_fragments(self.catalog(), slot_table(self.catalog())[slot_id].1),
                r@,
            ),
    {
        let slot = match lookup_slot(&self.factory, slot_id) {
            None => {
                return Vec::new();
            },
            Some(s) => s,
        };
        let cands = slot.candidates;
        let mut r: Vec<FragmentDef> = Vec::new();
        let mut i: usize = 0;
        while i < cands.len()
            invariant
                0 <= i <= cands@.len(),
                fragments_match(
                    self.factory,
                    known_fragments(self.factory, cands@.subrange(0, i as int)),
                    r@,
                ),
            decreases cands@.len() - i,
        {
            let c = cands[i];
            let ghost pre = known_fragments(self.factory, cands@.subrange(0, i as int));
            match lookup_fragment(&self.factory, c) {
                Some(fd) => {
                    r.push(fd);
                },
                None => {},
            }
            proof {
                let whole = cands@.subrange(0, i + 1);
                assert(whole.drop_last() =~= cands@.subrange(0, i as int));
                assert(whole.last() == cands@[i as int]);
                let kf = known_fragments(self.factory, whole);
                if fragment_table(self.factory).contains_key(c) {
                    assert(kf == pre.push(c));
                } else {
                    assert(kf == pre);
                }
            }
            i = i + 1;
        }
        proof {
            assert(cands@.subrange(0, cands@.len() as int) =~= cands@);
        }
        r
    }

    /// Lists every doll the catalog holds, in ascending id order, each with
    /// its slot ids.
    pub fn get_dolls(&self) -> (r: Vec<DollDef>)
        ensures
            forall|i: int|
                0 <= i < r@.len() ==> doll_table(self.catalog()).contains_key(
                    (#[trigger] r@[i]).id,
                ) && r@[i].slots@ == doll_table(self.catalog())[r@[i].id],
            forall|did: u32|
                #[trigger] doll_table(self.catalog()).contains_key(did) ==> exists|i: int|
                    0 <= i < r@.len() && (#[trigger] r@[i]).id == did,
            forall|i: int, j: int| 0 <= i < j < r@.len() ==> r@[i].id < r@[j].id,
    {
        let ids = all_doll_ids(&self.factory);
        let mut r: Vec<DollDef> = Vec::new();
        let mut i: usize = 0;
        while i < ids.len()
            invariant
                0 <= i <= ids@.len(),
                r@.len() == i,
                forall|j: int| 0 <= j < i ==> (#[trigger] r@[j]).id == ids@[j],
                forall|j: int|
                    0 <= j < i ==> doll_table(self.factory).contains_key((#[trigger] r@[j]).id)
                        && r@[j].slots@ == doll_table(self.factory)[r@[j].id],
            decreases ids@.len() - i,
        {
            let did = ids[i];
            match lookup_doll_slots(&self.factory, did) {
                Some(slots) => {
                    r.push(DollDef { id: did, slots });
                },
                None => {
                    proof {
                        assert(doll_table(self.factory).contains_key(ids@[i as int]));
                    }
                },
            }
            i = i + 1;
        }
        proof {
            assert forall|did: u32| #[trigger] doll_table(self.factory).contains_key(did) implies exists|
                j: int,
            | 0 <= j < r@.len() && (#[trigger] r@[j]).id == did by {
                assert(ids@.contains(did));
                let j = choose|j: int| 0 <= j < ids@.len() && ids@[j] == did;
                assert(r@[j].id == did);
            }
        }
        r
    }
}

} // verus!
