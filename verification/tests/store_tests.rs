use paperdoll_store::{PaperdollAsset, PaperdollError};
use paperdoll_tar::paperdoll::PaperdollFactory;

fn add_fragment(factory: &mut PaperdollFactory) -> u32 {
    let id = factory.add_fragment().unwrap();
    let fragment = factory.get_fragment_mut(id).unwrap();
    fragment.image.width = 1;
    fragment.image.height = 1;
    fragment.image.pixels = vec![0, 0, 0, 255];
    id
}

fn add_empty_fragment(factory: &mut PaperdollFactory) -> u32 {
    factory.add_fragment().unwrap()
}

fn add_slot(factory: &mut PaperdollFactory, required: bool, candidates: Vec<u32>) -> u32 {
    let id = factory.add_slot().unwrap();
    let slot = factory.get_slot_mut(id).unwrap();
    slot.required = required;
    slot.candidates = candidates;
    id
}

fn add_doll(factory: &mut PaperdollFactory, slots: Vec<u32>) -> u32 {
    let id = factory.add_doll().unwrap();
    let doll = factory.get_doll_mut(id).unwrap();
    doll.width = 2;
    doll.height = 2;
    doll.slots = slots;
    id
}

fn current(asset: &PaperdollAsset, id: u32, slot: u32) -> Option<u32> {
    asset.get_slot_fragment(id, slot).map(|fr| fr.id)
}

#[test]
fn creation_fills_required_slots() {
    let mut factory = PaperdollFactory::default();
    let f1 = add_fragment(&mut factory);
    let f2 = add_fragment(&mut factory);
    let f3 = add_fragment(&mut factory);
    let s_req = add_slot(&mut factory, true, vec![f1, f2]);
    let s_opt = add_slot(&mut factory, false, vec![f3]);
    let s_req_empty = add_slot(&mut factory, true, vec![]);
    let doll = add_doll(&mut factory, vec![s_req, s_opt, s_req_empty]);
    let mut asset = PaperdollAsset::new(factory);

    let id = asset.create_paperdoll(doll).unwrap();
    assert_eq!(current(&asset, id, s_req), Some(f1));
    assert_eq!(current(&asset, id, s_opt), None);
    assert_eq!(current(&asset, id, s_req_empty), None);
}

#[test]
fn create_unknown_doll_fails() {
    let factory = PaperdollFactory::default();
    let mut asset = PaperdollAsset::new(factory);
    assert_eq!(asset.create_paperdoll(999), Err(PaperdollError::NotFound));
}

#[test]
fn instance_ids_start_at_one_and_grow() {
    let mut factory = PaperdollFactory::default();
    let f1 = add_fragment(&mut factory);
    let slot = add_slot(&mut factory, false, vec![f1]);
    let doll = add_doll(&mut factory, vec![slot]);
    let mut asset = PaperdollAsset::new(factory);

    let a = asset.create_paperdoll(doll).unwrap();
    let b = asset.create_paperdoll(doll).unwrap();
    assert_eq!(a, 1);
    assert_eq!(b, 2);
    assert!(asset.remove_paperdoll(a).is_some());
    let c = asset.create_paperdoll(doll).unwrap();
    assert_eq!(c, 3);
}

#[test]
fn set_fragment_checks_legality() {
    let mut factory = PaperdollFactory::default();
    let f1 = add_fragment(&mut factory);
    let f2 = add_fragment(&mut factory);
    let outsider = add_fragment(&mut factory);
    let slot = add_slot(&mut factory, false, vec![f1, f2]);
    let doll = add_doll(&mut factory, vec![slot]);
    let mut asset = PaperdollAsset::new(factory);
    let id = asset.create_paperdoll(doll).unwrap();

    assert_eq!(asset.slot_use_fragment(id, slot, f2), Ok(()));
    assert_eq!(current(&asset, id, slot), Some(f2));

    assert_eq!(
        asset.slot_use_fragment(id, slot, outsider),
        Err(PaperdollError::InvalidAssignment)
    );
    assert_eq!(current(&asset, id, slot), Some(f2));

    assert_eq!(
        asset.slot_use_fragment(id, 999, f1),
        Err(PaperdollError::NotFound)
    );
    assert_eq!(
        asset.slot_use_fragment(999, slot, f1),
        Err(PaperdollError::NotFound)
    );
}

#[test]
fn clearing_a_required_slot_fails() {
    let mut factory = PaperdollFactory::default();
    let f1 = add_fragment(&mut factory);
    let f2 = add_fragment(&mut factory);
    let s_req = add_slot(&mut factory, true, vec![f1]);
    let s_opt = add_slot(&mut factory, false, vec![f2]);
    let doll = add_doll(&mut factory, vec![s_req, s_opt]);
    let mut asset = PaperdollAsset::new(factory);
    let id = asset.create_paperdoll(doll).unwrap();

    assert_eq!(
        asset.slot_use_empty(id, s_req),
        Err(PaperdollError::RequiredSlotViolation)
    );
    assert_eq!(current(&asset, id, s_req), Some(f1));

    assert_eq!(asset.slot_use_fragment(id, s_opt, f2), Ok(()));
    assert_eq!(asset.slot_use_empty(id, s_opt), Ok(()));
    assert_eq!(current(&asset, id, s_opt), None);
}

#[test]
fn slot_use_index_picks_by_position() {
    let mut factory = PaperdollFactory::default();
    let f1 = add_fragment(&mut factory);
    let f2 = add_fragment(&mut factory);
    let f3 = add_fragment(&mut factory);
    let slot = add_slot(&mut factory, false, vec![f1, f2, f3]);
    let doll = add_doll(&mut factory, vec![slot]);
    let mut asset = PaperdollAsset::new(factory);
    let id = asset.create_paperdoll(doll).unwrap();

    assert_eq!(asset.slot_use_index(id, slot, 1), Ok(()));
    assert_eq!(current(&asset, id, slot), Some(f2));
    assert_eq!(asset.slot_use_index(id, slot, 0), Ok(()));
    assert_eq!(current(&asset, id, slot), Some(f1));
    assert_eq!(
        asset.slot_use_index(id, slot, 3),
        Err(PaperdollError::NotFound)
    );
    assert_eq!(current(&asset, id, slot), Some(f1));
}

#[test]
fn cycling_optional_slot_has_empty_position() {
    let mut factory = PaperdollFactory::default();
    let a = add_fragment(&mut factory);
    let b = add_fragment(&mut factory);
    let c = add_fragment(&mut factory);
    let slot = add_slot(&mut factory, false, vec![a, b, c]);
    let doll = add_doll(&mut factory, vec![slot]);
    let mut asset = PaperdollAsset::new(factory);
    let id = asset.create_paperdoll(doll).unwrap();

    let expected = [Some(a), Some(b), Some(c), None, Some(a)];
    for want in expected {
        assert_eq!(asset.slot_use_next(id, slot), Ok(()));
        assert_eq!(current(&asset, id, slot), want);
    }
}

#[test]
fn cycling_required_slot_never_empties() {
    let mut factory = PaperdollFactory::default();
    let a = add_fragment(&mut factory);
    let b = add_fragment(&mut factory);
    let c = add_fragment(&mut factory);
    let slot = add_slot(&mut factory, true, vec![a, b, c]);
    let doll = add_doll(&mut factory, vec![slot]);
    let mut asset = PaperdollAsset::new(factory);
    let id = asset.create_paperdoll(doll).unwrap();

    let expected = [Some(b), Some(c), Some(a), Some(b)];
    for want in expected {
        assert_eq!(asset.slot_use_next(id, slot), Ok(()));
        assert_eq!(current(&asset, id, slot), want);
    }
}

#[test]
fn cycling_backwards_mirrors_forwards() {
    let mut factory = PaperdollFactory::default();
    let a = add_fragment(&mut factory);
    let b = add_fragment(&mut factory);
    let s_opt = add_slot(&mut factory, false, vec![a, b]);
    let s_req = add_slot(&mut factory, true, vec![a, b]);
    let doll = add_doll(&mut factory, vec![s_opt, s_req]);
    let mut asset = PaperdollAsset::new(factory);
    let id = asset.create_paperdoll(doll).unwrap();

    // optional, starting empty: prev walks the cycle the other way round
    assert_eq!(asset.slot_use_prev(id, s_opt), Ok(()));
    assert_eq!(current(&asset, id, s_opt), Some(b));
    assert_eq!(asset.slot_use_prev(id, s_opt), Ok(()));
    assert_eq!(current(&asset, id, s_opt), Some(a));
    assert_eq!(asset.slot_use_prev(id, s_opt), Ok(()));
    assert_eq!(current(&asset, id, s_opt), None);

    // required, starting at the first candidate: prev wraps to the last
    assert_eq!(asset.slot_use_prev(id, s_req), Ok(()));
    assert_eq!(current(&asset, id, s_req), Some(b));
    assert_eq!(asset.slot_use_prev(id, s_req), Ok(()));
    assert_eq!(current(&asset, id, s_req), Some(a));
}

#[test]
fn prevs_invert_nexts() {
    let mut factory = PaperdollFactory::default();
    let a = add_fragment(&mut factory);
    let b = add_fragment(&mut factory);
    let c = add_fragment(&mut factory);
    let slot = add_slot(&mut factory, false, vec![a, b, c]);
    let doll = add_doll(&mut factory, vec![slot]);
    let mut asset = PaperdollAsset::new(factory);
    let id = asset.create_paperdoll(doll).unwrap();

    let start = current(&asset, id, slot);
    for _ in 0..3 {
        assert_eq!(asset.slot_use_next(id, slot), Ok(()));
    }
    for _ in 0..3 {
        assert_eq!(asset.slot_use_prev(id, slot), Ok(()));
    }
    assert_eq!(current(&asset, id, slot), start);
}

#[test]
fn cycling_required_slot_without_assignment_is_inconsistent() {
    let mut factory = PaperdollFactory::default();
    let s_req_empty = add_slot(&mut factory, true, vec![]);
    let doll = add_doll(&mut factory, vec![s_req_empty]);
    let mut asset = PaperdollAsset::new(factory);
    let id = asset.create_paperdoll(doll).unwrap();

    assert_eq!(
        asset.slot_use_next(id, s_req_empty),
        Err(PaperdollError::InconsistentState)
    );
    assert_eq!(
        asset.slot_use_prev(id, s_req_empty),
        Err(PaperdollError::InconsistentState)
    );
}

#[test]
fn cache_follows_mutations() {
    let mut factory = PaperdollFactory::default();
    let f1 = add_fragment(&mut factory);
    let slot = add_slot(&mut factory, false, vec![f1]);
    let doll = add_doll(&mut factory, vec![slot]);
    let mut asset = PaperdollAsset::new(factory);
    let id = asset.create_paperdoll(doll).unwrap();

    let image = asset.get_texture(id).expect("creation caches a render");
    assert_eq!(image.width, 2);
    assert_eq!(image.height, 2);
    assert_eq!(image.pixels.len(), 16);

    let taken = asset.take_texture(id).expect("cache entry can be taken");
    assert_eq!(taken.width, 2);
    assert!(asset.get_texture(id).is_none());
    assert!(asset.take_texture(id).is_none());

    assert_eq!(asset.slot_use_fragment(id, slot, f1), Ok(()));
    assert!(asset.get_texture(id).is_some());
}

#[test]
fn failed_render_rolls_everything_back() {
    let mut factory = PaperdollFactory::default();
    let pixelless = add_empty_fragment(&mut factory);
    let slot = add_slot(&mut factory, false, vec![pixelless]);
    let doll = add_doll(&mut factory, vec![slot]);
    let mut asset = PaperdollAsset::new(factory);
    let id = asset.create_paperdoll(doll).unwrap();

    // selecting a fragment with no image data makes the renderer refuse
    assert_eq!(
        asset.slot_use_fragment(id, slot, pixelless),
        Err(PaperdollError::RenderFailed)
    );
    assert_eq!(current(&asset, id, slot), None);
    assert!(asset.get_texture(id).is_some());
}

#[test]
fn inconsistent_catalog_never_renders() {
    let mut factory = PaperdollFactory::default();
    // a fragment whose stored buffer is smaller than its declared size
    // would make the renderer slice past the buffer's end
    let liar = factory.add_fragment().unwrap();
    {
        let fr = factory.get_fragment_mut(liar).unwrap();
        fr.image.width = 2;
        fr.image.height = 2;
        fr.image.pixels = vec![0, 0, 0, 255];
    }
    let slot = add_slot(&mut factory, true, vec![liar]);
    let doll = add_doll(&mut factory, vec![slot]);
    let mut asset = PaperdollAsset::new(factory);

    assert!(!asset.is_renderable());
    assert_eq!(
        asset.create_paperdoll(doll),
        Err(PaperdollError::RenderFailed)
    );
    assert_eq!(asset.create_paperdoll(999), Err(PaperdollError::NotFound));
}

#[test]
fn oversized_doll_canvas_never_renders() {
    let mut factory = PaperdollFactory::default();
    let f1 = add_fragment(&mut factory);
    let slot = add_slot(&mut factory, false, vec![f1]);
    let doll = add_doll(&mut factory, vec![slot]);
    {
        // a canvas this large overflows the renderer's 32-bit size arithmetic
        let d = factory.get_doll_mut(doll).unwrap();
        d.width = 65536;
        d.height = 65536;
    }
    let mut asset = PaperdollAsset::new(factory);

    assert!(!asset.is_renderable());
    assert_eq!(
        asset.create_paperdoll(doll),
        Err(PaperdollError::RenderFailed)
    );
}

#[test]
fn constrainted_slot_needs_matching_buffers() {
    let mut factory = PaperdollFactory::default();
    let f1 = add_fragment(&mut factory);
    let slot = add_slot(&mut factory, false, vec![f1]);
    {
        // constrainted mode composites the 1x1 fragment at the slot's own
        // 2x2 size, so the stored buffer no longer matches
        let s = factory.get_slot_mut(slot).unwrap();
        s.constrainted = true;
        s.width = 2;
        s.height = 2;
    }
    let doll = add_doll(&mut factory, vec![slot]);
    let mut asset = PaperdollAsset::new(factory);

    assert!(!asset.is_renderable());
    assert_eq!(
        asset.create_paperdoll(doll),
        Err(PaperdollError::RenderFailed)
    );
}

#[test]
fn constrainted_slot_with_matching_buffer_renders() {
    let mut factory = PaperdollFactory::default();
    let f1 = factory.add_fragment().unwrap();
    {
        let fr = factory.get_fragment_mut(f1).unwrap();
        fr.image.width = 2;
        fr.image.height = 2;
        fr.image.pixels = vec![255; 16];
    }
    let slot = add_slot(&mut factory, false, vec![f1]);
    {
        let s = factory.get_slot_mut(slot).unwrap();
        s.constrainted = true;
        s.width = 2;
        s.height = 2;
    }
    let doll = add_doll(&mut factory, vec![slot]);
    let mut asset = PaperdollAsset::new(factory);

    assert!(asset.is_renderable());
    let id = asset.create_paperdoll(doll).unwrap();
    assert_eq!(asset.slot_use_fragment(id, slot, f1), Ok(()));
    assert!(asset.get_texture(id).is_some());
}

#[test]
fn removal_is_terminal() {
    let mut factory = PaperdollFactory::default();
    let f1 = add_fragment(&mut factory);
    let slot = add_slot(&mut factory, false, vec![f1]);
    let doll = add_doll(&mut factory, vec![slot]);
    let mut asset = PaperdollAsset::new(factory);
    let id = asset.create_paperdoll(doll).unwrap();

    assert_eq!(asset.slot_use_fragment(id, slot, f1), Ok(()));
    let removed = asset.remove_paperdoll(id).expect("instance was live");
    assert_eq!(removed.doll_id(), doll);
    assert_eq!(removed.current_fragment(slot), Some(f1));
    assert!(asset.remove_paperdoll(id).is_none());

    assert!(!asset.has_instance(id));
    assert_eq!(
        asset.slot_use_fragment(id, slot, f1),
        Err(PaperdollError::NotFound)
    );
    assert_eq!(asset.slot_use_next(id, slot), Err(PaperdollError::NotFound));
    assert_eq!(asset.slot_use_prev(id, slot), Err(PaperdollError::NotFound));
    assert_eq!(asset.slot_use_empty(id, slot), Err(PaperdollError::NotFound));
    assert!(asset.get_slot_fragment(id, slot).is_none());
    assert!(asset.get_texture(id).is_none());
    assert!(asset.take_texture(id).is_none());
    assert!(asset.get_slots(id).is_empty());
}

#[test]
fn example_scenario() {
    let mut factory = PaperdollFactory::default();
    let f1 = add_fragment(&mut factory);
    let f2 = add_fragment(&mut factory);
    let f3 = add_fragment(&mut factory);
    let f4 = add_fragment(&mut factory);
    let s1 = add_slot(&mut factory, true, vec![f1, f2]);
    let s2 = add_slot(&mut factory, false, vec![f3, f4]);
    let d = add_doll(&mut factory, vec![s1, s2]);
    let mut asset = PaperdollAsset::new(factory);

    let i = asset.create_paperdoll(d).unwrap();
    assert_eq!(current(&asset, i, s1), Some(f1));
    assert_eq!(current(&asset, i, s2), None);

    assert_eq!(asset.slot_use_next(i, s1), Ok(()));
    assert_eq!(current(&asset, i, s1), Some(f2));
    assert_eq!(asset.slot_use_next(i, s1), Ok(()));
    assert_eq!(current(&asset, i, s1), Some(f1));

    assert_eq!(asset.slot_use_next(i, s2), Ok(()));
    assert_eq!(current(&asset, i, s2), Some(f3));
    let tail = [Some(f4), None, Some(f3), Some(f4)];
    for want in tail {
        assert_eq!(asset.slot_use_next(i, s2), Ok(()));
        assert_eq!(current(&asset, i, s2), want);
    }
}

#[test]
fn introspection_reads_the_catalog() {
    let mut factory = PaperdollFactory::default();
    let f1 = add_fragment(&mut factory);
    let f2 = add_fragment(&mut factory);
    factory.get_fragment_mut(f2).unwrap().desc = String::from("cap");
    let slot = add_slot(&mut factory, true, vec![f1, f2, 999]);
    // a doll that references an unknown slot can sit in the catalog,
    // though no instance of it can render
    let listed_only = add_doll(&mut factory, vec![slot, 888]);
    let doll = add_doll(&mut factory, vec![slot]);
    let mut asset = PaperdollAsset::new(factory);

    // the default doll plus the two added above, in ascending id order
    let dolls = asset.get_dolls();
    assert_eq!(dolls.len(), 3);
    assert!(dolls[0].id < dolls[1].id && dolls[1].id < dolls[2].id);
    assert_eq!(dolls[1].id, listed_only);
    assert_eq!(dolls[1].slots, vec![slot, 888]);
    assert_eq!(dolls[2].id, doll);

    let id = asset.create_paperdoll(doll).unwrap();

    let slots = asset.get_slots(id);
    assert_eq!(slots.len(), 1);
    assert_eq!(slots[0].id, slot);
    assert!(slots[0].required);
    assert_eq!(slots[0].candidates, vec![f1, f2, 999]);

    // the unknown candidate 999 is filtered out, order and descs kept
    let fragments = asset.get_fragments_by_slot(slot);
    assert_eq!(fragments.len(), 2);
    assert_eq!(fragments[0].id, f1);
    assert_eq!(fragments[1].id, f2);
    assert_eq!(fragments[1].desc, "cap");
    assert!(asset.get_fragments_by_slot(12345).is_empty());

    // the current fragment of a slot comes back with its description
    assert_eq!(asset.slot_use_fragment(id, slot, f2), Ok(()));
    let fr = asset.get_slot_fragment(id, slot).unwrap();
    assert_eq!(fr.id, f2);
    assert_eq!(fr.desc, "cap");
}
