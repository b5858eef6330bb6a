//! The trusted boundary to the catalog collaborator.
//!
//! The catalog (a `PaperdollFactory`) supplies the immutable doll, slot and
//! fragment definitions and performs pixel compositing. Verified code never
//! looks inside it: its contents are named by the uninterpreted table
//! functions below, and every read goes through one of the trusted lookup
//! functions, whose contracts speak over those tables.
//!
//! The renderer trusts the dimensions a catalog declares, and its pixel
//! arithmetic can overflow or slice a buffer out of bounds when a declared
//! size disagrees with a stored buffer. `render_safe` states the conditions
//! under which it returns normally, the verified `catalog_renderable` check
//! decides them on a concrete catalog, and the render wrapper requires them.

use std::collections::HashMap;
use vstd::prelude::*;

verus! {

/// The catalog and renderer from the `paperdoll` crate, re-exported by
/// `paperdoll_tar`. Opaque to verified code.
#[verifier::external_type_specification]
#[verifier::external_body]
pub struct ExPaperdollFactory(paperdoll_tar::paperdoll::PaperdollFactory);

/// The error type the catalog's renderer reports. Opaque to verified code.
#[verifier::external_type_specification]
#[verifier::external_body]
pub struct ExAnyhowError(anyhow::Error);

/// The doll definitions a factory holds: each doll id maps to the ordered
/// list of slot ids belonging to that doll.
pub uninterp spec fn doll_table(f: paperdoll_tar::paperdoll::PaperdollFactory) -> Map<u32, Seq<u32>>;

/// The slot definitions a factory holds: each slot id maps to the slot's
/// required flag and its ordered candidate fragment ids.
pub uninterp spec fn slot_table(f: paperdoll_tar::paperdoll::PaperdollFactory) -> Map<
    u32,
    (bool, Seq<u32>),
>;

/// The fragment definitions a factory holds: each fragment id maps to the
/// fragment's description text.
pub uninterp spec fn fragment_table(f: paperdoll_tar::paperdoll::PaperdollFactory) -> Map<
    u32,
    Seq<char>,
>;

/// A doll definition read out of the catalog: its id and the ordered slot
/// ids belonging to it.
pub struct DollDef {
    pub id: u32,
    pub slots: Vec<u32>,
}

/// A slot definition read out of the catalog: its id, whether it must always
/// hold a fragment, and its ordered candidate fragment ids.
pub struct SlotDef {
    pub id: u32,
    pub required: bool,
    pub candidates: Vec<u32>,
}

/// A fragment definition read out of the catalog: its id and description.
pub struct FragmentDef {
    pub id: u32,
    pub desc: String,
}

/// A composite raster image produced by the catalog's renderer.
pub struct RasterImage {
    pub width: u32,
    pub height: u32,
    pub pixels: Vec<u8>,
}

/// Relies on `PaperdollFactory::get_doll`: returns the doll with the given
/// id, if any; the doll's `slots` field lists its slot ids in order.
#[verifier::external_body]
pub(crate) fn lookup_doll_slots(
    f: &paperdoll_tar::paperdoll::PaperdollFactory,
    doll_id: u32,
) -> (r: Option<Vec<u32>>)
    ensures
        match r {
            Some(v) => doll_table(*f).contains_key(doll_id) && v@ == doll_table(*f)[doll_id],
            None => !doll_table(*f).contains_key(doll_id),
        },
{
    f.get_doll(doll_id).map(|d| d.slots.clone())
}

/// Relies on `PaperdollFactory::get_slot`: returns the slot with the given
/// id, if any, with its `required` flag and candidate list.
#[verifier::external_body]
pub(crate) fn lookup_slot(f: &paperdoll_tar::paperdoll::PaperdollFactory, slot_id: u32) -> (r:
    Option<SlotDef>)
    ensures
        match r {
            Some(s) => {
                &&& slot_table(*f).contains_key(slot_id)
                &&& s.id == slot_id
                &&& s.required == slot_table(*f)[slot_id].0
                &&& s.candidates@ == slot_table(*f)[slot_id].1
            },
            None => !slot_table(*f).contains_key(slot_id),
        },
{
    f.get_slot(slot_id).map(
        |s| SlotDef { id: s.id(), required: s.required, candidates: s.candidates.clone() },
    )
}

/// Relies on `PaperdollFactory::get_fragment`: returns the fragment with the
/// given id, if any, with its description text.
#[verifier::external_body]
pub(crate) fn lookup_fragment(
    f: &paperdoll_tar::paperdoll::PaperdollFactory,
    fragment_id: u32,
) -> (r: Option<FragmentDef>)
    ensures
        match r {
            Some(fr) => {
                &&& fragment_table(*f).contains_key(fragment_id)
                &&& fr.id == fragment_id
                &&& fr.desc@ == fragment_table(*f)[fragment_id]
            },
            None => !fragment_table(*f).contains_key(fragment_id),
        },
{
    f.get_fragment(fragment_id).map(|fr| FragmentDef { id: fr.id(), desc: fr.desc.clone() })
}

/// Relies on `PaperdollFactory::dolls`: iterates every doll the factory
/// holds, in ascending id order (the factory stores dolls in an ordered map
/// keyed by id).
#[verifier::external_body]
pub(crate) fn all_doll_ids(f: &paperdoll_tar::paperdoll::PaperdollFactory) -> (r: Vec<u32>)
    ensures
        forall|i: int| 0 <= i < r@.len() ==> doll_table(*f).contains_key(#[trigger] r@[i]),
        forall|id: u32| #[trigger] doll_table(*f).contains_key(id) ==> r@.contains(id),
        forall|i: int, j: int| 0 <= i < j < r@.len() ==> r@[i] < r@[j],
{
    f.dolls().map(|(id, _)| *id).collect()
}

/// The declared dimensions of a raster image and the length of the pixel
/// buffer actually stored for it. The two need not agree in a catalog read
/// from an archive, and the renderer trusts the declared dimensions.
pub struct ImageDims {
    pub width: u32,
    pub height: u32,
    pub len: usize,
}

/// A doll's rendering geometry: its canvas dimensions and its background
/// image.
pub struct DollGeometry {
    pub width: u32,
    pub height: u32,
    pub image: ImageDims,
}

/// A slot's rendering geometry: whether it is constrainted (the fragment is
/// resized to the slot's own dimensions) and those dimensions.
pub struct SlotGeometry {
    pub constrainted: bool,
    pub width: u32,
    pub height: u32,
}

/// The rendering geometry a factory holds for each doll: canvas dimensions,
/// and the background image's declared dimensions and stored buffer length.
pub uninterp spec fn doll_geometry(f: paperdoll_tar::paperdoll::PaperdollFactory) -> Map<
    u32,
    ((u32, u32), (u32, u32, usize)),
>;

/// The rendering geometry a factory holds for each slot: the constrainted
/// flag and the slot's own dimensions.
pub uninterp spec fn slot_geometry(f: paperdoll_tar::paperdoll::PaperdollFactory) -> Map<
    u32,
    (bool, u32, u32),
>;

/// The rendering geometry a factory holds for each fragment: its image's
/// declared dimensions and stored buffer length.
pub uninterp spec fn fragment_geometry(f: paperdoll_tar::paperdoll::PaperdollFactory) -> Map<
    u32,
    (u32, u32, usize),
>;

/// Relies on `Doll`'s public fields: the doll's canvas dimensions and
/// background image, read as plain numbers.
#[verifier::external_body]
pub(crate) fn lookup_doll_geometry(
    f: &paperdoll_tar::paperdoll::PaperdollFactory,
    doll_id: u32,
) -> (r: Option<DollGeometry>)
    ensures
        match r {
            Some(g) => doll_table(*f).contains_key(doll_id) && doll_geometry(*f)[doll_id] == (
                (g.width, g.height),
                (g.image.width, g.image.height, g.image.len),
            ),
            None => !doll_table(*f).contains_key(doll_id),
        },
{
    f.get_doll(doll_id).map(
        |d| DollGeometry {
            width: d.width,
            height: d.height,
            image: ImageDims {
                width: d.image.width,
                height: d.image.height,
                len: d.image.pixels.len(),
            },
        },
    )
}

/// Relies on `Slot`'s public fields: the constrainted flag and the slot's
/// own dimensions, read as plain numbers.
#[verifier::external_body]
pub(crate) fn lookup_slot_geometry(
    f: &paperdoll_tar::paperdoll::PaperdollFactory,
    slot_id: u32,
) -> (r: Option<SlotGeometry>)
    ensures
        match r {
            Some(g) => slot_table(*f).contains_key(slot_id) && slot_geometry(*f)[slot_id] == (
                g.constrainted,
                g.width,
                g.height,
            ),
            None => !slot_table(*f).contains_key(slot_id),
        },
{
    f.get_slot(slot_id).map(
        |s| SlotGeometry { constrainted: s.constrainted, width: s.width, height: s.height },
    )
}

/// Relies on `Fragment`'s public fields: the fragment image's declared
/// dimensions and stored buffer length, read as plain numbers.
#[verifier::external_body]
pub(crate) fn lookup_fragment_geometry(
    f: &paperdoll_tar::paperdoll::PaperdollFactory,
    fragment_id: u32,
) -> (r: Option<ImageDims>)
    ensures
        match r {
            Some(d) => fragment_table(*f).contains_key(fragment_id) && fragment_geometry(
                *f,
            )[fragment_id] == (d.width, d.height, d.len),
            None => !fragment_table(*f).contains_key(fragment_id),
        },
{
    f.get_fragment(fragment_id).map(
        |fr| ImageDims {
            width: fr.image.width,
            height: fr.image.height,
            len: fr.image.pixels.len(),
        },
    )
}

/// Relies on `PaperdollFactory::slots`: iterates every slot the factory
/// holds (the factory stores slots in an ordered map keyed by id).
#[verifier::external_body]
pub(crate) fn all_slot_ids(f: &paperdoll_tar::paperdoll::PaperdollFactory) -> (r: Vec<u32>)
    ensures
        forall|i: int| 0 <= i < r@.len() ==> slot_table(*f).contains_key(#[trigger] r@[i]),
        forall|id: u32| #[trigger] slot_table(*f).contains_key(id) ==> r@.contains(id),
{
    f.slots().map(|(id, _)| *id).collect()
}

/// A raster image the renderer may copy from: the buffer is absent, or it is
/// exactly as large as the declared dimensions say, with a row (four bytes
/// per pixel) small enough for the renderer's 32-bit row arithmetic.
pub open spec fn image_safe(width: u32, height: u32, len: usize) -> bool {
    len == 0 || (width <= u32::MAX / 4 && len == width * height * 4)
}

/// A doll the renderer can composite without overflowing its 32-bit canvas
/// arithmetic, with a background buffer that matches its declared size.
pub open spec fn doll_safe(g: ((u32, u32), (u32, u32, usize))) -> bool {
    &&& g.0.0 <= u32::MAX / 4
    &&& g.0.0 * g.0.1 <= u32::MAX / 4
    &&& image_safe(g.1.0, g.1.1, g.1.2)
}

/// Fragment `c` can be composited into slot `sid`: its stored buffer matches
/// the dimensions the renderer will assume for it — the slot's own in
/// constrainted mode, the fragment's declared ones otherwise. An empty
/// buffer is skipped by the renderer and always safe; a candidate the
/// catalog does not know is refused by the renderer before any copying.
pub open spec fn candidate_safe(
    f: paperdoll_tar::paperdoll::PaperdollFactory,
    sid: u32,
    c: u32,
) -> bool {
    fragment_table(f).contains_key(c) ==> {
        let sg = slot_geometry(f)[sid];
        let fg = fragment_geometry(f)[c];
        if sg.0 {
            fg.2 == 0 || fg.2 == sg.1 * sg.2 * 4
        } else {
            image_safe(fg.0, fg.1, fg.2)
        }
    }
}

/// Every candidate of slot `sid` is safe to composite, and the slot's own
/// dimensions fit the renderer's 32-bit row arithmetic.
pub open spec fn slot_safe(f: paperdoll_tar::paperdoll::PaperdollFactory, sid: u32) -> bool {
    &&& slot_geometry(f)[sid].1 <= u32::MAX / 4
    &&& forall|j: int|
        0 <= j < slot_table(f)[sid].1.len() ==> candidate_safe(
            f,
            sid,
            #[trigger] slot_table(f)[sid].1[j],
        )
}

/// The renderer returns normally on this catalog, for every doll and every
/// selection that assigns slots only candidate fragments: no size arithmetic
/// overflows and no pixel buffer is sliced past its end.
pub open spec fn render_safe(f: paperdoll_tar::paperdoll::PaperdollFactory) -> bool {
    &&& forall|id: u32|
        #[trigger] doll_table(f).contains_key(id) ==> doll_safe(doll_geometry(f)[id])
    &&& forall|sid: u32| #[trigger] slot_table(f).contains_key(sid) ==> slot_safe(f, sid)
}

/// A product grows no faster than its factors.
proof fn lemma_mul_bound(a: int, b: int, c: int, d: int)
    requires
        0 <= a <= c,
        0 <= b <= d,
    ensures
        a * b <= c * d,
{
    assert(a * b <= c * d) by (nonlinear_arith)
        requires
            0 <= a <= c,
            0 <= b <= d,
    ;
}

/// Decides `image_safe` on concrete dimensions.
fn image_dims_ok(width: u32, height: u32, len: usize) -> (r: bool)
    ensures
        r == image_safe(width, height, len),
{
    if len == 0 {
        return true;
    }
    if width > u32::MAX / 4 {
        return false;
    }
    proof {
        lemma_mul_bound(width as int, height as int, (u32::MAX / 4) as int, u32::MAX as int);
    }
    let wh = (width as u64) * (height as u64);
    (len as u64) == wh * 4
}

/// Decides whether a stored buffer is exactly as large as the given
/// dimensions say, four bytes per pixel.
fn area_matches(width: u32, height: u32, len: usize) -> (r: bool)
    requires
        width <= u32::MAX / 4,
    ensures
        r == (len == width * height * 4),
{
    proof {
        lemma_mul_bound(width as int, height as int, (u32::MAX / 4) as int, u32::MAX as int);
    }
    let wh = (width as u64) * (height as u64);
    (len as u64) == wh * 4
}

/// Decides `render_safe` on a concrete catalog, walking every doll, every
/// slot, and every candidate of every slot.
pub(crate) fn catalog_renderable(f: &paperdoll_tar::paperdoll::PaperdollFactory) -> (r: bool)
    ensures
        r == render_safe(*f),
{
    let doll_ids = all_doll_ids(f);
    let mut i: usize = 0;
    while i < doll_ids.len()
        invariant
            0 <= i <= doll_ids@.len(),
            forall|k: int| 0 <= k < i ==> doll_safe(doll_geometry(*f)[#[trigger] doll_ids@[k]]),
        decreases doll_ids@.len() - i,
    {
        let g = match lookup_doll_geometry(f, doll_ids[i]) {
            None => {
                return false;
            },
            Some(g) => g,
        };
        if g.width > u32::MAX / 4 {
            return false;
        }
        proof {
            lemma_mul_bound(g.width as int, g.height as int, (u32::MAX / 4) as int, u32::MAX as int);
        }
        if (g.width as u64) * (g.height as u64) > (u32::MAX / 4) as u64 {
            return false;
        }
        if !image_dims_ok(g.image.width, g.image.height, g.image.len) {
            return false;
        }
        i = i + 1;
    }
    let slot_ids = all_slot_ids(f);
    let mut i: usize = 0;
    while i < slot_ids.len()
        invariant
            0 <= i <= slot_ids@.len(),
            forall|k: int| 0 <= k < i ==> slot_safe(*f, #[trigger] slot_ids@[k]),
        decreases slot_ids@.len() - i,
    {
        let sid = slot_ids[i];
        let sg = match lookup_slot_geometry(f, sid) {
            None => {
                return false;
            },
            Some(g) => g,
        };
        let slot = match lookup_slot(f, sid) {
            None => {
                return false;
            },
            Some(s) => s,
        };
        if sg.width > u32::MAX / 4 {
            return false;
        }
        let mut j: usize = 0;
        while j < slot.candidates.len()
            invariant
                0 <= j <= slot.candidates@.len(),
                forall|k: int|
                    0 <= k < j ==> candidate_safe(*f, sid, #[trigger] slot.candidates@[k]),
            decreases slot.candidates@.len() - j,
        {
            let c = slot.candidates[j];
            match lookup_fragment_geometry(f, c) {
                None => {},
                Some(fg) => {
                    if fg.len > 0 {
                        if sg.constrainted {
                            if !area_matches(sg.width, sg.height, fg.len) {
                                return false;
                            }
                        } else {
                            if !image_dims_ok(fg.width, fg.height, fg.len) {
                                return false;
                            }
                        }
                    }
                },
            }
            j = j + 1;
        }
        proof {
            assert(slot.candidates@ == slot_table(*f)[sid].1);
        }
        i = i + 1;
    }
    proof {
        assert forall|id: u32| #[trigger] doll_table(*f).contains_key(id) implies doll_safe(
            doll_geometry(*f)[id],
        ) by {
            assert(doll_ids@.contains(id));
            let k = choose|k: int| 0 <= k < doll_ids@.len() && doll_ids@[k] == id;
            assert(doll_safe(doll_geometry(*f)[doll_ids@[k]]));
        }
        assert forall|sid: u32| #[trigger] slot_table(*f).contains_key(sid) implies slot_safe(
            *f,
            sid,
        ) by {
            assert(slot_ids@.contains(sid));
            let k = choose|k: int| 0 <= k < slot_ids@.len() && slot_ids@[k] == sid;
            assert(slot_safe(*f, slot_ids@[k]));
        }
    }
    true
}

/// What the catalog's renderer produces for a doll and a selection: the
/// composite image, or nothing where rendering reports an error. The
/// renderer reads only the factory's stored definitions and the selection
/// it is handed, so its result is a function of them alone.
pub uninterp spec fn render_result(
    f: paperdoll_tar::paperdoll::PaperdollFactory,
    doll_id: u32,
    sel: Map<u32, u32>,
) -> Option<RasterImage>;

/// Relies on `PaperdollFactory::render`: composites the doll background and
/// the fragments selected in `slot_map` into one raster image, reading the
/// selection only through lookups by slot id. The preconditions exclude the
/// catalogs and selections on which the renderer's 32-bit size arithmetic
/// can overflow or a pixel buffer can be sliced past its end; on every
/// other input the call returns normally, with `render_result` naming its
/// outcome.
#[verifier::external_body]
pub(crate) fn render_image(
    f: &paperdoll_tar::paperdoll::PaperdollFactory,
    doll_id: u32,
    slot_map: &HashMap<u32, u32>,
) -> (r: Result<RasterImage, anyhow::Error>)
    requires
        render_safe(*f),
        forall|s: u32|
            #[trigger] slot_map@.contains_key(s) && slot_table(*f).contains_key(s) ==> slot_table(
                *f,
            )[s].1.contains(slot_map@[s]),
    ensures
        match r {
            Ok(img) => render_result(*f, doll_id, slot_map@) == Some(img),
            Err(_) => render_result(*f, doll_id, slot_map@) is None,
        },
{
    match f.render(doll_id, slot_map) {
        Ok(img) => Ok(RasterImage { width: img.width, height: img.height, pixels: img.pixels }),
        Err(e) => Err(e),
    }
}

} // verus!
