//! Material blend modes and the material registry.
use std::collections::HashMap;
use vstd::prelude::*;
use vstd::std_specs::iter::IteratorSpec;

verus! {

/// How a material's fragments are blended with the framebuffer.
#[derive(Debug, Clone, Copy, PartialEq, Eq, Hash, Structural)]
pub enum BlendMode {
    /// Fully opaque — no alpha blending, writes depth.
    Opaque,
    /// Standard alpha blending (src_alpha / one_minus_src_alpha).
    AlphaBlend,
    /// Additive blending (src_alpha / one). Good for particles, glow.
    Additive,
}

/// The name of a blend mode, as written in assets and shown to users.
pub open spec fn spec_blend_name(m: BlendMode) -> Seq<char> {
    match m {
        BlendMode::Opaque => "Opaque"@,
        BlendMode::AlphaBlend => "AlphaBlend"@,
        BlendMode::Additive => "Additive"@,
    }
}

/// The blend mode a name stands for; any other name is `Opaque`.
pub open spec fn spec_parse_blend(s: Seq<char>) -> BlendMode {
    if s == "Opaque"@ {
        BlendMode::Opaque
    } else if s == "AlphaBlend"@ {
        BlendMode::AlphaBlend
    } else if s == "Additive"@ {
        BlendMode::Additive
    } else {
        BlendMode::Opaque
    }
}

/// Whether two string slices hold the same characters.
fn str_equal(a: &str, b: &str) -> (r: bool)
    ensures
        r == (a@ == b@),
{
    let x = a.to_owned();
    let y = b.to_owned();
    x == y
}

impl Default for BlendMode {
    fn default() -> (r: Self)
        ensures
            r == BlendMode::Opaque,
    {
        BlendMode::Opaque
    }
}

impl BlendMode {
    /// The mode's name.
    pub fn as_str(&self) -> (r: &'static str)
        ensures
            r@ == spec_blend_name(*self),
    {
        match self {
            BlendMode::Opaque => "Opaque",
            BlendMode::AlphaBlend => "AlphaBlend",
            BlendMode::Additive => "Additive",
        }
    }

    /// The mode with the given name; unknown names give `Opaque`.
    pub fn parse_str(s: &str) -> (r: Self)
        ensures
            r == spec_parse_blend(s@),
    {
        if str_equal(s, "Opaque") {
            BlendMode::Opaque
        } else if str_equal(s, "AlphaBlend") {
            BlendMode::AlphaBlend
        } else if str_equal(s, "Additive") {
            BlendMode::Additive
        } else {
            BlendMode::Opaque
        }
    }

    /// The mode's name as an owned string (its display form).
    pub fn to_string(&self) -> (r: String)
        ensures
            r@ == spec_blend_name(*self),
    {
        self.as_str().to_owned()
    }
}

/// Parsing a mode's name gives the mode back.
pub proof fn lemma_blend_name_round_trip(m: BlendMode)
    ensures
        spec_parse_blend(spec_blend_name(m)) == m,
{
    reveal_strlit("Opaque");
    reveal_strlit("AlphaBlend");
    reveal_strlit("Additive");
    assert("Opaque"@.len() == 6);
    assert("AlphaBlend"@.len() == 10);
    assert("Additive"@.len() == 8);
}

/// Distinct modes have distinct names.
pub proof fn lemma_blend_names_distinct(a: BlendMode, b: BlendMode)
    ensures
        spec_blend_name(a) == spec_blend_name(b) ==> a == b,
{
    lemma_blend_name_round_trip(a);
    lemma_blend_name_round_trip(b);
}

/// A registry of materials keyed by `u64` handles. It always holds the
/// material of its default handle, which cannot be removed.
pub struct MaterialLibrary<M> {
    materials: HashMap<u64, M>,
    default_handle: u64,
}

impl<M> MaterialLibrary<M> {
    /// The materials held, by handle.
    pub closed spec fn spec_materials(&self) -> Map<u64, M> {
        self.materials@
    }

    pub closed spec fn spec_default_handle(&self) -> u64 {
        self.default_handle
    }

    /// The default material is always present, among finitely many.
    pub open spec fn wf(&self) -> bool {
        &&& self.spec_materials().contains_key(self.spec_default_handle())
        &&& self.spec_materials().dom().finite()
    }

    /// A library holding only `default_material`, under `default_handle`.
    pub fn new(default_handle: u64, default_material: M) -> (lib: Self)
        ensures
            lib.wf(),
            lib.spec_default_handle() == default_handle,
            lib.spec_materials() == Map::<u64, M>::empty().insert(default_handle, default_material),
    {
        broadcast use vstd::std_specs::hash::group_hash_axioms;
        let mut materials: HashMap<u64, M> = HashMap::new();
        materials.insert(default_handle, default_material);
        MaterialLibrary { materials, default_handle }
    }

    /// Handle of the built-in default material.
    pub fn default_handle(&self) -> (h: u64)
        ensures
            h == self.spec_default_handle(),
    {
        self.default_handle
    }

    /// Stores `material` under `handle`, replacing any material held there
    /// (the default one included).
    pub fn insert(&mut self, handle: u64, material: M)
        requires
            old(self).wf(),
        ensures
            final(self).wf(),
            final(self).spec_default_handle() == old(self).spec_default_handle(),
            final(self).spec_materials() == old(self).spec_materials().insert(handle, material),
    {
        broadcast use vstd::std_specs::hash::group_hash_axioms;
        self.materials.insert(handle, material);
    }

    /// Stores a new material under `handle`, a fresh id the caller drew for
    /// it, and returns that handle.
    pub fn create(&mut self, handle: u64, material: M) -> (h: u64)
        requires
            old(self).wf(),
        ensures
            final(self).wf(),
            h == handle,
            final(self).spec_default_handle() == old(self).spec_default_handle(),
            final(self).spec_materials() == old(self).spec_materials().insert(handle, material),
    {
        self.insert(handle, material);
        handle
    }

    /// Replaces the material under `handle` when one is held there (true);
    /// otherwise nothing changes (false).
    pub fn update(&mut self, handle: u64, material: M) -> (found: bool)
        requires
            old(self).wf(),
        ensures
            final(self).wf(),
            found == old(self).spec_materials().contains_key(handle),
            final(self).spec_default_handle() == old(self).spec_default_handle(),
            found ==> final(self).spec_materials() == old(self).spec_materials().insert(handle, material),
            !found ==> final(self).spec_materials() == old(self).spec_materials(),
    {
        broadcast use vstd::std_specs::hash::group_hash_axioms;
        if self.materials.contains_key(&handle) {
            self.materials.insert(handle, material);
            true
        } else {
            false
        }
    }

    /// The handles of all materials held, each once, in no particular order.
    pub fn handles(&self) -> (r: Vec<u64>)
        ensures
            r@.to_set() == self.spec_materials().dom(),
            r@.no_duplicates(),
            r@.len() == self.spec_materials().dom().len(),
    {
        broadcast use vstd::std_specs::hash::group_hash_axioms;
        let ghost ks = vstd::std_specs::hash::spec_keys_iter(&self.materials).remaining().unref();
        let mut r: Vec<u64> = Vec::new();
        for k in it: self.materials.keys()
            invariant
                ks == vstd::std_specs::hash::spec_keys_iter(&self.materials).remaining().unref(),
                it.seq().unref() == ks,
                r@ == ks.take(it.index() as int),
        {
            proof {
                assert(ks.take(it.index() + 1) =~= ks.take(it.index() as int).push(*k));
            }
            r.push(*k);
        }
        assert(r@ =~= ks);
        r
    }

    /// The material under `handle`, if any.
    pub fn get(&self, handle: u64) -> (r: Option<&M>)
        ensures
            self.spec_materials().contains_key(handle) ==> r == Some(&self.spec_materials()[handle]),
            !self.spec_materials().contains_key(handle) ==> r.is_none(),
    {
        broadcast use vstd::std_specs::hash::group_hash_axioms;
        self.materials.get(&handle)
    }

    /// Whether a material is held under `handle`.
    pub fn contains(&self, handle: u64) -> (b: bool)
        ensures
            b == self.spec_materials().contains_key(handle),
    {
        broadcast use vstd::std_specs::hash::group_hash_axioms;
        self.materials.contains_key(&handle)
    }

    /// Removes and returns the material under `handle`. The default material
    /// cannot be removed: for its handle the answer is `None` and nothing
    /// changes.
    pub fn remove(&mut self, handle: u64) -> (r: Option<M>)
        requires
            old(self).wf(),
        ensures
            final(self).wf(),
            final(self).spec_default_handle() == old(self).spec_default_handle(),
            handle == old(self).spec_default_handle() ==> r.is_none() && final(self).spec_materials()
                == old(self).spec_materials(),
            handle != old(self).spec_default_handle() ==> final(self).spec_materials() == old(
                self,
            ).spec_materials().remove(handle) && (if old(self).spec_materials().contains_key(handle) {
                r == Some(old(self).spec_materials()[handle])
            } else {
                r.is_none()
            }),
    {
        broadcast use vstd::std_specs::hash::group_hash_axioms;
        if handle == self.default_handle {
            return None;
        }
        self.materials.remove(&handle)
    }

    /// Number of materials held, the default one included.
    pub fn len(&self) -> (n: usize)
        ensures
            n == self.spec_materials().len(),
    {
        broadcast use vstd::std_specs::hash::group_hash_axioms;
        self.materials.len()
    }

    /// Whether nothing is held; never the case for a library that keeps its
    /// invariant.
    pub fn is_empty(&self) -> (b: bool)
        requires
            self.wf(),
        ensures
            b == (self.spec_materials().len() == 0),
            !b,
    {
        broadcast use vstd::std_specs::hash::group_hash_axioms;
        proof {
            assert(self.spec_materials().dom().contains(self.spec_default_handle()));
            vstd::set_lib::lemma_set_empty_equivalency_len(self.spec_materials().dom());
        }
        self.materials.is_empty()
    }

    /// The material to upload for `handle`: its own, or the default material
    /// when the handle is unknown.
    pub fn material_for(&self, handle: u64) -> (m: &M)
        requires
            self.wf(),
        ensures
            self.spec_materials().contains_key(handle) ==> *m == self.spec_materials()[handle],
            !self.spec_materials().contains_key(handle) ==> *m == self.spec_materials()[self.spec_default_handle()],
    {
        broadcast use vstd::std_specs::hash::group_hash_axioms;
        match self.materials.get(&handle) {
            Some(m) => m,
            None => self.materials.get(&self.default_handle).unwrap(),
        }
    }
}

/// A material inserted under a handle is what a later lookup of that handle
/// finds, and the default material survives both insertion and removal.
pub proof fn lemma_insert_then_get<M>(before: MaterialLibrary<M>, after: MaterialLibrary<M>, h: u64, v: M)
    requires
        before.wf(),
        after.spec_default_handle() == before.spec_default_handle(),
        after.spec_materials() == before.spec_materials().insert(h, v),
    ensures
        after.wf(),
        after.spec_materials().contains_key(h),
        after.spec_materials()[h] == v,
{
}

/// Removing a material held under a handle other than the default one
/// lowers the count by one; removing an absent one leaves it as it was.
pub proof fn lemma_remove_count<M>(before: MaterialLibrary<M>, after: MaterialLibrary<M>, h: u64)
    requires
        before.wf(),
        after.spec_materials() == before.spec_materials().remove(h),
    ensures
        before.spec_materials().contains_key(h) ==> after.spec_materials().len() + 1
            == before.spec_materials().len(),
        !before.spec_materials().contains_key(h) ==> after.spec_materials().len()
            == before.spec_materials().len(),
{
    if !before.spec_materials().contains_key(h) {
        assert(after.spec_materials() =~= before.spec_materials());
    }
}

/// Words of the per-draw material push constant block (48 bytes): the bit
/// patterns of metallic, roughness, emissive strength, the four albedo
/// components and the three emissive components, a zero padding word, and
/// the albedo texture's bindless index (-1, all bits set, when the material
/// has none).
pub fn material_push_words(float_bits: [u32; 10], albedo_texture: Option<u32>) -> (w: [u32; 12])
    ensures
        forall|i: int| 0 <= i < 10 ==> w@[i] == float_bits@[i],
        w@[10] == 0,
        w@[11] == match albedo_texture {
            Some(idx) => idx,
            None => u32::MAX,
        },
{
    let tex: u32 = match albedo_texture {
        Some(idx) => idx,
        None => u32::MAX,
    };
    [
        float_bits[0],
        float_bits[1],
        float_bits[2],
        float_bits[3],
        float_bits[4],
        float_bits[5],
        float_bits[6],
        float_bits[7],
        float_bits[8],
        float_bits[9],
        0,
        tex,
    ]
}

} // verus!
