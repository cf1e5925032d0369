//! The resource store: named, GPU-backed assets — linked shader
//! programs and uploaded textures — keyed by the hash of a
//! human-readable name. Lookups are total (a name never registered
//! reports "not found" instead of crashing), registration refuses a
//! key already taken instead of silently replacing it, and shutdown
//! hands every native handle back exactly once so the caller can
//! release it while the graphics context is still alive.

use vstd::prelude::*;
use crate::shader::Shader;
use crate::texture::Texture;

verus! {

/// The hash the store keys a resource name by: what fnv::FnvHasher
/// reports after the name's characters are fed through it. A function
/// of the characters alone — identical names always map to identical
/// keys within and across processes.
pub uninterp spec fn name_hash(name: Seq<char>) -> u64;

/// Relies on fnv::FnvHasher (the 64-bit FNV-1a hash, starting from a
/// fixed offset basis) and str's Hash impl, which feeds it the
/// name's bytes: a deterministic, unseeded function of the name alone.
#[verifier::external_body]
fn fnv_hash_str(name: &str) -> (r: u64)
    ensures
        r == name_hash(name@),
{
    let mut hasher = fnv::FnvHasher::default();
    std::hash::Hash::hash(name, &mut hasher);
    std::hash::Hasher::finish(&hasher)
}

/// A stable, order-independent handle for a named resource: the hash
/// of the name it was registered under.
#[derive(Clone, Copy, Debug, PartialEq, Eq, PartialOrd, Ord, Hash, Structural)]
pub struct ResourceID(u64);

impl ResourceID {
    /// The key this handle stands for.
    pub closed spec fn hash_value(self) -> u64 {
        self.0
    }

    /// The handle for a resource name.
    pub fn from_name(name: &str) -> (r: ResourceID)
        ensures
            r.hash_value() == name_hash(name@),
    {
        ResourceID(fnv_hash_str(name))
    }
}

/// Why the store refused an operation.
#[derive(Clone, Copy, Debug, PartialEq, Eq, Structural)]
pub enum ResourceError {
    /// A byte stream did not decode as an image of the expected format.
    DecodeFailed,
    /// A decoded pixel buffer did not hold exactly its stated
    /// dimensions' worth of bytes.
    SizeMismatch,
    /// A registration under a key the store already holds.
    DuplicateResource,
}

/// No key occurs twice in an association list.
pub open spec fn keys_unique<T>(s: Seq<(u64, T)>) -> bool {
    forall|i: int, j: int| 0 <= i < j < s.len() ==> (#[trigger] s[i]).0 != (#[trigger] s[j]).0
}

/// The mapping an association list holds; a later entry would win,
/// though the store never keeps two entries with one key.
pub open spec fn pairs_map<T>(s: Seq<(u64, T)>) -> Map<u64, T>
    decreases s.len(),
{
    if s.len() == 0 {
        Map::empty()
    } else {
        pairs_map(s.drop_last()).insert(s.last().0, s.last().1)
    }
}

/// A key is in the mapping exactly when some entry carries it.
pub proof fn lemma_pairs_map_contains<T>(s: Seq<(u64, T)>, k: u64)
    ensures
        pairs_map(s).contains_key(k) <==> exists|i: int|
            0 <= i < s.len() && (#[trigger] s[i]).0 == k,
    decreases s.len(),
{
    if s.len() > 0 {
        lemma_pairs_map_contains(s.drop_last(), k);
        if s.last().0 == k {
            assert(s[s.len() - 1].0 == k);
        } else if pairs_map(s).contains_key(k) {
            let i = choose|i: int| 0 <= i < s.drop_last().len() && (#[trigger] s.drop_last()[i]).0
                == k;
            assert(s[i].0 == k);
        } else if exists|i: int| 0 <= i < s.len() && (#[trigger] s[i]).0 == k {
            let i = choose|i: int| 0 <= i < s.len() && (#[trigger] s[i]).0 == k;
            assert(s.drop_last()[i].0 == k);
        }
    }
}

/// With unique keys, the mapping at an entry's key is that entry's
/// value.
pub proof fn lemma_pairs_map_at<T>(s: Seq<(u64, T)>, i: int)
    requires
        keys_unique(s),
        0 <= i < s.len(),
    ensures
        pairs_map(s).contains_key(s[i].0),
        pairs_map(s)[s[i].0] == s[i].1,
    decreases s.len(),
{
    if i == s.len() - 1 {
    } else {
        assert(keys_unique(s.drop_last())) by {
            assert forall|x: int, y: int| 0 <= x < y < s.drop_last().len() implies (
            #[trigger] s.drop_last()[x]).0 != (#[trigger] s.drop_last()[y]).0 by {
                assert(s[x].0 != s[y].0);
            }
        }
        lemma_pairs_map_at(s.drop_last(), i);
        assert(s.drop_last()[i] == s[i]);
        assert(s.last().0 != s[i].0);
    }
}

/// Appending a fresh key extends the mapping by exactly that entry.
pub proof fn lemma_pairs_map_push<T>(s: Seq<(u64, T)>, k: u64, v: T)
    ensures
        pairs_map(s.push((k, v))) == pairs_map(s).insert(k, v),
{
    assert(s.push((k, v)).drop_last() =~= s);
}

/// Every value the list holds appears among its values in entry order.
pub proof fn lemma_pairs_values_complete<T>(s: Seq<(u64, T)>, k: u64)
    requires
        keys_unique(s),
        pairs_map(s).contains_key(k),
    ensures
        s.map_values(|p: (u64, T)| p.1).contains(pairs_map(s)[k]),
{
    lemma_pairs_map_contains(s, k);
    let i = choose|i: int| 0 <= i < s.len() && (#[trigger] s[i]).0 == k;
    lemma_pairs_map_at(s, i);
    assert(s.map_values(|p: (u64, T)| p.1)[i] == s[i].1);
}

/// Owns the store's two mappings: shader programs and textures, each
/// keyed by hashed name.
pub struct ResourceManager {
    shaders: Vec<(u64, Shader)>,
    textures: Vec<(u64, Texture)>,
}

impl ResourceManager {
    /// The entries the store holds, in registration order.
    pub closed spec fn shaders_seq(self) -> Seq<(u64, Shader)> {
        self.shaders@
    }

    pub closed spec fn textures_seq(self) -> Seq<(u64, Texture)> {
        self.textures@
    }

    /// The shader mapping the store holds.
    pub open spec fn shaders_map(self) -> Map<u64, Shader> {
        pairs_map(self.shaders_seq())
    }

    /// The texture mapping the store holds.
    pub open spec fn textures_map(self) -> Map<u64, Texture> {
        pairs_map(self.textures_seq())
    }

    /// Each mapping keeps one entry per key.
    pub open spec fn wf(self) -> bool {
        keys_unique(self.shaders_seq()) && keys_unique(self.textures_seq())
    }

    /// An empty store.
    pub fn new() -> (m: ResourceManager)
        ensures
            m.wf(),
            m.shaders_seq() == Seq::<(u64, Shader)>::empty(),
            m.textures_seq() == Seq::<(u64, Texture)>::empty(),
            m.shaders_map() == Map::<u64, Shader>::empty(),
            m.textures_map() == Map::<u64, Texture>::empty(),
    {
        let m = ResourceManager { shaders: Vec::new(), textures: Vec::new() };
        proof {
            assert(m.shaders_map() =~= Map::<u64, Shader>::empty());
            assert(m.textures_map() =~= Map::<u64, Texture>::empty());
        }
        m
    }

    /// The shader registered under `id`, or `None` for a name never
    /// registered: the lookup is total rather than a crash on a
    /// missing key.
    pub fn get_shader(&self, id: ResourceID) -> (r: Option<Shader>)
        requires
            self.wf(),
        ensures
            r == if self.shaders_map().contains_key(id.hash_value()) {
                Some(self.shaders_map()[id.hash_value()])
            } else {
                None::<Shader>
            },
    {
        let key = id.0;
        let mut i: usize = 0;
        while i < self.shaders.len()
            invariant
                self.wf(),
                key == id.hash_value(),
                i <= self.shaders@.len(),
                forall|t: int| 0 <= t < i ==> (#[trigger] self.shaders@[t]).0 != key,
            decreases self.shaders@.len() - i,
        {
            let (k, v) = self.shaders[i];
            if k == key {
                proof {
                    lemma_pairs_map_at(self.shaders@, i as int);
                }
                return Some(v);
            }
            i = i + 1;
        }
        proof {
            lemma_pairs_map_contains(self.shaders@, key);
        }
        None
    }

    /// The texture registered under `id`, or `None` for a name never
    /// registered.
    pub fn get_texture(&self, id: ResourceID) -> (r: Option<Texture>)
        requires
            self.wf(),
        ensures
            r == if self.textures_map().contains_key(id.hash_value()) {
                Some(self.textures_map()[id.hash_value()])
            } else {
                None::<Texture>
            },
    {
        let key = id.0;
        let mut i: usize = 0;
        while i < self.textures.len()
            invariant
                self.wf(),
                key == id.hash_value(),
                i <= self.textures@.len(),
                forall|t: int| 0 <= t < i ==> (#[trigger] self.textures@[t]).0 != key,
            decreases self.textures@.len() - i,
        {
            let (k, v) = self.textures[i];
            if k == key {
                proof {
                    lemma_pairs_map_at(self.textures@, i as int);
                }
                return Some(v);
            }
            i = i + 1;
        }
        proof {
            lemma_pairs_map_contains(self.textures@, key);
        }
        None
    }

    /// Registers a shader under `id`. A key already taken is refused,
    /// leaving the store as it was: a hash collision within the asset
    /// set is detected rather than silently replacing a resource.
    pub fn register_shader(&mut self, id: ResourceID, s: Shader) -> (r: Result<
        (),
        ResourceError,
    >)
        requires
            old(self).wf(),
        ensures
            final(self).wf(),
            r matches Ok(()) ==> {
                &&& !old(self).shaders_map().contains_key(id.hash_value())
                &&& final(self).shaders_map() == old(self).shaders_map().insert(
                    id.hash_value(),
                    s,
                )
                &&& final(self).shaders_seq() == old(self).shaders_seq().push(
                    (id.hash_value(), s),
                )
                &&& final(self).textures_seq() == old(self).textures_seq()
            },
            r matches Err(e) ==> {
                &&& e == ResourceError::DuplicateResource
                &&& old(self).shaders_map().contains_key(id.hash_value())
                &&& final(self).shaders_seq() == old(self).shaders_seq()
                &&& final(self).textures_seq() == old(self).textures_seq()
            },
    {
        if self.get_shader(id).is_some() {
            return Err(ResourceError::DuplicateResource);
        }
        proof {
            lemma_pairs_map_contains(self.shaders@, id.hash_value());
            lemma_pairs_map_push(self.shaders@, id.hash_value(), s);
            assert forall|x: int, y: int|
                0 <= x < y < self.shaders@.push((id.hash_value(), s)).len() implies (
            #[trigger] self.shaders@.push((id.hash_value(), s))[x]).0 != (#[trigger] self.shaders@.push(
                (id.hash_value(), s),
            )[y]).0 by {
                if y < self.shaders@.len() {
                    assert(self.shaders@[x].0 != self.shaders@[y].0);
                } else {
                    assert(self.shaders@[x].0 != id.hash_value());
                }
            }
        }
        self.shaders.push((id.0, s));
        Ok(())
    }

    /// Registers a texture under `id`; a key already taken is refused,
    /// leaving the store as it was.
    pub fn register_texture(&mut self, id: ResourceID, t: Texture) -> (r: Result<
        (),
        ResourceError,
    >)
        requires
            old(self).wf(),
        ensures
            final(self).wf(),
            r matches Ok(()) ==> {
                &&& !old(self).textures_map().contains_key(id.hash_value())
                &&& final(self).textures_map() == old(self).textures_map().insert(
                    id.hash_value(),
                    t,
                )
                &&& final(self).textures_seq() == old(self).textures_seq().push(
                    (id.hash_value(), t),
                )
                &&& final(self).shaders_seq() == old(self).shaders_seq()
            },
            r matches Err(e) ==> {
                &&& e == ResourceError::DuplicateResource
                &&& old(self).textures_map().contains_key(id.hash_value())
                &&& final(self).shaders_seq() == old(self).shaders_seq()
                &&& final(self).textures_seq() == old(self).textures_seq()
            },
    {
        if self.get_texture(id).is_some() {
            return Err(ResourceError::DuplicateResource);
        }
        proof {
            lemma_pairs_map_contains(self.textures@, id.hash_value());
            lemma_pairs_map_push(self.textures@, id.hash_value(), t);
            assert forall|x: int, y: int|
                0 <= x < y < self.textures@.push((id.hash_value(), t)).len() implies (
            #[trigger] self.textures@.push((id.hash_value(), t))[x]).0 != (#[trigger] self.textures@.push(
                (id.hash_value(), t),
            )[y]).0 by {
                if y < self.textures@.len() {
                    assert(self.textures@[x].0 != self.textures@[y].0);
                } else {
                    assert(self.textures@[x].0 != id.hash_value());
                }
            }
        }
        self.textures.push((id.0, t));
        Ok(())
    }

    /// Registers the engine's fixed asset set under the names the
    /// render step looks up: the sprite and text shader programs and
    /// the face texture. Succeeds exactly when none of the keys is
    /// already taken and the two shader names hash apart; on refusal
    /// the store is left as it was.
    pub fn initialize(&mut self, sprite_shader: Shader, text_shader: Shader, face_texture: Texture)
        -> (r: Result<(), ResourceError>)
        requires
            old(self).wf(),
        ensures
            final(self).wf(),
            r matches Ok(()) <==> {
                &&& !old(self).shaders_map().contains_key(name_hash("sprite_shader"@))
                &&& !old(self).shaders_map().contains_key(name_hash("text_shader"@))
                &&& name_hash("sprite_shader"@) != name_hash("text_shader"@)
                &&& !old(self).textures_map().contains_key(name_hash("awesome_face"@))
            },
            r matches Ok(()) ==> {
                &&& final(self).shaders_map() == old(self).shaders_map().insert(
                    name_hash("sprite_shader"@),
                    sprite_shader,
                ).insert(name_hash("text_shader"@), text_shader)
                &&& final(self).textures_map() == old(self).textures_map().insert(
                    name_hash("awesome_face"@),
                    face_texture,
                )
            },
            r matches Err(e) ==> {
                &&& e == ResourceError::DuplicateResource
                &&& final(self).shaders_seq() == old(self).shaders_seq()
                &&& final(self).textures_seq() == old(self).textures_seq()
            },
    {
        let sprite_id = ResourceID::from_name("sprite_shader");
        let text_id = ResourceID::from_name("text_shader");
        let face_id = ResourceID::from_name("awesome_face");
        if self.get_shader(sprite_id).is_some() || self.get_shader(text_id).is_some() || sprite_id
            == text_id || self.get_texture(face_id).is_some() {
            return Err(ResourceError::DuplicateResource);
        }
        let r1 = self.register_shader(sprite_id, sprite_shader);
        proof {
            assert(r1 is Ok);
        }
        let r2 = self.register_shader(text_id, text_shader);
        proof {
            assert(r2 is Ok);
        }
        let r3 = self.register_texture(face_id, face_texture);
        proof {
            assert(r3 is Ok);
        }
        Ok(())
    }

    /// Empties both mappings and hands back every handle they held, in
    /// registration order, so the caller can release each against the
    /// still-living graphics context. After the call nothing remains
    /// registered.
    pub fn shutdown(&mut self) -> (r: (Vec<Shader>, Vec<Texture>))
        requires
            old(self).wf(),
        ensures
            final(self).wf(),
            final(self).shaders_map() == Map::<u64, Shader>::empty(),
            final(self).textures_map() == Map::<u64, Texture>::empty(),
            final(self).shaders_seq() == Seq::<(u64, Shader)>::empty(),
            final(self).textures_seq() == Seq::<(u64, Texture)>::empty(),
            r.0@ == old(self).shaders_seq().map_values(|p: (u64, Shader)| p.1),
            r.1@ == old(self).textures_seq().map_values(|p: (u64, Texture)| p.1),
    {
        let ghost old_shaders = self.shaders@;
        let ghost old_textures = self.textures@;
        let mut out_shaders: Vec<Shader> = Vec::new();
        let mut i: usize = 0;
        while i < self.shaders.len()
            invariant
                self.shaders@ == old_shaders,
                self.textures@ == old_textures,
                i <= old_shaders.len(),
                out_shaders@.len() == i,
                forall|t: int| 0 <= t < i ==> out_shaders@[t] == (#[trigger] old_shaders[t]).1,
            decreases old_shaders.len() - i,
        {
            let (_, v) = self.shaders[i];
            out_shaders.push(v);
            i = i + 1;
        }
        let mut out_textures: Vec<Texture> = Vec::new();
        let mut j: usize = 0;
        while j < self.textures.len()
            invariant
                self.textures@ == old_textures,
                j <= old_textures.len(),
                out_textures@.len() == j,
                forall|t: int| 0 <= t < j ==> out_textures@[t] == (#[trigger] old_textures[t]).1,
            decreases old_textures.len() - j,
        {
            let (_, v) = self.textures[j];
            out_textures.push(v);
            j = j + 1;
        }
        self.shaders = Vec::new();
        self.textures = Vec::new();
        proof {
            assert(out_shaders@ =~= old_shaders.map_values(|p: (u64, Shader)| p.1));
            assert(out_textures@ =~= old_textures.map_values(|p: (u64, Texture)| p.1));
            assert(self.shaders_map() =~= Map::<u64, Shader>::empty());
            assert(self.textures_map() =~= Map::<u64, Texture>::empty());
        }
        (out_shaders, out_textures)
    }
}

/// What registration promises every later lookup: the resource
/// registered under a key is found under exactly that key, and no
/// other key's binding is touched.
pub proof fn lemma_register_then_get<T>(
    before: Map<u64, T>,
    after: Map<u64, T>,
    id: u64,
    value: T,
    other: u64,
)
    requires
        after == before.insert(id, value),
        other != id,
    ensures
        after.contains_key(id),
        after[id] == value,
        after.contains_key(other) == before.contains_key(other),
        before.contains_key(other) ==> after[other] == before[other],
{
}

} // verus!
