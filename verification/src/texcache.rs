use vstd::prelude::*;

verus! {

/// One texture the engine has uploaded: its resolved path and the GPU
/// handle it got.
#[derive(Clone, Debug)]
pub struct Texture {
    pub path: String,
    pub id: u32,
}

/// A path-keyed texture cache.  Its invariant — one entry per distinct
/// path — is what guarantees at most one GPU upload per resolved path: a
/// caller may insert a path only after a lookup of it came back empty.
#[derive(Debug)]
pub struct TextureCache {
    pub textures: Vec<Texture>,
}

/// The handle cached under a path, if any.
pub open spec fn spec_tex_of(textures: Seq<Texture>, path: Seq<char>) -> Option<u32>
    decreases textures.len(),
{
    if textures.len() == 0 {
        None
    } else if textures[0].path@ == path {
        Some(textures[0].id)
    } else {
        spec_tex_of(textures.drop_first(), path)
    }
}

/// Every path appears at most once.
pub open spec fn cache_inv(textures: Seq<Texture>) -> bool {
    forall|i: int, j: int|
        0 <= i < j < textures.len() ==> (#[trigger] textures[i].path@) != (
        #[trigger] textures[j].path@)
}

impl TextureCache {
    /// An empty cache.
    pub fn new() -> (r: TextureCache)
        ensures
            r.textures@ == Seq::<Texture>::empty(),
            cache_inv(r.textures@),
    {
        TextureCache { textures: Vec::new() }
    }

    /// The handle uploaded for `path`, if one is cached.
    pub fn getTexture(&self, path: &str) -> (r: Option<u32>)
        ensures
            r == spec_tex_of(self.textures@, path@),
    {
        let mut i: usize = 0;
        proof {
            assert(self.textures@.skip(0) =~= self.textures@);
        }
        while i < self.textures.len()
            invariant
                i <= self.textures.len(),
                spec_tex_of(self.textures@, path@) == spec_tex_of(
                    self.textures@.skip(i as int),
                    path@,
                ),
            decreases self.textures.len() - i,
        {
            proof {
                assert(self.textures@.skip(i as int).drop_first() =~= self.textures@.skip(i + 1));
            }
            if crate::util::str_eq(self.textures[i].path.as_str(), path) {
                return Some(self.textures[i].id);
            }
            i += 1;
        }
        None
    }

    /// Records a fresh upload.  The path must not be cached yet, so each
    /// distinct path is uploaded at most once.
    pub fn insert(&mut self, path: &str, id: u32)
        requires
            cache_inv(old(self).textures@),
            spec_tex_of(old(self).textures@, path@) is None,
        ensures
            cache_inv(final(self).textures@),
            spec_tex_of(final(self).textures@, path@) == Some(id),
            final(self).textures@ == old(self).textures@.push(
                final(self).textures@.last(),
            ),
            final(self).textures@.last().path@ == path@,
            final(self).textures@.last().id == id,
    {
        let ghost before = self.textures@;
        self.textures.push(Texture { path: path.to_owned(), id });
        proof {
            lemma_tex_absent_means_no_key(before, path@);
            lemma_tex_lookup_append(before, self.textures@, path@, id);
            assert forall|i: int, j: int|
                0 <= i < j < self.textures@.len() implies (
            #[trigger] self.textures@[i].path@) != (#[trigger] self.textures@[j].path@) by {
                if j < before.len() {
                    assert(self.textures@[i] == before[i] && self.textures@[j] == before[j]);
                } else {
                    assert(self.textures@[i] == before[i]);
                    assert(self.textures@[j].path@ == path@);
                }
            }
        }
    }
}

/// An empty lookup means no entry carries the key.
proof fn lemma_tex_absent_means_no_key(textures: Seq<Texture>, path: Seq<char>)
    requires
        spec_tex_of(textures, path) is None,
    ensures
        forall|i: int| 0 <= i < textures.len() ==> (#[trigger] textures[i].path@) != path,
    decreases textures.len(),
{
    if textures.len() > 0 {
        lemma_tex_absent_means_no_key(textures.drop_first(), path);
        assert forall|i: int|
            0 <= i < textures.len() implies (#[trigger] textures[i].path@) != path by {
            if i > 0 {
                assert(textures.drop_first()[i - 1] == textures[i]);
            }
        }
    }
}

/// Appending a fresh key binds that key to the appended handle.
proof fn lemma_tex_lookup_append(
    before: Seq<Texture>,
    after: Seq<Texture>,
    path: Seq<char>,
    id: u32,
)
    requires
        after.len() == before.len() + 1,
        forall|k: int| 0 <= k < before.len() ==> after[k] == before[k],
        after.last().path@ == path,
        after.last().id == id,
        forall|k: int| 0 <= k < before.len() ==> (#[trigger] before[k].path@) != path,
    ensures
        spec_tex_of(after, path) == Some(id),
    decreases before.len(),
{
    if before.len() == 0 {
        assert(after[0] == after.last());
    } else {
        assert(after[0] == before[0]);
        assert(after.drop_first().last() == after.last());
        lemma_tex_lookup_append(before.drop_first(), after.drop_first(), path, id);
    }
}

} // verus!
