//! A cache of per-material texture data, keyed by material id.
//!
//! Texture decoding never grew beyond a placeholder in this renderer: the
//! cached datum is a single byte and its loader returns zero.

use vstd::prelude::*;

use std::collections::HashMap;

use crate::material::Material;

verus! {

pub struct TextureLoader {
    pub textures: HashMap<usize, u8>,
}

impl TextureLoader {
    pub fn new() -> (r: TextureLoader)
        ensures
            r.textures@ == Map::<usize, u8>::empty(),
    {
        TextureLoader { textures: HashMap::new() }
    }

    /// Cache the texture datum for the material id, loading it on first use.
    pub fn load_texture(&mut self, id: usize, mat_info: &Material)
        ensures
            final(self).textures@ == if old(self).textures@.dom().contains(id) {
                old(self).textures@
            } else {
                old(self).textures@.insert(id, 0u8)
            },
    {
        if !self.textures.contains_key(&id) {
            let data: u8 = load_data(mat_info);
            self.textures.insert(id, data);
        }
    }
}

/// Decode the texture datum of a material: a placeholder that yields zero.
pub fn load_data(_mat_info: &Material) -> (r: u8)
    ensures
        r == 0,
{
    0
}

} // verus!
