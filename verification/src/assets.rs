//! Decoded asset content, as the external asset-loading collaborator
//! hands it over: raw pixels for images, per-frame pixels for video
//! clips, glyph metrics for fonts. The store maps a layer's source
//! reference to its content; an unresolved reference degrades that
//! layer only, never the render.

use vstd::prelude::*;

use crate::frame_buffer::PixelPatch;

verus! {

/// A decoded video clip: one patch per clip frame, at least one.
#[derive(Debug, Clone)]
pub struct VideoAsset {
    pub frames: Vec<PixelPatch>,
}

/// Glyph metrics of a (monospaced) font: the pixel box of one glyph
/// at the font's native size. Rasterizing outlines is the asset
/// collaborator's concern; the compositor draws metric-sized boxes.
#[derive(Debug, Clone, Copy, PartialEq, Eq, Structural)]
pub struct FontMetrics {
    pub glyph_width: u32,
    pub glyph_height: u32,
}

/// Decoded content for one source reference.
#[derive(Debug, Clone)]
pub enum Asset {
    Image(PixelPatch),
    Video(VideoAsset),
    Font(FontMetrics),
}

impl Asset {
    pub open spec fn wf(self) -> bool {
        match self {
            Asset::Image(p) => p.wf(),
            Asset::Video(v) => v.frames@.len() >= 1 && forall|i: int|
                0 <= i < v.frames@.len() ==> (#[trigger] v.frames@[i]).wf(),
            Asset::Font(f) => 1 <= f.glyph_width && 1 <= f.glyph_height,
        }
    }
}

/// All decoded assets of a render, keyed by source reference. Filled
/// before rendering starts and read-only for the render's duration.
#[derive(Debug, Clone)]
pub struct AssetStore {
    pub entries: Vec<(String, Asset)>,
}

impl AssetStore {
    pub open spec fn wf(self) -> bool {
        forall|i: int| 0 <= i < self.entries@.len() ==> (#[trigger] self.entries@[i]).1.wf()
    }

    /// The first entry named `name`, if any.
    pub open spec fn spec_lookup(entries: Seq<(String, Asset)>, name: Seq<char>) -> Option<
        Asset,
    >
        decreases entries.len(),
    {
        if entries.len() == 0 {
            None
        } else if entries[0].0@ == name {
            Some(entries[0].1)
        } else {
            Self::spec_lookup(entries.drop_first(), name)
        }
    }

    /// What this store resolves `name` to.
    pub open spec fn lookup_of(self, name: Seq<char>) -> Option<Asset> {
        Self::spec_lookup(self.entries@, name)
    }

    /// An empty store: nothing resolves.
    pub fn new() -> (r: AssetStore)
        ensures
            r.wf(),
            r.entries@.len() == 0,
            forall|name: Seq<char>| r.lookup_of(name) is None,
    {
        AssetStore { entries: Vec::new() }
    }

    /// Adds decoded content under `name`. An earlier entry with the
    /// same name keeps precedence: lookups return the first match.
    pub fn insert(&mut self, name: String, asset: Asset)
        requires
            old(self).wf(),
            asset.wf(),
        ensures
            final(self).wf(),
            final(self).entries@ == old(self).entries@.push((name, asset)),
    {
        self.entries.push((name, asset));
    }

    /// Resolves `name` to its decoded content, or nothing: exactly
    /// when [`AssetStore::lookup_of`] says so.
    pub fn lookup(&self, name: &String) -> (r: Option<&Asset>)
        ensures
            match r {
                Some(a) => self.lookup_of(name@) == Some(*a),
                None => self.lookup_of(name@) is None,
            },
    {
        let n = self.entries.len();
        let mut i: usize = 0;
        proof {
            assert(self.entries@.skip(0) =~= self.entries@);
        }
        while i < n
            invariant
                n == self.entries@.len(),
                i <= n,
                Self::spec_lookup(self.entries@, name@) == Self::spec_lookup(
                    self.entries@.skip(i as int),
                    name@,
                ),
            decreases n - i,
        {
            if self.entries[i].0.eq(name) {
                proof {
                    assert(self.entries@.skip(i as int)[0] == self.entries@[i as int]);
                }
                return Some(&self.entries[i].1);
            }
            proof {
                assert(self.entries@.skip(i as int).drop_first() =~= self.entries@.skip(
                    i as int + 1,
                ));
                assert(self.entries@.skip(i as int)[0] == self.entries@[i as int]);
            }
            i += 1;
        }
        proof {
            assert(self.entries@.skip(n as int) =~= Seq::<(String, Asset)>::empty());
        }
        None
    }
}

} // verus!
