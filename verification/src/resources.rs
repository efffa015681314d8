//! The application resource cache: lazily resolved image, font and text
//! assets keyed by opaque handles, with CSS-id aliasing for images and fonts.
//!
//! Identity allocation is separate from content resolution: a CSS id binds a
//! string to a stable handle, and the bytes behind the handle are resolved on
//! first request and cached — as loaded bytes or as a cached failure. A
//! resolution failure is reported, not retried: only a fresh `add` with a new
//! source attempts again.
//!
//! File-backed sources need the file system, which this library never touches
//! itself: a driver asks for the path of a pending file-backed entry with
//! `pending_image_file` / `pending_font_file`, reads it, and hands the
//! contents back through `resolve_image_file` / `resolve_font_file`. Asking
//! for the bytes of a file-backed entry whose contents were never supplied
//! caches a `SourceNotFetched` failure.

use vstd::prelude::*;
use crate::handles::{ImageId, FontId, TextId, IdCounter};
use crate::uidmap::UidMap;
use crate::strmap::StrMap;

verus! {

/// Why resolving an image source failed. The failure is cached: once
/// reported, every later request returns the same value.
#[derive(Copy, Clone, Debug, PartialEq, Eq, Structural)]
pub enum ImageReloadError {
    /// The source file does not exist.
    SourceNotFound,
    /// The source file exists but could not be read, or is corrupt.
    SourceUnreadable,
    /// The source bytes are in no supported encoding.
    DecodeUnsupported,
    /// The source is file-backed and its contents were never supplied.
    SourceNotFetched,
}

/// Why resolving a font source failed. Same categories as for images.
#[derive(Copy, Clone, Debug, PartialEq, Eq, Structural)]
pub enum FontReloadError {
    /// The source file does not exist.
    SourceNotFound,
    /// The source file exists but could not be read, or is corrupt.
    SourceUnreadable,
    /// The source bytes are in no supported encoding.
    DecodeUnsupported,
    /// The source is file-backed and its contents were never supplied.
    SourceNotFetched,
}

/// Where the bytes of an image come from.
pub enum ImageSource {
    /// Bytes compiled into the program.
    Embedded(Vec<u8>),
    /// A file path; the contents are supplied by the driver.
    File(String),
    /// An already-decoded raw buffer.
    Raw(Vec<u8>),
}

/// Where the bytes of a font come from; the integer is the font index inside
/// a multi-face container.
pub enum FontSource {
    /// Bytes compiled into the program, and the font index.
    Embedded(Vec<u8>, u32),
    /// A file path and the font index; the contents are supplied by the driver.
    File(String, u32),
}

/// State of a cached image: not yet resolved, resolved to bytes, or a cached
/// resolution failure.
pub enum ImageEntry {
    Pending(ImageSource),
    Loaded(Vec<u8>),
    Failed(ImageReloadError),
}

/// State of a cached font; a loaded font carries its font index.
pub enum FontEntry {
    Pending(FontSource),
    Loaded(Vec<u8>, u32),
    Failed(FontReloadError),
}

/// Mathematical model of an image source.
pub enum ImageSourceModel {
    Embedded(Seq<u8>),
    File(Seq<char>),
    Raw(Seq<u8>),
}

/// Mathematical model of an image cache entry.
pub enum ImageModel {
    Pending(ImageSourceModel),
    Loaded(Seq<u8>),
    Failed(ImageReloadError),
}

/// Mathematical model of a font cache entry.
pub enum FontModel {
    Pending(FontSourceModel),
    Loaded(Seq<u8>, u32),
    Failed(FontReloadError),
}

/// Mathematical model of a font source.
pub enum FontSourceModel {
    Embedded(Seq<u8>, u32),
    File(Seq<char>, u32),
}

pub open spec fn image_source_model(s: ImageSource) -> ImageSourceModel {
    match s {
        ImageSource::Embedded(b) => ImageSourceModel::Embedded(b@),
        ImageSource::File(p) => ImageSourceModel::File(p@),
        ImageSource::Raw(b) => ImageSourceModel::Raw(b@),
    }
}

pub open spec fn image_entry_model(e: ImageEntry) -> ImageModel {
    match e {
        ImageEntry::Pending(s) => ImageModel::Pending(image_source_model(s)),
        ImageEntry::Loaded(b) => ImageModel::Loaded(b@),
        ImageEntry::Failed(err) => ImageModel::Failed(err),
    }
}

pub open spec fn font_source_model(s: FontSource) -> FontSourceModel {
    match s {
        FontSource::Embedded(b, i) => FontSourceModel::Embedded(b@, i),
        FontSource::File(p, i) => FontSourceModel::File(p@, i),
    }
}

pub open spec fn font_entry_model(e: FontEntry) -> FontModel {
    match e {
        FontEntry::Pending(s) => FontModel::Pending(font_source_model(s)),
        FontEntry::Loaded(b, i) => FontModel::Loaded(b@, i),
        FontEntry::Failed(err) => FontModel::Failed(err),
    }
}

/// What resolving an image entry leaves in the cache: an embedded or raw
/// source becomes its bytes, a file-backed source whose contents were never
/// supplied becomes a cached failure, and an already-resolved entry stays.
pub open spec fn resolve_image_model(m: ImageModel) -> ImageModel {
    match m {
        ImageModel::Pending(src) => match src {
            ImageSourceModel::Embedded(b) => ImageModel::Loaded(b),
            ImageSourceModel::Raw(b) => ImageModel::Loaded(b),
            ImageSourceModel::File(_) => ImageModel::Failed(ImageReloadError::SourceNotFetched),
        },
        ImageModel::Loaded(b) => ImageModel::Loaded(b),
        ImageModel::Failed(err) => ImageModel::Failed(err),
    }
}

/// The value a bytes request reports for a resolved image entry.
pub open spec fn image_outcome(m: ImageModel) -> Result<Seq<u8>, ImageReloadError> {
    match m {
        ImageModel::Loaded(b) => Ok(b),
        ImageModel::Failed(err) => Err(err),
        ImageModel::Pending(_) => Err(ImageReloadError::SourceNotFetched),
    }
}

/// What resolving a font entry leaves in the cache.
pub open spec fn resolve_font_model(m: FontModel) -> FontModel {
    match m {
        FontModel::Pending(src) => match src {
            FontSourceModel::Embedded(b, i) => FontModel::Loaded(b, i),
            FontSourceModel::File(_, _) => FontModel::Failed(FontReloadError::SourceNotFetched),
        },
        FontModel::Loaded(b, i) => FontModel::Loaded(b, i),
        FontModel::Failed(err) => FontModel::Failed(err),
    }
}

/// The value a bytes request reports for a resolved font entry.
pub open spec fn font_outcome(m: FontModel) -> Result<(Seq<u8>, u32), FontReloadError> {
    match m {
        FontModel::Loaded(b, i) => Ok((b, i)),
        FontModel::Failed(err) => Err(err),
        FontModel::Pending(_) => Err(FontReloadError::SourceNotFetched),
    }
}

/// The resource cache: every loaded or pending asset, keyed by handle, with
/// the CSS-id bindings and the counters that issue fresh handles.
pub struct AppResources {
    pub images: UidMap<ImageEntry>,
    pub fonts: UidMap<FontEntry>,
    pub texts: UidMap<String>,
    pub css_image_ids: StrMap,
    pub css_font_ids: StrMap,
    pub image_counter: IdCounter,
    pub font_counter: IdCounter,
    pub text_counter: IdCounter,
}

impl AppResources {
    /// Well-formedness: the maps are well-formed and every live handle —
    /// cache key or CSS binding — was issued by its counter, so a fresh
    /// handle never collides with a live one.
    pub open spec fn wf(&self) -> bool {
        &&& self.images.wf()
        &&& self.fonts.wf()
        &&& self.texts.wf()
        &&& self.css_image_ids.wf()
        &&& self.css_font_ids.wf()
        &&& forall|k: u64|
            #[trigger] self.images.contains_key(k) ==> k < self.image_counter.next_id
        &&& forall|k: u64| #[trigger] self.fonts.contains_key(k) ==> k < self.font_counter.next_id
        &&& forall|k: u64| #[trigger] self.texts.contains_key(k) ==> k < self.text_counter.next_id
        &&& forall|s: Seq<char>|
            #[trigger] self.css_image_ids.contains_key(s) ==> self.css_image_ids.val(s)
                < self.image_counter.next_id
        &&& forall|s: Seq<char>|
            #[trigger] self.css_font_ids.contains_key(s) ==> self.css_font_ids.val(s)
                < self.font_counter.next_id
    }

    pub open spec fn has_image_spec(&self, id: ImageId) -> bool {
        self.images.contains_key(id.id)
    }

    pub open spec fn image_entry(&self, id: ImageId) -> ImageEntry {
        self.images.val(id.id)
    }

    pub open spec fn has_font_spec(&self, id: FontId) -> bool {
        self.fonts.contains_key(id.id)
    }

    pub open spec fn font_entry(&self, id: FontId) -> FontEntry {
        self.fonts.val(id.id)
    }

    pub open spec fn has_text_spec(&self, id: TextId) -> bool {
        self.texts.contains_key(id.id)
    }

    pub open spec fn text_of(&self, id: TextId) -> Seq<char> {
        self.texts.val(id.id)@
    }

    pub open spec fn has_css_image_id_spec(&self, s: Seq<char>) -> bool {
        self.css_image_ids.contains_key(s)
    }

    pub open spec fn css_image_id_spec(&self, s: Seq<char>) -> u64 {
        self.css_image_ids.val(s)
    }

    pub open spec fn has_css_font_id_spec(&self, s: Seq<char>) -> bool {
        self.css_font_ids.contains_key(s)
    }

    pub open spec fn css_font_id_spec(&self, s: Seq<char>) -> u64 {
        self.css_font_ids.val(s)
    }

    /// The parts a request for image bytes never touches.
    pub open spec fn non_image_parts_unchanged(pre: AppResources, post: AppResources) -> bool {
        &&& post.fonts == pre.fonts
        &&& post.texts == pre.texts
        &&& post.css_image_ids == pre.css_image_ids
        &&& post.css_font_ids == pre.css_font_ids
        &&& post.image_counter == pre.image_counter
        &&& post.font_counter == pre.font_counter
        &&& post.text_counter == pre.text_counter
    }

    /// The parts a request for font bytes never touches.
    pub open spec fn non_font_parts_unchanged(pre: AppResources, post: AppResources) -> bool {
        &&& post.images == pre.images
        &&& post.texts == pre.texts
        &&& post.css_image_ids == pre.css_image_ids
        &&& post.css_font_ids == pre.css_font_ids
        &&& post.image_counter == pre.image_counter
        &&& post.font_counter == pre.font_counter
        &&& post.text_counter == pre.text_counter
    }

    pub fn new() -> (r: AppResources)
        ensures
            r.wf(),
            r.images@.len() == 0,
            r.fonts@.len() == 0,
            r.texts@.len() == 0,
            r.css_image_ids@.len() == 0,
            r.css_font_ids@.len() == 0,
    {
        AppResources {
            images: UidMap::new(),
            fonts: UidMap::new(),
            texts: UidMap::new(),
            css_image_ids: StrMap::new(),
            css_font_ids: StrMap::new(),
            image_counter: IdCounter::new(),
            font_counter: IdCounter::new(),
            text_counter: IdCounter::new(),
        }
    }

    /// Issues a fresh image handle: strictly above every handle issued
    /// before, so it is neither a cache key nor a CSS binding yet.
    pub fn new_image_id(&mut self) -> (r: ImageId)
        requires
            old(self).wf(),
            old(self).image_counter.next_id < u64::MAX,
        ensures
            final(self).wf(),
            r.id == old(self).image_counter.next_id,
            final(self).image_counter.next_id == old(self).image_counter.next_id + 1,
            !old(self).has_image_spec(r),
            final(self).images == old(self).images,
            final(self).fonts == old(self).fonts,
            final(self).texts == old(self).texts,
            final(self).css_image_ids == old(self).css_image_ids,
            final(self).css_font_ids == old(self).css_font_ids,
            final(self).font_counter == old(self).font_counter,
            final(self).text_counter == old(self).text_counter,
    {
        let raw = self.image_counter.next();
        ImageId { id: raw }
    }

    /// Issues a fresh font handle.
    pub fn new_font_id(&mut self) -> (r: FontId)
        requires
            old(self).wf(),
            old(self).font_counter.next_id < u64::MAX,
        ensures
            final(self).wf(),
            r.id == old(self).font_counter.next_id,
            final(self).font_counter.next_id == old(self).font_counter.next_id + 1,
            !old(self).has_font_spec(r),
            final(self).images == old(self).images,
            final(self).fonts == old(self).fonts,
            final(self).texts == old(self).texts,
            final(self).css_image_ids == old(self).css_image_ids,
            final(self).css_font_ids == old(self).css_font_ids,
            final(self).image_counter == old(self).image_counter,
            final(self).text_counter == old(self).text_counter,
    {
        let raw = self.font_counter.next();
        FontId { id: raw }
    }

    /// Inserts or replaces the image entry under `image_id` as a pending
    /// source. No error: an invalid source is detected at resolution time.
    pub fn add_image(&mut self, image_id: ImageId, source: ImageSource)
        requires
            old(self).wf(),
            image_id.id < old(self).image_counter.next_id,
        ensures
            final(self).wf(),
            final(self).has_image_spec(image_id),
            final(self).image_entry(image_id) == ImageEntry::Pending(source),
            forall|k2: u64|
                k2 != image_id.id ==> #[trigger] final(self).images.contains_key(k2) == old(self).images.contains_key(k2),
            forall|k2: u64|
                k2 != image_id.id && old(self).images.contains_key(k2) ==> #[trigger] final(self).images.val(k2) == old(self).images.val(k2),
            Self::non_image_parts_unchanged(*old(self), *final(self)),
    {
        self.images.insert(image_id.id, ImageEntry::Pending(source));
    }

    /// Inserts an already-decoded raw buffer as a pending image entry.
    pub fn add_image_raw(&mut self, image_id: ImageId, bytes: Vec<u8>)
        requires
            old(self).wf(),
            image_id.id < old(self).image_counter.next_id,
        ensures
            final(self).wf(),
            final(self).has_image_spec(image_id),
            final(self).image_entry(image_id) == ImageEntry::Pending(ImageSource::Raw(bytes)),
            forall|k2: u64|
                k2 != image_id.id ==> #[trigger] final(self).images.contains_key(k2) == old(self).images.contains_key(k2),
            forall|k2: u64|
                k2 != image_id.id && old(self).images.contains_key(k2) ==> #[trigger] final(self).images.val(k2) == old(self).images.val(k2),
            Self::non_image_parts_unchanged(*old(self), *final(self)),
    {
        self.add_image(image_id, ImageSource::Raw(bytes));
    }

    /// True exactly when any entry — pending, loaded or failed — exists for
    /// the handle.
    pub fn has_image(&self, image_id: &ImageId) -> (r: bool)
        requires
            self.wf(),
        ensures
            r == self.has_image_spec(*image_id),
    {
        self.images.has(image_id.id)
    }

    /// Removes the image entry unconditionally; a later request for its
    /// bytes reports an unknown handle.
    pub fn delete_image(&mut self, image_id: &ImageId)
        requires
            old(self).wf(),
        ensures
            final(self).wf(),
            !final(self).has_image_spec(*image_id),
            forall|k2: u64|
                k2 != image_id.id ==> #[trigger] final(self).images.contains_key(k2) == old(self).images.contains_key(k2),
            forall|k2: u64|
                k2 != image_id.id && old(self).images.contains_key(k2) ==> #[trigger] final(self).images.val(k2) == old(self).images.val(k2),
            Self::non_image_parts_unchanged(*old(self), *final(self)),
    {
        let _ = self.images.remove(image_id.id);
    }

    /// The path of a file-backed pending image entry, or `None` when the
    /// entry is absent, already resolved, or not file-backed. A driver reads
    /// the path and supplies the contents through `resolve_image_file`.
    pub fn pending_image_file(&self, image_id: &ImageId) -> (r: Option<&String>)
        requires
            self.wf(),
        ensures
            match r {
                Some(p) => self.has_image_spec(*image_id) && image_entry_model(
                    self.image_entry(*image_id),
                ) == ImageModel::Pending(ImageSourceModel::File(p@)),
                None => !self.has_image_spec(*image_id) || !(image_entry_model(
                    self.image_entry(*image_id),
                ) matches ImageModel::Pending(ImageSourceModel::File(_))),
            },
    {
        match self.images.get(image_id.id) {
            Some(entry) => match entry {
                ImageEntry::Pending(ImageSource::File(p)) => Some(p),
                _ => None,
            },
            None => None,
        }
    }

    /// Commits the contents a driver read for a file-backed pending image
    /// entry: the entry becomes loaded bytes or a cached failure. Any other
    /// entry state is left exactly as it is.
    pub fn resolve_image_file(
        &mut self,
        image_id: &ImageId,
        contents: Result<Vec<u8>, ImageReloadError>,
    )
        requires
            old(self).wf(),
        ensures
            final(self).wf(),
            old(self).has_image_spec(*image_id) && (image_entry_model(
                old(self).image_entry(*image_id),
            ) matches ImageModel::Pending(ImageSourceModel::File(_))) ==> {
                &&& final(self).has_image_spec(*image_id)
                &&& image_entry_model(final(self).image_entry(*image_id)) == (match contents {
                    Ok(b) => ImageModel::Loaded(b@),
                    Err(e) => ImageModel::Failed(e),
                })
                &&& forall|k2: u64|
                    k2 != image_id.id ==> #[trigger] final(self).images.contains_key(k2) == old(self).images.contains_key(k2)
                &&& forall|k2: u64|
                    k2 != image_id.id && old(self).images.contains_key(k2) ==> #[trigger] final(self).images.val(k2) == old(self).images.val(k2)
            },
            !(old(self).has_image_spec(*image_id) && (image_entry_model(
                old(self).image_entry(*image_id),
            ) matches ImageModel::Pending(ImageSourceModel::File(_)))) ==> *final(self) == *old(self),
            Self::non_image_parts_unchanged(*old(self), *final(self)),
    {
        let is_pending_file = match self.images.get(image_id.id) {
            Some(ImageEntry::Pending(ImageSource::File(_))) => true,
            _ => false,
        };
        if is_pending_file {
            let entry = match contents {
                Ok(b) => ImageEntry::Loaded(b),
                Err(e) => ImageEntry::Failed(e),
            };
            self.images.insert(image_id.id, entry);
        }
    }

    /// Returns the bytes behind the handle, resolving a pending source now
    /// and caching the outcome: `None` for an unknown handle, otherwise the
    /// cached bytes or the cached failure. Resolution is idempotent — once
    /// loaded or once failed, later requests return the same value without
    /// touching the source again.
    pub fn get_image_bytes(&mut self, image_id: &ImageId) -> (r: Option<
        Result<Vec<u8>, ImageReloadError>,
    >)
        requires
            old(self).wf(),
        ensures
            final(self).wf(),
            get_image_bytes_rel(*old(self), *image_id, *final(self), image_bytes_view(r)),
    {
        let entry_state: u8 = match self.images.get(image_id.id) {
            None => 0,
            Some(ImageEntry::Loaded(_)) => 1,
            Some(ImageEntry::Failed(_)) => 2,
            Some(ImageEntry::Pending(_)) => 3,
        };
        if entry_state == 0 {
            return None;
        }
        if entry_state == 1 {
            let r = match self.images.get(image_id.id) {
                Some(ImageEntry::Loaded(b)) => {
                    let b2 = b.clone();
                    proof {
                        assert(b2@ =~= b@);
                    }
                    Some(Ok(b2))
                },
                _ => None,
            };
            return r;
        }
        if entry_state == 2 {
            let r = match self.images.get(image_id.id) {
                Some(ImageEntry::Failed(e)) => Some(Err(*e)),
                _ => None,
            };
            return r;
        }
        // A pending entry: resolve it now and cache the outcome.
        let resolved: ImageEntry = match self.images.get(image_id.id) {
            Some(ImageEntry::Pending(ImageSource::Embedded(b))) => {
                let b2 = b.clone();
                proof {
                    assert(b2@ =~= b@);
                }
                ImageEntry::Loaded(b2)
            },
            Some(ImageEntry::Pending(ImageSource::Raw(b))) => {
                let b2 = b.clone();
                proof {
                    assert(b2@ =~= b@);
                }
                ImageEntry::Loaded(b2)
            },
            _ => ImageEntry::Failed(ImageReloadError::SourceNotFetched),
        };
        let r = match &resolved {
            ImageEntry::Loaded(b) => {
                let b2 = b.clone();
                proof {
                    assert(b2@ =~= b@);
                }
                Some(Ok(b2))
            },
            ImageEntry::Failed(e) => Some(Err(*e)),
            ImageEntry::Pending(_) => None,
        };
        self.images.insert(image_id.id, resolved);
        r
    }

    /// Resolves a CSS image id to a handle: an already-bound string returns
    /// its existing handle and changes nothing; a fresh string is bound to a
    /// newly issued handle, with no cache entry yet — the asset is supplied
    /// by a later `add_image` under the returned handle.
    pub fn add_css_image_id(&mut self, css_id: &str) -> (r: ImageId)
        requires
            old(self).wf(),
            old(self).image_counter.next_id < u64::MAX,
        ensures
            final(self).wf(),
            add_css_image_id_rel(*old(self), css_id@, *final(self), r),
    {
        match self.css_image_ids.get(css_id) {
            Some(raw) => ImageId { id: raw },
            None => {
                let raw = self.image_counter.next();
                self.css_image_ids.insert(css_id.to_owned(), raw);
                ImageId { id: raw }
            },
        }
    }

    pub fn has_css_image_id(&self, css_id: &str) -> (r: bool)
        requires
            self.wf(),
        ensures
            r == self.has_css_image_id_spec(css_id@),
    {
        self.css_image_ids.has(css_id)
    }

    /// The handle a CSS image id is bound to, or `None` when unbound.
    pub fn get_css_image_id(&self, css_id: &str) -> (r: Option<ImageId>)
        requires
            self.wf(),
        ensures
            match r {
                Some(h) => self.has_css_image_id_spec(css_id@) && h.id == self.css_image_id_spec(
                    css_id@,
                ),
                None => !self.has_css_image_id_spec(css_id@),
            },
    {
        match self.css_image_ids.get(css_id) {
            Some(raw) => Some(ImageId { id: raw }),
            None => None,
        }
    }

    /// Removes the CSS image binding and returns the handle it was bound to.
    /// The underlying cache entry is left untouched: the binding and the
    /// asset have independent lifetimes.
    pub fn delete_css_image_id(&mut self, css_id: &str) -> (r: Option<ImageId>)
        requires
            old(self).wf(),
        ensures
            final(self).wf(),
            delete_css_image_id_rel(*old(self), css_id@, *final(self), r),
    {
        match self.css_image_ids.remove(css_id) {
            Some(raw) => Some(ImageId { id: raw }),
            None => None,
        }
    }

    /// Inserts or replaces the font entry under `font_id` as a pending
    /// source.
    pub fn add_font(&mut self, font_id: FontId, source: FontSource)
        requires
            old(self).wf(),
            font_id.id < old(self).font_counter.next_id,
        ensures
            final(self).wf(),
            final(self).has_font_spec(font_id),
            final(self).font_entry(font_id) == FontEntry::Pending(source),
            forall|k2: u64|
                k2 != font_id.id ==> #[trigger] final(self).fonts.contains_key(k2) == old(self).fonts.contains_key(k2),
            forall|k2: u64|
                k2 != font_id.id && old(self).fonts.contains_key(k2) ==> #[trigger] final(self).fonts.val(k2) == old(self).fonts.val(k2),
            Self::non_font_parts_unchanged(*old(self), *final(self)),
    {
        self.fonts.insert(font_id.id, FontEntry::Pending(source));
    }

    pub fn has_font(&self, font_id: &FontId) -> (r: bool)
        requires
            self.wf(),
        ensures
            r == self.has_font_spec(*font_id),
    {
        self.fonts.has(font_id.id)
    }

    /// Removes the font entry unconditionally.
    pub fn delete_font(&mut self, font_id: &FontId)
        requires
            old(self).wf(),
        ensures
            final(self).wf(),
            !final(self).has_font_spec(*font_id),
            forall|k2: u64|
                k2 != font_id.id ==> #[trigger] final(self).fonts.contains_key(k2) == old(self).fonts.contains_key(k2),
            forall|k2: u64|
                k2 != font_id.id && old(self).fonts.contains_key(k2) ==> #[trigger] final(self).fonts.val(k2) == old(self).fonts.val(k2),
            Self::non_font_parts_unchanged(*old(self), *final(self)),
    {
        let _ = self.fonts.remove(font_id.id);
    }

    /// The path of a file-backed pending font entry, as `pending_image_file`
    /// for images.
    pub fn pending_font_file(&self, font_id: &FontId) -> (r: Option<&String>)
        requires
            self.wf(),
        ensures
            match r {
                Some(p) => self.has_font_spec(*font_id) && (font_entry_model(
                    self.font_entry(*font_id),
                ) matches FontModel::Pending(FontSourceModel::File(q, _)) && q == p@),
                None => !self.has_font_spec(*font_id) || !(font_entry_model(
                    self.font_entry(*font_id),
                ) matches FontModel::Pending(FontSourceModel::File(_, _))),
            },
    {
        match self.fonts.get(font_id.id) {
            Some(entry) => match entry {
                FontEntry::Pending(FontSource::File(p, _)) => Some(p),
                _ => None,
            },
            None => None,
        }
    }

    /// Commits the contents a driver read for a file-backed pending font
    /// entry, keeping the font index of the source.
    pub fn resolve_font_file(
        &mut self,
        font_id: &FontId,
        contents: Result<Vec<u8>, FontReloadError>,
    )
        requires
            old(self).wf(),
        ensures
            final(self).wf(),
            old(self).has_font_spec(*font_id) && (font_entry_model(old(self).font_entry(*font_id))
                matches FontModel::Pending(FontSourceModel::File(_, _))) ==> {
                &&& final(self).has_font_spec(*font_id)
                &&& (match font_entry_model(old(self).font_entry(*font_id)) {
                    FontModel::Pending(FontSourceModel::File(_, idx)) => font_entry_model(
                        final(self).font_entry(*font_id),
                    ) == (match contents {
                        Ok(b) => FontModel::Loaded(b@, idx),
                        Err(e) => FontModel::Failed(e),
                    }),
                    _ => true,
                })
                &&& forall|k2: u64|
                    k2 != font_id.id ==> #[trigger] final(self).fonts.contains_key(k2) == old(self).fonts.contains_key(k2)
                &&& forall|k2: u64|
                    k2 != font_id.id && old(self).fonts.contains_key(k2) ==> #[trigger] final(self).fonts.val(k2) == old(self).fonts.val(k2)
            },
            !(old(self).has_font_spec(*font_id) && (font_entry_model(
                old(self).font_entry(*font_id),
            ) matches FontModel::Pending(FontSourceModel::File(_, _)))) ==> *final(self) == *old(self),
            Self::non_font_parts_unchanged(*old(self), *final(self)),
    {
        let idx_opt: Option<u32> = match self.fonts.get(font_id.id) {
            Some(FontEntry::Pending(FontSource::File(_, idx))) => Some(*idx),
            _ => None,
        };
        match idx_opt {
            Some(idx) => {
                let entry = match contents {
                    Ok(b) => FontEntry::Loaded(b, idx),
                    Err(e) => FontEntry::Failed(e),
                };
                self.fonts.insert(font_id.id, entry);
            },
            None => {},
        }
    }

    /// Returns the bytes and font index behind the handle, resolving a
    /// pending source now and caching the outcome, as `get_image_bytes`.
    pub fn get_font_bytes(&mut self, font_id: &FontId) -> (r: Option<
        Result<(Vec<u8>, u32), FontReloadError>,
    >)
        requires
            old(self).wf(),
        ensures
            final(self).wf(),
            get_font_bytes_rel(*old(self), *font_id, *final(self), font_bytes_view(r)),
    {
        let entry_state: u8 = match self.fonts.get(font_id.id) {
            None => 0,
            Some(FontEntry::Loaded(_, _)) => 1,
            Some(FontEntry::Failed(_)) => 2,
            Some(FontEntry::Pending(_)) => 3,
        };
        if entry_state == 0 {
            return None;
        }
        if entry_state == 1 {
            let r = match self.fonts.get(font_id.id) {
                Some(FontEntry::Loaded(b, idx)) => {
                    let b2 = b.clone();
                    proof {
                        assert(b2@ =~= b@);
                    }
                    Some(Ok((b2, *idx)))
                },
                _ => None,
            };
            return r;
        }
        if entry_state == 2 {
            let r = match self.fonts.get(font_id.id) {
                Some(FontEntry::Failed(e)) => Some(Err(*e)),
                _ => None,
            };
            return r;
        }
        let resolved: FontEntry = match self.fonts.get(font_id.id) {
            Some(FontEntry::Pending(FontSource::Embedded(b, idx))) => {
                let b2 = b.clone();
                proof {
                    assert(b2@ =~= b@);
                }
                FontEntry::Loaded(b2, *idx)
            },
            _ => FontEntry::Failed(FontReloadError::SourceNotFetched),
        };
        let r = match &resolved {
            FontEntry::Loaded(b, idx) => {
                let b2 = b.clone();
                proof {
                    assert(b2@ =~= b@);
                }
                Some(Ok((b2, *idx)))
            },
            FontEntry::Failed(e) => Some(Err(*e)),
            FontEntry::Pending(_) => None,
        };
        self.fonts.insert(font_id.id, resolved);
        r
    }

    /// Resolves a CSS font id to a handle, as `add_css_image_id` for images.
    pub fn add_css_font_id(&mut self, css_id: &str) -> (r: FontId)
        requires
            old(self).wf(),
            old(self).font_counter.next_id < u64::MAX,
        ensures
            final(self).wf(),
            add_css_font_id_rel(*old(self), css_id@, *final(self), r),
    {
        match self.css_font_ids.get(css_id) {
            Some(raw) => FontId { id: raw },
            None => {
                let raw = self.font_counter.next();
                self.css_font_ids.insert(css_id.to_owned(), raw);
                FontId { id: raw }
            },
        }
    }

    pub fn has_css_font_id(&self, css_id: &str) -> (r: bool)
        requires
            self.wf(),
        ensures
            r == self.has_css_font_id_spec(css_id@),
    {
        self.css_font_ids.has(css_id)
    }

    /// The handle a CSS font id is bound to, or `None` when unbound.
    pub fn get_css_font_id(&self, css_id: &str) -> (r: Option<FontId>)
        requires
            self.wf(),
        ensures
            match r {
                Some(h) => self.has_css_font_id_spec(css_id@) && h.id == self.css_font_id_spec(
                    css_id@,
                ),
                None => !self.has_css_font_id_spec(css_id@),
            },
    {
        match self.css_font_ids.get(css_id) {
            Some(raw) => Some(FontId { id: raw }),
            None => None,
        }
    }

    /// Removes the CSS font binding; the cache entry stays, as for images.
    pub fn delete_css_font_id(&mut self, css_id: &str) -> (r: Option<FontId>)
        requires
            old(self).wf(),
        ensures
            final(self).wf(),
            !final(self).has_css_font_id_spec(css_id@),
            forall|s2: Seq<char>|
                s2 != css_id@ ==> #[trigger] final(self).css_font_ids.contains_key(s2) == old(self).css_font_ids.contains_key(s2),
            forall|s2: Seq<char>|
                s2 != css_id@ && old(self).css_font_ids.contains_key(s2) ==> #[trigger] final(self).css_font_ids.val(s2) == old(self).css_font_ids.val(s2),
            final(self).images == old(self).images,
            final(self).fonts == old(self).fonts,
            final(self).texts == old(self).texts,
            final(self).css_image_ids == old(self).css_image_ids,
            final(self).image_counter == old(self).image_counter,
            final(self).font_counter == old(self).font_counter,
            final(self).text_counter == old(self).text_counter,
            match r {
                Some(h) => old(self).has_css_font_id_spec(css_id@) && h.id == old(self).css_font_id_spec(css_id@),
                None => !old(self).has_css_font_id_spec(css_id@) && *final(self) == *old(self),
            },
    {
        match self.css_font_ids.remove(css_id) {
            Some(raw) => Some(FontId { id: raw }),
            None => None,
        }
    }

    /// Stores a string in the text cache under a fresh handle. Only the raw
    /// string is kept; layout is the rendering collaborator's concern.
    pub fn add_text(&mut self, text: &str) -> (r: TextId)
        requires
            old(self).wf(),
            old(self).text_counter.next_id < u64::MAX,
        ensures
            final(self).wf(),
            !old(self).has_text_spec(r),
            r.id == old(self).text_counter.next_id,
            final(self).has_text_spec(r),
            final(self).text_of(r) == text@,
            forall|k2: u64|
                k2 != r.id ==> #[trigger] final(self).texts.contains_key(k2) == old(self).texts.contains_key(k2),
            forall|k2: u64|
                k2 != r.id && old(self).texts.contains_key(k2) ==> #[trigger] final(self).texts.val(k2) == old(self).texts.val(k2),
            final(self).images == old(self).images,
            final(self).fonts == old(self).fonts,
            final(self).css_image_ids == old(self).css_image_ids,
            final(self).css_font_ids == old(self).css_font_ids,
            final(self).image_counter == old(self).image_counter,
            final(self).font_counter == old(self).font_counter,
            final(self).text_counter.next_id == old(self).text_counter.next_id + 1,
    {
        let raw = self.text_counter.next();
        self.texts.insert(raw, text.to_owned());
        TextId { id: raw }
    }

    /// The stored string behind a text handle, or `None` for an unknown or
    /// invalidated handle — which a consumer treats as "no text", never as
    /// an error.
    pub fn get_text(&self, text_id: &TextId) -> (r: Option<&String>)
        requires
            self.wf(),
        ensures
            match r {
                Some(s) => self.has_text_spec(*text_id) && s@ == self.text_of(*text_id),
                None => !self.has_text_spec(*text_id),
            },
    {
        self.texts.get(text_id.id)
    }

    /// Removes one string from the text cache.
    pub fn delete_text(&mut self, text_id: TextId)
        requires
            old(self).wf(),
        ensures
            final(self).wf(),
            !final(self).has_text_spec(text_id),
            forall|k2: u64|
                k2 != text_id.id ==> #[trigger] final(self).texts.contains_key(k2) == old(self).texts.contains_key(k2),
            forall|k2: u64|
                k2 != text_id.id && old(self).texts.contains_key(k2) ==> #[trigger] final(self).texts.val(k2) == old(self).texts.val(k2),
            final(self).images == old(self).images,
            final(self).fonts == old(self).fonts,
            final(self).css_image_ids == old(self).css_image_ids,
            final(self).css_font_ids == old(self).css_font_ids,
            final(self).image_counter == old(self).image_counter,
            final(self).font_counter == old(self).font_counter,
            final(self).text_counter == old(self).text_counter,
    {
        let _ = self.texts.remove(text_id.id);
    }

    /// Empties the entire text cache, invalidating every issued text handle.
    pub fn clear_all_texts(&mut self)
        requires
            old(self).wf(),
        ensures
            final(self).wf(),
            final(self).texts@.len() == 0,
            forall|k2: u64| !final(self).texts.contains_key(k2),
            final(self).images == old(self).images,
            final(self).fonts == old(self).fonts,
            final(self).css_image_ids == old(self).css_image_ids,
            final(self).css_font_ids == old(self).css_font_ids,
            final(self).image_counter == old(self).image_counter,
            final(self).font_counter == old(self).font_counter,
            final(self).text_counter == old(self).text_counter,
    {
        self.texts.clear();
    }

    /// Every known image handle, in insertion order.
    pub fn get_loaded_image_ids(&self) -> (r: Vec<ImageId>)
        ensures
            r@.len() == self.images@.len(),
            forall|i: int|
                0 <= i < r@.len() ==> (#[trigger] r@[i]).id == self.images@[i].0,
    {
        let keys = self.images.keys();
        let mut r: Vec<ImageId> = Vec::new();
        let mut i: usize = 0;
        let n = keys.len();
        while i < n
            invariant
                n == keys@.len(),
                keys@.len() == self.images@.len(),
                forall|j: int| 0 <= j < keys@.len() ==> keys@[j] == (#[trigger] self.images@[j]).0,
                0 <= i <= n,
                r@.len() == i,
                forall|j: int| 0 <= j < i ==> (#[trigger] r@[j]).id == self.images@[j].0,
            decreases n - i,
        {
            r.push(ImageId { id: keys[i] });
            i = i + 1;
        }
        r
    }

    /// Every known font handle, in insertion order.
    pub fn get_loaded_font_ids(&self) -> (r: Vec<FontId>)
        ensures
            r@.len() == self.fonts@.len(),
            forall|i: int| 0 <= i < r@.len() ==> (#[trigger] r@[i]).id == self.fonts@[i].0,
    {
        let keys = self.fonts.keys();
        let mut r: Vec<FontId> = Vec::new();
        let mut i: usize = 0;
        let n = keys.len();
        while i < n
            invariant
                n == keys@.len(),
                keys@.len() == self.fonts@.len(),
                forall|j: int| 0 <= j < keys@.len() ==> keys@[j] == (#[trigger] self.fonts@[j]).0,
                0 <= i <= n,
                r@.len() == i,
                forall|j: int| 0 <= j < i ==> (#[trigger] r@[j]).id == self.fonts@[j].0,
            decreases n - i,
        {
            r.push(FontId { id: keys[i] });
            i = i + 1;
        }
        r
    }

    /// Every known text handle, in insertion order.
    pub fn get_loaded_text_ids(&self) -> (r: Vec<TextId>)
        ensures
            r@.len() == self.texts@.len(),
            forall|i: int| 0 <= i < r@.len() ==> (#[trigger] r@[i]).id == self.texts@[i].0,
    {
        let keys = self.texts.keys();
        let mut r: Vec<TextId> = Vec::new();
        let mut i: usize = 0;
        let n = keys.len();
        while i < n
            invariant
                n == keys@.len(),
                keys@.len() == self.texts@.len(),
                forall|j: int| 0 <= j < keys@.len() ==> keys@[j] == (#[trigger] self.texts@[j]).0,
                0 <= i <= n,
                r@.len() == i,
                forall|j: int| 0 <= j < i ==> (#[trigger] r@[j]).id == self.texts@[j].0,
            decreases n - i,
        {
            r.push(TextId { id: keys[i] });
            i = i + 1;
        }
        r
    }

    /// Every bound CSS image id string, in insertion order.
    pub fn get_loaded_css_image_ids(&self) -> (r: Vec<String>)
        ensures
            r@.len() == self.css_image_ids@.len(),
            forall|i: int|
                0 <= i < r@.len() ==> (#[trigger] r@[i])@ == self.css_image_ids@[i].0,
    {
        self.css_image_ids.keys()
    }

    /// Every bound CSS font id string, in insertion order.
    pub fn get_loaded_css_font_ids(&self) -> (r: Vec<String>)
        ensures
            r@.len() == self.css_font_ids@.len(),
            forall|i: int| 0 <= i < r@.len() ==> (#[trigger] r@[i])@ == self.css_font_ids@[i].0,
    {
        self.css_font_ids.keys()
    }
}

/// The spec-level value of a returned image bytes result.
pub open spec fn image_bytes_view(r: Option<Result<Vec<u8>, ImageReloadError>>) -> Option<
    Result<Seq<u8>, ImageReloadError>,
> {
    match r {
        None => None,
        Some(Ok(b)) => Some(Ok(b@)),
        Some(Err(e)) => Some(Err(e)),
    }
}

/// The spec-level value of a returned font bytes result.
pub open spec fn font_bytes_view(r: Option<Result<(Vec<u8>, u32), FontReloadError>>) -> Option<
    Result<(Seq<u8>, u32), FontReloadError>,
> {
    match r {
        None => None,
        Some(Ok((b, i))) => Some(Ok((b@, i))),
        Some(Err(e)) => Some(Err(e)),
    }
}

/// Exactly how `get_image_bytes` relates the cache before and after the call
/// and its reported value: an unknown handle reports `None` and changes
/// nothing; a known entry is left resolved, an already-resolved entry leaves
/// the whole cache untouched, and the reported value is the outcome of the
/// resolved entry. No other part of the cache moves.
pub open spec fn get_image_bytes_rel(
    pre: AppResources,
    id: ImageId,
    post: AppResources,
    r: Option<Result<Seq<u8>, ImageReloadError>>,
) -> bool {
    &&& (!pre.has_image_spec(id) ==> post == pre && r is None)
    &&& (pre.has_image_spec(id) ==> {
        let m = image_entry_model(pre.image_entry(id));
        let m2 = resolve_image_model(m);
        &&& post.has_image_spec(id)
        &&& image_entry_model(post.image_entry(id)) == m2
        &&& ((m matches ImageModel::Loaded(_) || m matches ImageModel::Failed(_)) ==> post == pre)
        &&& forall|k2: u64|
            k2 != id.id ==> #[trigger] post.images.contains_key(k2) == pre.images.contains_key(k2)
        &&& forall|k2: u64|
            k2 != id.id && pre.images.contains_key(k2) ==> #[trigger] post.images.val(k2)
                == pre.images.val(k2)
        &&& AppResources::non_image_parts_unchanged(pre, post)
        &&& r == Some(image_outcome(m2))
    })
}

/// Exactly how `get_font_bytes` relates the cache before and after the call
/// and its reported value.
pub open spec fn get_font_bytes_rel(
    pre: AppResources,
    id: FontId,
    post: AppResources,
    r: Option<Result<(Seq<u8>, u32), FontReloadError>>,
) -> bool {
    &&& (!pre.has_font_spec(id) ==> post == pre && r is None)
    &&& (pre.has_font_spec(id) ==> {
        let m = font_entry_model(pre.font_entry(id));
        let m2 = resolve_font_model(m);
        &&& post.has_font_spec(id)
        &&& font_entry_model(post.font_entry(id)) == m2
        &&& ((m matches FontModel::Loaded(_, _) || m matches FontModel::Failed(_)) ==> post == pre)
        &&& forall|k2: u64|
            k2 != id.id ==> #[trigger] post.fonts.contains_key(k2) == pre.fonts.contains_key(k2)
        &&& forall|k2: u64|
            k2 != id.id && pre.fonts.contains_key(k2) ==> #[trigger] post.fonts.val(k2)
                == pre.fonts.val(k2)
        &&& AppResources::non_font_parts_unchanged(pre, post)
        &&& r == Some(font_outcome(m2))
    })
}

/// Exactly how `add_css_image_id` relates the cache before and after the
/// call and the handle it returns: an already-bound string returns its
/// existing handle and changes nothing; a fresh string is bound to the next
/// issued handle, which is not a cache key, and only the binding map and the
/// counter move.
pub open spec fn add_css_image_id_rel(
    pre: AppResources,
    css: Seq<char>,
    post: AppResources,
    r: ImageId,
) -> bool {
    &&& post.has_css_image_id_spec(css)
    &&& r.id == post.css_image_id_spec(css)
    &&& (pre.has_css_image_id_spec(css) ==> post == pre && r.id == pre.css_image_id_spec(css))
    &&& (!pre.has_css_image_id_spec(css) ==> {
        &&& r.id == pre.image_counter.next_id
        &&& !pre.images.contains_key(r.id)
        &&& post.image_counter.next_id == pre.image_counter.next_id + 1
        &&& forall|s2: Seq<char>|
            s2 != css ==> #[trigger] post.css_image_ids.contains_key(s2)
                == pre.css_image_ids.contains_key(s2)
        &&& forall|s2: Seq<char>|
            s2 != css && pre.css_image_ids.contains_key(s2) ==> #[trigger] post.css_image_ids.val(
                s2,
            ) == pre.css_image_ids.val(s2)
        &&& post.images == pre.images
        &&& post.fonts == pre.fonts
        &&& post.texts == pre.texts
        &&& post.css_font_ids == pre.css_font_ids
        &&& post.font_counter == pre.font_counter
        &&& post.text_counter == pre.text_counter
    })
}

/// Exactly how `add_css_font_id` relates the cache before and after the call
/// and the handle it returns.
pub open spec fn add_css_font_id_rel(
    pre: AppResources,
    css: Seq<char>,
    post: AppResources,
    r: FontId,
) -> bool {
    &&& post.has_css_font_id_spec(css)
    &&& r.id == post.css_font_id_spec(css)
    &&& (pre.has_css_font_id_spec(css) ==> post == pre && r.id == pre.css_font_id_spec(css))
    &&& (!pre.has_css_font_id_spec(css) ==> {
        &&& r.id == pre.font_counter.next_id
        &&& !pre.fonts.contains_key(r.id)
        &&& post.font_counter.next_id == pre.font_counter.next_id + 1
        &&& forall|s2: Seq<char>|
            s2 != css ==> #[trigger] post.css_font_ids.contains_key(s2)
                == pre.css_font_ids.contains_key(s2)
        &&& forall|s2: Seq<char>|
            s2 != css && pre.css_font_ids.contains_key(s2) ==> #[trigger] post.css_font_ids.val(s2)
                == pre.css_font_ids.val(s2)
        &&& post.fonts == pre.fonts
        &&& post.images == pre.images
        &&& post.texts == pre.texts
        &&& post.css_image_ids == pre.css_image_ids
        &&& post.image_counter == pre.image_counter
        &&& post.text_counter == pre.text_counter
    })
}

/// Exactly how `delete_css_image_id` relates the cache before and after the
/// call: only the one binding goes; every cache entry stays untouched.
pub open spec fn delete_css_image_id_rel(
    pre: AppResources,
    css: Seq<char>,
    post: AppResources,
    r: Option<ImageId>,
) -> bool {
    &&& !post.has_css_image_id_spec(css)
    &&& forall|s2: Seq<char>|
        s2 != css ==> #[trigger] post.css_image_ids.contains_key(s2)
            == pre.css_image_ids.contains_key(s2)
    &&& forall|s2: Seq<char>|
        s2 != css && pre.css_image_ids.contains_key(s2) ==> #[trigger] post.css_image_ids.val(s2)
            == pre.css_image_ids.val(s2)
    &&& post.images == pre.images
    &&& post.fonts == pre.fonts
    &&& post.texts == pre.texts
    &&& post.css_font_ids == pre.css_font_ids
    &&& post.image_counter == pre.image_counter
    &&& post.font_counter == pre.font_counter
    &&& post.text_counter == pre.text_counter
    &&& (match r {
        Some(h) => pre.has_css_image_id_spec(css) && h.id == pre.css_image_id_spec(css),
        None => !pre.has_css_image_id_spec(css) && post == pre,
    })
}

} // verus!
