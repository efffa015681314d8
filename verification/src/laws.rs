//! The cache's laws: proofs that chain the contracts of consecutive
//! operations, stated over the same relations the operations ensure.

use vstd::prelude::*;
use crate::handles::{ImageId, FontId};
use crate::resources::{
    AppResources, ImageReloadError, FontReloadError, ImageModel, FontModel,
    image_entry_model, font_entry_model, resolve_image_model, resolve_font_model, image_outcome,
    add_css_image_id_rel, add_css_font_id_rel, get_image_bytes_rel, get_font_bytes_rel,
    delete_css_image_id_rel,
};

verus! {

/// Law: one handle per CSS image id. However often the same string is
/// resolved, the first resolution allocates the one handle, and every later
/// resolution returns that same handle and changes nothing.
pub proof fn lemma_css_image_id_unique(
    s0: AppResources,
    css: Seq<char>,
    s1: AppResources,
    h1: ImageId,
    s2: AppResources,
    h2: ImageId,
)
    requires
        s0.wf(),
        add_css_image_id_rel(s0, css, s1, h1),
        add_css_image_id_rel(s1, css, s2, h2),
    ensures
        h2 == h1,
        s2 == s1,
{
    assert(s1.has_css_image_id_spec(css));
    assert(h2.id == s1.css_image_id_spec(css));
    assert(h1.id == s1.css_image_id_spec(css));
}

/// Law: one handle per CSS font id, as for images.
pub proof fn lemma_css_font_id_unique(
    s0: AppResources,
    css: Seq<char>,
    s1: AppResources,
    h1: FontId,
    s2: AppResources,
    h2: FontId,
)
    requires
        s0.wf(),
        add_css_font_id_rel(s0, css, s1, h1),
        add_css_font_id_rel(s1, css, s2, h2),
    ensures
        h2 == h1,
        s2 == s1,
{
    assert(s1.has_css_font_id_spec(css));
    assert(h2.id == s1.css_font_id_spec(css));
    assert(h1.id == s1.css_font_id_spec(css));
}

/// Law: requesting image bytes is idempotent. A second request with no
/// intervening `add_image` reports the same value — the same loaded bytes
/// or the same failure — and touches nothing.
pub proof fn lemma_get_image_bytes_idempotent(
    s0: AppResources,
    id: ImageId,
    s1: AppResources,
    r1: Option<Result<Seq<u8>, ImageReloadError>>,
    s2: AppResources,
    r2: Option<Result<Seq<u8>, ImageReloadError>>,
)
    requires
        s0.wf(),
        get_image_bytes_rel(s0, id, s1, r1),
        get_image_bytes_rel(s1, id, s2, r2),
    ensures
        r2 == r1,
        s2 == s1,
{
    if s0.has_image_spec(id) {
        let m = image_entry_model(s0.image_entry(id));
        let m2 = resolve_image_model(m);
        assert(image_entry_model(s1.image_entry(id)) == m2);
        match m2 {
            ImageModel::Loaded(_) => {},
            ImageModel::Failed(_) => {},
            ImageModel::Pending(_) => {
                assert(false);
            },
        }
        assert(resolve_image_model(m2) == m2);
    }
}

/// Law: requesting font bytes is idempotent, as for images.
pub proof fn lemma_get_font_bytes_idempotent(
    s0: AppResources,
    id: FontId,
    s1: AppResources,
    r1: Option<Result<(Seq<u8>, u32), FontReloadError>>,
    s2: AppResources,
    r2: Option<Result<(Seq<u8>, u32), FontReloadError>>,
)
    requires
        s0.wf(),
        get_font_bytes_rel(s0, id, s1, r1),
        get_font_bytes_rel(s1, id, s2, r2),
    ensures
        r2 == r1,
        s2 == s1,
{
    if s0.has_font_spec(id) {
        let m = font_entry_model(s0.font_entry(id));
        let m2 = resolve_font_model(m);
        assert(font_entry_model(s1.font_entry(id)) == m2);
        match m2 {
            FontModel::Loaded(_, _) => {},
            FontModel::Failed(_) => {},
            FontModel::Pending(_) => {
                assert(false);
            },
        }
        assert(resolve_font_model(m2) == m2);
    }
}

/// Law: a deleted handle is an unknown handle. After `delete_image(h)` the
/// cache no longer has `h` — that is `delete_image`'s own contract — and a
/// bytes request for an unknown handle reports `None` and changes nothing.
pub proof fn lemma_deleted_handle_reports_none(
    s1: AppResources,
    id: ImageId,
    s2: AppResources,
    r: Option<Result<Seq<u8>, ImageReloadError>>,
)
    requires
        s1.wf(),
        !s1.has_image_spec(id),
        get_image_bytes_rel(s1, id, s2, r),
    ensures
        r is None,
        s2 == s1,
{
}

/// Law: deleting a CSS image binding does not delete the underlying cache
/// entry. After `delete_css_image_id(s)`, a bytes request for the handle
/// that was bound to `s` reports exactly what it would have reported
/// before: the two lifetimes are independent.
pub proof fn lemma_css_delete_keeps_entry(
    s0: AppResources,
    css: Seq<char>,
    s1: AppResources,
    rdel: Option<ImageId>,
    id: ImageId,
    s2: AppResources,
    r2: Option<Result<Seq<u8>, ImageReloadError>>,
)
    requires
        s0.wf(),
        delete_css_image_id_rel(s0, css, s1, rdel),
        get_image_bytes_rel(s1, id, s2, r2),
    ensures
        s1.images == s0.images,
        s0.has_image_spec(id) ==> r2 == Some(
            image_outcome(resolve_image_model(image_entry_model(s0.image_entry(id)))),
        ),
        !s0.has_image_spec(id) ==> r2 is None,
{
    assert(s1.images == s0.images);
}

} // verus!
