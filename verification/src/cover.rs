//! The album cover: the first cover file of the album folder that decodes,
//! and the waveform palette taken from it.

use vstd::prelude::*;
use crate::palette::{cover_palette, median_cut_palette, palette_of, stored_colors, Palette, PALETTE_ITERATIONS};

verus! {

/// The width, height and unmultiplied RGBA bytes (four per pixel, row by
/// row) of the image that the file contents `bytes` hold in the format named
/// by the file extension `ext`, or `None` when the extension names no
/// format or the contents do not decode.
pub uninterp spec fn decoded_rgba8(bytes: Seq<u8>, ext: Seq<char>) -> Option<(u32, u32, Seq<u8>)>;

/// The view of a decoded image.
pub open spec fn decoded_view(d: Option<(u32, u32, Vec<u8>)>) -> Option<(u32, u32, Seq<u8>)> {
    match d {
        Some((w, h, v)) => Some((w, h, v@)),
        None => None,
    }
}

/// `image::ImageFormat::from_extension`, then
/// `image::load_from_memory_with_format` and `DynamicImage::to_rgba8`: the
/// image in `bytes` as RGBA bytes with its size, whose buffer holds four
/// bytes per pixel. The steps stand in one wrapper because what passes
/// between them (a format, a decoded image) has no plain value to name.
#[verifier::external_body]
fn decode_rgba8(bytes: &[u8], ext: &str) -> (res: Option<(u32, u32, Vec<u8>)>)
    ensures
        decoded_view(res) == decoded_rgba8(bytes@, ext@),
        res matches Some((w, h, v)) ==> v@.len() == 4 * w * h,
{
    let format = image::ImageFormat::from_extension(ext)?;
    let rgba = image::load_from_memory_with_format(bytes, format).ok()?.to_rgba8();
    Some((rgba.width(), rgba.height(), rgba.into_raw()))
}

/// The first candidate, in order, whose file could be read (`Some` bytes)
/// and whose contents decode in the format of its extension.
pub open spec fn first_decoded(c: Seq<(String, Option<Vec<u8>>)>) -> Option<(u32, u32, Seq<u8>)>
    decreases c.len(),
{
    if c.len() == 0 {
        None
    } else {
        match c[0].1 {
            Some(b) => match decoded_rgba8(b@, c[0].0@) {
                Some(d) => Some(d),
                None => first_decoded(c.drop_first()),
            },
            None => first_decoded(c.drop_first()),
        }
    }
}

/// Whether the candidate `c` has contents that decode in the format of its
/// extension.
pub open spec fn candidate_decodes(c: (String, Option<Vec<u8>>)) -> bool {
    c.1 matches Some(b) && decoded_rgba8(b@, c.0@) is Some
}

/// The cover is taken from the first candidate, in order, that decodes:
/// - when the first candidate decodes, its image is the cover, whatever
///   follows;
/// - candidates that do not decode are passed over: after a run of them the
///   cover is that of what follows;
/// - there is a cover exactly when some candidate decodes, and then it is
///   the image of a candidate that decodes with none before it that does.
pub proof fn law_first_decodable_cover(c: Seq<(String, Option<Vec<u8>>)>, a: Seq<(String, Option<Vec<u8>>)>, b: Seq<(String, Option<Vec<u8>>)>)
    ensures
        c.len() > 0 && candidate_decodes(c[0]) ==> first_decoded(c) == decoded_rgba8(
            c[0].1->Some_0@,
            c[0].0@,
        ),
        (forall|i: int| 0 <= i < a.len() ==> !candidate_decodes(#[trigger] a[i])) ==> first_decoded(a + b)
            == first_decoded(b),
        first_decoded(c) is None <==> forall|i: int| 0 <= i < c.len() ==> !candidate_decodes(#[trigger] c[i]),
        first_decoded(c) matches Some(d) ==> exists|i: int|
            0 <= i < c.len() && #[trigger] candidate_decodes(c[i]) && decoded_rgba8(c[i].1->Some_0@, c[i].0@)
                == Some(d) && forall|j: int| 0 <= j < i ==> !candidate_decodes(#[trigger] c[j]),
{
    lemma_skip_undecodable(a, b);
    lemma_first_decoded_found(c);
}

proof fn lemma_skip_undecodable(a: Seq<(String, Option<Vec<u8>>)>, b: Seq<(String, Option<Vec<u8>>)>)
    ensures
        (forall|i: int| 0 <= i < a.len() ==> !candidate_decodes(#[trigger] a[i])) ==> first_decoded(a + b)
            == first_decoded(b),
    decreases a.len(),
{
    if a.len() > 0 && (forall|i: int| 0 <= i < a.len() ==> !candidate_decodes(#[trigger] a[i])) {
        let a1 = a.drop_first();
        assert forall|i: int| 0 <= i < a1.len() implies !candidate_decodes(#[trigger] a1[i]) by {
            assert(a1[i] == a[i + 1]);
        }
        lemma_skip_undecodable(a1, b);
        assert((a + b).drop_first() =~= a1 + b);
        assert((a + b)[0] == a[0]);
        assert(!candidate_decodes(a[0]));
    } else if a.len() == 0 {
        assert(a + b =~= b);
    }
}

proof fn lemma_first_decoded_found(c: Seq<(String, Option<Vec<u8>>)>)
    ensures
        first_decoded(c) is None <==> forall|i: int| 0 <= i < c.len() ==> !candidate_decodes(#[trigger] c[i]),
        first_decoded(c) matches Some(d) ==> exists|i: int|
            0 <= i < c.len() && #[trigger] candidate_decodes(c[i]) && decoded_rgba8(c[i].1->Some_0@, c[i].0@)
                == Some(d) && forall|j: int| 0 <= j < i ==> !candidate_decodes(#[trigger] c[j]),
    decreases c.len(),
{
    if c.len() > 0 {
        let c1 = c.drop_first();
        lemma_first_decoded_found(c1);
        if candidate_decodes(c[0]) {
            assert(candidate_decodes(c[0]) && forall|j: int| 0 <= j < 0 ==> !candidate_decodes(#[trigger] c[j]));
        } else {
            if forall|i: int| 0 <= i < c1.len() ==> !candidate_decodes(#[trigger] c1[i]) {
                assert forall|i: int| 0 <= i < c.len() implies !candidate_decodes(#[trigger] c[i]) by {
                    if i > 0 {
                        assert(c[i] == c1[i - 1]);
                    }
                }
            } else {
                let k = choose|i: int| 0 <= i < c1.len() && candidate_decodes(#[trigger] c1[i]);
                assert(c[k + 1] == c1[k]);
            }
            if first_decoded(c) is Some {
                let d = first_decoded(c)->Some_0;
                let i = choose|i: int|
                    0 <= i < c1.len() && #[trigger] candidate_decodes(c1[i]) && decoded_rgba8(
                        c1[i].1->Some_0@,
                        c1[i].0@,
                    ) == Some(d) && forall|j: int| 0 <= j < i ==> !candidate_decodes(#[trigger] c1[j]);
                assert(c[i + 1] == c1[i]);
                assert forall|j: int| 0 <= j < i + 1 implies !candidate_decodes(#[trigger] c[j]) by {
                    if j > 0 {
                        assert(c[j] == c1[j - 1]);
                    }
                }
            }
        }
    }
}

/// The cover of an album from its candidate cover files, each given by its
/// extension and its contents (`None` when the file could not be read): the
/// first that decodes, as its size, its unmultiplied RGBA bytes and its
/// palette. The palette is `None` for an image without pixels, which has no
/// colors to take one from.
pub fn album_cover(candidates: &Vec<(String, Option<Vec<u8>>)>) -> (res: Option<([usize; 2], Vec<u8>, Option<Palette>)>)
    ensures
        match first_decoded(candidates@) {
            None => res is None,
            Some((w, h, d)) => res matches Some((size, v, p)) && size[0] == w && size[1] == h && v@ == d
                && (w * h > 0 ==> p == Some(
                palette_of(median_cut_palette(stored_colors(d), PALETTE_ITERATIONS)),
            )) && (w * h == 0 ==> p is None),
        },
{
    let mut i: usize = 0;
    assert(candidates@.skip(0) =~= candidates@);
    while i < candidates.len()
        invariant
            i <= candidates@.len(),
            first_decoded(candidates@) == first_decoded(candidates@.skip(i as int)),
        decreases candidates@.len() - i,
    {
        let ghost rest = candidates@.skip(i as int);
        assert(rest[0] == candidates@[i as int]);
        assert(rest.drop_first() =~= candidates@.skip(i + 1));
        let candidate = &candidates[i];
        if let Some(bytes) = &candidate.1 {
            if let Some((w, h, v)) = decode_rgba8(bytes.as_slice(), candidate.0.as_str()) {
                let size: [usize; 2] = [w as usize, h as usize];
                if w == 0 || h == 0 {
                    assert(w * h == 0) by (nonlinear_arith)
                        requires
                            w == 0 || h == 0,
                    ;
                    return Some((size, v, None));
                }
                assert(w * h > 0) by (nonlinear_arith)
                    requires
                        w > 0,
                        h > 0,
                ;
                let p = cover_palette(size, v.as_slice());
                return Some((size, v, Some(p)));
            }
        }
        i = i + 1;
    }
    assert(candidates@.skip(i as int) =~= Seq::<(String, Option<Vec<u8>>)>::empty());
    None
}

} // verus!
