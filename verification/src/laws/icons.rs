//! From the pixels of an item's icon to what a picker is given.

use std::collections::hash_map::DefaultHasher;

use vstd::bytes::spec_u64_to_le_bytes;
use vstd::prelude::*;
use vstd::std_specs::hash::DefaultHasherAdditionalSpecFns;

use crate::icon::{
    digest, has_whole_icon, icon_plan, is_largest, is_whole, largest, lemma_largest, pixmap_len,
    pixmap_png, png_encoding, raster_fits, resolved, rgba, unsigned, PlanModel, PngFaultModel,
};
use crate::item::{ItemModel, PixmapModel};
use crate::number::{decimal, hex};
use crate::paths::{icon_path, path_text};

verus! {

/// Whether an image holds the pixels of a pixmap: red, green, blue and alpha of
/// each, where the pixmap has alpha, red, green and blue.
pub open spec fn holds_the_pixels(image: Seq<u8>, pixels: Seq<u8>) -> bool {
    &&& image.len() == pixels.len()
    &&& pixels.len() % 4 == 0
    &&& forall|k: int|
        #![trigger pixels[4 * k]]
        0 <= k < pixels.len() / 4 ==> image[4 * k] == pixels[4 * k + 1] && image[4 * k + 1]
            == pixels[4 * k + 2] && image[4 * k + 2] == pixels[4 * k + 3] && image[4 * k + 3]
            == pixels[4 * k]
}

/// Whether `n` is the side of an image that a 32-bit number stands for.
pub open spec fn is_side(n: nat, side: i32) -> bool {
    n < 0x1_0000_0000 && (side >= 0 ==> n == side) && (side < 0 ==> n == side + 0x1_0000_0000)
}

/// Whether an image of this size, with a byte more per row, can be counted on this
/// machine.
pub open spec fn is_countable(width: nat, height: nat) -> bool {
    &&& 4 * width + 1 <= usize::MAX
    &&& (4 * width + 1) * height <= usize::MAX
}

/// The number of bytes that an image of this size takes, as 32 bits count it.
pub open spec fn bytes_for(width: nat, height: nat) -> nat {
    (4 * (width * height)) % 0x1_0000_0000
}

proof fn lemma_pixels(image: Seq<u8>, pixels: Seq<u8>)
    requires
        holds_the_pixels(image, pixels),
    ensures
        rgba(pixels) == image,
{
    let r = rgba(pixels);
    assert(r.len() == image.len());
    assert forall|i: int| 0 <= i < image.len() implies r[i] == image[i] by {
        let k = i / 4;
        assert(0 <= k < pixels.len() / 4);
        let first = pixels[4 * k];
        assert(image[4 * k + 3] == first);
        assert(image[4 * k] == pixels[4 * k + 1] && image[4 * k + 1] == pixels[4 * k + 2]
            && image[4 * k + 2] == pixels[4 * k + 3]);
        if i % 4 == 3 {
            assert(i == 4 * k + 3 && r[i] == pixels[i - 3]);
        } else {
            assert(r[i] == pixels[i + 1]);
            assert(i == 4 * k || i == 4 * k + 1 || i == 4 * k + 2);
        }
    }
    assert(r == image);
}

proof fn lemma_sizes(p: PixmapModel, width: nat, height: nat)
    requires
        is_side(width, p.width),
        is_side(height, p.height),
    ensures
        unsigned(p.width) == width,
        unsigned(p.height) == height,
        pixmap_len(width, height) == bytes_for(width, height),
        bytes_for(width, height) % 4 == 0,
        4 * width * height == 4 * (width * height),
        raster_fits(width, height) == is_countable(width, height),
{
    assert(4 * width * height == 4 * (width * height)) by (nonlinear_arith);
    assert(width * height * 4 == 4 * (width * height));
}

/// What a pixmap converts to is the PNG file, at the pixmap's width and height, of
/// the image that holds its pixels; a refusal of the encoder is reported with the
/// step at which it came.
pub proof fn a_pixmap_converts_pixel_by_pixel(
    p: PixmapModel,
    width: nat,
    height: nat,
    image: Seq<u8>,
)
    requires
        is_side(width, p.width),
        is_side(height, p.height),
        p.pixels.len() == bytes_for(width, height),
        is_countable(width, height),
        holds_the_pixels(image, p.pixels),
    ensures
        match png_encoding(image, width as u32, height as u32) {
            Ok(content) => pixmap_png(p) == Ok::<Seq<u8>, Seq<char>>(content),
            Err(PngFaultModel::Header(m)) => pixmap_png(p) == Err::<Seq<u8>, Seq<char>>(
                "png header: "@ + m,
            ),
            Err(PngFaultModel::Write(m)) => pixmap_png(p) == Err::<Seq<u8>, Seq<char>>(
                "png write: "@ + m,
            ),
            Err(PngFaultModel::Finish(m)) => pixmap_png(p) == Err::<Seq<u8>, Seq<char>>(
                "png finish: "@ + m,
            ),
        },
{
    lemma_pixels(image, p.pixels);
    lemma_sizes(p, width, height);
}

/// Whatever a pixmap converts to, of whatever size it is, is the PNG file of an
/// image that holds its pixels.
pub proof fn a_converted_pixmap_keeps_its_pixels(p: PixmapModel, width: nat, height: nat)
    requires
        is_side(width, p.width),
        is_side(height, p.height),
        pixmap_png(p) is Ok,
    ensures
        exists|image: Seq<u8>| #[trigger]
            holds_the_pixels(image, p.pixels) && png_encoding(image, width as u32, height as u32)
                == Ok::<Seq<u8>, PngFaultModel>(pixmap_png(p)->Ok_0),
{
    lemma_sizes(p, width, height);
    let image = rgba(p.pixels);
    assert forall|k: int|
        #![trigger p.pixels[4 * k]]
        0 <= k < p.pixels.len() / 4 implies image[4 * k] == p.pixels[4 * k + 1] && image[4 * k + 1]
        == p.pixels[4 * k + 2] && image[4 * k + 2] == p.pixels[4 * k + 3] && image[4 * k + 3]
        == p.pixels[4 * k] by {
        assert(4 * k + 3 < p.pixels.len());
    }
    assert(holds_the_pixels(image, p.pixels));
}

/// A pixmap that has more or fewer bytes than its size takes is refused, with both
/// numbers. So is one that cannot be counted, with its sides.
pub proof fn a_pixmap_of_the_wrong_length_is_refused(p: PixmapModel, width: nat, height: nat)
    requires
        is_side(width, p.width),
        is_side(height, p.height),
    ensures
        p.pixels.len() != bytes_for(width, height) ==> pixmap_png(p) == Err::<Seq<u8>, Seq<char>>(
            "pixmap size mismatch: got "@ + decimal(p.pixels.len()) + " bytes, expected "@
                + decimal(bytes_for(width, height)),
        ),
        p.pixels.len() == bytes_for(width, height) && !is_countable(width, height) ==> pixmap_png(p)
            == Err::<Seq<u8>, Seq<char>>(
            "pixmap too large: "@ + decimal(width) + "x"@ + decimal(height),
        ),
{
    lemma_sizes(p, width, height);
}

/// Exactly an image with at least one pixel, with all its bytes and of a
/// countable size is a whole one.
pub proof fn a_whole_image_has_all_its_pixels(p: PixmapModel, width: nat, height: nat)
    requires
        is_side(width, p.width),
        is_side(height, p.height),
    ensures
        is_whole(p) <==> {
            &&& p.width != 0 && p.height != 0
            &&& p.pixels.len() == 4 * (width * height)
            &&& 4 * (width * height) < 0x1_0000_0000
            &&& is_countable(width, height)
        },
{
    lemma_sizes(p, width, height);
}

/// Bytes behind the last whole pixel are left out, and no others.
pub proof fn whole_pixels_are_kept(argb: Seq<u8>)
    ensures
        rgba(argb).len() <= argb.len() < rgba(argb).len() + 4,
        rgba(argb).len() % 4 == 0,
{
}

/// Whether the pixmap at `k` is the one to show: none has a larger area, and none
/// behind it has as large a one.
pub open spec fn is_best(pixmaps: Seq<PixmapModel>, k: int) -> bool {
    &&& 0 <= k < pixmaps.len()
    &&& forall|j: int|
        0 <= j < pixmaps.len() ==> (#[trigger] pixmaps[j]).width * pixmaps[j].height
            <= pixmaps[k].width * pixmaps[k].height
    &&& forall|j: int|
        k < j < pixmaps.len() ==> (#[trigger] pixmaps[j]).width * pixmaps[j].height
            < pixmaps[k].width * pixmaps[k].height
}

proof fn lemma_best(pixmaps: Seq<PixmapModel>, k: int)
    requires
        is_best(pixmaps, k),
    ensures
        is_largest(pixmaps, k),
        largest(pixmaps) == k,
{
    assert(is_largest(pixmaps, k));
    lemma_largest(pixmaps, k);
}

/// Among any pixmaps there is one to show, and it is the one that counts as the
/// largest.
pub proof fn there_is_a_best_pixmap(pixmaps: Seq<PixmapModel>) -> (k: int)
    requires
        pixmaps.len() > 0,
    ensures
        is_best(pixmaps, k),
        largest(pixmaps) == k,
        forall|j: int| is_largest(pixmaps, j) <==> j == k,
    decreases pixmaps.len(),
{
    let last = pixmaps.len() - 1;
    let k = if pixmaps.len() == 1 {
        0
    } else {
        let head = pixmaps.drop_last();
        let h = there_is_a_best_pixmap(head);
        assert forall|j: int| 0 <= j < head.len() implies (#[trigger] pixmaps[j]).width
            * pixmaps[j].height <= pixmaps[h].width * pixmaps[h].height by {
            assert(head[j] == pixmaps[j]);
        }
        assert forall|j: int| h < j < head.len() implies (#[trigger] pixmaps[j]).width
            * pixmaps[j].height < pixmaps[h].width * pixmaps[h].height by {
            assert(head[j] == pixmaps[j]);
        }
        if pixmaps[last].width * pixmaps[last].height >= pixmaps[h].width * pixmaps[h].height {
            last
        } else {
            h
        }
    };
    assert(is_best(pixmaps, k));
    lemma_best(pixmaps, k);
    assert forall|j: int| is_largest(pixmaps, j) implies j == k by {
        lemma_largest(pixmaps, j);
    }
    k
}

/// The hash of a content with its length in front.
pub open spec fn hash_of(content: Seq<u8>) -> u64 {
    DefaultHasher::spec_finish(seq![spec_u64_to_le_bytes(content.len() as u64), content])
}

/// An item with pixmaps is shown by its best one: where it converts, by a file
/// that holds what it converts to and is named after its hash; where it does not,
/// by the icon's name, and the reason is kept.
pub proof fn the_best_pixmap_is_shown(
    item: ItemModel,
    cache: Option<Seq<u8>>,
    pixmaps: Seq<PixmapModel>,
    k: int,
)
    requires
        item.pixmaps == Some(pixmaps),
        is_best(pixmaps, k),
    ensures
        match pixmap_png(pixmaps[k]) {
            Ok(content) => icon_plan(item, cache) == (PlanModel::Store {
                png: content,
                path: icon_path(cache, hex(hash_of(content) as nat, 16) + ".png"@),
                fallback: item.icon_name,
            }),
            Err(error) => icon_plan(item, cache) == (PlanModel::Refused {
                error,
                fallback: item.icon_name,
            }),
        },
        has_whole_icon(item) <==> is_whole(pixmaps[k]),
{
    lemma_best(pixmaps, k);
}

/// The file of an icon holds the PNG file of the pixels of the item's best
/// pixmap: whatever image holds those pixels, the plan keeps what the encoder
/// makes of it.
pub proof fn the_file_of_an_icon_holds_its_pixels(
    item: ItemModel,
    cache: Option<Seq<u8>>,
    pixmaps: Seq<PixmapModel>,
    k: int,
    width: nat,
    height: nat,
    image: Seq<u8>,
)
    requires
        item.pixmaps == Some(pixmaps),
        is_best(pixmaps, k),
        is_side(width, pixmaps[k].width),
        is_side(height, pixmaps[k].height),
        pixmaps[k].pixels.len() == bytes_for(width, height),
        is_countable(width, height),
        holds_the_pixels(image, pixmaps[k].pixels),
    ensures
        png_encoding(image, width as u32, height as u32) matches Ok(content) ==> icon_plan(
            item,
            cache,
        ) == (PlanModel::Store {
            png: content,
            path: icon_path(cache, hex(hash_of(content) as nat, 16) + ".png"@),
            fallback: item.icon_name,
        }),
{
    the_best_pixmap_is_shown(item, cache, pixmaps, k);
    a_pixmap_converts_pixel_by_pixel(pixmaps[k], width, height, image);
}

/// An item without a pixmap is shown by its icon's name.
pub proof fn an_item_without_pixmaps_is_shown_by_name(item: ItemModel, cache: Option<Seq<u8>>)
    requires
        item.pixmaps is None || item.pixmaps->0.len() == 0,
    ensures
        icon_plan(item, cache) == PlanModel::Keep(item.icon_name),
        !has_whole_icon(item),
{
}

/// A file that was written is shown by its path; everything else by name.
pub proof fn a_written_file_is_shown_by_its_path(
    png: Seq<u8>,
    path: Seq<u8>,
    name: Option<Seq<char>>,
    error: Seq<char>,
    is_written: bool,
)
    ensures
        resolved(PlanModel::Store { png, path, fallback: name }, true) == Some(path_text(path)),
        resolved(PlanModel::Store { png, path, fallback: name }, false) == name,
        resolved(PlanModel::Refused { error, fallback: name }, is_written) == name,
        resolved(PlanModel::Keep(name), is_written) == name,
{
}

/// The digest of a file depends on its length and on all of its bytes.
pub proof fn a_digest_is_of_the_whole_content(content: Seq<u8>)
    ensures
        digest(content) == hash_of(content),
{
}

} // verus!
