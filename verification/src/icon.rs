//! Icons: turning the pixmap that an application sends into a PNG file that a
//! picker can show.

use std::collections::hash_map::DefaultHasher;
use std::hash::Hasher;

use vstd::arithmetic::div_mod::lemma_mul_mod_noop_left;
use vstd::bytes::{spec_u64_to_le_bytes, u64_to_le_bytes};
use vstd::prelude::*;
use vstd::std_specs::hash::DefaultHasherAdditionalSpecFns;

use crate::item::{pixmap_models, IconPixmap, ItemModel, PixmapModel, StatusNotifierItem};
use crate::number::{
    decimal, hex, lemma_hex_injective, lemma_hex_len, lemma_hex_range_u64, push_decimal, push_hex,
};
use crate::paths::{
    ascii, cache_dir, icon_dir, icon_path, icon_path_in, is_ascii, joined, opt_bytes, path_text,
    path_to_text,
};
use crate::text::{clone_opt, copy_text, opt_text};

verus! {

// ---------------------------------------------------------------------------
// Pixels
// ---------------------------------------------------------------------------

/// The pixels of an image with the bytes of each brought from the order alpha,
/// red, green, blue into the order red, green, blue, alpha. Bytes that make no
/// whole pixel are left out.
pub open spec fn rgba(argb: Seq<u8>) -> Seq<u8> {
    Seq::new(
        (argb.len() / 4 * 4) as nat,
        |i: int|
            if i % 4 == 3 {
                argb[i - 3]
            } else {
                argb[i + 1]
            },
    )
}

/// Every whole pixel keeps its place and its four values.
pub proof fn pixels_keep_their_colours(argb: Seq<u8>, k: int)
    requires
        0 <= k < argb.len() / 4,
    ensures
        rgba(argb)[4 * k] == argb[4 * k + 1],
        rgba(argb)[4 * k + 1] == argb[4 * k + 2],
        rgba(argb)[4 * k + 2] == argb[4 * k + 3],
        rgba(argb)[4 * k + 3] == argb[4 * k],
        argb.len() % 4 == 0 ==> rgba(argb).len() == argb.len(),
{
}

/// The pixels of an image in the byte order red, green, blue, alpha.
pub fn argb32_to_rgba(argb: &Vec<u8>) -> (r: Vec<u8>)
    ensures
        r@ == rgba(argb@),
{
    let n: usize = argb.len();
    let mut r: Vec<u8> = Vec::with_capacity(n);
    let mut i: usize = 0;
    while n - i >= 4
        invariant
            i <= n == argb@.len(),
            i % 4 == 0,
            r@.len() == i,
            forall|j: int| 0 <= j < i ==> #[trigger] r@[j] == rgba(argb@)[j],
        decreases n - i,
    {
        r.push(argb[i + 1]);
        r.push(argb[i + 2]);
        r.push(argb[i + 3]);
        r.push(argb[i]);
        i += 4;
    }
    assert(r@ == rgba(argb@));
    r
}

/// The value of a 32-bit integer read without a sign.
pub open spec fn unsigned(n: i32) -> nat {
    if n < 0 {
        (n + 0x1_0000_0000) as nat
    } else {
        n as nat
    }
}

fn to_unsigned(n: i32) -> (r: u32)
    ensures
        r == unsigned(n),
{
    assert(n < 0 ==> (n as u32) == n + 0x1_0000_0000) by (bit_vector);
    assert(n >= 0 ==> (n as u32) == n) by (bit_vector);
    n as u32
}

/// The number of bytes that a pixmap of this size has, in 32-bit arithmetic.
pub open spec fn pixmap_len(width: nat, height: nat) -> nat {
    (width * height * 4) % 0x1_0000_0000
}

fn pixmap_bytes(width: u32, height: u32) -> (r: u32)
    ensures
        r == pixmap_len(width as nat, height as nat),
{
    proof {
        let area = width as int * height as int;
        lemma_mul_mod_noop_left(area, 4, 0x1_0000_0000);
        assert(area >= 0) by (nonlinear_arith)
            requires
                area == width as int * height as int,
        ;
    }
    width.wrapping_mul(height).wrapping_mul(4)
}

// ---------------------------------------------------------------------------
// PNG
// ---------------------------------------------------------------------------

/// The step at which the encoder refused an image, with its message.
#[derive(Debug)]
pub enum PngFault {
    Header(String),
    Write(String),
    Finish(String),
}

/// What a fault of the encoder says.
pub enum PngFaultModel {
    Header(Seq<char>),
    Write(Seq<char>),
    Finish(Seq<char>),
}

impl View for PngFault {
    type V = PngFaultModel;

    open spec fn view(&self) -> PngFaultModel {
        match *self {
            PngFault::Header(m) => PngFaultModel::Header(m@),
            PngFault::Write(m) => PngFaultModel::Write(m@),
            PngFault::Finish(m) => PngFaultModel::Finish(m@),
        }
    }
}

/// What the encoder gave back.
pub open spec fn encoded(r: Result<Vec<u8>, PngFault>) -> Result<Seq<u8>, PngFaultModel> {
    match r {
        Ok(v) => Ok(v@),
        Err(e) => Err(e@),
    }
}

/// The PNG file of an image with 8 bits each of red, green, blue and alpha, or
/// the encoder's refusal of it.
pub uninterp spec fn png_encoding(rgba: Seq<u8>, width: u32, height: u32) -> Result<
    Seq<u8>,
    PngFaultModel,
>;

/// Whether the encoder can count the bytes of an image of this size, with one
/// byte more per row, on this machine.
pub open spec fn raster_fits(width: nat, height: nat) -> bool {
    4 * width + 1 <= usize::MAX && (4 * width + 1) * height <= usize::MAX
}

/// Encodes an image with `png::Encoder`, set to colour type `Rgba` and bit depth
/// `Eight`: `write_header`, `write_image_data`, `finish`. The file, or the
/// refusal, is a function of the image. An image without width or height is
/// refused with the header; one whose data does not have four bytes per pixel
/// is refused with the data; any other is encoded, since nothing else is
/// refused and writing into a vector does not fail. The size is such that
/// `write_image_data` counts the bytes of the image without overflow.
#[verifier::external_body]
fn encode_png(rgba: &Vec<u8>, width: u32, height: u32) -> (r: Result<Vec<u8>, PngFault>)
    requires
        raster_fits(width as nat, height as nat),
    ensures
        encoded(r) == png_encoding(rgba@, width, height),
        width == 0 || height == 0 ==> r matches Err(PngFault::Header(_)),
        width > 0 && height > 0 && rgba@.len() != 4 * width * height ==> r matches Err(
            PngFault::Write(_),
        ),
        width > 0 && height > 0 && rgba@.len() == 4 * width * height ==> r is Ok,
{
    let mut buf = Vec::new();
    let mut encoder = png::Encoder::new(&mut buf, width, height);
    encoder.set_color(png::ColorType::Rgba);
    encoder.set_depth(png::BitDepth::Eight);
    let mut writer = encoder.write_header().map_err(|e| PngFault::Header(e.to_string()))?;
    writer.write_image_data(rgba).map_err(|e| PngFault::Write(e.to_string()))?;
    writer.finish().map_err(|e| PngFault::Finish(e.to_string()))?;
    Ok(buf)
}

/// The message for a fault of the encoder.
pub open spec fn fault_message(f: PngFaultModel) -> Seq<char> {
    match f {
        PngFaultModel::Header(m) => "png header: "@ + m,
        PngFaultModel::Write(m) => "png write: "@ + m,
        PngFaultModel::Finish(m) => "png finish: "@ + m,
    }
}

/// The bytes or the message of a conversion.
pub open spec fn conversion(r: Result<Vec<u8>, String>) -> Result<Seq<u8>, Seq<char>> {
    match r {
        Ok(v) => Ok(v@),
        Err(e) => Err(e@),
    }
}

/// What the encoder gave back, with a message in place of a fault.
pub open spec fn with_message(r: Result<Seq<u8>, PngFaultModel>) -> Result<Seq<u8>, Seq<char>> {
    match r {
        Ok(v) => Ok(v),
        Err(f) => Err(fault_message(f)),
    }
}

/// Turns a fault of the encoder into its message.
pub fn png_outcome(result: Result<Vec<u8>, PngFault>) -> (r: Result<Vec<u8>, String>)
    ensures
        conversion(r) == with_message(encoded(result)),
{
    let (mut message, detail): (String, String) = match result {
        Ok(png) => return Ok(png),
        Err(PngFault::Header(m)) => (copy_text("png header: "), m),
        Err(PngFault::Write(m)) => (copy_text("png write: "), m),
        Err(PngFault::Finish(m)) => (copy_text("png finish: "), m),
    };
    message.append(detail.as_str());
    Err(message)
}

/// The message for a pixmap whose data has the wrong length.
pub open spec fn mismatch_message(got: nat, expected: nat) -> Seq<char> {
    "pixmap size mismatch: got "@ + decimal(got) + " bytes, expected "@ + decimal(expected)
}

/// The message for a pixmap that is larger than memory.
pub open spec fn oversize_message(width: nat, height: nat) -> Seq<char> {
    "pixmap too large: "@ + decimal(width) + "x"@ + decimal(height)
}

/// The PNG file of a pixmap. One whose data does not have the length of its
/// size, or that is larger than memory, is refused; the encoder decides on the
/// rest.
pub open spec fn pixmap_png(p: PixmapModel) -> Result<Seq<u8>, Seq<char>> {
    let width = unsigned(p.width);
    let height = unsigned(p.height);
    if p.pixels.len() != pixmap_len(width, height) {
        Err(mismatch_message(p.pixels.len(), pixmap_len(width, height)))
    } else if !raster_fits(width, height) {
        Err(oversize_message(width, height))
    } else {
        with_message(png_encoding(rgba(p.pixels), width as u32, height as u32))
    }
}

fn fits(width: u32, height: u32) -> (r: bool)
    ensures
        r == raster_fits(width as nat, height as nat),
{
    let row: u128 = 4 * (width as u128) + 1;
    proof {
        assert(0 <= row * height <= 0x4_0000_0000 * 0x1_0000_0000) by (nonlinear_arith)
            requires
                0 <= row <= 0x4_0000_0000,
                0 <= height <= 0x1_0000_0000,
        ;
    }
    row <= usize::MAX as u128 && row * (height as u128) <= usize::MAX as u128
}

/// Whether a pixmap is a whole image: it has at least one pixel, and the four
/// bytes of each. Its length is below 2 to the 32nd, and the encoder can count
/// it.
pub open spec fn is_whole(p: PixmapModel) -> bool {
    let width = unsigned(p.width);
    let height = unsigned(p.height);
    &&& width > 0 && height > 0
    &&& p.pixels.len() == 4 * width * height < 0x1_0000_0000
    &&& raster_fits(width, height)
}

/// Converts a pixmap into a PNG file. The whole images are converted, and
/// nothing else is.
pub fn argb32_to_png(pixmap: &IconPixmap) -> (r: Result<Vec<u8>, String>)
    ensures
        conversion(r) == pixmap_png(pixmap@),
        r is Ok <==> is_whole(pixmap@),
{
    let width: u32 = to_unsigned(pixmap.width);
    let height: u32 = to_unsigned(pixmap.height);
    let expected: u32 = pixmap_bytes(width, height);
    proof {
        let product = width as int * height as int;
        assert((product * 4) % 0x1_0000_0000 % 4 == 0);
        assert(0 <= product && 4 * width * height == product * 4) by (nonlinear_arith)
            requires
                product == width as int * height as int,
        ;
    }
    if pixmap.pixels.len() as u64 != expected as u64 {
        let mut message = copy_text("pixmap size mismatch: got ");
        push_decimal(&mut message, pixmap.pixels.len() as u64);
        message.append(" bytes, expected ");
        push_decimal(&mut message, expected as u64);
        return Err(message);
    }
    if !fits(width, height) {
        let mut message = copy_text("pixmap too large: ");
        push_decimal(&mut message, width as u64);
        message.append("x");
        push_decimal(&mut message, height as u64);
        return Err(message);
    }
    let image: Vec<u8> = argb32_to_rgba(&pixmap.pixels);
    assert(image@.len() == pixmap.pixels@.len());
    png_outcome(encode_png(&image, width, height))
}

// ---------------------------------------------------------------------------
// The cached file
// ---------------------------------------------------------------------------

/// The digest of a file's content: the standard library's default hash of the
/// content with its length in front.
pub open spec fn digest(content: Seq<u8>) -> u64 {
    DefaultHasher::spec_finish(seq![spec_u64_to_le_bytes(content.len() as u64), content])
}

/// The name of the file that holds an icon with this digest.
pub open spec fn icon_file(hash: u64) -> Seq<char> {
    hex(hash as nat, 16) + ".png"@
}

/// The name of the file that holds an icon with this digest.
pub fn icon_file_name(hash: u64) -> (r: String)
    ensures
        r@ == icon_file(hash),
{
    let mut r = String::new();
    push_hex(&mut r, hash, 16);
    assert(r@ == hex(hash as nat, 16));
    r.append(".png");
    r
}

/// The digest of a file's content.
pub fn content_digest(content: &Vec<u8>) -> (r: u64)
    ensures
        r == digest(content@),
{
    let mut hasher = DefaultHasher::new();
    let len: Vec<u8> = u64_to_le_bytes(content.len() as u64);
    hasher.write(len.as_slice());
    hasher.write(content.as_slice());
    assert(hasher@ == seq![spec_u64_to_le_bytes(content@.len() as u64), content@]);
    hasher.finish()
}

/// Whether `c` is a hexadecimal digit in lower case.
pub open spec fn is_hex_digit(c: char) -> bool {
    48 <= c as int <= 57 || 97 <= c as int <= 102
}

/// The file of an icon is named by sixteen lower-case hexadecimal digits and
/// `.png`.
pub proof fn an_icon_is_named_in_hexadecimal(hash: u64)
    ensures
        icon_file(hash).len() == 20,
        forall|i: int| 0 <= i < 16 ==> is_hex_digit(#[trigger] icon_file(hash)[i]),
        icon_file(hash).skip(16) == ".png"@,
        is_ascii(icon_file(hash)),
{
    reveal_strlit(".png");
    lemma_hex_len(hash as nat, 16);
    lemma_hex_digits(hash as nat, 16);
    let name = icon_file(hash);
    let digits = hex(hash as nat, 16);
    assert(name.skip(16) == ".png"@);
    assert forall|i: int| 0 <= i < 16 implies is_hex_digit(#[trigger] name[i]) by {
        assert(name[i] == digits[i]);
    }
    assert forall|i: int| 0 <= i < name.len() implies (#[trigger] name[i]) as int <= 127 by {
        if i >= 16 {
            assert(name[i] == ".png"@[i - 16]);
        }
    }
}

proof fn lemma_hex_digits(n: nat, width: nat)
    ensures
        forall|i: int| 0 <= i < hex(n, width).len() ==> is_hex_digit(#[trigger] hex(n, width)[i]),
    decreases width,
{
    if width > 0 {
        let head = hex(n / 16, (width - 1) as nat);
        lemma_hex_digits(n / 16, (width - 1) as nat);
        assert forall|i: int| 0 <= i < hex(n, width).len() implies is_hex_digit(
            #[trigger] hex(n, width)[i],
        ) by {
            if i < head.len() {
                assert(hex(n, width)[i] == head[i]);
            }
        }
    }
}

/// Icons with different digests have different names.
pub proof fn icon_files_differ(a: u64, b: u64)
    requires
        a != b,
    ensures
        icon_file(a) != icon_file(b),
{
    if icon_file(a) == icon_file(b) {
        lemma_hex_len(a as nat, 16);
        lemma_hex_len(b as nat, 16);
        assert(icon_file(a).take(16) == hex(a as nat, 16));
        assert(icon_file(b).take(16) == hex(b as nat, 16));
        lemma_hex_range_u64();
        lemma_hex_injective(a as nat, b as nat, 16);
    }
}

// ---------------------------------------------------------------------------
// Choosing and resolving
// ---------------------------------------------------------------------------

/// The area of a pixmap.
pub open spec fn area(p: PixmapModel) -> int {
    p.width * p.height
}

fn pixmap_area(p: &IconPixmap) -> (r: i64)
    ensures
        r == area(p@),
{
    let width: i64 = p.width as i64;
    let height: i64 = p.height as i64;
    proof {
        let bound: int = 0x8000_0000;
        assert(-(bound * bound) <= width * height <= bound * bound) by (nonlinear_arith)
            requires
                -bound <= width <= bound,
                -bound <= height <= bound,
        ;
    }
    width * height
}

/// Whether the pixmap at `best` is the largest: none has a larger area, and
/// none after it has the same.
pub open spec fn is_largest(pixmaps: Seq<PixmapModel>, best: int) -> bool {
    &&& 0 <= best < pixmaps.len()
    &&& forall|j: int| 0 <= j < pixmaps.len() ==> area(#[trigger] pixmaps[j]) <= area(pixmaps[best])
    &&& forall|j: int| best < j < pixmaps.len() ==> area(#[trigger] pixmaps[j]) < area(pixmaps[best])
}

/// The place of the largest pixmap.
pub open spec fn largest(pixmaps: Seq<PixmapModel>) -> int {
    choose|best: int| is_largest(pixmaps, best)
}

/// There is only one largest pixmap.
pub proof fn lemma_largest(pixmaps: Seq<PixmapModel>, best: int)
    requires
        is_largest(pixmaps, best),
    ensures
        largest(pixmaps) == best,
{
    let other = largest(pixmaps);
    assert(is_largest(pixmaps, other));
    if other < best {
        assert(area(pixmaps[best]) < area(pixmaps[other]));
        assert(area(pixmaps[other]) <= area(pixmaps[best]));
    } else if best < other {
        assert(area(pixmaps[other]) < area(pixmaps[best]));
        assert(area(pixmaps[best]) <= area(pixmaps[other]));
    }
}

/// The place of the largest pixmap.
pub fn largest_pixmap(pixmaps: &Vec<IconPixmap>) -> (best: usize)
    requires
        pixmaps@.len() > 0,
    ensures
        is_largest(pixmap_models(pixmaps@), best as int),
        best == largest(pixmap_models(pixmaps@)),
{
    let ghost models = pixmap_models(pixmaps@);
    let mut best: usize = 0;
    let mut best_area: i64 = pixmap_area(&pixmaps[0]);
    let mut i: usize = 1;
    while i < pixmaps.len()
        invariant
            models == pixmap_models(pixmaps@),
            best < i <= pixmaps@.len(),
            best_area == area(models[best as int]),
            forall|j: int| 0 <= j < i ==> area(#[trigger] models[j]) <= best_area,
            forall|j: int| best < j < i ==> area(#[trigger] models[j]) < best_area,
        decreases pixmaps@.len() - i,
    {
        let next: i64 = pixmap_area(&pixmaps[i]);
        assert(next == area(models[i as int]));
        if next >= best_area {
            best = i;
            best_area = next;
        }
        i += 1;
    }
    proof {
        lemma_largest(models, best as int);
    }
    best
}

/// How the icon of an item comes to be shown.
#[derive(Debug)]
pub enum IconPlan {
    /// By its freedesktop name, if it has one.
    Keep(Option<String>),
    /// By its name, since its pixmap cannot be converted; why.
    Refused { error: String, fallback: Option<String> },
    /// As a file at this path in the icon cache; by its name where the file
    /// cannot be written.
    Store { png: Vec<u8>, path: Vec<u8>, fallback: Option<String> },
}

/// What an icon plan says.
#[verifier::ext_equal]
pub enum PlanModel {
    Keep(Option<Seq<char>>),
    Refused { error: Seq<char>, fallback: Option<Seq<char>> },
    Store { png: Seq<u8>, path: Seq<u8>, fallback: Option<Seq<char>> },
}

impl View for IconPlan {
    type V = PlanModel;

    open spec fn view(&self) -> PlanModel {
        match *self {
            IconPlan::Keep(name) => PlanModel::Keep(opt_text(name)),
            IconPlan::Refused { error, fallback } => PlanModel::Refused {
                error: error@,
                fallback: opt_text(fallback),
            },
            IconPlan::Store { png, path, fallback } => PlanModel::Store {
                png: png@,
                path: path@,
                fallback: opt_text(fallback),
            },
        }
    }
}

/// The plan for an icon whose pixmap converts to `png`: keep the file in the
/// icon cache, under the name that its digest gives it, or fall back on the
/// name where there is none.
pub open spec fn plan_of(
    png: Result<Seq<u8>, Seq<char>>,
    icon_name: Option<Seq<char>>,
    cache: Option<Seq<u8>>,
) -> PlanModel {
    match png {
        Ok(content) => PlanModel::Store {
            png: content,
            path: icon_path(cache, icon_file(digest(content))),
            fallback: icon_name,
        },
        Err(error) => PlanModel::Refused { error, fallback: icon_name },
    }
}

/// The plan for the icon of an item, given the cache directory: its largest
/// pixmap as a file, else its name.
pub open spec fn icon_plan(item: ItemModel, cache: Option<Seq<u8>>) -> PlanModel {
    match item.pixmaps {
        Some(pixmaps) => if pixmaps.len() > 0 {
            plan_of(pixmap_png(pixmaps[largest(pixmaps)]), item.icon_name, cache)
        } else {
            PlanModel::Keep(item.icon_name)
        },
        None => PlanModel::Keep(item.icon_name),
    }
}

/// Whether the largest pixmap of an item is a whole image.
pub open spec fn has_whole_icon(item: ItemModel) -> bool {
    item.pixmaps matches Some(pixmaps) && pixmaps.len() > 0 && is_whole(pixmaps[largest(pixmaps)])
}

/// The plan for an icon whose pixmap converts to `png`, given the cache
/// directory.
pub fn plan_with(
    png: Result<Vec<u8>, String>,
    icon_name: &Option<String>,
    cache: &Option<Vec<u8>>,
) -> (r: IconPlan)
    ensures
        r@ == plan_of(conversion(png), opt_text(*icon_name), opt_bytes(*cache)),
{
    match png {
        Ok(png) => {
            let hash: u64 = content_digest(&png);
            let file_name: String = icon_file_name(hash);
            proof {
                an_icon_is_named_in_hexadecimal(hash);
            }
            let path: Vec<u8> = icon_path_in(cache, file_name.as_str());
            IconPlan::Store { png, path, fallback: clone_opt(icon_name) }
        },
        Err(error) => IconPlan::Refused { error, fallback: clone_opt(icon_name) },
    }
}

/// The plan for the icon of an item, given the cache directory. A file is kept
/// exactly where the largest pixmap is a whole image.
pub fn plan_icon_in(item: &StatusNotifierItem, cache: &Option<Vec<u8>>) -> (r: IconPlan)
    ensures
        r@ == icon_plan(item@, opt_bytes(*cache)),
        r is Store <==> has_whole_icon(item@),
{
    match &item.icon_pixmap {
        Some(pixmaps) => {
            if pixmaps.len() > 0 {
                let best: usize = largest_pixmap(pixmaps);
                plan_with(argb32_to_png(&pixmaps[best]), &item.icon_name, cache)
            } else {
                IconPlan::Keep(clone_opt(&item.icon_name))
            }
        },
        None => IconPlan::Keep(clone_opt(&item.icon_name)),
    }
}

/// The plan for the icon of an item. A file is kept exactly where the largest
/// pixmap is a whole image.
pub fn plan_icon(item: &StatusNotifierItem) -> (r: IconPlan)
    ensures
        exists|cache: Option<Seq<u8>>| r@ == #[trigger] icon_plan(item@, cache),
        r is Store <==> has_whole_icon(item@),
{
    let cache = cache_dir();
    let r = plan_icon_in(item, &cache);
    assert(r@ == icon_plan(item@, opt_bytes(cache)));
    r
}

/// What a picker is given for an icon: the path of its file, if the plan has a
/// file and it was written, else its name.
pub open spec fn resolved(plan: PlanModel, is_written: bool) -> Option<Seq<char>> {
    match plan {
        PlanModel::Keep(name) => name,
        PlanModel::Refused { fallback, .. } => fallback,
        PlanModel::Store { path, fallback, .. } => if is_written {
            Some(path_text(path))
        } else {
            fallback
        },
    }
}

/// What a picker is given for an icon, once its plan has been carried out.
/// `is_written` tells whether the file was written.
pub fn resolve_icon(plan: IconPlan, is_written: bool) -> (r: Option<String>)
    ensures
        opt_text(r) == resolved(plan@, is_written),
{
    match plan {
        IconPlan::Keep(name) => name,
        IconPlan::Refused { fallback, .. } => fallback,
        IconPlan::Store { path, fallback, .. } => if is_written {
            Some(path_to_text(&path))
        } else {
            fallback
        },
    }
}

// ---------------------------------------------------------------------------
// The icon cache
// ---------------------------------------------------------------------------

/// The files, by their paths, once a plan is carried out.
pub open spec fn carried_out(files: Map<Seq<u8>, Seq<u8>>, plan: PlanModel) -> Map<
    Seq<u8>,
    Seq<u8>,
> {
    match plan {
        PlanModel::Store { png, path, .. } => files.insert(path, png),
        _ => files,
    }
}

/// An icon whose largest pixmap converts is shown by the path of its file in the
/// icon cache, and the file holds the converted pixmap. The icon's name plays no
/// part.
pub proof fn a_converted_icon_is_shown_by_its_file(
    item: ItemModel,
    cache: Option<Seq<u8>>,
    content: Seq<u8>,
    files: Map<Seq<u8>, Seq<u8>>,
)
    requires
        item.pixmaps is Some && item.pixmaps->0.len() > 0,
        pixmap_png(item.pixmaps->0[largest(item.pixmaps->0)]) == Ok::<Seq<u8>, Seq<char>>(content),
    ensures
        ({
            let path = joined(icon_dir(cache), ascii(icon_file(digest(content))));
            let after = carried_out(files, icon_plan(item, cache));
            &&& resolved(icon_plan(item, cache), true) == Some(path_text(path))
            &&& after.contains_key(path)
            &&& after[path] == content
        }),
{
}

/// The same icon is kept in the same file and shown by the same path, whichever
/// item it belongs to, and keeping it again changes no file.
pub proof fn the_same_icon_has_the_same_file(
    a: ItemModel,
    b: ItemModel,
    cache: Option<Seq<u8>>,
    files: Map<Seq<u8>, Seq<u8>>,
)
    requires
        a.pixmaps is Some && a.pixmaps->0.len() > 0,
        b.pixmaps is Some && b.pixmaps->0.len() > 0,
        a.pixmaps->0[largest(a.pixmaps->0)] == b.pixmaps->0[largest(b.pixmaps->0)],
        icon_plan(a, cache) is Store,
    ensures
        icon_plan(b, cache) is Store,
        icon_plan(a, cache)->png == icon_plan(b, cache)->png,
        icon_plan(a, cache)->path == icon_plan(b, cache)->path,
        resolved(icon_plan(a, cache), true) == resolved(icon_plan(b, cache), true),
        carried_out(carried_out(files, icon_plan(a, cache)), icon_plan(b, cache)) == carried_out(
            files,
            icon_plan(a, cache),
        ),
{
    let once = carried_out(files, icon_plan(a, cache));
    assert(carried_out(once, icon_plan(b, cache)) =~= once);
}

/// Icons with different digests are kept at different paths.
pub proof fn icons_are_kept_apart(cache: Option<Seq<u8>>, a: u64, b: u64)
    requires
        a != b,
    ensures
        icon_path(cache, icon_file(a)) != icon_path(cache, icon_file(b)),
{
    icon_files_differ(a, b);
    an_icon_is_named_in_hexadecimal(a);
    an_icon_is_named_in_hexadecimal(b);
    if icon_path(cache, icon_file(a)) == icon_path(cache, icon_file(b)) {
        let n = icon_path(cache, icon_file(a)).len() - icon_file(a).len();
        assert forall|i: int| 0 <= i < icon_file(a).len() implies icon_file(a)[i] == icon_file(
            b,
        )[i] by {
            assert(icon_path(cache, icon_file(a))[n + i] == ascii(icon_file(a))[i]);
            assert(icon_path(cache, icon_file(b))[n + i] == ascii(icon_file(b))[i]);
            assert(ascii(icon_file(a))[i] == (icon_file(a)[i] as int) as u8);
            assert(ascii(icon_file(b))[i] == (icon_file(b)[i] as int) as u8);
            assert(icon_file(a)[i] as int <= 127 && icon_file(b)[i] as int <= 127);
        }
        assert(icon_file(a) == icon_file(b));
    }
}

} // verus!
