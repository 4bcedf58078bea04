//! The texture cache of `rusttype`: what it holds, and the calls made on it.
//!
//! A `Cache` packs the drawings of glyphs into one texture. What contracts say of one is said
//! through three names: the glyphs that wait to be drawn, where the texture shows each glyph,
//! and the attributes that the cache was made with.
use crate::float32::Float32;
use crate::geometry::{Point, Rectangle};
use rusttype::gpu_cache::{Cache, CacheBuilder, CacheReadErr, CacheWriteErr, CachedBy};
use rusttype::PositionedGlyph;
use vstd::prelude::*;

verus! {

#[verifier::external_type_specification]
#[verifier::external_body]
pub struct ExCache<'font>(rusttype::gpu_cache::Cache<'font>);

#[verifier::external_type_specification]
#[verifier::external_body]
pub struct ExCacheBuilder(rusttype::gpu_cache::CacheBuilder);

#[verifier::external_type_specification]
#[verifier::external_body]
pub struct ExCacheReadErr(rusttype::gpu_cache::CacheReadErr);

#[verifier::external_type_specification]
#[verifier::external_body]
pub struct ExCacheWriteErr(rusttype::gpu_cache::CacheWriteErr);

#[verifier::external_type_specification]
#[verifier::external_body]
pub struct ExPositionedGlyph<'a>(rusttype::PositionedGlyph<'a>);

#[verifier::external_type_specification]
#[verifier::external_body]
#[verifier::reject_recursive_types(N)]
pub struct ExRect<N>(rusttype::Rect<N>);

/// The attributes of a texture cache.
#[derive(Clone, Copy, Debug)]
pub struct TextureAttributes {
    pub width: u32,
    pub height: u32,
    pub scale_tolerance: Float32,
    pub position_tolerance: Float32,
    pub pad_glyphs: bool,
    pub align_4x4: bool,
    /// Whether glyphs are drawn by several threads.
    pub multithread: bool,
}

/// The least tolerance that a cache works with, 0.001.
pub const LEAST_TOLERANCE: u32 = 0x3a83_126f;

/// The tolerance that a cache has unless it is given another, 0.1.
pub const DEFAULT_TOLERANCE: u32 = 0x3dcc_cccd;

/// Whether a tolerance is a number that a cache works with as it is.
pub open spec fn tolerance_accepted(tolerance: Float32) -> bool {
    !tolerance.is_nan_spec() && !tolerance.num_lt(Float32 { bits: LEAST_TOLERANCE })
}

impl TextureAttributes {
    /// What a builder starts from.
    pub open spec fn initial() -> TextureAttributes {
        TextureAttributes {
            width: 256,
            height: 256,
            scale_tolerance: Float32 { bits: DEFAULT_TOLERANCE },
            position_tolerance: Float32 { bits: DEFAULT_TOLERANCE },
            pad_glyphs: true,
            align_4x4: false,
            multithread: true,
        }
    }

    /// The same attributes for a texture of another size.
    pub open spec fn with_size(self, width: u32, height: u32) -> TextureAttributes {
        TextureAttributes { width, height, ..self }
    }

    /// Whether `built` can be the attributes of a cache that is built with these: the same,
    /// except that one thread draws where the machine has no more.
    pub open spec fn built_as(self, built: TextureAttributes) -> bool {
        &&& built == (TextureAttributes { multithread: built.multithread, ..self })
        &&& built.multithread ==> self.multithread
    }

    /// Whether a cache can be built with these attributes, and keeps these tolerances then.
    pub open spec fn accepted(self) -> bool {
        tolerance_accepted(self.scale_tolerance) && tolerance_accepted(self.position_tolerance)
    }
}

/// Where the texture holds a glyph, as fractions of its size, and which pixels of the screen
/// the glyph covers.
pub type TextureCoords = (Rectangle<Float32>, Rectangle<i32>);

/// How queued glyphs found their place in the texture.
#[derive(Clone, Copy, Debug, PartialEq, Eq, Structural)]
pub enum Cached {
    /// Beside the glyphs that were there.
    Adding,
    /// By moving what was there: positions read earlier no longer hold.
    Reordering,
}

/// The glyphs that wait in a cache to be drawn into its texture, with the numbers of their
/// fonts, in the order in which they were queued.
pub uninterp spec fn texture_queue(cache: Cache<'_>) -> Seq<(usize, PositionedGlyph<'_>)>;

/// What `Cache::rect_for` answers for each glyph that has a box and that it finds, by font number
/// and glyph: where the texture shows it. After a call of `Cache::cache_queued` that was refused
/// it can find glyphs whose drawings were not handed out.
pub uninterp spec fn texture_rects(cache: Cache<'_>) -> Map<
    (usize, PositionedGlyph<'_>),
    TextureCoords,
>;

/// The attributes of a cache.
pub uninterp spec fn texture_attributes(cache: Cache<'_>) -> TextureAttributes;

/// The attributes that a builder will give to a cache.
pub uninterp spec fn builder_attributes(builder: CacheBuilder) -> TextureAttributes;

/// The conservative pixel bounding box of a glyph; none where it has no outline.
pub uninterp spec fn glyph_box(glyph: PositionedGlyph<'_>) -> Option<Rectangle<i32>>;

/// The number of a glyph within its font.
pub uninterp spec fn glyph_number(glyph: PositionedGlyph<'_>) -> u32;

/// The scale of a glyph, horizontal and vertical.
pub uninterp spec fn glyph_scale(glyph: PositionedGlyph<'_>) -> Point<Float32>;

/// The position of a glyph.
pub uninterp spec fn glyph_position(glyph: PositionedGlyph<'_>) -> Point<Float32>;

/// Whether `PositionedGlyph::draw` returns for a glyph: whether its outline, which is read from
/// its font then, can be read and rasterized. Of a glyph that has a box nothing says so here: it
/// takes the whole outline to tell.
pub uninterp spec fn glyph_drawable(glyph: PositionedGlyph<'_>) -> bool;

/// The conservative pixel bounding box that a glyph has when it is moved to the origin; none
/// where it has no outline.
pub uninterp spec fn glyph_origin_box(glyph: PositionedGlyph<'_>) -> Option<Rectangle<i32>>;

/// The corners of a rectangle of texture pixels.
pub uninterp spec fn rect_region(rect: rusttype::Rect<u32>) -> Rectangle<u32>;

/// How far the place of a glyph in the texture can be from the place of the glyph, in pixels,
/// once numbers as large as an `i32` have been rounded to floating point.
pub const ROUNDING: i32 = 0x1000;

/// Whether a coordinate stays within `i32` when it is rounded.
pub open spec fn pixel_in_range(x: int) -> bool {
    i32::MIN + ROUNDING <= x <= i32::MAX - ROUNDING
}

/// Whether one side of a box that starts and ends there at the origin can be moved with its
/// glyph to `at`: its ends are in range before and after, and so is the distance.
pub open spec fn side_movable(start: i32, end: i32, at: Float32) -> bool {
    &&& !at.is_nan_spec()
    &&& pixel_in_range(start as int) && pixel_in_range(end as int)
    &&& pixel_in_range(at.floor_spec())
    &&& pixel_in_range(start + at.floor_spec()) && pixel_in_range(end + at.floor_spec())
}

/// The length of one side of a box, cast to a `u32`.
pub open spec fn side_length(start: i32, end: i32) -> int {
    if end < start {
        end - start + 0x1_0000_0000
    } else {
        end - start
    }
}

/// Whether the length of one side of a box can be counted: as an `i32`, and cast to a `u32` with
/// 2 pixels of padding and 3 of alignment on top.
pub open spec fn side_countable(start: i32, end: i32) -> bool {
    i32::MIN < end - start <= i32::MAX && side_length(start, end) + 5 <= u32::MAX
}

/// The pixels that one side of a box takes in a texture: padded, and aligned where the texture
/// aligns.
pub open spec fn side_taken(start: i32, end: i32, attributes: TextureAttributes) -> int {
    let padded = side_length(start, end) + 2;
    if attributes.align_4x4 {
        (padded + 3) / 4 * 4
    } else {
        padded
    }
}

/// Whether the box of a glyph is too large for a texture, even if it holds nothing else.
pub open spec fn glyph_too_large(
    glyph: PositionedGlyph<'_>,
    attributes: TextureAttributes,
) -> bool {
    glyph_box(glyph) matches Some(b) && {
        ||| side_taken(b.min.x, b.max.x, attributes) >= attributes.width
        ||| side_taken(b.min.y, b.max.y, attributes) >= attributes.height
    }
}

/// The pixels that glyphs take one above the other.
pub open spec fn rows_taken(
    queue: Seq<(usize, PositionedGlyph<'_>)>,
    attributes: TextureAttributes,
) -> int
    decreases queue.len(),
{
    if queue.len() == 0 {
        0
    } else {
        rows_taken(queue.drop_last(), attributes) + match glyph_box(queue.last().1) {
            Some(b) => side_taken(b.min.y, b.max.y, attributes),
            None => 0,
        }
    }
}

/// Whether glyphs fit into a texture one above the other: none is too large, and together they
/// are not too high.
pub open spec fn fits_stacked(
    queue: Seq<(usize, PositionedGlyph<'_>)>,
    attributes: TextureAttributes,
) -> bool {
    &&& forall|i: int|
        0 <= i < queue.len() ==> !glyph_too_large((#[trigger] queue[i]).1, attributes)
    &&& rows_taken(queue, attributes) <= attributes.height
}

/// What two glyphs share that are drawn alike: the font, the number, the scale, and where they
/// lie between two pixels.
pub open spec fn glyph_kind(item: (usize, PositionedGlyph<'_>)) -> (
    usize,
    u32,
    Point<Float32>,
    Point<int>,
) {
    let at = glyph_position(item.1);
    (
        item.0,
        glyph_number(item.1),
        glyph_scale(item.1),
        Point { x: at.x.fraction(), y: at.y.fraction() },
    )
}

/// How many different drawings glyphs need at most.
pub open spec fn drawings_needed(queue: Seq<(usize, PositionedGlyph<'_>)>) -> nat {
    queue.map_values(|item: (usize, PositionedGlyph<'_>)| glyph_kind(item)).to_set().len()
}

/// Whether glyphs fit into a texture that is divided into cells of one size, which it is larger
/// than: each box is upright and takes no more than a cell, and there are cells enough.
pub open spec fn fits_cells(
    queue: Seq<(usize, PositionedGlyph<'_>)>,
    attributes: TextureAttributes,
    width: int,
    height: int,
) -> bool {
    let in_row = attributes.width as int / width;
    &&& 0 < width < attributes.width
    &&& 0 < height < attributes.height
    &&& forall|i: int|
        0 <= i < queue.len() ==> (glyph_box((#[trigger] queue[i]).1) matches Some(b) && {
            &&& b.min.x <= b.max.x && side_taken(b.min.x, b.max.x, attributes) <= width
            &&& b.min.y <= b.max.y && side_taken(b.min.y, b.max.y, attributes) <= height
        })
    &&& (drawings_needed(queue) + in_row - 1) / in_row * height <= attributes.height
}

/// Whether it is sure that glyphs fit into a texture that holds nothing else: in cells, or one
/// above the other.
pub open spec fn queue_fits(
    queue: Seq<(usize, PositionedGlyph<'_>)>,
    attributes: TextureAttributes,
) -> bool {
    ||| fits_stacked(queue, attributes)
    ||| exists|width: int, height: int| #[trigger] fits_cells(queue, attributes, width, height)
}

/// Whether a texture lacks some of the glyphs, and those that it lacks are all too large for it.
pub open spec fn queue_too_large<'font>(
    queue: Seq<(usize, PositionedGlyph<'font>)>,
    rects: Map<(usize, PositionedGlyph<'font>), TextureCoords>,
    attributes: TextureAttributes,
) -> bool {
    &&& exists|i: int| 0 <= i < queue.len() && !rects.contains_key(#[trigger] queue[i])
    &&& forall|i: int|
        0 <= i < queue.len() && !rects.contains_key(#[trigger] queue[i]) ==> glyph_too_large(
            queue[i].1,
            attributes,
        )
}

/// Whether a drawing is one for a texture: its rectangle lies within the texture, and it has one
/// byte for each pixel of it.
pub open spec fn upload_fits(
    rect: rusttype::Rect<u32>,
    data: Seq<u8>,
    attributes: TextureAttributes,
) -> bool {
    let region = rect_region(rect);
    &&& region.min.x <= region.max.x <= attributes.width
    &&& region.min.y <= region.max.y <= attributes.height
    &&& data.len() == (region.max.x - region.min.x) * (region.max.y - region.min.y)
}

/// Whether a function can be called with every drawing for a texture.
pub open spec fn uploads_taken<F: FnMut(rusttype::Rect<u32>, &[u8])>(
    uploader: F,
    attributes: TextureAttributes,
) -> bool {
    forall|rect: rusttype::Rect<u32>, data: &[u8]|
        upload_fits(rect, data@, attributes) ==> #[trigger] call_requires(uploader, (rect, data))
}

/// Whether a function was called with a drawing for a texture.
pub open spec fn upload_made<F: FnMut(rusttype::Rect<u32>, &[u8])>(
    uploader: F,
    attributes: TextureAttributes,
) -> bool {
    exists|rect: rusttype::Rect<u32>, data: &[u8]|
        upload_fits(rect, data@, attributes) && #[trigger] call_ensures(
            uploader,
            (rect, data),
            (),
        )
}

/// Whether the pixels of a glyph can be counted, where it is drawn and where the texture shows
/// it.
pub open spec fn glyph_in_reach(glyph: PositionedGlyph<'_>) -> bool {
    glyph_box(glyph) matches Some(b) ==> {
        &&& side_countable(b.min.x, b.max.x)
        &&& side_countable(b.min.y, b.max.y)
        &&& glyph_origin_box(glyph) matches Some(o) && {
            &&& side_movable(o.min.x, o.max.x, glyph_position(glyph).x)
            &&& side_movable(o.min.y, o.max.y, glyph_position(glyph).y)
        }
    }
}

/// Whether all glyphs that wait can be drawn, and their pixels counted.
pub open spec fn queue_drawable(queue: Seq<(usize, PositionedGlyph<'_>)>) -> bool {
    forall|i: int|
        0 <= i < queue.len() ==> glyph_in_reach((#[trigger] queue[i]).1) && glyph_drawable(
            queue[i].1,
        )
}

/// `PositionedGlyph::clone`, which is derived: a clone of a glyph is the same glyph.
pub assume_specification<'a>[ <PositionedGlyph<'a> as Clone>::clone ](
    glyph: &PositionedGlyph<'a>,
) -> (r: PositionedGlyph<'a>)
    ensures
        r == *glyph,
;

/// `PositionedGlyph::pixel_bounding_box`: the box that was worked out when the glyph was
/// positioned. A glyph has none just where its font has no outline for it, and then drawing it
/// reads no outline and returns at once.
#[verifier::external_body]
pub(crate) fn read_box(glyph: &PositionedGlyph<'_>) -> (r: Option<Rectangle<i32>>)
    ensures
        r == glyph_box(*glyph),
        r is None ==> glyph_drawable(*glyph),
{
    glyph.pixel_bounding_box().map(
        |b| Rectangle {
            min: Point { x: b.min.x, y: b.min.y },
            max: Point { x: b.max.x, y: b.max.y },
        },
    )
}

/// `ScaledGlyph::positioned` on a copy of the glyph, at the origin, which is the default point:
/// the box that is worked out there.
#[verifier::external_body]
pub(crate) fn read_origin_box(glyph: &PositionedGlyph<'_>) -> (r: Option<Rectangle<i32>>)
    ensures
        r == glyph_origin_box(*glyph),
{
    let moved = glyph.unpositioned().clone().positioned(Default::default());
    moved.pixel_bounding_box().map(
        |b| Rectangle {
            min: Point { x: b.min.x, y: b.min.y },
            max: Point { x: b.max.x, y: b.max.y },
        },
    )
}

/// `PositionedGlyph::id`.
#[verifier::external_body]
pub(crate) fn read_number(glyph: &PositionedGlyph<'_>) -> (r: u32)
    ensures
        r == glyph_number(*glyph),
{
    glyph.id().0
}

/// `PositionedGlyph::scale`, by bit patterns.
#[verifier::external_body]
pub(crate) fn read_scale(glyph: &PositionedGlyph<'_>) -> (r: Point<Float32>)
    ensures
        r == glyph_scale(*glyph),
{
    let scale = glyph.scale();
    Point { x: Float32 { bits: scale.x.to_bits() }, y: Float32 { bits: scale.y.to_bits() } }
}

/// `PositionedGlyph::position`, by bit patterns.
#[verifier::external_body]
pub(crate) fn read_position(glyph: &PositionedGlyph<'_>) -> (r: Point<Float32>)
    ensures
        r == glyph_position(*glyph),
{
    let at = glyph.position();
    Point { x: Float32 { bits: at.x.to_bits() }, y: Float32 { bits: at.y.to_bits() } }
}

/// The fields of a `Rect`.
#[verifier::external_body]
fn read_rect(rect: &rusttype::Rect<u32>) -> (r: Rectangle<u32>)
    ensures
        r == rect_region(*rect),
{
    Rectangle {
        min: Point { x: rect.min.x, y: rect.min.y },
        max: Point { x: rect.max.x, y: rect.max.y },
    }
}

/// Reads where in the texture a drawing belongs.
pub fn upload_region(rect: &rusttype::Rect<u32>) -> (r: Rectangle<u32>)
    ensures
        r == rect_region(*rect),
{
    read_rect(rect)
}

/// `Cache::builder`: a builder with the attributes that a cache has by default.
#[verifier::external_body]
pub(crate) fn start_builder() -> (r: CacheBuilder)
    ensures
        builder_attributes(r) == TextureAttributes::initial(),
{
    Cache::builder()
}

/// `CacheBuilder::dimensions`: the same builder for a texture of this size.
#[verifier::external_body]
pub(crate) fn size_builder(builder: CacheBuilder, width: u32, height: u32) -> (r: CacheBuilder)
    ensures
        builder_attributes(r) == builder_attributes(builder).with_size(width, height),
{
    builder.dimensions(width, height)
}

/// `CacheBuilder::build`: an empty cache with the builder's attributes, drawn by one thread if
/// the machine has no more. It panics on a negative tolerance and on a NaN, and raises a
/// tolerance below the least one.
#[verifier::external_body]
pub(crate) fn build_cache<'font>(builder: CacheBuilder) -> (r: Cache<'font>)
    requires
        builder_attributes(builder).accepted(),
    ensures
        builder_attributes(builder).built_as(texture_attributes(r)),
        texture_queue(r).len() == 0,
        texture_rects(r).dom().is_empty(),
{
    builder.build()
}

/// `CacheBuilder::rebuild`: gives a cache the builder's attributes as `CacheBuilder::build` does,
/// and forgets every glyph in its texture, but not the glyphs that wait. It panics where
/// `CacheBuilder::build` does.
#[verifier::external_body]
pub(crate) fn rebuild_cache(builder: CacheBuilder, cache: &mut Cache<'_>)
    requires
        builder_attributes(builder).accepted(),
    ensures
        builder_attributes(builder).built_as(texture_attributes(*final(cache))),
        texture_queue(*final(cache)) == texture_queue(*old(cache)),
        texture_rects(*final(cache)).dom().is_empty(),
{
    builder.rebuild(cache)
}

/// `Cache::to_builder`: a builder with the attributes of the cache, which were accepted when
/// the cache was built.
#[verifier::external_body]
pub(crate) fn cache_to_builder(cache: &Cache<'_>) -> (r: CacheBuilder)
    ensures
        builder_attributes(r) == texture_attributes(*cache),
        builder_attributes(r).accepted(),
{
    cache.to_builder()
}

/// `Cache::dimensions`: the width and the height of the texture.
#[verifier::external_body]
pub(crate) fn cache_dimensions(cache: &Cache<'_>) -> (r: (u32, u32))
    ensures
        r == (texture_attributes(*cache).width, texture_attributes(*cache).height),
{
    cache.dimensions()
}

/// The glyphs that wait after one more is queued: it joins them only if it has a box.
pub open spec fn queued_after<'font>(
    queue: Seq<(usize, PositionedGlyph<'font>)>,
    font_id: usize,
    glyph: PositionedGlyph<'font>,
) -> Seq<(usize, PositionedGlyph<'font>)> {
    if glyph_box(glyph) is Some {
        queue.push((font_id, glyph))
    } else {
        queue
    }
}

/// `Cache::queue_glyph`: the glyph waits to be drawn unless it has
/// no box. Nothing else of the cache changes.
#[verifier::external_body]
pub(crate) fn queue_glyph<'font>(
    cache: &mut Cache<'font>,
    font_id: usize,
    glyph: PositionedGlyph<'font>,
)
    ensures
        texture_queue(*final(cache)) == queued_after(texture_queue(*old(cache)), font_id, glyph),
        texture_rects(*final(cache)) == texture_rects(*old(cache)),
        texture_attributes(*final(cache)) == texture_attributes(*old(cache)),
{
    cache.queue_glyph(font_id, glyph)
}

/// Whether the texture of a cache lacks a glyph that waits.
pub open spec fn queue_lacking(cache: Cache<'_>) -> bool {
    exists|i: int|
        0 <= i < texture_queue(cache).len() && !texture_rects(cache).contains_key(
            #[trigger] texture_queue(cache)[i],
        )
}

/// `Cache::cache_queued`: draws the waiting glyphs that the texture lacks, and hands each new
/// drawing to `uploader`.
///
/// If all find room then none waits any longer and the texture holds each of them, and where
/// they found room by `Adding` those that it held before stay where they were. If one of them was
/// not held before then `uploader` was called. Every drawing that it is called with lies within
/// the texture and has a byte for each of its pixels. If all of them were held before then they
/// are found there, by `Adding`, and nothing moves.
///
/// All find room whenever they fit into an empty texture in one of two ways: where what the
/// texture holds is in the way, it is cleared and filled anew. It is filled tallest glyph first,
/// each into a row with room for it, or else into a new row as high as the glyph. So no more than
/// the height of each glyph is ever needed; and where all glyphs fit into cells of one size, a new
/// row is only started when every row there is holds at least as many glyphs as it has cells.
/// Glyphs that are drawn alike share a drawing. They do not find room where those that the texture
/// lacks are all too large for it. In between it is not stated whether they do: that takes the
/// packing itself.
///
/// If not all find room then the same glyphs still wait, and nothing is said of what the texture
/// holds. Where in the texture a drawing lies, and which pixels it has, is not stated: the one
/// rests on how the texture was filled, and the other on the outline.
///
/// The cache pads its glyphs: without that a glyph without height gets a row without height, which
/// the next row takes the place of.
///
/// The call does not return where a glyph that it draws has an outline that cannot be read or
/// rasterized: one that ends early, is placed by matching points, holds itself, or touches a
/// pixel's edge in a way that rounding takes for impossible. Each drawing takes a byte of
/// memory for each of its pixels, which the machine is taken to have.
#[verifier::external_body]
pub(crate) fn cache_queued<F: FnMut(rusttype::Rect<u32>, &[u8])>(
    cache: &mut Cache<'_>,
    uploader: F,
) -> (r: Result<Cached, CacheWriteErr>)
    requires
        texture_attributes(*old(cache)).pad_glyphs,
        queue_drawable(texture_queue(*old(cache))),
        uploads_taken(uploader, texture_attributes(*old(cache))),
    ensures
        texture_attributes(*final(cache)) == texture_attributes(*old(cache)),
        r is Err ==> texture_queue(*final(cache)) == texture_queue(*old(cache)),
        r is Ok ==> texture_queue(*final(cache)).len() == 0,
        r is Ok ==> forall|i: int|
            0 <= i < texture_queue(*old(cache)).len() ==> texture_rects(
                *final(cache),
            ).contains_key(#[trigger] texture_queue(*old(cache))[i]),
        !queue_lacking(*old(cache)) ==> (r matches Ok(Cached::Adding)),
        !queue_lacking(*old(cache)) ==> texture_rects(*final(cache)) == texture_rects(*old(cache)),
        queue_fits(texture_queue(*old(cache)), texture_attributes(*old(cache))) ==> r is Ok,
        queue_too_large(
            texture_queue(*old(cache)),
            texture_rects(*old(cache)),
            texture_attributes(*old(cache)),
        ) ==> r is Err,
        r is Ok && queue_lacking(*old(cache)) ==> upload_made(
            uploader,
            texture_attributes(*old(cache)),
        ),
        r matches Ok(Cached::Adding) ==> forall|i: int|
            0 <= i < texture_queue(*old(cache)).len() && texture_rects(*old(cache)).contains_key(
                #[trigger] texture_queue(*old(cache))[i],
            ) ==> texture_rects(*final(cache))[texture_queue(*old(cache))[i]] == texture_rects(
                *old(cache),
            )[texture_queue(*old(cache))[i]],
{
    match cache.cache_queued(uploader) {
        Ok(CachedBy::Adding) => Ok(Cached::Adding),
        Ok(CachedBy::Reordering) => Ok(Cached::Reordering),
        Err(error) => Err(error),
    }
}

/// Whether a texture lacks a glyph that it would have to show.
pub open spec fn glyph_missed(
    rects: Map<(usize, PositionedGlyph<'_>), TextureCoords>,
    font_id: usize,
    glyph: PositionedGlyph<'_>,
) -> bool {
    glyph_box(glyph) is Some && !rects.contains_key((font_id, glyph))
}

/// Where a texture shows a glyph that it does not lack.
pub open spec fn glyph_shown(
    rects: Map<(usize, PositionedGlyph<'_>), TextureCoords>,
    font_id: usize,
    glyph: PositionedGlyph<'_>,
) -> Option<TextureCoords> {
    if glyph_box(glyph) is Some {
        Some(rects[(font_id, glyph)])
    } else {
        None
    }
}

/// `Cache::rect_for`: nothing for a glyph without a box, else where the texture shows the
/// glyph, and an error if the texture does not hold it. The place of the glyph is worked out by
/// adding pixels, which has to stay within `i32`. The cache pads its glyphs, so that each that it
/// holds has a row of its own height.
#[verifier::external_body]
pub(crate) fn rect_for(cache: &Cache<'_>, font_id: usize, glyph: &PositionedGlyph<'_>) -> (r:
    Result<Option<TextureCoords>, CacheReadErr>)
    requires
        texture_attributes(*cache).pad_glyphs,
        glyph_in_reach(*glyph),
    ensures
        r is Err <==> glyph_missed(texture_rects(*cache), font_id, *glyph),
        r matches Ok(coords) ==> coords == glyph_shown(texture_rects(*cache), font_id, *glyph),
{
    let found = cache.rect_for(font_id, glyph)?;
    Ok(found.map(|(uv, px)| (
        Rectangle {
            min: Point { x: Float32 { bits: uv.min.x.to_bits() }, y: Float32 { bits: uv.min.y.to_bits() } },
            max: Point { x: Float32 { bits: uv.max.x.to_bits() }, y: Float32 { bits: uv.max.y.to_bits() } },
        },
        Rectangle {
            min: Point { x: px.min.x, y: px.min.y },
            max: Point { x: px.max.x, y: px.max.y },
        },
    )))
}

fn in_range(x: i64) -> (r: bool)
    ensures
        r == pixel_in_range(x as int),
{
    -0x8000_0000 + ROUNDING as i64 <= x && x <= 0x7fff_ffff - ROUNDING as i64
}

fn is_movable(start: i32, end: i32, at: Float32) -> (r: bool)
    ensures
        r == side_movable(start, end, at),
{
    let (from, to, by): (i64, i64, i64) = (start as i64, end as i64, at.floor_i32() as i64);
    !at.is_nan() && in_range(from) && in_range(to) && in_range(by) && in_range(from + by)
        && in_range(to + by)
}

fn is_countable(start: i32, end: i32) -> (r: bool)
    ensures
        r == side_countable(start, end),
{
    let length: i64 = end as i64 - start as i64;
    -0x8000_0000 < length && length <= 0x7fff_ffff && (length >= 0 || length <= -6)
}

/// Tests whether the pixels of a glyph can be counted.
pub fn is_in_reach(glyph: &PositionedGlyph<'_>) -> (r: bool)
    ensures
        r == glyph_in_reach(*glyph),
{
    match read_box(glyph) {
        Some(b) => {
            let at = read_position(glyph);
            match read_origin_box(glyph) {
                Some(o) => is_countable(b.min.x, b.max.x) && is_countable(b.min.y, b.max.y)
                    && is_movable(o.min.x, o.max.x, at.x) && is_movable(o.min.y, o.max.y, at.y),
                None => false,
            }
        },
        None => true,
    }
}

/// The attributes that a builder starts from are accepted.
pub proof fn initial_attributes_are_accepted()
    ensures
        TextureAttributes::initial().accepted(),
        TextureAttributes::initial().pad_glyphs,
{
    let least = Float32 { bits: LEAST_TOLERANCE };
    let usual = Float32 { bits: DEFAULT_TOLERANCE };
    crate::float32::larger_magnitudes_are_larger(least, usual);
}

} // verus!
