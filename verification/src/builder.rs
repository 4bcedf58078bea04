//! Setting up a brush.
use crate::brush::GlyphBrush;
use crate::font::read_font;
use crate::hashing::{DefaultSectionHasher, SectionHasher};
use crate::texture::{build_cache, size_builder, start_builder, TextureAttributes};
use rusttype::gpu_cache::CacheBuilder;
use rusttype::Font;
use vstd::prelude::*;

verus! {

/// Builder for a [`GlyphBrush`].
pub struct GlyphBrushBuilder<'font, H = DefaultSectionHasher> {
    pub font_data: Vec<Font<'font>>,
    pub cache_glyph_positioning: bool,
    pub cache_glyph_drawing: bool,
    pub section_hasher: H,
    gpu_cache_builder: CacheBuilder,
}

/// What a builder will build.
pub struct BuilderState<'font, H> {
    pub fonts: Vec<Font<'font>>,
    pub cache_positioning: bool,
    pub cache_drawing: bool,
    pub hasher: H,
    /// The attributes of the texture, as far as the machine has the threads.
    pub attributes: TextureAttributes,
}

impl<'font, H> View for GlyphBrushBuilder<'font, H> {
    type V = BuilderState<'font, H>;

    closed spec fn view(&self) -> BuilderState<'font, H> {
        BuilderState {
            fonts: self.font_data,
            cache_positioning: self.cache_glyph_positioning,
            cache_drawing: self.cache_glyph_drawing,
            hasher: self.section_hasher,
            attributes: crate::texture::builder_attributes(self.gpu_cache_builder),
        }
    }
}

impl<'font, H> BuilderState<'font, H> {
    /// Whether a texture can be built and used: its tolerances are accepted, and it pads glyphs.
    /// This holds of every builder that is started here.
    pub open spec fn buildable(self) -> bool {
        self.attributes.accepted() && self.attributes.pad_glyphs
    }

    /// Whether this is what a builder starts with.
    pub open spec fn initial(self) -> bool {
        &&& self.cache_positioning
        &&& self.cache_drawing
        &&& self.attributes == TextureAttributes::initial()
        &&& self.buildable()
    }
}

impl<'font> GlyphBrushBuilder<'font, DefaultSectionHasher> {
    /// Create a new builder with a single font's data that will be used to render glyphs.
    /// Referenced with `FontId(0)`.
    pub fn using_font(font: Font<'font>) -> (r: Self)
        ensures
            r@.fonts@ == seq![font],
            r@.initial(),
    {
        let mut fonts: Vec<Font<'font>> = Vec::new();
        fonts.push(font);
        Self::using_fonts(fonts)
    }

    /// Create a new builder with the bytes of a single font that will be used to render glyphs.
    /// Referenced with `FontId(0)`.
    pub fn using_font_bytes(font_data: &'font [u8]) -> (r: Self)
        requires
            crate::font::is_font_data(font_data@),
        ensures
            r@.fonts@ == seq![crate::font::parsed_font(font_data@)->0],
            r@.initial(),
    {
        match read_font(font_data) {
            Some(font) => Self::using_font(font),
            None => vstd::pervasive::unreached(),
        }
    }

    /// Create a new builder with the bytes of a single font, if they are those of a font.
    pub fn try_using_font_bytes(font_data: &'font [u8]) -> (r: Option<Self>)
        ensures
            r is Some <==> crate::font::is_font_data(font_data@),
            r matches Some(builder) ==> {
                &&& builder@.fonts@ == seq![crate::font::parsed_font(font_data@)->0]
                &&& builder@.initial()
            },
    {
        match read_font(font_data) {
            Some(_) => Some(Self::using_font_bytes(font_data)),
            None => None,
        }
    }

    /// Create a new builder with multiple fonts. The first is referenced with `FontId(0)`, the
    /// second with `FontId(1)` and so on.
    pub fn using_fonts(fonts: Vec<Font<'font>>) -> (r: Self)
        ensures
            r@.fonts == fonts,
            r@.initial(),
    {
        proof {
            crate::texture::initial_attributes_are_accepted();
        }
        GlyphBrushBuilder {
            font_data: fonts,
            cache_glyph_positioning: true,
            cache_glyph_drawing: true,
            section_hasher: DefaultSectionHasher {  },
            gpu_cache_builder: start_builder(),
        }
    }
}

impl<'font, H> GlyphBrushBuilder<'font, H> {
    /// Initial size of 2D texture used as a gpu cache, pixels (width, height).
    pub fn initial_cache_size(self, size: (u32, u32)) -> (r: Self)
        ensures
            r@ == (BuilderState {
                attributes: self@.attributes.with_size(size.0, size.1),
                ..self@
            }),
    {
        GlyphBrushBuilder {
            gpu_cache_builder: size_builder(self.gpu_cache_builder, size.0, size.1),
            ..self
        }
    }

    /// The same builder with another for its texture.
    pub(crate) fn with_cache_builder(self, gpu_cache_builder: CacheBuilder) -> (r: Self)
        ensures
            r@ == (BuilderState {
                attributes: crate::texture::builder_attributes(gpu_cache_builder),
                ..self@
            }),
    {
        GlyphBrushBuilder { gpu_cache_builder, ..self }
    }

    /// Sets whether perform the calculation of glyph positioning according to the layout every
    /// time, or use a cached result if the input section is the same as last time.
    pub fn cache_glyph_positioning(self, cache: bool) -> (r: Self)
        ensures
            r@ == (BuilderState { cache_positioning: cache, ..self@ }),
    {
        GlyphBrushBuilder { cache_glyph_positioning: cache, ..self }
    }

    /// Sets optimising drawing by reusing the last draw requesting an identical draw queue.
    pub fn cache_glyph_drawing(self, cache: bool) -> (r: Self)
        ensures
            r@ == (BuilderState { cache_drawing: cache, ..self@ }),
    {
        GlyphBrushBuilder { cache_glyph_drawing: cache, ..self }
    }

    /// Sets the section hasher.
    pub fn section_hasher<T: SectionHasher>(self, section_hasher: T) -> (r: GlyphBrushBuilder<
        'font,
        T,
    >)
        ensures
            r@ == (BuilderState {
                fonts: self@.fonts,
                cache_positioning: self@.cache_positioning,
                cache_drawing: self@.cache_drawing,
                hasher: section_hasher,
                attributes: self@.attributes,
            }),
    {
        GlyphBrushBuilder {
            font_data: self.font_data,
            cache_glyph_positioning: self.cache_glyph_positioning,
            cache_glyph_drawing: self.cache_glyph_drawing,
            section_hasher,
            gpu_cache_builder: self.gpu_cache_builder,
        }
    }

    /// Builds a `GlyphBrush`.
    pub fn build<V>(self) -> (r: GlyphBrush<'font, V, H>)
        requires
            self@.buildable(),
        ensures
            r.wf(),
            r@.unused(),
            r@.coherent(),
            r@.fonts == self@.fonts,
            r@.cache_positioning == self@.cache_positioning,
            r@.cache_drawing == self@.cache_drawing,
            r@.hasher == self@.hasher,
            self@.attributes.built_as(crate::texture::texture_attributes(r@.texture)),
    {
        GlyphBrush::start(
            self.font_data,
            build_cache(self.gpu_cache_builder),
            self.cache_glyph_positioning,
            self.cache_glyph_drawing,
            self.section_hasher,
        )
    }
}

} // verus!
