# glyph_brush

A brush for text: it positions the glyphs of queued sections, packs their drawings into one
texture, and hands out the vertices that draw them. Positions are kept from frame to frame, new
drawings are handed out for the texture when it lacks a glyph, and a frame in which nothing changed
is drawn again as it was.

The library under `src/` is verified with Verus.

* `state` is the model: what a brush holds, and how each call changes it. The contracts in
  `brush` speak of it.
* `laws` holds what the calls promise together; `coherence` why vertices stay right while glyphs
  move in the texture.
* `float32` and `geometry` hold floating point numbers by their bit patterns and compare them.
* `section`, `glyph` and `glyphed` are sections of text before and after they are positioned.
* `hashing` holds the hashes by which sections are found again, `store` the tables that they are
  kept in.
* `texture`, `font` and `store` make the calls into `rusttype` and `rustc_hash`, and state what is
  taken to hold of them.
* `builder` sets up a brush.

`app/` is a front with `f32` coordinates, std's hashers and std's errors. A frame goes like this:

```rust
brush.queue(&section);
match brush.process_queued(update_texture, to_vertex) {
    Ok(BrushAction::Draw(vertices)) => draw(vertices),
    Ok(BrushAction::ReDraw) => draw_again(),
    Err(BrushError::TextureTooSmall { suggested }) => {
        brush.resize_texture(suggested.0, suggested.1);
        // everything is still queued: process it again
    }
}
```
