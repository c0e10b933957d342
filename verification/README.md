# glyphon

The decisions of a renderer that draws text from cached glyphs on a GPU, verified with Verus.

- `src/` is the library. It decides which glyphs of a text area are drawn, where and how much of
  each, when a glyph is rasterized, where its image goes, what its vertices and indices are, and
  how they reach the GPU. `prepare::Step` names what is to be done outside of the library, one
  thing at a time, and takes what came of it to the next step. `run` states what holds of a whole
  preparation, whatever comes of its steps, `repeat` what is not done twice, `depth` which depths
  are asked for, and `choices` and `metadata` what a preparation at depth zero or without a
  rasterizer of custom glyphs leaves out.
- `app/` is the GPU side: buffers, textures, fonts, and the arithmetic on fractional coordinates.
  It does what each step asks for. The textures with their packers and pipelines stand behind the
  trait `AtlasBackend`.
- `tests/` runs the library on concrete values.

The library holds numbers that are not whole by the bits of their single-precision form.
