# raytracer

A small interactive ray tracer (a textured cube lit by a point light, orbited
with the arrow keys).

- `src/` is the verified library: texel packing (`pixel`), textures with the
  checkerboard placeholder and clamped lookup (`texture`), the decimal
  description of a texture (`text`), the split of framebuffer rows among
  rendering threads (`partition`) and the per-frame decisions of the viewer
  (`viewer`).
- `app/` is the program around it: image decoding, the window, and the
  floating-point geometry and shading.
- `tests/` exercises the library on concrete values.
