# gg_engine renderer core

The decision-making core of a Vulkan renderer, written in Verus and proved
against its contracts.

- `src/` — the verified library: vertex layouts (`buffer`), materials and the
  material registry (`material`), shader source splitting and the shader
  registry (`shader_source`, `shader_library`), mesh index generation and
  merging (`mesh`), offscreen framebuffer attachments and render pass
  descriptions (`framebuffer`), the 2D batch renderer's batching, statistics
  and bindless slots (`renderer2d`), GPU particle uploads (`particles`),
  swapchain choices and frame pacing (`swapchain`), post-processing passes
  (`postprocess`), image-based lighting preprocessing (`ibl`), the bone palette
  (`bone_palette`), lighting counts (`lighting`), wireframe and pipeline
  caching state (`render_state`), font atlas construction and TrueType reading
  (`font`), skeleton evaluation order (`skeleton`) and text layout
  (`text_layout`). Raw Vulkan enum values used in contracts are in `vk_codes`.
- `tests/` — executable tests of the library.
- `app/` — unverified glue: conversions to `ash` types, the floating-point
  parts (lighting and material blocks, mesh vertices, skeletal poses, glyph
  metrics), and file loading (glTF, fonts).

Two registries keep their entries in a form Verus can reason about. The
material registry is a `HashMap` keyed by `u64` handles, whose contents vstd
specifies as a `Map`. The shader registry is keyed by `String` names; vstd
gives a `String`-keyed `HashMap` no usable contents, so the registry holds its
names and shaders in two parallel vectors, with distinct names as its
invariant, and is specified as a `Map` from name to shader (`spec_map`).
