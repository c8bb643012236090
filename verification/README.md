# Sicompass UI

The user interface of Sicompass: a keyboard-driven list over a tree of
elements, read out by a screen reader, edited in place, searched, undone and
redone, with providers behind its first layer.

- `src/` is the library, verified with Verus. `app_state` holds the state of
  the interface and its model `Ui`; every operation says in its contract which
  `Ui` it leads to. What a provider is asked for comes back as a `Step`, and
  `resume` goes on with its reply. `laws` and the `law_` functions of the other
  modules state what holds across operations.
- `tests/` runs the library, with providers and a disk held in memory.
- `app/` draws the interface with Vulkan, hands events and replies to the
  library, and speaks through AccessKit.

A program around it compiles in the window icon, the shaders and the fonts, and
hands them over as `gpu::Embedded`, so it needs no files beside it. It ships the
license texts of the fonts too, which `Fonts::licenses` holds.
