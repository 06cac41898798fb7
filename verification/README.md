# manatui

The core of a terminal user interface toolkit in the Elm style, written in
Verus: the library's functions carry contracts that Verus proves. The calls
into `hecs`, `tachyonfx` and the standard library go through a few small
trusted wrappers, whose contracts are taken on trust from those crates'
sources and documentation.

## Layout

- `src/event.rs`: terminal events (keys, modifiers, mouse), and equality of
  key events up to letter case.
- `src/geometry.rs`: positions and rectangles in terminal cells.
- `src/observe.rs`: the area an element was drawn in, its last hit event, and
  hit testing of a mouse event over a tree of elements.
- `src/focus.rs`: focus groups: which element has the focus, the key maps that
  move it, and the nearest element in each direction.
- `src/components/`: a button, a list, a pager and a one-line text input.
- `src/element.rs`, `src/ui.rs`: the element world (entities of `hecs`), a
  breadth-first spawn of a user interface tree and its recursive despawn.
- `src/backends.rs`: how the runtime reads the events of a terminal backend.
- `src/runtime.rs`: the decisions of the runtime loop.
- `src/fx.rs`: shader effects of `tachyonfx` carried by elements.
- `src/laws.rs`: properties that span several operations, proved once.
- `app/`: glue that Verus does not see: crossterm events, the system clipboard,
  the model and message traits of an application.
- `tests/`: tests of the library on concrete values.
