# toy_browser

A toy browser engine written in Verus: each function of the library carries a
contract that Verus proves.

## Layout

- `src/` is the verified library.
  - `fast_html/` holds the tokenizer over bytes, plus the stack of open elements,
    the list of active formatting elements and the element kinds a tree builder uses.
  - `html/` holds the tokenizer over characters and its tree-builder structures.
    Each tokenizer has a model of its state machine (`transition.rs`), and its
    laws. A law proves, among other things, that the character tokenizer only
    produces lower-case names.
  - `re_css/` holds the CSS token recognizers, the parser of component values,
    declarations and rules, the property and value keywords, and the
    expansion of the `margin` shorthand.
  - `layout/` holds the kinds of layout boxes.
  - `eco.rs` holds every item whose contract is trusted rather than proved:
    the calls into `ecow` and a few of std.
- `app/` holds what carries floating-point numbers: CSS number tokens,
  lengths, percentages, and the box model.
- `tests/` holds the tests.

## What this library does not do

It builds no DOM. The insertion modes of the HTML tree builder, the walk of
a DOM into a depth-first list of nodes, and the construction of the layout
tree all act on a DOM and on a tree of nodes that this library does not have.
The structures they keep are here, and so is the nesting of such a depth
list into a tree for display (`html/debugger.rs`). For the same reason, style rules are not
parsed: their selectors come from a separate selector grammar. The parts of a
rule that follow the selectors are here (`declaration_list`).
