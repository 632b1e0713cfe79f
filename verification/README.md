# alchimera

Gameplay rules of a voxel crafting and alchemy game, written in Verus and proved
against their contracts.

- `src/` — the verified library: identifiers and seeds, inventories, item and
  material definitions, recipe planning, alchemy knowledge and experiments, save
  versions, definition validation, and (under `src/game/`) the runtime rules:
  hand crafting on the player inventory, harvesting, chunk streaming, hotbar
  selection, interaction targeting, diagnostics, and what a save keeps of the
  inventory. Each module states its behaviour over spec models (`Seq`, `Map`,
  integers) and proves the laws that tie its operations together.
- `tests/` — executable tests of the library.
- `app/` — the Bevy shell: resources, events, plugins and systems that feed the
  library's rules from the ECS world, the floating-point material checks, and
  the serialised save format.
