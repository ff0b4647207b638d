# roco_battle

An engine for turn-based battles between two teams of pets, with its rules stated as
contracts and proved by Verus. Two models decide what the teams do; the engine tells
them what they may know, reads their replies, holds them to the rules, carries their
decisions out, and keeps a record.

`src/` is the verified library.

| Module | What it holds |
| --- | --- |
| `text`, `number`, `single`, `random`, `named` | text, decimal numbers, single-precision arithmetic, draws, lists read as maps |
| `pet`, `camp`, `log`, `pet_battle_patch` | pets, sides, the log, patches of single pets |
| `elements`, `stats`, `effects` | the chart of elements, the formulas, what the text of an effect says |
| `status`, `weather`, `field`, `dedication` | states of pets, the weather, marks on the field, dedication |
| `attack`, `action`, `decide` | a use of a skill, a turn, decisions and who acts first |
| `team`, `battle`, `report`, `replay` | teams, the course of a battle step by step, its record |
| `history`, `prompt`, `llm` | what the deciding models are told, and how they are reached |
| `laws`, `course`, `chronicle`, `reading` | what holds of the rules, of the course of a battle, of its log, and of texts that are read back |

A battle is driven from outside: `Battle::request` says what it waits for,
`Battle::reply` hands in what a side has replied, and `Battle::act` lets the side
whose turn it is act.

`app/` is the program around the library: the window, files, and requests to the models.
`tests/` runs the library.
