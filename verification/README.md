# ryu_healing

A verified library for the self-healing loop of an agent runtime. When a run fails, the
loop asks a side model why it failed and what to try instead, and then re-runs it,
proposes the fix, escalates, or leaves the run alone.

What is proved, among other things:

- a heal re-run is never healed, and the id that a re-run gets is one that is
  recognised as such;
- over any sequence of failures a source is healed at most as often as the cap allows,
  with a growing distance, is escalated once, and stays given up;
- an evaluation ends, comes to the verdict that the preferences and the reply call for,
  and hands out the changed record to be saved before it goes on;
- two evaluations under way at once come to what they would come to one after the
  other, so that two failures of a new source heal it once;
- the first object in a reply is recovered whole behind any prose whose quotes are
  closed and whose opening braces stand between quotes, whatever follows it;
- what is saved is read back as it was, over the text of the file;
- a configuration request takes effect and touches nothing else, and is answered with
  what is in force, whether or not it could be saved;
- the guard of the routes fails closed.

`src/` is the library, all of it verified by Verus. `app/` is the process around it:
routes, files, the environment and the calls to the gateway. `tests/` runs the library.

The library calls `serde_json` to read and write JSON text, `chrono` for the time and
`uuid` for the ids of re-runs. Each of these calls stands in a function of its own whose
doc comment says what is taken for granted of it.
