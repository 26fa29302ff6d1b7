# cesarops

The decision-making core of the CESARops search-and-rescue and wreck-hunting
pipeline, written in Verus and proved against its contracts.

- `src/` — the verified library. Each module states its behaviour over
  mathematical models (`Seq`, `Set`, `Map`, spec functions) and proves it:
  mission plans and stages, satellite-scene listing and selection, density
  clustering (DBSCAN, connected components), multi-sensor locks, the CMR and
  STAC search plans, the worker's tool routing and arguments, the GPU node's
  telemetry and restart policy, the responder roster, search segments and GPS
  tracks. Laws that relate several functions are public proof functions
  (`lemma_*`).
- `tests/` — executable tests of the library on concrete values.
- `app/` — the runtime around the library: floating-point measurement, file
  and process access, and the serialisable records. It hands the library plain
  values and acts on what comes back.
