# nexa

The `nexa` command line for HTML-first sites, as a verified library and a
thin program around it.

- `src/` is the library, verified with Verus: the classification of a
  page's tree, its activation manifest and JS chunks, the document and
  boot scripts around a page, the import map, package and performance
  warnings, the PWA files, the scaffolds, the JSON the devtools panel
  reads, the routing of the development and preview servers, and the
  decisions `nexa build`, `nexa add` and `nexa lint` make. Each public
  function states its result in its `ensures`; the laws that relate
  several functions are public proof functions named `law_*`.
- `app/` is the program: arguments, files, the HTTP servers, image
  decoding and HTML rewriting, and the framework crates that parse,
  load, render and analyse `.tsx` pages.
- `tests/` runs the library on concrete values.
