# rimage

An image optimiser whose rules are verified with Verus.

`src/` is the library. It decides which images fit on the machine, where every
output file goes, which preprocessing steps run and in which order, which
encoder runs with which options, and what the user is told when something fails.
It reads image headers and JPEG metadata from bytes, and it decodes, converts and
encodes pixels through the codec crates.

- `exit`: exit codes and how the outcomes of many files fold into one.
- `text`, `path`: texts, numbers in them, and the extension of a path.
- `rounding`, `precision`: binary rounding over integers, and how far it moves a
  number.
- `color`, `raster`: colour spaces and images as plain values.
- `limits`: how large an image may be on this machine.
- `error`: failures, tagged with the side they happened on.
- `cli`: header probes, resize values, paths, preprocessing, encoder options, and
  the pipeline around them.
- `codecs`, `operations`: SVG, TIFF, WebP and PNG, and colour profiles.

Calls into other crates stand behind small functions whose contracts are
trusted; each says which function it calls and what is taken for granted.

`app/` is ordinary Rust around the library: arguments, files, and what needs
floating point. `tests/` runs the library against the real codecs.
