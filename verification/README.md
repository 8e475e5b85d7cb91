# napi_examples

Node.js native addons written against N-API, with the computation they do
on JavaScript values verified in Verus.

- `src/` is the verified library: string reversal by characters
  (`text`), rotation of arrays and byte buffers (`rotate`), the
  bookkeeping of reading a JavaScript array element by element (`array`),
  and the native state of the `MyObject` class (`my_object`).
- `app/` holds the addon entry points: the `extern "C"` callbacks that
  talk to the JavaScript engine through `nodejs-sys` and hand plain values
  to the library.
- `tests/` runs the library on concrete values.
