# image_rs

An image-processing HTTP service (resize, rotate, crop, effects,
watermarks, format conversion, pixel diffs, and a cached `GET` endpoint
driven by a URL DSL) whose request handling and image-adapter decisions
are verified with Verus.

## Layout

* `src/` — the verified library.
  * `value_objects`, `ops`, `pipeline` — the domain model and its rules
    (a pipeline never pairs an alpha-producing op with JPEG output, nor
    JPEG with lossless compression).
  * `url_dsl` — the DSL parser (`resize,w_800/format,f_webp,q_85`).
  * `dto`, `upload`, `http` — request shapes and their conversion, the
    parts of a multipart upload, status codes and error bodies.
  * `codec`, `imaging` — format sniffing, the decompression-bomb guard,
    EXIF orientation, encoder parameters, and the integer geometry of the
    pixel operations (crop bounds, orientation fixes, round-corner masks,
    watermark placement).
  * `config`, `fonts`, `store`, `get_image`, `ports` — configuration, the
    font registry, the source store's path guard, the cache key and its
    ETag.
  * `text`, `numbers`, `names` — string, decimal and name-map helpers
    proved against their specifications.
* `tests/` — tests of the library.
* `app/` — the server around it: Axum routes, OpenCV and `ab_glyph`
  adapters, caches, telemetry, and the real-valued (floating-point)
  parameters, which the library carries as opaque type parameters.
