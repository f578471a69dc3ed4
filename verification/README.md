# crabcrop

An on-the-fly image resizing CDN. The library (`src/`) holds the parts that
decide: validation of image requests, signed URLs (HMAC-SHA256), cache keys
(BLAKE3), the signature and hotlink checks, purge authorization, source URL
handling, the singleflight table, and the integer geometry and encoder
choice of processing. Each function carries a Verus contract.

`app/` is the server around it: axum routes and middleware, the moka and
disk caches, HTTP and S3 fetching, libvips processing and the health report.

Layout of `src/`:

- `model/params.rs` — request parameters and their validation
- `utils/` — text helpers, hexadecimal codec, signing, cache keys
- `middleware/` — signature check and origin check
- `handler/` — image request preparation, error classes, purge planning
- `storage/s3.rs` — source kinds, upstream answer checks, S3 URLs
- `service/` — cache layout and variant index, in-flight table, processing decisions
