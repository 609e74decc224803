# microcourse

The backend of a micro-course platform: courses, chapters and videos, majors,
enrolment and votes, exams with automatic and manual grading, a question bank
that travels as an Excel sheet, HLS playback behind signed links, and a
background transcoder.

## Layout

- `src/` is the library, verified with Verus. Every public function states what
  it returns in its `ensures`; the properties that relate several functions are
  public proof functions (`lemma_*`).
  - `model`, `score`, `text`: shared types, decimal scores (rust_decimal), the
    string operations the rest is stated with.
  - `auth`: bearer tokens, role checks, sign-in and account creation (argon2).
  - `access`, `catalog`, `exam`: who may do what, request checks, exams and
    attempts.
  - `grading`: answer comparison, automatic grading, merging essay scores,
    totals.
  - `pagination`: page sizes and keyset pages.
  - `media`, `hls`, `transcode`, `storage`: object keys, upload checks, the
    playlist rewrite, the FFmpeg plan, bucket bootstrap decisions.
  - `sheet`: the question sheet's rows on export and import, and the reading
    of uploaded workbooks (calamine).
- `tests/` runs the library on concrete values.
- `app/` is the HTTP service around it (axum, sqlx, the S3 client, JWT, the
  transcoding worker, the Excel writer). It holds the I/O and hands
  the library plain values.
