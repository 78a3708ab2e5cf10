# oakis

A personal publishing site: posts, a knowledge base of books and documents,
short notes ("sparks"), a media library and site settings. This crate is its
verified core, written in Verus: every rule the site applies to what is
submitted, stored and shown is an executable function with a contract that
Verus proves.

## Layout

- `src/` — the verified library. Forms and their checks (`forms`,
  `admin_forms`, `spark_forms`), the knowledge-base tree, its moves and its
  HTML (`kb_tree`, `kb_move`, `docs_html`, `docs_pages`), navigation and
  models (`models/`), uploads and pictures (`upload`, `images`), Markdown
  rendering and cleaning (`markdown`, `md_render`, with the parser's events
  held as plain values in `md_events`, `md_tags` and `md_ends`), exports and archives
  (`export`, `archive`), feeds, pagination, sign-in limits (`auth`) and time
  formats (`timefmt`). Calls into outside crates (`chrono`, `image`, `zip`,
  `pulldown-cmark`, `ammonia`, `argon2`, `uuid`, `form_urlencoded`) go
  through small trusted wrappers whose contracts say what those crates'
  sources show; everything around them is proved.
- `tests/` — tests run against the compiled library with the real outside
  crates.
- `app/` — the web server around the library: routing, the database,
  templates and file I/O.

Properties that relate several functions are stated as public proof
functions whose names start with `law_`.
