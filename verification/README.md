# upsauce

UpSauce uploads an image to a linx-server instance (or catbox.moe), asks
SauceNAO where the image comes from, and prints the known sources as one
Markdown line: `[Pixiv](…) | [Twitter](…) | [Image](…)`. Only the first link
of each site is listed; the other links are printed as skipped.

Layout:

- `src/` — the library, verified with Verus:
  - `sauce.rs`: site names of links, sorting SauceNAO results into sources
    and skipped links, and the Markdown line;
  - `sauce_laws.rs`: proofs about that sorting (every link lands in one
    list, one source per site, the first link of each site is kept);
  - `fss.rs`, `linx.rs`: what is sent to linx-server, catbox.moe and `curl`,
    and how their answers are read; the image file name of a URL;
  - `config.rs`: settings from the command line;
  - `json.rs`: the JSON model that answers are read into (by serde_json) and read from;
  - `text.rs`: substring, prefix and equality tests on strings.
- `app/` — the program: command line, HTTP requests, `curl`, files and
  printing, around the library.
- `tests/` — tests of the library on concrete values.
