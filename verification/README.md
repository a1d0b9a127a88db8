# arxivcat

A workspace of arXiv papers on disk: download a paper's LaTeX source, split
it into `body.tex` and `appendix.tex`, keep notes, tags and AI summaries
next to it, and chat with a model about one paper or the whole workspace.

## Layout

- `src/` — the library, verified with Verus. Every decision the tool makes
  lives here with its contract: arXiv identifiers and URLs, the LaTeX split
  and `\input` expansion (which file a directive names, cycles, depth), the
  paper manifest and its retry cooldown, paper lookup, tags, the
  command-line contract (exit codes, error kinds), the retry policy, the
  chat loop's state machine, a streamed request's choices and the streamed
  answer's decoding, the summary requests, batch planning, and the terminal
  interface's key, mouse and layout handling. Laws that span several calls
  are public proof functions named `law_*`.
- `app/` — the `arxivcat` command line only: argument parsing, files,
  network and processes, carrying out what the library decides. The
  terminal interface's state and its handling of keys, mouse and layout are
  in the library; no front end that draws it or reads the terminal is
  included, nor a desktop application.
- `tests/` — tests of the library on concrete values.
