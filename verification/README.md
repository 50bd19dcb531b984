# localllm

A local model runner: it downloads models, serves them through sglang or llama.cpp,
and lets you chat with them in the terminal or over HTTP, in the wire formats of
OpenAI and Ollama.

The decisions and text formats are a library that is verified with Verus; the
program around it does the input and output.

- `src/` is the library. Every function states what it returns, and Verus proves it.
  - `registry/`: models by alias, their manifests, and Modelfiles.
  - `downloader/`: what is listed and fetched from the hub, and how a transfer resumes.
  - `inference/`: which backend serves a model, its command line, the pool of running
    servers, and their logs.
  - `gpu/`: what the cards report, and whether a model fits.
  - `compression/`, `setup.rs`: converting weights, and building the engine.
  - `api/`: what the daemon answers, and what it hands on to a model server.
  - `cli/`: what the commands print, with Markdown and LaTeX for the terminal.
  - `config/`, `daemon/`, `platform.rs`: settings, the lock, and the operating system.
- `tests/` runs the library on concrete values.
- `app/` is the program: the command line, the daemon, processes, files and the
  network. What is floating point is computed there and handed to the library.

What is said of other crates without proof stands in a few declarations: JSON values
(`api/json.rs`), byte search and UTF-8 (`api/stream.rs`), random ids
(`api/middleware.rs`), digests (`downloader/digest.rs`), the concurrent map
(`registry/alias_map.rs`), the calendar (`time.rs`), letters, their case and quoting
(`text.rs`), and path separators (`platform.rs`).
