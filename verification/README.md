# disk_helper

The verified core of Disk Helper, a Windows desktop assistant that shows what
fills the C: drive, suggests what can be cleaned up, moves removed items into a
quarantine from which they can be restored, keeps an audit log, and answers
questions through a local (Ollama) or cloud (DeepSeek) model.

The library under `src/` is checked by Verus: every public function carries a
`requires`/`ensures` contract over spec functions and views, and the laws that
tie functions together (path normalization is idempotent, progress never goes
down, a comparison brings the index in line with the disk, pausing then
resuming restores a scan, saving settings twice is saving them once, …) are
public proof functions next to the code they speak of.

Calls into `globset`, `chrono`, `serde_json`, `uuid` and a few `std` functions
go through small trusted wrappers whose contracts say what the outside
documentation promises.

`app/` is the desktop back end around the library: the SQLite store, the file
system, the scan worker threads, the HTTP clients for the AI providers, and the
commands the front end calls. The rules of the project (which rule a path
falls under, what a reply or a refusal says, what a scan compares) are calls
into the library; `app/` keeps the reading and writing around them, the
loops that drive the scan workers, and the conversion of rows and JSON into
the library's types.

`tests/` exercises the library on concrete values.
