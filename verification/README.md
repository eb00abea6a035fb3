# CarryBox

A two-panel file transfer client for FTP, FTPS, SFTP and S3-compatible storage.

`src/` is the library: the rules that the client follows, written in Verus. It
does no I/O. What talks to a server or to the disk hands in plain values and
carries out the actions that come back.

| Module | What it decides |
| --- | --- |
| `config`, `connect`, `session` | what a configuration means, the stages of opening a session, which session is stored, what the user is told |
| `listing`, `sources`, `s3`, `local` | what a panel shows of a folder, and in which order |
| `path`, `text` | remote paths, prefixes of keys, numbers as text |
| `delete`, `download`, `upload_walk` | walking whole folders, step by step, with a report before and behind each file; each walk is proved to do what a recursion over the folder does |
| `transfer`, `copy` | one file from opening to closing; copying it piece by piece or sending it whole, with progress and cancelling |
| `parts`, `upload`, `upload_laws` | cutting a large file into parts; a multipart upload that can be resumed, cancelled and is checked at the end |
| `s3_laws`, `s3_uploads` | what holds of folders in storage; uploads that were never completed |
| `batch`, `events`, `messages`, `window` | transferring what was picked, the log and the progress, error texts, the window's size |

Functions named `law_...` state what holds of several functions together.

`app/` is the desktop application around the library: windows, threads, the
network and the disk. `tests/` runs the library on concrete values.
