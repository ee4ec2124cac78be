# tubu

The verified core of a downloader for DASH-streamed video.

`src/` is the library, verified with Verus:

- `mpd`: the manifest model, the names of a track's segments (templates
  with `$RepresentationID$` and `$Number%05d$` filled in), and the check
  that a manifest has exactly one video and one audio set; `content` holds
  the counting and finding behind that check, `tubu::mpd` an earlier model
  whose timeline entries keep the manifest's texts.
- `text`: zero-padded decimal rendering and `str::replace`-style
  substitution, with their laws.
- `download`: how a round of segment downloads ends and which segments are
  tried again; `cancellation`: combining the results of the two tracks.
- `printer`: the state machine of the progress printer.
- `config`: the stream's URLs (through the `url` crate); `errors`: the
  error types; `muxing` and `tracks`: ffmpeg arguments and file names.

`app/` is the program around it: HTTP requests, files, the async tasks,
Ctrl-C handling, the progress bar, reading the manifest's XML, and ffmpeg.
`tests/` runs the library on concrete values.
