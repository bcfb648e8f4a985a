# jlfine

A client for Jellyfin media servers with bit-perfect audio, written in Verus.

`src/` is the verified library. It decides; it does no input or output:

- `text`: the string operations everything else is written with
- `auth`, `urls`, `client`, `types`, `playback`: requests to a server and what
  its answers hold
- `storage`, `session`: what outlives a run, signing in and out, and what each
  command of the user does
- `nav`, `browser`, `listing`, `detail`, `images`: going through a library and
  what is shown of it
- `download`: file names, directories and progress of an album download
- `dsf`, `dop`: reading DSF streams and packing DSD into PCM frames
- `engine`, `ring`, `linux`, `hal`: the playback queue, the sample ring, and the
  state machines behind ALSA and CoreAudio
- `video`: audio outputs, set-up and keys of mpv

`app/` is the program around it: HTTP, files, the keyring, decoders, sound
devices, mpv and a terminal front end. `tests/` runs the library.

Contracts are stated over the characters of texts and over sequences. What is
believed without proof are the calls into `url`, `uuid`, `image`, `rtrb` and a
few functions of the standard library; each stands in a small function of its
own with a comment that says what is claimed of it.
