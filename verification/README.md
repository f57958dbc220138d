# equirect

A player for flat, stereo, 180° and 360° videos on a VR headset.

    equirect [-v] [-t time] [path | folder | url]

Without an argument it browses the folder that was browsed last, or the home folder. A video or
the URL of one is played, a folder is browsed. `-t` starts a video at a time such as `90`, `1:30`
or `1:02:03`; `-v` prints what is going on.

## Layout

* `src/` is the logic, verified with Verus: paths and volumes, listings of web servers, the
  browser, the control bar, the settings, the decode loop and its pacing, the layout of frames
  and layers, the input of the controllers, and what is remembered between runs.
* `app/` is the program around it: the window, the headset, the GPU, the decoder, the sound, the
  files and the network.
* `tests/` runs the library on concrete values.

Times are whole microseconds or nanoseconds, speeds are ratios, and the numbers that a headset or
a slider delivers are kept as bit patterns, so that no rule of the library depends on rounding.

What the proofs rest on without having proved it is listed here: that `String::push` appends a
character, that SHA-256 of `sha2` is a function of the bytes it is given, and that the decoder of
`png` is a function of the file.
