# motioncap

A webcam-based security motion recorder. Camera and microphone fill a rolling
pre-buffer; a background-subtraction motion gate watches for changed pixels;
when it trips, a YOLO model looks for living things; and once one has been seen
twice, a clip is recorded that begins before the trigger and ends some quiet
time after the last one. Motion alone never starts a recording.

## Layout

- `src/` is the verified library: what is decided, with contracts that Verus
  proves. It holds no device, no process and no file; time comes in as a value,
  and everything computed in single precision is computed exactly, in whole
  numbers.
- `app/` is the program around it: devices, inference, ffmpeg, files, threads.
- `tests/` runs the library.

## Output

```
<output_dir>/<YYYY-MM-DD>/<YYYY-MM-DD_HH-MM-SS>_<class1>_<class2>.mp4
```

Each clip has a sidecar of the same name ending in `.json`, with the offset,
class and confidence of every detection and the changed fraction of every trip
of the motion gate.

## What is proved of the whole

Beside the contract of each function, the library states laws as public proof
functions. Among them: two drains in a row neither skip nor repeat a frame;
resampling never stretches time and never makes a frame up; clip names sort by
time and depend on the set of classes alone; a subject in view is confirmed on
every poll after its first; bare motion does not extend a recording; attempts to
rebuild a stalled camera keep their distance; the detection loop ends on
shutdown alone, whatever fails in it; the writer signals only after its last
drain; a picture fitted to the model's input reaches it on its longer side and
never exceeds it.
