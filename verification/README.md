# switch_capture

A viewer for a game console behind a USB capture card (AVerMedia Live Gamer
MINI, GC311). It shows the captured 1280x720 video with panels around it,
passes the card's audio through to the default output, and reads the game's
state off the screen: the phase of a ranked battle (waiting, team selection,
battle, end of battle) by OCR of two screen regions, and the twelve party
icons of the selection screen by matching them against icon images.

## Layout

- `src/` is the library, written in Verus and verified: packed pixels and
  YUYV decoding, drawing into pixel buffers (bitmap text, the ▶ button, the
  crop outline, button borders), crop areas in pixels and in ten-thousandths
  of the frame and their keyboard adjustment, the sampling of frames for
  analysis and the analysis loop's step (shutdown, manual advance, throttle), the phase detector's transition rules and the counting of
  recognised characters, the once-per-selection rule of party recognition,
  the Pokémon name lookup, cutting icon crops out of frames and finding the
  opaque part of an icon, and the choice of capture and audio devices by
  name. Each public function states its result in its `ensures`, except
  where the result rests on the clock or on a frame source that users
  implement: there the decision is a function of its own that takes the
  measured value (such as `CropInputController::decide` with the elapsed
  milliseconds), and the function that reads the clock states what holds
  whatever it reads. The laws that relate several functions are public
  proof functions.
- `app/` is the program around it: configuration files, the capture and
  analysis threads, the camera (nokhwa), audio streams (cpal), Windows OCR,
  the image embedding model (ONNX Runtime), font rendering and the windows.
  Floating-point work (resampling, image scaling, embeddings) stays there.
- `tests/` runs the library on concrete values.

Crop areas are configured as fractions of the frame (`x = 0.3838`) and held
by the library in ten-thousandths (`x: 3838`).
