# vid_uvc

A viewer for UVC microscope cameras, built on a verified library.

The viewer shows the frames of a camera, lets the user draw rectangles over them and writes their
sizes in micrometres or millimetres. Calibrations and the rotation of the picture are kept in
profiles, one JSON file each under `./profiles`. A frame can be saved as a PNG file.

- `src/` is the library. It decides which streams a camera shows and which one is opened, which GPU
  is used, what is sent to it, what clicks, keys and drags lead to, how profiles are kept and what
  a saved picture holds. Its functions carry contracts that Verus proves.
- `app/` is the program: windows, devices, files, GPU resources and floating-point geometry. It
  hands plain values to the library and carries out what it is told.
- `tests/` runs the library on concrete values.

Floating-point numbers reach the library as bit patterns (`binary::Real32`, `binary::Real64`).

Two environment variables are read: `VID_UVC_GPU` picks a GPU by a part of its name, and
`VID_UVC_VULKAN_ONLY` set to `1` or `true` has Vulkan used alone.
