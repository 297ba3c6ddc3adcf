# Looking Glass NG

A spatial Wayland compositor. Windows and external frame sources are visuals in
a 3D scene, seen through a camera that can stay in front of them or move freely.

- `src/` is the core: the scene and its stacking, selection and focus; picking;
  the camera and its bookmarks; the routing of pointer and keyboard events;
  toplevels, frame producers and the steps of a frame; frame statistics; and the
  layout of the shared-memory transport. It is verified with Verus.
- `tests/` runs the core on concrete values.
- `app/` is the program around it: the window, the renderer, the Wayland
  protocol, devices, and floating-point geometry.

Numbers such as positions and angles are kept in the core as the bit patterns of
32-bit floating-point numbers. The core compares and limits them; arithmetic on
them is done by the program, which hands the results over. The core's claims
about such numbers are stated in multiples of the smallest one.

The core reads the monotonic clock, and nothing is claimed of what it reads.
