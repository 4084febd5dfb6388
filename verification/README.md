# conv_kernels

Verified convolution kernels for cubecl devices: the direct transposed convolution, the launch of
accelerated convolutions, and the tuners that choose between the candidates of a convolution and of
its data gradient.

* `src/` is the library, proved with Verus. It decides everything that can be decided without a
  device: output shapes, element types, algorithms, tuning keys, the list and the order of the
  candidates, and what one unit of work of the transposed convolution computes.
* `app/` runs these decisions on a device through cubecl and cubek.
* `tests/` holds the library's tests.

The transposed convolution walks, along each axis, the input positions from which a tap of the kernel
can reach an output position, and multiplies where one does. It is proved to compute the sum of
products that a transposed convolution is, at every stride.
