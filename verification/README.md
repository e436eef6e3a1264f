# zarr_tiles

Map tiles cut from Zarr stores.

A tile is answered in steps. Its warp grid says which cell of the source each of
its pixels shows; the samples in the box of the grid are read at the requested
time; the pixels are sampled and drawn as a PNG image.

- `src/` is the library. Its functions are verified: what each of them returns is
  stated in its contract, and the laws that hold across them are public proof
  functions named `law_..`. Floating-point numbers go through it as bit patterns.
- `app/` is the code around it: reading stores, projections and other
  floating-point arithmetic, threads, the configuration file and AWS profiles.
- `tests/` runs the library on concrete values.
