# gst-rerun-tools

A set of plugins for GStreamer to forward data to [Rerun](https://rerun.io/) for real-time
visualization:

- A tracer to visualize the graph structures of pipelines
- A sink element to forward video frames

The logic is a library verified with [Verus](https://github.com/verus-lang/verus). The plugins around
it talk to GStreamer and to Rerun.

- `src/`: the verified library
- `tests/`: its tests
- `app/`: the plugins

## Use

To use the tracer and the sink on a pipeline:

```bash
export GST_TRACERS="reruntracing(app-id=my_pipeline)"
gst-launch-1.0 videotestsrc ! identity ! rerunsink app-id=my_pipeline
```

Rerun then shows two recordings. To have one, set `recording-id` to the same value on the tracer and
on the sink, or share one `RecordingStream` through `set_recorder`.

Parameters of the tracer: `debounce` (milliseconds, 300 by default), `spawn-viewer` (true by
default), `app-id`, `recording-id`, and `entity-path` (`pipelines` by default).

Properties of the sink: `app-id`, `recording-id`, `entity-path` (frames are logged at `video` where it
is not set), `spawn-viewer` (false by default), and `grpc-address`.

## Dependencies

`re_types` is the crate that holds the archetypes which `rerun` re-exports.

`kstring` is not used directly. It is listed to hold it, as a dependency of the GStreamer bindings, at
a version that the compiler named by `rust-version` can build.
