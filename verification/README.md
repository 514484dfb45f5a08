# Cedar server

An electronic finder for telescopes: a camera looks where the telescope looks, stars are detected
in its images, the pattern of stars is matched to the sky, and clients are told where the telescope
points.

The rules of the server are a library that [Verus](https://github.com/verus-lang/verus) verifies.
What it decides is stated in contracts; that it does so, and never panics or overflows, is proved.

## Layout

- `src/` is the verified library. It computes with integers only: angles are in microarcseconds,
  places in an image in millionths of a pixel, durations in nanoseconds, brightness and magnitudes
  in thousandths, ratios in billionths.
  - the pipeline: `detect_engine` (exposure and focus), `solve_engine` (what to solve and what to
    make of a solution), `serve_engine` and `next_frame` (what a client is shown), `polling`
  - settings: `operation_settings`, `preferences`, `startup`, `calibration`, `calibrator`,
    `cedar_server` (requests of clients)
  - planetarium clients: `position_reporter`, `lx200_server`, `lx200`, `date_time`
  - estimates: `rate_estimator`, `motion_estimator`
  - devices: `activity_led`, `cpu_stats`, `bonding_helper`, `imu6050`, `imu_trait`, `wifi_trait`,
    `thread_name`, `multiplex`
  - the sky and images: `astro_util`, `image_utils`, `cedar`, `cedar_sky_trait`, `solver_trait`
  - evaluation over a corpus of images: `corpus`, `harness`, `report`
  - shared: `text`, `numbers`, `units`
- `app/` is the program around the library: the command line, devices, sockets, and everything that
  takes floating point.
- `tests/` holds the tests.

Functions named `law_…` state what holds across several functions. Outside functions that the
library relies on are wrapped or declared in `text`, `lx200_server`, `date_time`, `image_utils` and
`calibrator`; what is taken for granted of each stands in its contract.
