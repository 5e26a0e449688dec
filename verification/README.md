# infoclimat-pipelines

Batch pipelines that precompute weather data for the Infoclimat map client
and publish it to a Cloudflare R2 bucket: daily temperature anomalies over
Europe (ERA5 observations, ARPEGE forecasts, a 1991-2020 climatology) and the
raw AROME-OM forecast of the Indian Ocean.

## Layout

- `src/` — the library, verified with Verus: everything the pipelines decide.
  - `planning`, `arome`, `variables` — AROME-OM run selection, options,
    download plan, tolerance of missing tail leadtimes, variable registry,
    names of decoded files.
  - `meteofrance` — classification of HTTP responses, backoff, the retry
    policy of a download, the bearer-token cache, product URLs.
  - `openmeteo` — ARPEGE run selection, hourly file URLs, hours and days
    to compute.
  - `era5`, `climatology` — ERA5 time axis, file names, download outcome,
    15-day smoothing window.
  - `keys`, `metadata`, `r2` — bucket layout, metadata of the map domains,
    garbage collection, listing pages.
  - `grid`, `omfile` — grid geometry (thousandths of a degree) and the
    shapes a file accepts.
  - `time`, `text` — calendar values and text formats, string helpers.
- `tests/` — tests of the library.
- `app/` — the programs: HTTP and S3 clients, NetCDF and OMfile I/O,
  floating-point array arithmetic, command line.
