# spinal-tap

A terminal dashboard for dogstatsd metrics. It listens for dogstatsd datagrams on a UDP port, keeps
the last points of each series, and shows them as a table of numbers and as charts.

The library under `src/` holds what the dashboard decides and computes, proved with Verus: how
datagrams are read (`dogstatsd`), which series a sample belongs to (`series`), what is kept of it
(`metrics`, `app`), what the keys do (`navigation`, `viewport`), and what stands where on the screen
(`geometry`, `screen`, `numeric`, `charts`, `details`, `render`). It is generic in the type of its
numbers: the computations are handed in (`numbers`).

The program under `app/` reads the configuration file, receives the datagrams, reads the keys and
draws the screen.

## Configuration

The file `spinal-tap.toml`, or the one named on the command line:

```toml
listen = "127.0.0.1:8125"
history_points = 120
redraw_millis = 250

[[metrics]]
name = "requests"
view = "chart"
unit = "req"
```

Where metrics are configured, no others are kept.

## Keys

`q`, `Esc` and `Ctrl-C` quit, but where details are open `Esc` closes them first; `Tab` and the left and right arrows change panes; the up and down
arrows, `j` and `k`, the page keys, `Home` and `End` move the selection; `Enter` shows the details of
the selected series; `+` and `-` change the height of the charts.
