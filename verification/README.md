# p1graph

A live graph of the active power that a P1 smart meter reports over its local HTTP API, in a GTK
window or in the terminal.

`src/` is the verified library:

- `watts`: a power reading, held by the bits of its double, and the order of readings
- `meter`: the state that fetching changes, the window of recent samples, the status
- `chart`: the direction of the flow and the scale of the power axis
- `terminal`: the panes of the screen, the datasets and the time axis of the text interface
- `window`: the chart box, the strokes of the curve and the labels of the window
- `status`: the texts of the status line
- `session`: the meter's address, the choice of the interface, the keys that quit
- `text`: decimal numbers and padding

`app/` is the program around it: the command line, HTTP, the two user interfaces, and the
arithmetic on doubles.

    p1graph --ip 192.168.1.20 [--text-ui]
