# votol

Decoding of the live data of a Votol EM motor controller and its display on a
chain of four 8x8 LED matrices (MAX7219), verified with Verus.

- `src/can/can_frame.rs`: the readings in the three CAN response frames
  (battery voltage and current, rpm, temperatures, state, faults).
- `src/can/can_communication.rs`: the live-data query, the bookkeeping of the
  response frames as they arrive, simulated responses.
- `src/can_frame.rs`: unsigned decoders of voltage and temperature.
- `src/ledmatrix/compositor.rs`: the 32x8 frame buffer; contracts speak of the
  set of lit pixels.
- `src/ledmatrix/digits.rs`: a 3x6 bitmap font (digits, letters, a few signs).
- `src/ledmatrix/api.rs`: numbers, characters, text and the battery bar.
- `src/ledmatrix/screens.rs`: the ride, fault and error screens, and one
  turn of the dashboard (button handling and the choice of screen).
- `app/`: the firmware around the library (CAN and GPIO with embassy-stm32,
  the MAX7219 driver), and the layout of the serial packet of the desktop tool.
