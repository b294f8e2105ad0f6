# embedded_rack

Verified core of a set of small robotics and sensor programs for the rack:

- `servo`: pulse width for a servo angle, command checks, and the software-PWM
  schedule (pin high, delay, pin low, delay) for a frequency and duration.
- `bmp280`: the BMP280 barometer — calibration decoding, the datasheet's
  integer compensation formulas with their exact overflow domain, the
  bring-up/read protocol as a state machine, configuration from environment
  values, and the reading loop's stop rule.
- `settings`: unsigned integers in decimal or `0x` hexadecimal, as `from_str_radix` reads them.
- `telemetry`: sequence numbers, loss detection and counters of a UDP telemetry link,
  and the MQTT sender's optional credentials.
- `i2c_scan`: probing every 7-bit address of a bus once.

`src/` is verified with Verus; `app/` holds the programs (GPIO, I2C, sockets,
MQTT, printing) that drive the library.
