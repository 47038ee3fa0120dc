# MindBell

The logic of a wearable vibration bell, written and verified in Verus. The device
sleeps, wakes for a signal of its schedule, vibrates and sleeps again; a button
opens a short Bluetooth window in which a phone sets the time and the schedule.

- `src/schedule.rs`: the schedule, the wait until the next signal, and the times
  of day at which the device is active; `src/schedule_laws.rs`: what holds of every
  schedule.
- `src/drift.rs`: the clock and the correction of its drift;
  `src/calibration.rs`: learning the rate of drift from the phone;
  `src/message.rs`: the time messages; `src/clock_laws.rs`: what holds of them.
- `src/bytes.rs`: little-endian integers.
- `src/wake.rs`, `src/sleep.rs`: what to do on waking, and how long to sleep;
  `src/cycle_laws.rs`: what holds from one sleep to the next.
- `src/button.rs`, `src/window.rs`, `src/motor.rs`: the button, the configuration
  window and the vibration patterns, with their laws.
- `app/`: the firmware around the library: pins, timers, flash, Bluetooth, and the
  schedule as JSON. It builds for the ESP32-C3 only.
