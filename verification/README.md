# bringup

Board bring-up firmware for an RP235x audio board: a CS43131 DAC on I2C and I2S,
an ST7789 display and an SD card on a shared SPI bus.

- `src/` is the verified library (Verus):
  - `dac.rs`: the test-tone generator that fills the I2S DMA buffers — phase
    steps, the triangle wave, frame packing and the two-channel oscillator,
    with proofs that the tone runs on without a seam from buffer to buffer.
  - `dac_init.rs`: the DAC's register protocol — 24-bit big-endian register
    addresses, the register write and read sequences, the hardware reset
    sequence and the Power Down Control register.
- `app/` is the firmware itself: embassy tasks, peripherals and drivers, which
  perform the actions that the library's sequences ask for.
- `tests/` runs the library on concrete values.
