# crow_panel_advance_5

Board-support library for the Elecrow CrowPanel Advance 5.0 HMI (ESP32-S3),
with its decision logic verified in Verus.

- `src/` — the verified library:
  - `crow_panel`: which pixels, windows and raw RGB565 data reach
    `esp_lcd_panel_draw_bitmap`, and the RGB panel configuration;
  - `gt911`: register framing of the GT911 touch controller, status and
    touch-point decoding, and the point-reading sequence;
  - `stc8h1k28`: the co-processor's command bytes, backlight clamping, and its
    multi-step operations as sequences run until the first failure;
  - `wireless`: the wireless-module port pinout.
- `app/` — the ESP-IDF side: the `DrawTarget` impl, FFI calls, I2C/GPIO/SPI
  drivers and sleeps, each driven by the library's decisions.
- `tests/` — tests of the library on concrete values.
