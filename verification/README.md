# grebe

Verified core of Grebe, a Windows daemon that drives a hardware volume mixer
(an ESP32 with two rotary encoders and a small display) over a serial port.

- `src/` is the library, verified with Verus:
  - `mixer.rs`: the applications, the selection, and the 67-byte display frame;
  - `serial.rs`: the byte protocol, the reader and writer state machines, the
    reconnection decisions;
  - `config.rs`: the settings and the display configuration packet;
  - `audio.rs`: which audio sessions are tracked;
  - `notify.rs`: notification text and expiry, UTF-16 strings for Windows;
  - `icon.rs`: icon pixels;
  - `keys.rs`: ascending process-id sequences.
- `app/` is the Windows program around it: threads, the serial port, the audio
  service (COM), toast notifications, the tray icon, the settings file.
- `tests/` runs the library on concrete values.
