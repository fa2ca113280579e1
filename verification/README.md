# phonemike

The PC side of PhoneMike, which turns an Android phone into a Windows
microphone: the phone streams 16-bit PCM or Opus over ADB/TCP, the client
decodes it, runs gain, lowpass and noise gate, and plays it into a virtual
audio cable.

`src/` is the verified library (Verus): the stream framing (`stream`), the WAV
recording layout (`wav`), the driver's shared-memory ring (`ring`), the
playback backlog and output frames (`playback`), the noise gate (`gate`), the
shared state and bounded log (`state`), connection and session policy
(`connect`), device selection (`devices`), UTF-16 text (`wide`), tray events
and icon (`tray`) and the update check's decisions (`update`). Little-endian
encodings go through the `byteorder` crate (`bytes`).

`app/` is the program around it: Win32 window and tray, cpal audio output,
Opus decoding, sockets, files and the floating-point DSP.
