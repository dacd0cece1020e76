# hw_decode

Hardware-accelerated H.264 and HEVC decoding through VideoToolbox, VA-API,
NVDEC and Media Foundation, with automatic fallback to software.

`src/` is a Verus library that holds the decisions of the four backends:
which backend to use, how NAL units are sorted and framed, how reference
pictures are kept and listed, how pictures are converted to RGB, which driver
call comes next once one has answered, and what has to be released when one
fails.  Nothing in it touches a driver: it takes status codes, handles and
bytes, and gives back the next step.  All of it is verified.

`app/` performs the driver calls and hands their answers to the library.  The
parsers and the software decoders come from the surrounding program, through
the trait `Host`.

| module | what it holds |
| --- | --- |
| `backend` | backend detection per platform, `HwVideoDecoder` |
| `color` | NV12 and BGRA to RGB |
| `media`, `nal`, `text`, `time` | shared types, NAL units, messages, times |
| `vaapi` | reference pictures, surfaces, parameter buffers, call order |
| `videotoolbox` | parameter sets, sessions, submission, clean-up |
| `nvdec` | opening, parser callbacks |
| `media_foundation` | opening, feeding, draining, picture layout, who holds which object |

Run the verifier on `src/lib.rs`; `tests/` holds the tests of the library.
