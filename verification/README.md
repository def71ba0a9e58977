# adapter-core

Logic of an adapter that puts a USB camera on the network: `GET /` answers with
one freshly captured JPEG frame, query parameters set the camera's UVC controls
before the capture, and `GET /controls` reports them as JSON.

The library in `src/` is written in Verus: each function states in its contract
what it returns, and the laws that span several functions are public proof
functions named `law_*`.

| Module | Contents |
| --- | --- |
| `http` | request heads, query parameters, routing, responses |
| `server` | collecting a request head, answering a request |
| `uvc` | the VideoControl interface in a configuration descriptor, the table of controls, their values |
| `controls` | the class requests that apply settings and report controls |
| `camera` | formats, the stream and its handle, the latest frame, remembered settings |
| `text`, `search`, `encoding` | numbers, splitting, UTF-8 |

What the library takes without proof is stated in `encoding`: the contracts of
two functions of the standard library that read bytes as text.

`app/` is the firmware around it: the threads, the UVC class driver of ESP-IDF
and the server on the tailnet. It makes the transfers that the library asks for
and hands the replies back. The modules that need the ESP-IDF bindings or the
tailnet node are compiled for that target only.
