# immich-analyze

The core of an analyzer that writes searchable descriptions for the images and
videos of an [Immich](https://immich.app) library, verified with Verus.

`src/` decides, `app/` acts. The decisions are verified functions from plain
values to plain values:

| Module | What it decides |
| --- | --- |
| `host_manager`, `unavailable` | which AI host to ask, and which to keep away from |
| `interface`, `json`, `encoding` | what to send to an AI service, and what to read in its answer |
| `request`, `failover` | an analysis over several hosts and rounds |
| `immich_api`, `keyed_call` | requests to the Immich server with several API keys |
| `search` | the listing of assets, page by page |
| `download`, `transfer` | the download of an original, which is complete or absent |
| `ready` | the wait for the server |
| `media_time`, `exact_time` | the times that media programs print and take |
| `streams`, `transcode` | the streams of a video, and the calls of `ffmpeg` and `ffprobe` |
| `video_analysis`, `segments` | the description of a video, segment by segment |

What takes several steps is a state machine: a phase says what is to be done,
the caller does it and hands back what came of it, and the contract of the step
says which phase follows. The `law_*` proof functions state what holds of whole
runs, such as that a download leaves the complete file or none, or that a
description covers a video from its beginning to its end.

`app/` performs the actions with `reqwest`, `tokio` and the media programs. Two
things rest with it alone: that a media program which has failed is stopped, and
that no more videos are analyzed at a time than the settings allow.
