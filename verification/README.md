# twifip

Follows what the radio station FIP is playing and scrobbles each new track to a
Last.fm account.

- `src/` is the library, verified with Verus: which announcements are music tracks
  and how their album names are tidied (`track`), how a track is written down and
  remembered between polls (`track_store`), how the live feed's devalue payload is
  resolved into a document and read as the track on air (`json`, `devalue`,
  `fip_reader`), the settings
  (`config`), the errors (`error`), and the steps of one check of the station
  (`twifip`).
- `app/` is the program around it: reading the environment, the HTTP request to the
  station, the cache file, the Last.fm client and the cron scheduler.
- `tests/` runs the library on concrete values.
