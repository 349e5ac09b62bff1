# winwifi

A Windows WLAN monitor whose logic is verified with Verus.

- `src/` is the verified library: display text for what the Native WiFi
  API reports (`convert`, `text`), the records of that API and the decisions
  taken on its status codes (`native`), the refresh of the access-point list
  as a state machine that asks for one API call at a time and builds the
  snapshot from the answers (`poller`, `types`), and the models of the two
  UI components (`ap_table`, `ap_detail`).
- `app/` is the Windows program around it: the API calls themselves, the
  loop that answers the library's requests, and the WinUI components.
- `tests/` runs the library on concrete values.
