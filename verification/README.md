# upload-service

A service that takes a Burp Suite XML export, turns every exchange in it into
an URL record and a request record, and uploads the records to PocketBase.

`src/` is the library, verified with Verus:

- `parser` — the conversion of export items into records: URL parsing, the
  URL id (hex SHA-256 of `scheme://netlocpath`), Base64 decoding of requests
  and responses;
- `message` — splitting a decoded message into header lines and body;
- `headers` — header lines into header maps (a later name replaces an
  earlier one);
- `models` — the records;
- `pocketbase` — where each PocketBase call goes and what its answer means;
- `upload` — the order of the uploads and the replies of the endpoint;
- `bindings` — the calls into base64, sha2, hex, url and the parts of std
  that have no specification, with the contracts they are trusted to meet;
- `text` — characters in and out of strings, and the Unicode white-space set.

`app/` is the HTTP server (actix-web), the XML reading and JSON writing
(quick-xml, serde_json) and the HTTP client calls (reqwest).
