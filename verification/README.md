# bedrock_updater

Updates a Minecraft Bedrock dedicated server hosted on HeavyNode.

- `src/` is the library, verified with Verus: reading versions out of
  package links and paths and comparing them (`webprocessing`), naming and
  cleaning the repacked archive (`zipfile`), the SFTP target and HeavyNode API
  requests and how their answers are judged (`heavynode`), Unix path text
  (`paths`) and decimal text (`text`). `foreign` holds the calls into `regex`,
  `scraper` and `serde_json`, whose contracts are taken on trust.
- `app/` is the program: HTTP, SFTP, files and archives, driven by the
  library's plans.
- `tests/` runs the library on concrete values.
