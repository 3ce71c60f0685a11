# wally

A wallpaper scraper: it lists or picks wallpapers from Wallhaven, Pixiv or
Konachan, saves them, sets one as the desktop wallpaper and keeps the output
directory below a configured size.

- `src/` is the verified library: the configuration model, the requests each
  source makes and how their answers are combined, the Pixiv address rewrite,
  download file names, the choice of files to evict, the retry policy and the
  set-wallpaper command line. Each public function carries a proved contract;
  the `law_*` proof functions state properties that span calls.
- `app/` is the command-line program around it: argument parsing, the KDL
  configuration file, HTTP requests, JSON parsing, file-system and process
  work.
- `tests/` runs the library on concrete values.
