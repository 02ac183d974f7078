# apk_tools

Command line tools for Android development — `adblog` (install an APK, AAB
or APKS on a device, start it and follow its log or watch its memory or
processor use), `apkex` (unpack an APK with apktool, or pack and sign it) and
`apkinfo` (print an APK's badging, verify its signature, read its channel) —
with their logic verified in Verus.

- `src/` is the verified library.
  - `text`: trimming, splitting, searching, ASCII case folding and decimal
    numbers over `Seq<char>`, as the standard library's `str` methods do them.
  - `badging`: reading `aapt2 dump badging` output (`get_value_by_key`).
  - `adb`: the device list, the process id in `ps` output and the search for
    it, the package list, `cyg_to_win`.
  - `tools`: picking SDK tools out of directory listings.
  - `path`: file names, extensions and joins of paths, as `std::path`
    reads them; the `.apks`, unzip folder and base APK paths derive from it.
  - `logname`: the log file's name (its stamp formatted by the `time`
    crate) and shown folder.
  - `cygpath`: the `cygpath` commands and their output.
  - `cmdline`: commands as the library hands them out.
  - `adblog`, `apkinfo`, `apkex`: each tool's session, a state machine that
    takes in what happened and answers with the next action. `adblog`
    installs a file whose extension is `apks` (given, or built from an
    `.aab` with bundletool) with bundletool's `install-apks`, and any other
    file with `adb install`.
- `app/` runs the sessions: processes, files, the clock, logging, prompts and
  the command line.
- `tests/` runs the library on concrete inputs.
