# yamete_kudasai_system

A terminal error listener. Shell hooks in Bash, Zsh and PowerShell append a
line `timestamp|shell|exit code|command` to an event log whenever a command
fails; a background agent watches the log and plays a sound for each error,
at most once every two seconds.

- `src/` is the library, verified with Verus: the hook blocks and how they are
  added to and removed from shell profiles, the recognition of error events,
  the agent's reading and cooldown decisions, the command line, and the texts
  the program writes.
- `app/` is the program around it: files, processes, the registry, downloads
  and audio playback.
- `tests/` runs the library on concrete inputs.

The bundled sound, `yamete-kudasai-sound.mp3`, is shipped beside the program.
