# playscript

Tells from an executable file of Windows whether a double click on it opens a window, and
what the program is for: an installer, a service, a launcher and so on.

The library under `src/` is verified with Verus. It takes the bytes of a file and gives a
report. What a report says is stated in the contract of `analyze_exe`, over the bytes and
over what the `pelite` crate reads from them; `laws` states what holds of every report.

`app/` reads a file and prints its report:

```
playscript <exe_path>
```

## Classes

| Class       | Meaning                                             |
| ----------- | --------------------------------------------------- |
| Portable    | a program that opens a window                       |
| Installer   | an installer, by its version information            |
| Uninstaller | an uninstaller, by its version information          |
| Launcher    | a stub that imports little and creates no window    |
| Service     | a Windows service                                   |
| DotNet      | a program of .NET                                   |
| ConsoleTool | a console program                                   |
| Other       | anything else, such as a program without a window   |

## Limits

The analysis is static: it runs no code. It does not see windows that a program opens only
through other programs, nor whether a program ends as soon as it has started.

A file is refused where its headers are not those of a PE file. A file is left out where
what is read from it does not lie where numbers of its size have to, or where its version
information has a block without room for its own padding: `analyze_exe_checked` gives `None`
for it. Parts of a file that are not read may lie anywhere.
