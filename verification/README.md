# commander

Several conversations with a command-line assistant, side by side in a terminal, with a service
through which clients elsewhere take part.

- `src/` is the verified library: the stream of the assistant, the state of a session, its keys,
  the messages of the service and of its client, and what every panel shows. The contracts say
  exactly what each function does; the functions named `law_..` say what holds across them.
- `app/` is the program around it: the terminal, processes, files, sockets and the clipboard. It
  also holds what needs floating-point numbers (costs, shares, token counts with a decimal).
- `tests/` runs the library on concrete values.

Moments are nanoseconds since the start of the program. Costs pass through the library as the
numbers that were read; the program adds them up.

The program takes the assistant's executable from the environment variable `COMMANDER_PROGRAM`. The
assistant is shown under the name of that file, with a capital, and its files are those below the
home directory in a hidden directory of that name. With the argument `client` and an address it is a
client of a running service.
