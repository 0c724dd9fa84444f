# chat_room

A small chat room over TCP. One instance is the server, the others are clients;
what is typed at one of them is shown at all.

The logic is the library in `src/`, written in Verus: every function states what
it does in its contract, and Verus proves it.

| module       | what it is about                                               |
|--------------|----------------------------------------------------------------|
| `prompt`     | the lines being typed, and the cursor                          |
| `keys`       | what a key press does                                          |
| `packet`     | what the members of a room exchange                            |
| `wire`       | packets as bytes, in the format of `bincode`                   |
| `stream`     | packets out of the bytes that arrive                           |
| `connection` | the handshake, and whom a connection belongs to                |
| `room`       | who is in a room, and what it does about a packet              |
| `terminal`   | drawing, as a list of commands                                 |
| `args`       | the command line                                               |
| `text`, `bytes` | strings, and numbers as bytes                               |
| `prompt_laws`, `screen_laws`, `chat_laws` | what holds of several of these together |

What the library takes on trust is marked `external_body` or
`assume_specification`: two functions of `bincode`, and five functions of
`String`.

The program itself is in `app/`: sockets, threads and the terminal.

    chat_room --server
    chat_room --client 127.0.0.1:1234 --name ann

`Enter` breaks the line, `Tab` sends, `Esc` leaves.
