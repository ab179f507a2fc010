# screeps_network

The network side of a Screeps client. It logs in, asks for facts about the user and for room
terrain, and keeps a websocket connection that is subscribed to the map views of some rooms.

`src/` is a verified library of state machines. Nothing in it touches a socket, a channel, a thread
or a clock: each value is told what has happened and answers with what to do next, and its contract
says exactly what that is.

| Module             | What it decides                                                             |
|--------------------|-----------------------------------------------------------------------------|
| `request`          | which API calls a request needs, and the event that answers it              |
| `tokio_executor`   | carrying out one request, and waiting after too many of them                |
| `threaded_handler` | sharing a few executors among many requests                                 |
| `single_threaded`  | passing requests on to the network thread, and starting it again            |
| `ws`, `ws_laws`    | subscriptions, and bringing up the websocket connection                     |
| `read`             | what to do about the things that the connection brings                      |
| `message`          | websocket messages, and the frames in them                                  |
| `far_rooms`        | which texts speak of a room whose coordinate cannot be negated              |
| `command`          | commands to the game server                                                 |
| `room`, `room_set` | room names and sets of rooms                                                |

Properties that span several steps are stated as proof functions whose names begin with `law_`.

`app/` performs the actions with real threads, channels, sockets and timers. `tests/` runs the
library on concrete values.
