# bws_manager

A manager for GTK Broadway sessions: users log in, start and end a pair of
Broadway sessions (GTK 3 and GTK 4) running in a container, reach them
through a reverse proxy, and manage the files of their home directory.

Layout:

- `src/` is the library, verified with Verus. Each module states its
  behaviour in `requires` / `ensures` contracts over mathematical models:
  - `text`: splitting on '/', decimal numbers (parsing and printing);
  - `models`: the stored records;
  - `service_management`: choosing free ports for new sessions;
  - `user_management`: accounts, password checks and invitation keys;
  - `session`: the session box of the home page and the steps of starting
    and ending a session, as state machines from event to next action;
  - `login`: logged-in users, administrators and access to a running
    session;
  - `filemanager`: request paths, directory listings and the answers to
    creating, uploading and deleting files;
  - `pages`: the home page and small page answers.
- `app/` is the web server around the library: Rocket routes, the SQLite
  database through Diesel, Docker, and the file system. It performs what the
  library decides.
- `tests/` runs the library on concrete values.
