# Luvus Jira

A Luvus module that shows Jira issues in a dock and on a board, and hands them over to an agent in
a worktree of their own.

`src/` is the library: what the board does, verified with Verus. It holds no input or output.

- `ticket`, `json`: issues, and the plain text of their descriptions.
- `options`, `filters`: the values to filter by, and the issues that pass.
- `board`, `screen`, `board_laws`: the board as a state that takes events and asks for actions,
  what it shows, and what holds of it throughout.
- `environment`, `jira`: the settings, the requests that they make possible, and the answers.
- `handoff`, `host`: the steps by which an issue is handed over.
- `dock`, `launch`: the dock, and how the program is started.
- `text`: strings as sequences of characters.

What is not proved stands in `src/` as functions marked `external_body` and as
`assume_specification`s; each says what it claims of `std`, `serde_json` or `base64`.

`app/` is the program around it: the terminal, HTTP, other programs. `tests/` runs the library.

## Settings

- **Jira base URL**, for example `https://your-domain.atlassian.net`.
- **Jira project key**, an optional project to start with.
- **Jira email** and **Jira API token**.
- **Jira JQL**, by default `assignee = currentUser() ORDER BY updated DESC`.
- **Default agent kind**, by default `codex`.

## Keys

`/` edits the search, `p`, `s` and `y` move the project, status and priority filters on, `x` clears
them, `r` fetches the issues anew, `t` switches the status of the selected issue, `w` hands it over
to an agent, `o` opens it in a browser, `Esc` goes back and `q` quits.
