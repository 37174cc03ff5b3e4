# nacos_cli

A small interactive shell for a Nacos configuration server.

The library in `src/` is verified with Verus. It holds the logic of the shell:

- `url_util`: the server address made of a host and port, and joining a host with a path;
- `json_struct`: the command configuration, looking commands up, gathering argument values;
- `clap_cli`: the command tree the configuration describes;
- `req`: the parameters and URL of a request, and the form of a posted body;
- `json_value`, `print_screen`: server replies, and the table or JSON view of a reply;
- `login`: the login request and the token in its reply;
- `command`: trimming and splitting a command line, parsing it with clap under the
  configured interface, and deciding what it asks for;
- `assoc`, `text`: keyed lists read like maps, and string helpers.

`app/` is the program around it: the terminal line editor, login arguments, HTTP
requests, JSON parsing, and printing.
