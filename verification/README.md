# jevi

Ask typed questions about a text and branch on the answer.

`jevi` puts yes/no, multiple-choice and rubric questions about a text to a judging model and
turns the probabilities that come back into `yes`, `no` or `unsure`, an exit code and a JSON
document. It never exits 2, and with `--soft` it never fails.

## Layout

`src/` is the library. It holds every rule and every decision, and each function carries a
contract that Verus proves:

| module | what it holds |
|---|---|
| `text`, `number` | characters, decimal numbers, and doubles compared by their bit patterns |
| `json`, `codec` | JSON trees, and their reading and writing through `serde_json` |
| `error`, `notes` | the two classes of failure, and advice |
| `questions`, `sets`, `refusal` | questions, thresholds, question files and what is wrong with one |
| `decide` | an answer, thresholds and their provenance, in; a verdict, out |
| `provider`, `http` | the two providers, what a response means and when to try again |
| `config`, `state` | settings and credentials, and the text to judge |
| `session` | one call: what is sent, and what is made of what came back |
| `output`, `command`, `cli` | what each command shows and exits with |

`app/` is the program around it: clap reads the arguments, files and stdin are read, ureq
sends the request, and what the library says is printed.

What is taken on trust stands in `codec`: `serde_json` reads and writes JSON text, std formats
doubles and quotes strings, and the contracts of the functions that call them say what is
relied on.

A double is held as its 64-bit pattern together with its JSON text and its shortest form.
Comparisons, rounding to a level and the form with two decimals are proved against the exact
value of the pattern.
