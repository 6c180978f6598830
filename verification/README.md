# zarr_cli

A SQL command line over Zarr stores: a prompt, a batch runner, and a registry of
object stores that makes remote ones on first use.

`src/` is the library, written in Verus. Each function says in its contract what it
returns, and the properties that span functions are proof functions beside them.

| module | what it holds |
|--------|---------------|
| `args` | the command line's arguments, and what the program does with them |
| `batch` | what runs without a prompt, in which order |
| `script` | cutting a SQL script into statements |
| `statement` | what a statement asks for |
| `execution` | the course of a statement: requests to the engine, and what is told |
| `stats` | the line of numbers under a result, and the search for them in a plan |
| `repl` | the prompt: what follows each line |
| `location` | URLs, by the parts that stores are found by |
| `registry` | the object stores of a session |
| `text` | white space, trimming, prefixes, case, numerals |

What is taken on trust stands in items marked `external_body` or
`assume_specification`: reading a URL (`url`), the registry that holds the stores
(`datafusion-execution`), the builders of stores (`object_store`), and a few functions
of the standard library. Their doc comments say what is claimed of each.

`app/` is the program around it: files, the terminal, and the SQL engine.
