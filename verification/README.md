# rpn_expr

Scalar expressions in Reverse Polish notation, verified with Verus.

A definition tree is turned into a list of nodes, in which every function stands after its
arguments. The list is evaluated over a batch of columns with an argument stack: constants and
columns are put on the stack, and a function takes its arguments off it and puts its result there.

| Module | What it holds |
| --- | --- |
| `number` | the eight-byte codec of numbers in definitions |
| `field_type`, `expr` | column types, evaluation types, definition trees |
| `data_type`, `batch` | values and columns, over the data types of the surrounding system |
| `function` | the functions that expressions call |
| `node`, `stack` | the nodes of lists and of the stack |
| `builder` | from a definition to a list |
| `eval` | from a list to a value, or to booleans |
| `tree` | what a list stands for |
| `laws` | what holds of building and evaluating as a whole |

The surrounding system implements `DataTypes`, `AsMySQLBool` and `FunctionTable`, and an
`RpnFunction` for each of its functions. Contracts speak of what those may return, so they hold of
every implementation, also of one whose results depend on more than its arguments.

`app/` turns the definitions of requests into the library's own.
