# fooocus_plugin

The decisions of a plugin that an image generator calls from Python, verified with Verus, and the
Python module around them.

`src/` is the verified library. It performs no file or network operation. What takes several
operations is a value that says which one it waits for, and that is handed the outcome:

- `loading`: brings one model file into a memory directory of limited size, under a lock shared by
  all processes; `items` and `eviction` say what a directory holds and which files leave it;
  `loading_laws` states what holds of every load.
- `models`: the checkpoint or the LoRA models of a call; `caches`: the models of every start.
- `tree_copy`: copies what is missing of a directory tree; `tree_copy_laws` states what holds of
  every copy.
- `registry`: registers a service instance and takes it back.
- `translate`: what a translation service is asked, and what its reply comes to.
- `setup`, `config`, `error`, `location`: log levels, the configuration, failures and places.

`app/` is the Python module: it reads the configuration, performs the operations and raises the
exceptions. `tests/` runs the library.
