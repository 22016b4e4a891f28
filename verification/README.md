# lokai_engine

The decision logic of the Lokai compute engine, written in Verus with its
contracts proved.

- `src/broker`: admission queue, circuit breakers, scheduler decisions and
  their store, dispatch revalidation, fallback, speculation, metrics.
- `src/node`: the worker's GPU slot scheduler, its fabric listener's answers
  and refusals, revocation.
- `src/enroll`: the enrollment handshake (shared-secret proof, signatures,
  pinned keys) and the HTTP framing of its listener.
- `src/capacity`: hardware detection parsing, runtime profiles, estate model
  names and the capacity doctor.
- `src/tools`: the coding tools' guard rails, path rules, read/grep/glob
  answers, verify-command detection and post-edit snapshots.
- `src/daemon`: the JSON-RPC answers to application errors and the
  notifications sent for application events.

`app/` holds what stays outside verification: file and process access, the
walks of the workspace, serde and schema copies of argument types, and the
floating-point gates. `tests/` exercises the library on concrete values.
