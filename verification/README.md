# gitea-autoscaler

Scales a Kubernetes Deployment of Gitea Actions runners with the job queue of the Gitea admin API.
The decisions are a library verified with Verus; the program around it makes the calls.

- `src/` - the library.
  - `config` reads the configuration from the values of environment variables.
  - `gitea` says how the Gitea admin API is asked and what its replies mean.
  - `jobs` reads the job list page by page, and knows whether it came to its end.
  - `runners` selects stale registrations.
  - `scaler` picks the pods that may be deleted; `decision` decides when to scale.
  - `tick` is one polling cycle, as a state machine from the end of one call to the next call.
  - `laws` holds what is proved of whole cycles.
  - `outside` holds the calls into other crates, with the contracts that are not proved.
- `app/` - the program: environment, HTTP, Kubernetes API, clock and logging.
- `tests/` - tests of the library.
