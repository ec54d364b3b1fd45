# reforge

A dependency update bot for GitLab projects and local git checkouts: it finds
container images and Helm charts in Dockerfiles, docker-compose files, Helm
charts and values files (and through configurable regex managers), looks up
newer versions in Docker/OCI registries and Helm repositories, and proposes the
updates as branches and merge requests, grouped, rate-limited and scheduled as
configured, with a dashboard issue listing the state of every dependency.

## Layout

- `src/` is the library, verified with Verus: the managers that read
  dependencies out of files, the version policy, grouping, scheduling and rate
  limiting, the file updaters and the Chart.lock writer, the dashboard and
  merge-request texts, the replacement rules, and every decision of an update
  run (which branch, whether to create, rebase or delete, what to commit). Each
  public function states its result in its `ensures`; the public proof
  functions (`lemma_*`) state the library's laws, such as that grouping
  partitions the candidates, that the first matching grouping rule wins, or
  that a Chart.lock does not depend on the order of its digests.
- `app/` is the program around it: command line, configuration files, HTTP
  requests to GitLab and the registries, git commands, and the asynchronous run
  that performs what the library decides.
- `tests/` exercises the library on concrete inputs.

Calls into outside crates (regular expressions, YAML, semantic versions,
SHA-256, base64, URLs, the clock) stand behind small trusted wrappers whose
contracts name or state what the crate returns.
