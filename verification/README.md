# gh_scaleset_pve

A GitHub Actions runner scale set for Proxmox VE: GitHub `workflow_job` webhooks
are authenticated and filtered, a runner VM is cloned from a template with a
per-runner cloud-init snippet, and a reaper deletes runner VMs once their job is
done or abandoned.

The decision logic is a library verified with Verus:

- `src/middleware/github_webhook/`: the `X-Hub-Signature-256` check (header
  parsing, HMAC-SHA256 verification, the per-request state machine);
- `src/webhook.rs`: the webhook filters and their ignore reasons;
- `src/cloud_config.rs`: placeholder substitution in the cloud-init template;
- `src/provision.rs`: VM id choice and the names and paths of a new runner;
- `src/reaper.rs`: which VMs are reaped, and how;
- `src/vm_metadata.rs`: the job metadata kept in a VM's description;
- `src/conf.rs`, `src/server.rs`: configuration, defaults and shared state;
- `src/text.rs`: string rendering, joining and replacement.

`app/` holds the service around it: the axum server, the tower middleware, the
Proxmox and GitHub API calls, configuration loading and (de)serialization.
