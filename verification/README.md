# cdk_drive_updater

Keeps the CDK Drive components of a Windows workstation current: it compares
the installed versions of the tracked packages (CDK Drive 3rd Party Managed
Assemblies 96.x, the Adaptiva agent, BlueZone, CDK Drive WebStart) with the
versions published on the CDK Online Software Distribution page, reports the
result as ASCII tables, and in update mode downloads and runs the installers
that are needed.

## Layout

- `src/` is the library, written in Verus. Every function carries a contract
  that Verus proves: reading the catalog page, ordering versions, decoding
  registry values, choosing the newest installed product, planning each
  target per run mode, and rendering every report. Calls into `scraper`,
  `url`, `version-compare` and a few `std` text routines
  sit behind small trusted wrappers whose contracts are documented where they
  are declared. The public proof functions whose names start with `law_`
  state properties that hold across calls (for example, that query mode never
  requests an install).
- `app/` is the program around the library: configuration from the
  environment, logging, registry and file-system reads, HTTP fetches,
  downloads, and running installers. It hands plain values to the library
  and carries out the installs the library asks for.
- `tests/` runs the library on concrete inputs.

## Running

```
cdk-drive-updater [/query | /update]
```

`CDK_DRIVE_OSD_URL` must name the OSD page. Query mode is the default and
installs nothing.
