# lum_service

A service manager for the lum framework, with its decisions verified by Verus.

- `src/` is the verified library. `types` holds the statuses, priorities, health
  and errors; `id` the unique-id counter; `service` what is known of a service;
  `service_manager` the manager's state (the managed types and their background
  task counts), each request as a step decided on the requesting service's own
  current info, and the laws that relate the steps; `overview` and `text` the
  status overview and the string helpers it rests on.
- `app/` is the asynchronous side: the `Service` trait, locks, timeouts,
  background tasks and status events. It asks the library for every decision and
  hands back what the outside calls returned.
- `tests/` runs the library on concrete values.
