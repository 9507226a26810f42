# mpu6050-async-driver

A driver for the MPU-6050 inertial sensor and a small driver registry, with
the logic proved correct by Verus.

- `src/` is the verified library: the register map and settings, the read
  and write requests of each driver operation, decoding of the sensor's
  big-endian samples, the setup sequences (as step functions that take the
  outcome of each bus transfer and name the next one), a fixed-capacity
  registry of bus and device drivers, and the plans of the repository's
  maintenance tasks with the decision that follows each step. Each public function has a contract; the
  `law_*` proof functions state properties that span several calls.
- `app/` is the asynchronous layer around it: the `AsyncBus` traits and their
  I2C implementation over `embedded-hal-async`, the `Mpu6050Async` drivers
  that perform the register accesses the library decides on, conversion to
  physical units (floating point), and the task runner.
- `tests/` exercises the library on concrete values.
