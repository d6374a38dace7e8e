# sim

A discrete event simulation library (DEVS formalism) whose logic is
written in Verus and proved against its contracts.

## Layout

- `src/` — the verified library
  - `utils.rs`: integer square root (Babylonian method), decimal formatting
  - `errors.rs`: `SimulationError`
  - `input_modeling.rs`: the `Index` random variable (uniform and weighted
    index draws through `rand_distr`, with the `rand_pcg` generator)
  - `output_analysis.rs`: independent samples, terminating simulation
    replications, and the deletion/batching plan of steady-state analysis
  - `models/`: the atomic models (batcher, exclusive and parallel gateways,
    gate, generator, load balancer, processor, stochastic gate, stopwatch,
    storage) as state machines with abstract views, transition functions and
    laws; the routing of coupled models; the `Model` wrapper
  - `simulator.rs`: connectors, messages, and message routing
- `tests/` — tests of the library
- `app/` — the layer around the library: the simulation clock and each
  model's time until its next event, the continuous and Bernoulli random
  variables, the statistics of output analysis, serialisation, the model
  factory, and the JavaScript interface

Each model transition returns a `Timer` that tells the simulator what
becomes of the model's next event time; the simulator keeps those times and
the clock, and stamps the records the models keep.  Every atomic model can
also be restored from a saved state (its phase, jobs and records), which is
how a model configuration with a `state` is loaded.
