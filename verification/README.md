# threadcity

A cooperative user-level thread runtime and a city traffic simulation that
runs on it, with the state its viewer animates.

- `src/mypthreads/`: the runtime. Thread bodies run one step at a time and
  report a signal (yield, block, exit, join, lock, unlock); the runtime
  keeps a ready queue and a blocked list, and each cycle runs the thread the
  scheduling policies choose: the real-time thread with the earliest
  deadline; else, when a lottery thread is ready, a lottery weighted by
  tickets among the threads that are not real time; else the first such
  thread, so that round-robin threads run in turn. Mutexes (with their
  queues of waiting threads), channels and join handles live here too.
- `src/city/`: the city: a grid split by a river, three bridges (traffic
  light, yield, drawbridge), shops, nuclear plants with supply deadlines,
  and the step functions of cars, ambulances, cargo trucks and boats.
- `src/ui/`: the viewer's event queue, the translation of log lines into
  animation events, and the scene of entities on screen.
- `src/random.rs`: the random draws, taken from `rand`.
- `app/`: the console program that runs the simulation: it creates the
  agents' threads, advances the clock, sleeps between steps and logs.

Everything in `src/` is checked by Verus, and the public functions carry
contracts; the laws of the runtime, the bridges, the plants, the mutexes
and the viewer are stated and proved as `law_*` proof functions. The
draws of `rand` are stated only by what holds of every outcome.

Shared state is passed as plain values: a guarded value, a mutex, a join
handle or the channels belong to whoever holds them, and a program that
shares one between thread bodies wraps it (for instance in `Rc<RefCell<_>>`).
A guard does not release its lock when it goes out of use: the holder
releases it with the unlock call.
