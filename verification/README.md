# tl-async-runtime

The decisions of a small async runtime, verified with Verus.

* `src/ready.rs`: the queue of tasks that are ready, and the workers that wait
  for one.
* `src/executor.rs`, `src/executor/`: what a worker does next, what becomes of a
  polled task and its output, and how a runtime starts and ends.
* `src/reactor.rs`, `src/reactor/`: the timer queue, sleeping, and book-keeping.
* `src/io.rs`, `src/io/`: events of the operating system, their dispatch to the
  tasks that await them, and the state of TCP listeners and streams.
* `src/driver.rs`, `src/driver/`, `src/timers.rs`: workers that take their tasks from a channel
  and are parked by their threads, and timers of tasks known by number.
* `app/`: threads, locks, futures and sockets around the library.
* `tests/`: the library on concrete values.

A function of the library that has to wait for the outside world is a step: it
is told what has just happened, and says what to do next.
