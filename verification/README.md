# velocityx

Bounded and unbounded multi-producer, multi-consumer queues, a Chase-Lev
style work-stealing deque, a Treiber style stack, a bucketed hash map and
performance metrics, written in Verus: every operation carries a contract
over a mathematical view of the structure (a `Seq` for the queues, the deque
and the stack, a `Map` for the hash map), and Verus proves the code against it.

Operations take the structures by `&mut`; threads that share one hold it
behind a lock.

Layout:

- `src/bounded.rs`: the sequence model shared by the bounded containers, and
  the laws relating pushes, pops and steals (FIFO, LIFO, capacity, batches,
  and the conservation of elements over any history of operations)
- `src/ring.rs`: the circular buffer behind the bounded containers, and the
  power-of-two rounding of capacities
- `src/deque/`, `src/queue/`, `src/stack/`, `src/map/`: the data structures;
  `src/queue/backoff.rs` decides each step of the timed operations (return,
  wait and retry, or time out)
- `src/metrics/`: operation counters, times and memory usage, and the clock
- `src/util/`: cache-line arithmetic and the cache-padded cell (aligned
  through an x86_64 vector type, so the crate builds on x86_64 only)
- `tests/`: tests run against the compiled library
- `app/`: what stays outside the verified library: error display, the
  floating-point rates, and the timed operations that read the clock and sleep
