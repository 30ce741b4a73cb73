# mini_std

Three building blocks, written safely on top of std's `Vec`, `VecDeque`, `Arc`
and atomics, with contracts checked by Verus:

- `src/vec/` — `MyVec<T>`, a growable array whose capacity starts at zero and
  doubles when full, and `IntoIter<T>`, which hands its values out from either
  end. Contracts are stated over `Seq<T>`.
- `src/arc/` — `MyArc<T>`, a shared pointer that keeps its own owner count in
  the shared allocation, and the two decisions taken on that count
  (`clone_step`, `release_step`).
- `src/thread_pool.rs` — `SharedData<J>`, the job queue of a worker pool, and
  the decision a worker takes on it (`next_action`).

`app/` is the program around the library: a counting global allocator and the
thread pool itself (threads, mutex, condition variable), which calls the
library for every decision.
