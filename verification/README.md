# learn

A small reinforcement-learning toolkit whose integer logic is verified with
Verus.

- `src/` — the verified library: the discrete space `[0, n)`, the
  experience-replay ring buffer (it keeps the `capacity` most recent items,
  oldest first), the grid-world environment (moves, walls, rewards and
  termination), the bookkeeping of SARSA (which table entry an update goes
  to) and of DQN (when to train and when to synchronise the target network),
  one-hot encoding and shape arithmetic. Randomness comes from
  `rand::rngs::StdRng` through two small trusted wrappers in `src/rng.rs`.
- `app/` — the real-valued side, in plain Rust: rewards and the
  `Environment`/`Agent`/`Policy` interfaces, box spaces, the perceptron with
  backpropagation, the Q-learning, SARSA, REINFORCE and DQN agents, and the
  cart-pole physics. It builds on the verified library.
- `tests/` — tests of the library.
