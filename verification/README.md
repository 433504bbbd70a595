# looper_engine

The verified core of a live looper: a program that records a musician on the bar, plays the take in
a loop and stacks further takes on top of it.

`src/` decides. It knows the musical grid, the commands and the moment each of them acts, the layers
of every track, the latency compensation, the buses, the effect settings, the bindings of a MIDI
controller and every sentence the musician reads. It is written in Verus: each function states what
it returns or changes, and the laws of the library stand beside the functions as public proof
functions.

`app/` sounds. It opens devices, moves samples through the effects, reads the keyboard, draws the
window and writes the log. Samples, gains and tempos cross the border between the two as the bits of
their floating-point number.

The one outside crate the library calls is `rtrb`, whose lock-free queues connect the control thread
and the audio thread; what is relied on about them is written in `src/queue.rs` and
`src/command.rs`.

Times are counted in frames of the audio device. Two promises carry the rest:

* A note is stored where it was played: what arrives at input frame `k` lies at position
  `k - latency`, on every pass of the loop.
* A command acts on its frame: never early, never in the past, and in the order of its time.
