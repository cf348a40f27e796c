# k8s_device_plugin

A framework for Kubernetes device plugins, verified with Verus.

`src/` holds what a plugin computes and decides, from plain values to plain
values:

- `health`, `permissions`, `path`, `device`, `v1beta1`: devices and the messages
  that the kubelet is sent about them.
- `socket`: socket names that are safe, short enough and told apart by a hash.
- `snapshot`, `watch`: when the kubelet is sent a new device list.
- `plugin`, `static_plugin`: backends, and two with a fixed list.
- `service`: the kubelet's calls, answered by a backend.
- `registration`, `retry`, `device_plugin`: registering, trying again, and the
  life of a plugin as a whole.
- `table`: a plugin over a fixed table of devices, without a backend.
- `mock`: stand-ins for the kubelet.

What has to be waited for (a backend, a socket, a timer) enters as an event or an
answer: a call or a run says what it needs next, and takes what came of it.

`app/` is the other half: gRPC over Unix sockets, timers and tasks.
