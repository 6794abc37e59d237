use vstd::prelude::*;

verus! {

/// Which endpoint to capture from.
#[derive(Clone, Debug, PartialEq, Eq)]
pub enum AudioDevice {
    /// No device: capture is off.
    NoDevice,
    /// The host's default input device, with its default input configuration.
    Default,
    /// The host's default output device, opened with its default output
    /// configuration to monitor what is being played.
    Loopback,
    /// The input device with exactly this name.
    Input(String),
    /// The output device with exactly this name.
    Output(String),
}

/// What the host reports about its devices, gathered by the caller.
pub struct HostDevices {
    pub has_default_input: bool,
    pub has_default_output: bool,
    /// Every device of the host in the host's order, with its name, or
    /// `None` where the name could not be read.
    pub names: Vec<Option<String>>,
}

/// A concrete device of the host.
#[derive(Copy, Clone, Debug, PartialEq, Eq, Structural)]
pub enum Endpoint {
    DefaultInput,
    DefaultOutput,
    /// The device at this index of `HostDevices::names`.
    Listed(usize),
}

/// Which default stream configuration of the device to open it with.
#[derive(Copy, Clone, Debug, PartialEq, Eq, Structural)]
pub enum StreamKind {
    Input,
    Output,
}

/// A device together with the configuration to open it with.
#[derive(Copy, Clone, Debug, PartialEq, Eq, Structural)]
pub struct Resolved {
    pub endpoint: Endpoint,
    pub config: StreamKind,
}

/// The device at index `i` reports exactly the name `name`.
pub open spec fn named(names: Seq<Option<String>>, i: int, name: Seq<char>) -> bool {
    &&& 0 <= i < names.len()
    &&& names[i] is Some
    &&& names[i]->0@ == name
}

/// `i` is the first index of a device named `name`.
pub open spec fn first_named(names: Seq<Option<String>>, i: int, name: Seq<char>) -> bool {
    &&& named(names, i, name)
    &&& forall|j: int| 0 <= j < i ==> !named(names, j, name)
}

/// What a named selector resolves to: the first device with that name,
/// opened with the given configuration, or nothing.
pub open spec fn resolves_named(
    r: Option<Resolved>,
    names: Seq<Option<String>>,
    name: Seq<char>,
    config: StreamKind,
) -> bool {
    match r {
        Some(res) => {
            &&& res.config == config
            &&& res.endpoint is Listed
            &&& first_named(names, res.endpoint->0 as int, name)
        },
        None => forall|i: int| !named(names, i, name),
    }
}

/// The index of the first device named `name`, if any.
fn find_named(names: &Vec<Option<String>>, name: &String) -> (r: Option<usize>)
    ensures
        match r {
            Some(i) => first_named(names@, i as int, name@),
            None => forall|i: int| !named(names@, i, name@),
        },
{
    let mut i: usize = 0;
    while i < names.len()
        invariant
            i <= names@.len(),
            forall|j: int| 0 <= j < i ==> !named(names@, j, name@),
        decreases names@.len() - i,
    {
        match &names[i] {
            Some(n) => {
                if *n == *name {
                    return Some(i);
                }
            },
            None => {},
        }
        i = i + 1;
    }
    None
}

impl AudioDevice {
    /// `r` is what this selector resolves to on `host`.
    pub open spec fn resolves_to(&self, host: &HostDevices, r: Option<Resolved>) -> bool {
        match self {
            AudioDevice::NoDevice => r is None,
            AudioDevice::Default => r == if host.has_default_input {
                Some(Resolved { endpoint: Endpoint::DefaultInput, config: StreamKind::Input })
            } else {
                None::<Resolved>
            },
            AudioDevice::Loopback => r == if host.has_default_output {
                Some(Resolved { endpoint: Endpoint::DefaultOutput, config: StreamKind::Output })
            } else {
                None::<Resolved>
            },
            AudioDevice::Input(name) => resolves_named(
                r,
                host.names@,
                name@,
                StreamKind::Input,
            ),
            AudioDevice::Output(name) => resolves_named(
                r,
                host.names@,
                name@,
                StreamKind::Output,
            ),
        }
    }

    /// Maps the selector to a device of the host and the configuration to open
    /// it with. `NoDevice` resolves to nothing; `Default` to the default input
    /// device and `Loopback` to the default output device, where the host has
    /// one; `Input(name)` and `Output(name)` to the first device whose reported
    /// name is exactly `name`, or to nothing.
    pub fn resolve(&self, host: &HostDevices) -> (r: Option<Resolved>)
        ensures
            self.resolves_to(host, r),
    {
        match self {
            AudioDevice::NoDevice => None,
            AudioDevice::Default => {
                if host.has_default_input {
                    Some(Resolved { endpoint: Endpoint::DefaultInput, config: StreamKind::Input })
                } else {
                    None
                }
            },
            AudioDevice::Loopback => {
                if host.has_default_output {
                    Some(Resolved { endpoint: Endpoint::DefaultOutput, config: StreamKind::Output })
                } else {
                    None
                }
            },
            AudioDevice::Input(name) => match find_named(&host.names, name) {
                Some(i) => Some(Resolved { endpoint: Endpoint::Listed(i), config: StreamKind::Input }),
                None => None,
            },
            AudioDevice::Output(name) => match find_named(&host.names, name) {
                Some(i) => Some(Resolved { endpoint: Endpoint::Listed(i), config: StreamKind::Output }),
                None => None,
            },
        }
    }
}

/// The names that could be read, in order, skipping the devices whose name
/// lookup failed.
pub open spec fn readable_names(names: Seq<Option<String>>) -> Seq<Seq<char>>
    decreases names.len(),
{
    if names.len() == 0 {
        Seq::empty()
    } else {
        let rest = readable_names(names.drop_last());
        match names.last() {
            Some(n) => rest.push(n@),
            None => rest,
        }
    }
}

/// Lists the device names for a selection control: the names that could be
/// read, in the host's order.
pub fn device_names(names: &Vec<Option<String>>) -> (r: Vec<String>)
    ensures
        r@.map_values(|s: String| s@) == readable_names(names@),
{
    let mut r: Vec<String> = Vec::new();
    let mut i: usize = 0;
    while i < names.len()
        invariant
            i <= names@.len(),
            r@.map_values(|s: String| s@) == readable_names(names@.subrange(0, i as int)),
        decreases names@.len() - i,
    {
        let ghost before = r@;
        assert(names@.subrange(0, i + 1).drop_last() == names@.subrange(0, i as int));
        match &names[i] {
            Some(n) => {
                r.push(n.clone());
                assert(r@.map_values(|s: String| s@) =~= before.map_values(|s: String| s@).push(
                    n@,
                ));
            },
            None => {},
        }
        i = i + 1;
    }
    assert(names@.subrange(0, names@.len() as int) == names@);
    r
}

} // verus!
