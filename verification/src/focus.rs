//! The keyboards that are supported, how they are told apart among the
//! serial ports of a machine, and the text of the command that moves a
//! keyboard to a layer.

use vstd::prelude::*;
use vstd::string::StringExecFns;

verus! {

/// A keyboard model, known by the identifiers that its USB port reports.
#[derive(Debug, Clone, Copy)]
pub struct SupportedDevice {
    pub name: &'static str,
    pub vendor_id: u16,
    pub product_id: u16,
}

/// A serial port of the machine. `usb` holds the vendor and product
/// identifiers where the port is a USB port.
#[derive(Debug, Clone)]
pub struct PortInfo {
    pub port_name: String,
    pub usb: Option<(u16, u16)>,
}

/// A supported keyboard that is connected, and the port it is connected to.
#[derive(Debug, Clone)]
pub struct Device {
    pub name: &'static str,
    pub port: String,
}

/// What a [`SupportedDevice`] holds, its name as a sequence of characters.
pub struct SupportedDeviceView {
    pub name: Seq<char>,
    pub vendor_id: u16,
    pub product_id: u16,
}

/// What a [`PortInfo`] holds, its name as a sequence of characters.
pub struct PortInfoView {
    pub port_name: Seq<char>,
    pub usb: Option<(u16, u16)>,
}

/// What a [`Device`] holds, its texts as sequences of characters.
pub struct DeviceView {
    pub name: Seq<char>,
    pub port: Seq<char>,
}

impl View for SupportedDevice {
    type V = SupportedDeviceView;

    open spec fn view(&self) -> SupportedDeviceView {
        SupportedDeviceView {
            name: self.name@,
            vendor_id: self.vendor_id,
            product_id: self.product_id,
        }
    }
}

impl View for PortInfo {
    type V = PortInfoView;

    open spec fn view(&self) -> PortInfoView {
        PortInfoView { port_name: self.port_name@, usb: self.usb }
    }
}

impl View for Device {
    type V = DeviceView;

    open spec fn view(&self) -> DeviceView {
        DeviceView { name: self.name@, port: self.port@ }
    }
}

/// The views of a list of models.
pub open spec fn models_view(models: Seq<SupportedDevice>) -> Seq<SupportedDeviceView> {
    models.map_values(|m: SupportedDevice| m@)
}

/// The views of a list of ports.
pub open spec fn ports_view(ports: Seq<PortInfo>) -> Seq<PortInfoView> {
    ports.map_values(|p: PortInfo| p@)
}

/// The views of a list of keyboards.
pub open spec fn devices_view(devices: Seq<Device>) -> Seq<DeviceView> {
    devices.map_values(|d: Device| d@)
}

/// The supported keyboard models, in the order in which a port is held
/// against them.
pub open spec fn supported_models() -> Seq<SupportedDeviceView> {
    seq![
        SupportedDeviceView { name: "Defy Wired"@, vendor_id: 0x35ef, product_id: 0x0010 },
        SupportedDeviceView { name: "Defy Wireless"@, vendor_id: 0x35ef, product_id: 0x0012 },
        SupportedDeviceView { name: "Raise ANSI"@, vendor_id: 0x1209, product_id: 0x2201 },
        SupportedDeviceView { name: "Raise ISO"@, vendor_id: 0x1209, product_id: 0x2201 },
    ]
}

/// The position of the first model at or after `from` with these
/// identifiers.
pub open spec fn model_from(
    models: Seq<SupportedDeviceView>,
    vendor_id: u16,
    product_id: u16,
    from: int,
) -> Option<int>
    decreases models.len() - from,
{
    if from < 0 || from >= models.len() {
        None
    } else if models[from].vendor_id == vendor_id && models[from].product_id == product_id {
        Some(from)
    } else {
        model_from(models, vendor_id, product_id, from + 1)
    }
}

/// The keyboard at a port: the first model with the identifiers of the
/// port, where the port is a USB port and there is such a model.
pub open spec fn device_at(models: Seq<SupportedDeviceView>, port: PortInfoView) -> Option<
    DeviceView,
> {
    match port.usb {
        None => None,
        Some((vendor_id, product_id)) => match model_from(models, vendor_id, product_id, 0) {
            None => None,
            Some(at) => Some(DeviceView { name: models[at].name, port: port.port_name }),
        },
    }
}

/// The keyboards at the first `count` ports, in the order of the ports.
pub open spec fn devices_among(
    models: Seq<SupportedDeviceView>,
    ports: Seq<PortInfoView>,
    count: int,
) -> Seq<DeviceView>
    decreases count,
{
    if count <= 0 || count > ports.len() {
        Seq::empty()
    } else {
        match device_at(models, ports[count - 1]) {
            None => devices_among(models, ports, count - 1),
            Some(device) => devices_among(models, ports, count - 1).push(device),
        }
    }
}

/// The keyboards at the ports, in the order of the ports.
pub open spec fn found_devices(models: Seq<SupportedDeviceView>, ports: Seq<PortInfoView>) -> Seq<
    DeviceView,
> {
    devices_among(models, ports, ports.len() as int)
}

/// The digit that stands for a number below ten.
pub open spec fn digit(d: nat) -> char {
    seq!['0', '1', '2', '3', '4', '5', '6', '7', '8', '9'][d as int]
}

/// The decimal numeral of `n`, without leading zeros.
pub open spec fn decimal(n: nat) -> Seq<char>
    decreases n,
{
    if n < 10 {
        seq![digit(n)]
    } else {
        decimal(n / 10).push(digit(n % 10))
    }
}

/// The line that moves a keyboard to the layer with the index `index`.
pub open spec fn layer_command(index: u8) -> Seq<char> {
    "layer.moveTo "@ + decimal(index as nat) + seq!['\n']
}

/// A search that starts at `from`, where no model in `from..at` has the
/// identifiers, gives what the search from `at` gives.
pub proof fn lemma_model_skips(
    models: Seq<SupportedDeviceView>,
    vendor_id: u16,
    product_id: u16,
    from: int,
    at: int,
)
    requires
        0 <= from <= at <= models.len(),
        forall|k: int|
            from <= k < at ==> !((#[trigger] models[k]).vendor_id == vendor_id
                && models[k].product_id == product_id),
    ensures
        model_from(models, vendor_id, product_id, from) == model_from(
            models,
            vendor_id,
            product_id,
            at,
        ),
    decreases at - from,
{
    if from < at {
        lemma_model_skips(models, vendor_id, product_id, from + 1, at);
    }
}

impl SupportedDevice {
    /// A keyboard model.
    pub fn new(name: &'static str, vendor_id: u16, product_id: u16) -> (model: Self)
        ensures
            model.name == name,
            model.vendor_id == vendor_id,
            model.product_id == product_id,
    {
        SupportedDevice { name, vendor_id, product_id }
    }
}

/// The supported keyboard models.
pub fn devices() -> (models: Vec<SupportedDevice>)
    ensures
        models_view(models@) == supported_models(),
{
    let mut models: Vec<SupportedDevice> = Vec::new();
    models.push(SupportedDevice::new("Defy Wired", 0x35ef, 0x0010));
    models.push(SupportedDevice::new("Defy Wireless", 0x35ef, 0x0012));
    models.push(SupportedDevice::new("Raise ANSI", 0x1209, 0x2201));
    models.push(SupportedDevice::new("Raise ISO", 0x1209, 0x2201));
    models
}

/// The keyboard at `port`, judged by the models `models`.
pub fn identify(models: &Vec<SupportedDevice>, port: &PortInfo) -> (device: Option<Device>)
    ensures
        match device {
            Some(d) => device_at(models_view(models@), port@) == Some(d@),
            None => device_at(models_view(models@), port@) is None,
        },
{
    let (vendor_id, product_id) = match port.usb {
        None => {
            return None;
        },
        Some(ids) => ids,
    };
    let mut i: usize = 0;
    while i < models.len()
        invariant
            i <= models@.len(),
            port.usb == Some((vendor_id, product_id)),
            forall|k: int|
                0 <= k < i ==> !((#[trigger] models_view(models@)[k]).vendor_id == vendor_id
                    && models_view(models@)[k].product_id == product_id),
        decreases models@.len() - i,
    {
        if models[i].vendor_id == vendor_id && models[i].product_id == product_id {
            proof {
                lemma_model_skips(models_view(models@), vendor_id, product_id, 0, i as int);
            }
            return Some(Device { name: models[i].name, port: port.port_name.clone() });
        }
        i += 1;
    }
    proof {
        lemma_model_skips(models_view(models@), vendor_id, product_id, 0, models@.len() as int);
    }
    None
}

/// The supported keyboards among `ports`, in the order of the ports.
pub fn find_all(ports: &Vec<PortInfo>) -> (found: Vec<Device>)
    ensures
        devices_view(found@) == found_devices(supported_models(), ports_view(ports@)),
{
    let models = devices();
    let mut found: Vec<Device> = Vec::new();
    let mut i: usize = 0;
    while i < ports.len()
        invariant
            i <= ports@.len(),
            models_view(models@) == supported_models(),
            devices_view(found@) == devices_among(supported_models(), ports_view(ports@), i as int),
        decreases ports@.len() - i,
    {
        match identify(&models, &ports[i]) {
            None => {},
            Some(device) => {
                found.push(device);
            },
        }
        i += 1;
    }
    found
}

/// The first supported keyboard among `ports`, if there is one.
pub fn find_first(ports: &Vec<PortInfo>) -> (first: Option<Device>)
    ensures
        match first {
            Some(d) => {
                let found = found_devices(supported_models(), ports_view(ports@));
                found.len() > 0 && found[0] == d@
            },
            None => found_devices(supported_models(), ports_view(ports@)).len() == 0,
        },
{
    let mut found = find_all(ports);
    if found.len() == 0 {
        None
    } else {
        let device = found.swap_remove(0);
        Some(device)
    }
}

/// The text of the digit that stands for `d`.
pub fn digit_text(d: u8) -> (text: &'static str)
    requires
        d < 10,
    ensures
        text@ == seq![digit(d as nat)],
{
    proof {
        reveal_strlit("0");
        reveal_strlit("1");
        reveal_strlit("2");
        reveal_strlit("3");
        reveal_strlit("4");
        reveal_strlit("5");
        reveal_strlit("6");
        reveal_strlit("7");
        reveal_strlit("8");
        reveal_strlit("9");
    }
    let text = if d == 0 {
        "0"
    } else if d == 1 {
        "1"
    } else if d == 2 {
        "2"
    } else if d == 3 {
        "3"
    } else if d == 4 {
        "4"
    } else if d == 5 {
        "5"
    } else if d == 6 {
        "6"
    } else if d == 7 {
        "7"
    } else if d == 8 {
        "8"
    } else {
        "9"
    };
    text
}

/// The line that moves a keyboard to the layer with the index `index`:
/// the command, the index as a decimal numeral, and a line feed.
pub fn layer_move_to(index: u8) -> (line: String)
    ensures
        line@ == layer_command(index),
{
    let mut line = String::from_str("layer.moveTo ");
    if index >= 100 {
        line.append(digit_text(index / 100));
        line.append(digit_text((index / 10) % 10));
        line.append(digit_text(index % 10));
        proof {
            reveal_with_fuel(decimal, 3);
        }
    } else if index >= 10 {
        line.append(digit_text(index / 10));
        line.append(digit_text(index % 10));
        proof {
            reveal_with_fuel(decimal, 2);
        }
    } else {
        line.append(digit_text(index));
    }
    proof {
        reveal_strlit("\n");
    }
    line.append("\n");
    line
}

} // verus!
