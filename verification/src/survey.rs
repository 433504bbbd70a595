//! The device survey: every host, every device and every configuration, as the window shows them.
//!
//! Asking the audio hosts belongs to whoever may talk to them; what comes back - names, lists and
//! refusals - is turned into the report here. A host that does not open and a list that cannot be
//! read are entries of the report, not reasons to have none.
use vstd::prelude::*;
use vstd::string::*;
use crate::audio::{format_name, BufferRange, ConfigRange};
use crate::midi::text_model;
use crate::proto::{ConfigInfo, DeviceInfo, DeviceReport, HostInfo};
use crate::start::{config_info, note_failure, noted};
use crate::text::{lower, to_lowercase};

verus! {

/// One device as its host describes it.
#[derive(Debug)]
pub struct Found {
    pub name: String,
    pub input: bool,
    pub output: bool,
    /// The configurations of each direction, or why they cannot be had.
    pub input_configs: Result<Vec<ConfigRange>, String>,
    pub output_configs: Result<Vec<ConfigRange>, String>,
}

/// What a host answers when it is asked for its devices.
#[derive(Debug)]
pub enum Listing {
    /// It could not be opened.
    Unopened(String),
    /// It could be opened, but its list could not be read.
    Unlisted(String),
    Devices(Vec<Found>),
}

/// One host as the system names it.
#[derive(Debug)]
pub struct Asked {
    pub name: String,
    pub default_input: Option<String>,
    pub default_output: Option<String>,
    pub listing: Listing,
}

/// Whether an entry of the report tells of a range of configurations.
pub open spec fn config_told(info: ConfigInfo, range: ConfigRange) -> bool {
    &&& info.channels == range.channels
    &&& info.min_sample_rate == range.min_rate
    &&& info.max_sample_rate == range.max_rate
    &&& info.sample_format@ == format_name(range.format@)
    &&& match range.buffer {
        BufferRange::Range { min, max } => info.min_buffer_frames == Some(min)
            && info.max_buffer_frames == Some(max),
        BufferRange::Unknown => info.min_buffer_frames is None && info.max_buffer_frames is None,
    }
}

/// Whether a list of entries tells of one direction of a device.
pub open spec fn side_told(infos: Seq<ConfigInfo>, side: Result<Vec<ConfigRange>, String>) -> bool {
    match side {
        Ok(ranges) => {
            &&& infos.len() == ranges@.len()
            &&& forall|i: int|
                0 <= i < ranges@.len() ==> config_told(#[trigger] infos[i], ranges@[i])
        },
        Err(_) => infos.len() == 0,
    }
}

/// The note of a device after one direction has been asked for.
pub open spec fn note_after(
    note: Option<Seq<char>>,
    label: Seq<char>,
    side: Result<Vec<ConfigRange>, String>,
) -> Option<Seq<char>> {
    match side {
        Ok(_) => note,
        Err(error) => Some(noted(note, label, error@)),
    }
}

/// One direction's configurations in the form of the report. A direction that cannot be queried is
/// not an error - the device simply has nothing on that side, and the reason is appended to `note`.
pub fn configs_of(
    side: &Result<Vec<ConfigRange>, String>,
    label: &str,
    note: Option<String>,
) -> (r: (Vec<ConfigInfo>, Option<String>))
    ensures
        side_told(r.0@, *side),
        text_model(r.1) == note_after(text_model(note), label@, *side),
{
    match side {
        Ok(ranges) => {
            let mut infos: Vec<ConfigInfo> = Vec::new();
            let mut i: usize = 0;
            while i < ranges.len()
                invariant
                    i <= ranges.len(),
                    infos@.len() == i,
                    forall|j: int| 0 <= j < i ==> config_told(#[trigger] infos@[j], ranges@[j]),
                decreases ranges.len() - i,
            {
                let info = config_info(&ranges[i]);
                assert(config_told(info, ranges@[i as int]));
                infos.push(info);
                i = i + 1;
            }
            (infos, note)
        },
        Err(error) => (Vec::new(), Some(note_failure(note, label, error.as_str()))),
    }
}

/// Whether an entry of the report tells of a device.
pub open spec fn device_told(info: DeviceInfo, found: Found) -> bool {
    &&& info.name@ == found.name@
    &&& info.input == found.input
    &&& info.output == found.output
    &&& side_told(info.input_configs@, found.input_configs)
    &&& side_told(info.output_configs@, found.output_configs)
    &&& text_model(info.note) == note_after(
        note_after(None, "Eingangskonfigurationen"@, found.input_configs),
        "Ausgangskonfigurationen"@,
        found.output_configs,
    )
}

fn device_info(found: &Found) -> (r: DeviceInfo)
    ensures
        device_told(r, *found),
{
    let (input_configs, note) = configs_of(&found.input_configs, "Eingangskonfigurationen", None);
    let (output_configs, note) = configs_of(
        &found.output_configs,
        "Ausgangskonfigurationen",
        note,
    );
    DeviceInfo {
        name: found.name.as_str().to_owned(),
        input: found.input,
        output: found.output,
        input_configs,
        output_configs,
        note,
    }
}

/// Whether an entry of the report tells of a host. One that could not be opened has neither
/// defaults nor devices; one whose list could not be read still has its defaults.
pub open spec fn host_told(info: HostInfo, asked: Asked) -> bool {
    &&& info.name@ == lower(asked.name@)
    &&& match asked.listing {
        Listing::Unopened(error) => {
            &&& text_model(info.error) == Some("Host liess sich nicht oeffnen: "@ + error@)
            &&& info.default_input is None
            &&& info.default_output is None
            &&& info.devices@.len() == 0
        },
        Listing::Unlisted(error) => {
            &&& text_model(info.error) == Some("Geraeteliste nicht lesbar: "@ + error@)
            &&& text_model(info.default_input) == text_model(asked.default_input)
            &&& text_model(info.default_output) == text_model(asked.default_output)
            &&& info.devices@.len() == 0
        },
        Listing::Devices(found) => {
            &&& info.error is None
            &&& text_model(info.default_input) == text_model(asked.default_input)
            &&& text_model(info.default_output) == text_model(asked.default_output)
            &&& info.devices@.len() == found@.len()
            &&& forall|i: int|
                0 <= i < found@.len() ==> device_told(#[trigger] info.devices@[i], found@[i])
        },
    }
}

fn device_infos(found: &Vec<Found>) -> (r: Vec<DeviceInfo>)
    ensures
        r@.len() == found@.len(),
        forall|i: int| 0 <= i < found@.len() ==> device_told(#[trigger] r@[i], found@[i]),
{
    let mut r: Vec<DeviceInfo> = Vec::new();
    let mut i: usize = 0;
    while i < found.len()
        invariant
            i <= found.len(),
            r@.len() == i,
            forall|j: int| 0 <= j < i ==> device_told(#[trigger] r@[j], found@[j]),
        decreases found.len() - i,
    {
        r.push(device_info(&found[i]));
        i = i + 1;
    }
    r
}

fn complaint(head: &str, error: &str) -> (r: String)
    ensures
        r@ == head@ + error@,
{
    let mut r = String::new();
    r.append(head);
    r.append(error);
    assert(r@ =~= head@ + error@);
    r
}

fn kept(name: &Option<String>) -> (r: Option<String>)
    ensures
        text_model(r) == text_model(*name),
{
    match name {
        Some(name) => Some(name.as_str().to_owned()),
        None => None,
    }
}

fn host_info(asked: &Asked) -> (r: HostInfo)
    ensures
        host_told(r, *asked),
{
    let name: String = to_lowercase(asked.name.as_str());
    match &asked.listing {
        Listing::Unopened(error) => HostInfo {
            name,
            error: Some(complaint("Host liess sich nicht oeffnen: ", error.as_str())),
            default_input: None,
            default_output: None,
            devices: Vec::new(),
        },
        Listing::Unlisted(error) => HostInfo {
            name,
            error: Some(complaint("Geraeteliste nicht lesbar: ", error.as_str())),
            default_input: kept(&asked.default_input),
            default_output: kept(&asked.default_output),
            devices: Vec::new(),
        },
        Listing::Devices(found) => HostInfo {
            name,
            error: None,
            default_input: kept(&asked.default_input),
            default_output: kept(&asked.default_output),
            devices: device_infos(found),
        },
    }
}

/// The report about all hosts, in the order they were asked. `asio` says whether the ASIO backend is
/// part of the build.
pub fn survey_devices(hosts: &Vec<Asked>, asio: bool) -> (r: DeviceReport)
    ensures
        r.asio_built == asio,
        r.hosts@.len() == hosts@.len(),
        forall|i: int| 0 <= i < hosts@.len() ==> host_told(#[trigger] r.hosts@[i], hosts@[i]),
{
    let mut infos: Vec<HostInfo> = Vec::new();
    let mut i: usize = 0;
    while i < hosts.len()
        invariant
            i <= hosts.len(),
            infos@.len() == i,
            forall|j: int| 0 <= j < i ==> host_told(#[trigger] infos@[j], hosts@[j]),
        decreases hosts.len() - i,
    {
        infos.push(host_info(&hosts[i]));
        i = i + 1;
    }
    DeviceReport { asio_built: asio, hosts: infos }
}

/// What is reported of a device is what it was found to be: its name, its directions and every
/// configuration with its channels, rates and buffer sizes. A direction that could not be asked has
/// none, and only then there is a note.
pub proof fn a_device_is_reported_as_found(info: DeviceInfo, found: Found, i: int)
    requires
        device_told(info, found),
    ensures
        info.name@ == found.name@,
        info.input == found.input,
        info.output == found.output,
        found.input_configs matches Ok(ranges) ==> info.input_configs@.len() == ranges@.len() && (
        0 <= i < ranges@.len() ==> info.input_configs@[i].channels == ranges@[i].channels
            && info.input_configs@[i].min_sample_rate == ranges@[i].min_rate
            && info.input_configs@[i].max_sample_rate == ranges@[i].max_rate),
        found.output_configs matches Ok(ranges) ==> info.output_configs@.len() == ranges@.len() && (
        0 <= i < ranges@.len() ==> info.output_configs@[i].channels == ranges@[i].channels
            && info.output_configs@[i].min_sample_rate == ranges@[i].min_rate
            && info.output_configs@[i].max_sample_rate == ranges@[i].max_rate),
        found.input_configs is Err ==> info.input_configs@.len() == 0,
        found.output_configs is Err ==> info.output_configs@.len() == 0,
        text_model(info.note) is None <==> found.input_configs is Ok && found.output_configs is Ok,
{
    if let Ok(ranges) = found.input_configs {
        if 0 <= i < ranges@.len() {
            assert(config_told(info.input_configs@[i], ranges@[i]));
        }
    }
    if let Ok(ranges) = found.output_configs {
        if 0 <= i < ranges@.len() {
            assert(config_told(info.output_configs@[i], ranges@[i]));
        }
    }
}

/// A host that cannot be asked is reported with an error and without devices, and one that answers
/// with every device and no error.
pub proof fn a_host_is_reported_as_it_answered(info: HostInfo, asked: Asked, i: int)
    requires
        host_told(info, asked),
    ensures
        asked.listing is Devices <==> info.error is None,
        !(asked.listing is Devices) ==> info.devices@.len() == 0,
        asked.listing matches Listing::Devices(found) ==> info.devices@.len() == found@.len() && (0
            <= i < found@.len() ==> info.devices@[i].name@ == found@[i].name@),
        !(asked.listing is Unopened) ==> text_model(info.default_input) == text_model(
            asked.default_input,
        ) && text_model(info.default_output) == text_model(asked.default_output),
{
    if let Listing::Devices(found) = asked.listing {
        if 0 <= i < found@.len() {
            assert(device_told(info.devices@[i], found@[i]));
        }
    }
}

} // verus!
