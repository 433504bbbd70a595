//! The list of everything there is to play through, line by line.
use vstd::prelude::*;
use vstd::string::*;
use crate::audio::{
    asio_status,
    buffer_text,
    describe_buffer_size,
    device_line,
    device_text,
    direction_lines,
    format_name,
    list_direction,
    range_models,
    BufferRange,
    ConfigRange,
    Direction,
    SampleFormat,
};
use crate::text::{decimal, join, joined, push_decimal, texts};

verus! {

/// The configuration a device starts with when nothing is asked of it.
#[derive(Debug)]
pub struct DefaultConfig {
    pub channels: u16,
    pub rate: u32,
    pub format: SampleFormat,
    pub buffer: BufferRange,
}

/// One direction of a device.
#[derive(Debug)]
pub struct Side {
    pub ranges: Vec<ConfigRange>,
    pub default: Option<DefaultConfig>,
}

/// What a device says about itself.
#[derive(Debug)]
pub struct About {
    pub manufacturer: Option<String>,
    pub driver: Option<String>,
    pub kind: String,
    pub interface: String,
}

#[derive(Debug)]
pub struct ListedDevice {
    pub name: String,
    pub default_input: bool,
    pub default_output: bool,
    pub about: Option<About>,
    /// None where the driver does not answer.
    pub input: Option<Side>,
    pub output: Option<Side>,
}

/// What a host answers when it is asked for its devices.
#[derive(Debug)]
pub enum Answer {
    /// It could not be opened.
    Unopened(String),
    /// It could be opened, but its list could not be read.
    Unlisted(String),
    Devices(Vec<ListedDevice>),
}

#[derive(Debug)]
pub struct ListedHost {
    pub name: String,
    pub id: String,
    pub answer: Answer,
}

/// A default configuration in words.
pub open spec fn default_text(config: DefaultConfig) -> Seq<char> {
    decimal(config.channels as nat) + " Kanaele, "@ + decimal(config.rate as nat) + " Hz, "@
        + format_name(config.format@) + ", Puffer "@ + buffer_text(config.buffer)
}

fn describe_default(config: &DefaultConfig) -> (r: String)
    ensures
        r@ == default_text(*config),
{
    let mut r = String::new();
    push_decimal(&mut r, config.channels as u64);
    r.append(" Kanaele, ");
    push_decimal(&mut r, config.rate as u64);
    r.append(" Hz, ");
    r.append(config.format.name().as_str());
    r.append(", Puffer ");
    r.append(describe_buffer_size(&config.buffer).as_str());
    assert(r@ =~= default_text(*config));
    r
}

/// The lines about one direction. One that does not answer has none.
pub open spec fn side_lines(dir: Direction, side: Option<Side>) -> Seq<Seq<char>> {
    match side {
        Some(side) => direction_lines(
            dir,
            range_models(side.ranges@),
            match side.default {
                Some(config) => Some(default_text(config)),
                None => None,
            },
        ),
        None => Seq::empty(),
    }
}

fn list_side(dir: Direction, side: &Option<Side>) -> (r: Vec<String>)
    ensures
        texts(r@) == side_lines(dir, *side),
{
    match side {
        Some(side) => match &side.default {
            Some(config) => {
                let text: String = describe_default(config);
                list_direction(dir, &side.ranges, Some(text.as_str()))
            },
            None => list_direction(dir, &side.ranges, None),
        },
        None => {
            let r: Vec<String> = Vec::new();
            assert(texts(r@) =~= Seq::<Seq<char>>::empty());
            r
        },
    }
}

fn labelled(label: &str, text: &str) -> (r: String)
    ensures
        r@ == label@ + text@,
{
    let mut r = String::new();
    r.append(label);
    r.append(text);
    assert(r@ =~= label@ + text@);
    r
}

/// What a device says about itself, in the parts it is told in.
pub open spec fn about_parts(about: About) -> Seq<Seq<char>> {
    let first = match about.manufacturer {
        Some(name) => seq!["Hersteller: "@ + name@],
        None => Seq::empty(),
    };
    let second = match about.driver {
        Some(name) => seq!["Treiber: "@ + name@],
        None => Seq::empty(),
    };
    first + second + seq!["Typ: "@ + about.kind@, "Anschluss: "@ + about.interface@]
}

fn describe_about(about: &About) -> (r: String)
    ensures
        r@ == "    "@ + joined(about_parts(*about), ", "@),
{
    let mut parts: Vec<String> = Vec::new();
    if let Some(name) = &about.manufacturer {
        parts.push(labelled("Hersteller: ", name.as_str()));
    }
    if let Some(name) = &about.driver {
        parts.push(labelled("Treiber: ", name.as_str()));
    }
    parts.push(labelled("Typ: ", about.kind.as_str()));
    parts.push(labelled("Anschluss: ", about.interface.as_str()));
    assert(texts(parts@) =~= about_parts(*about));
    labelled("    ", join(&parts, ", ").as_str())
}

/// The lines about a device, with a blank one before them.
pub open spec fn device_lines(device: ListedDevice) -> Seq<Seq<char>> {
    let head = seq![""@, device_text(device.name@, device.default_input, device.default_output)];
    let about = match device.about {
        Some(about) => seq!["    "@ + joined(about_parts(about), ", "@)],
        None => Seq::empty(),
    };
    head + about + side_lines(Direction::Input, device.input) + side_lines(
        Direction::Output,
        device.output,
    )
}

fn add_lines(lines: &mut Vec<String>, more: Vec<String>)
    ensures
        texts(final(lines)@) == texts(old(lines)@) + texts(more@),
{
    let mut more: Vec<String> = more;
    let ghost before = lines@;
    let ghost added = more@;
    lines.append(&mut more);
    assert(texts(lines@) =~= texts(before) + texts(added));
}

fn add_line(lines: &mut Vec<String>, line: String)
    ensures
        texts(final(lines)@) == texts(old(lines)@).push(line@),
{
    let ghost before = lines@;
    lines.push(line);
    assert(texts(lines@) =~= texts(before).push(line@));
}

fn list_device(device: &ListedDevice) -> (r: Vec<String>)
    ensures
        texts(r@) == device_lines(*device),
{
    let mut r: Vec<String> = Vec::new();
    add_line(&mut r, "".to_owned());
    add_line(
        &mut r,
        device_line(device.name.as_str(), device.default_input, device.default_output),
    );
    assert(texts(r@) =~= seq![
        ""@,
        device_text(device.name@, device.default_input, device.default_output),
    ]);
    if let Some(about) = &device.about {
        add_line(&mut r, describe_about(about));
    }
    add_lines(&mut r, list_side(Direction::Input, &device.input));
    add_lines(&mut r, list_side(Direction::Output, &device.output));
    assert(texts(r@) =~= device_lines(*device));
    r
}

/// The lines about the first `n` devices of a host.
pub open spec fn devices_lines(devices: Seq<ListedDevice>, n: nat) -> Seq<Seq<char>>
    decreases n,
{
    if n == 0 {
        Seq::empty()
    } else {
        devices_lines(devices, (n - 1) as nat) + device_lines(devices[n - 1])
    }
}

/// The lines about a host, with a blank one after them.
pub open spec fn host_lines(host: ListedHost) -> Seq<Seq<char>> {
    let head = seq!["=== Host: "@ + host.name@ + " ("@ + host.id@ + ") ==="@];
    let body = match host.answer {
        Answer::Unopened(error) => seq!["  Host nicht zu oeffnen: "@ + error@],
        Answer::Unlisted(error) => seq!["  Geraeteliste nicht lesbar: "@ + error@],
        Answer::Devices(devices) => if devices@.len() == 0 {
            seq!["  (keine Geraete)"@]
        } else {
            devices_lines(devices@, devices@.len())
        },
    };
    head + body + seq![""@]
}

fn list_host(host: &ListedHost) -> (r: Vec<String>)
    ensures
        texts(r@) == host_lines(*host),
{
    let mut r: Vec<String> = Vec::new();
    let mut head = String::new();
    head.append("=== Host: ");
    head.append(host.name.as_str());
    head.append(" (");
    head.append(host.id.as_str());
    head.append(") ===");
    assert(head@ =~= "=== Host: "@ + host.name@ + " ("@ + host.id@ + ") ==="@);
    add_line(&mut r, head);
    let ghost first = texts(r@);
    match &host.answer {
        Answer::Unopened(error) => {
            add_line(&mut r, labelled("  Host nicht zu oeffnen: ", error.as_str()));
        },
        Answer::Unlisted(error) => {
            add_line(&mut r, labelled("  Geraeteliste nicht lesbar: ", error.as_str()));
        },
        Answer::Devices(devices) => {
            let mut i: usize = 0;
            assert(texts(r@) =~= first + devices_lines(devices@, 0));
            while i < devices.len()
                invariant
                    i <= devices.len(),
                    texts(r@) == first + devices_lines(devices@, i as nat),
                decreases devices.len() - i,
            {
                let ghost before = texts(r@);
                let more: Vec<String> = list_device(&devices[i]);
                add_lines(&mut r, more);
                assert(texts(r@) =~= first + devices_lines(devices@, (i + 1) as nat));
                i = i + 1;
            }
            if devices.len() == 0 {
                add_line(&mut r, "  (keine Geraete)".to_owned());
            }
        },
    }
    add_line(&mut r, "".to_owned());
    assert(texts(r@) =~= host_lines(*host));
    r
}

/// The lines about the first `n` hosts.
pub open spec fn hosts_lines(hosts: Seq<ListedHost>, n: nat) -> Seq<Seq<char>>
    decreases n,
{
    if n == 0 {
        Seq::empty()
    } else {
        hosts_lines(hosts, (n - 1) as nat) + host_lines(hosts[n - 1])
    }
}

/// The whole list.
pub open spec fn list_lines(hosts: Seq<ListedHost>, asio: bool) -> Seq<Seq<char>> {
    seq![crate::audio::asio_text(asio), ""@] + (if hosts.len() == 0 {
        seq!["Kein Audio-Host verfuegbar."@]
    } else {
        hosts_lines(hosts, hosts.len())
    })
}

/// Everything there is to play through: every host, its devices, and what they offer. `asio` says
/// whether the ASIO backend is part of the build.
pub fn list_report(hosts: &Vec<ListedHost>, asio: bool) -> (r: Vec<String>)
    ensures
        texts(r@) == list_lines(hosts@, asio),
{
    let mut r: Vec<String> = Vec::new();
    add_line(&mut r, asio_status(asio).to_owned());
    add_line(&mut r, "".to_owned());
    let ghost first = texts(r@);
    assert(first =~= seq![crate::audio::asio_text(asio), ""@]);
    if hosts.len() == 0 {
        add_line(&mut r, "Kein Audio-Host verfuegbar.".to_owned());
        assert(texts(r@) =~= list_lines(hosts@, asio));
        return r;
    }
    let mut i: usize = 0;
    assert(texts(r@) =~= first + hosts_lines(hosts@, 0));
    while i < hosts.len()
        invariant
            i <= hosts.len(),
            texts(r@) == first + hosts_lines(hosts@, i as nat),
        decreases hosts.len() - i,
    {
        let more: Vec<String> = list_host(&hosts[i]);
        add_lines(&mut r, more);
        assert(texts(r@) =~= first + hosts_lines(hosts@, (i + 1) as nat));
        i = i + 1;
    }
    r
}

/// Every host is listed under its own heading, and every device of a host that answers under its
/// name.
pub proof fn every_host_is_listed(hosts: Seq<ListedHost>, n: nat, i: int)
    requires
        0 <= i < n <= hosts.len(),
    ensures
        hosts_lines(hosts, n).contains(
            "=== Host: "@ + hosts[i].name@ + " ("@ + hosts[i].id@ + ") ==="@,
        ),
    decreases n,
{
    let before = hosts_lines(hosts, (n - 1) as nat);
    let last = host_lines(hosts[n - 1]);
    let all = before + last;
    let heading = "=== Host: "@ + hosts[i].name@ + " ("@ + hosts[i].id@ + ") ==="@;
    if i < n - 1 {
        every_host_is_listed(hosts, (n - 1) as nat, i);
        let k = choose|k: int| 0 <= k < before.len() && before[k] == heading;
        assert(all[k] == heading);
    } else {
        assert(last[0] == heading);
        assert(all[before.len() as int] == heading);
    }
}

/// Every device is listed under its name, with what it is the default for.
pub proof fn every_device_is_listed(devices: Seq<ListedDevice>, n: nat, i: int)
    requires
        0 <= i < n <= devices.len(),
    ensures
        devices_lines(devices, n).contains(
            device_text(
                devices[i].name@,
                devices[i].default_input,
                devices[i].default_output,
            ),
        ),
    decreases n,
{
    let before = devices_lines(devices, (n - 1) as nat);
    let last = device_lines(devices[n - 1]);
    let all = before + last;
    let line = device_text(devices[i].name@, devices[i].default_input, devices[i].default_output);
    if i < n - 1 {
        every_device_is_listed(devices, (n - 1) as nat, i);
        let k = choose|k: int| 0 <= k < before.len() && before[k] == line;
        assert(all[k] == line);
    } else {
        assert(last[1] == line);
        assert(all[before.len() as int + 1] == line);
    }
}

} // verus!
