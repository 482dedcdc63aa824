//! Device discovery: parsing the tabular device listing, probing results for
//! the network addresses of USB-attached devices, correlating the two into a
//! bidirectional alias table, and assembling the final device records.
//!
//! The caller runs the external commands and hands their captured output
//! over; every transformation of that output is made and proved here. The
//! one outside call is the regular-expression search that picks interface
//! addresses out of probe output.

use vstd::prelude::*;

use crate::configuration::Configuration;
use crate::net::{parse_ipv4, spec_parse_ipv4, spec_parse_remote_id, try_parse_remote_id, Ipv4Address};
use crate::process::RunOutput;
use crate::properties::{lookup_property, pair_views, spec_lookup};
use crate::text::{
    lemma_split_nonempty, seq_views, spec_split, spec_starts_with, spec_trim, spec_trim_end,
    split_char, str_starts_with, trim_end_str, trim_str,
};

verus! {

#[derive(Clone, Debug, PartialEq)]
pub enum DeviceListingError {
    UnrecognizedDebugBridgeOutput,
    CannotRunProcess(String),
    BadExitCode(Option<i32>),
    DebugBridgePathMissing,
    DeviceUnresponsive,
}

/// A device as the listing reports it.
#[derive(Clone, Debug, PartialEq)]
pub struct Device {
    pub id: String,
    pub is_remote: bool,
    pub is_offline: bool,
    pub model: Option<String>,
    pub alias: Option<String>,
    pub known_ips: Vec<Ipv4Address>,
}

/// A network-attached device as one listing line reports it.
#[derive(Clone, Debug)]
pub struct IpResult {
    pub id: String,
    pub ip: Ipv4Address,
    pub is_offline: bool,
}

/// A USB-attached device together with the addresses its interface probe
/// discovered.
#[derive(Clone, Debug)]
pub struct UsbResult {
    pub id: String,
    pub addresses: Vec<Ipv4Address>,
}

/// A fully resolved scan of one listing line.
#[derive(Clone, Debug)]
pub enum ScanResult {
    IpResult(IpResult),
    UsbResult(UsbResult),
}

/// What one listing line says before any probe has run: the device is
/// network-attached, or it is USB-attached and its interfaces remain to be
/// probed.
#[derive(Clone, Debug)]
pub enum LineScan {
    Network(IpResult),
    UsbProbeNeeded { id: String },
}

pub ghost enum LineScanSpec {
    Network { id: Seq<char>, ip: Ipv4Address, offline: bool },
    Usb { id: Seq<char> },
}

pub ghost enum ScanSpec {
    Network { id: Seq<char>, ip: Ipv4Address, offline: bool },
    Usb { id: Seq<char>, addresses: Seq<Ipv4Address> },
}

pub ghost struct DeviceSpec {
    pub id: Seq<char>,
    pub is_remote: bool,
    pub is_offline: bool,
    pub model: Option<Seq<char>>,
    pub alias: Option<Seq<char>>,
    pub known_ips: Seq<Ipv4Address>,
}

impl View for LineScan {
    type V = LineScanSpec;

    open spec fn view(&self) -> LineScanSpec {
        match self {
            LineScan::Network(n) => LineScanSpec::Network {
                id: n.id@,
                ip: n.ip,
                offline: n.is_offline,
            },
            LineScan::UsbProbeNeeded { id } => LineScanSpec::Usb { id: id@ },
        }
    }
}

impl View for ScanResult {
    type V = ScanSpec;

    open spec fn view(&self) -> ScanSpec {
        match self {
            ScanResult::IpResult(n) => ScanSpec::Network {
                id: n.id@,
                ip: n.ip,
                offline: n.is_offline,
            },
            ScanResult::UsbResult(u) => ScanSpec::Usb { id: u.id@, addresses: u.addresses@ },
        }
    }
}

impl View for Device {
    type V = DeviceSpec;

    open spec fn view(&self) -> DeviceSpec {
        DeviceSpec {
            id: self.id@,
            is_remote: self.is_remote,
            is_offline: self.is_offline,
            model: match self.model {
                Some(m) => Some(m@),
                None => None,
            },
            alias: match self.alias {
                Some(a) => Some(a@),
                None => None,
            },
            known_ips: self.known_ips@,
        }
    }
}

impl ScanSpec {
    pub open spec fn id(self) -> Seq<char> {
        match self {
            ScanSpec::Network { id, .. } => id,
            ScanSpec::Usb { id, .. } => id,
        }
    }
}

impl ScanResult {
    pub fn id(&self) -> (r: &str)
        ensures
            r@ == self@.id(),
    {
        match self {
            ScanResult::IpResult(n) => n.id.as_str(),
            ScanResult::UsbResult(u) => u.id.as_str(),
        }
    }
}

pub fn devices_command(configuration: &Configuration) -> (r: Result<&String, DeviceListingError>)
    ensures
        match configuration.adb_command {
            Some(cmd) => (r matches Ok(c) && c@ == cmd@),
            None => (r matches Err(e) && e is DebugBridgePathMissing),
        },
{
    match &configuration.adb_command {
        Some(c) => Ok(c),
        None => Err(DeviceListingError::DebugBridgePathMissing),
    }
}

/// The classification of one data line of the device listing: fewer than two
/// tab-separated fields reject the line; an identifier that reads as
/// `address:port` is a network device whose offline flag comes from the
/// second field; any other identifier is a USB device awaiting its probe.
pub open spec fn spec_parse_device_line(line: Seq<char>) -> Result<
    LineScanSpec,
    DeviceListingError,
> {
    let fields = spec_split(line, '\t');
    if fields.len() < 2 {
        Err(DeviceListingError::UnrecognizedDebugBridgeOutput)
    } else {
        let id = fields[0];
        let offline = spec_starts_with(spec_trim(fields[1]), "offline"@);
        match spec_parse_remote_id(id) {
            Some(ip_port) => Ok(LineScanSpec::Network { id, ip: ip_port.0, offline }),
            None => Ok(LineScanSpec::Usb { id }),
        }
    }
}

pub fn parse_device_line(line: &str) -> (r: Result<LineScan, DeviceListingError>)
    ensures
        match r {
            Ok(s) => spec_parse_device_line(line@) == Ok::<LineScanSpec, DeviceListingError>(s@),
            Err(e) => spec_parse_device_line(line@) == Err::<LineScanSpec, DeviceListingError>(e),
        },
{
    let fields = split_char(line, '\t');
    proof {
        assert(forall|k: int| 0 <= k < fields@.len() ==> #[trigger] fields@[k]@ == seq_views(
            fields@,
        )[k]);
    }
    if fields.len() < 2 {
        return Err(DeviceListingError::UnrecognizedDebugBridgeOutput);
    }
    let id = fields[0].clone();
    let trimmed = trim_str(fields[1].as_str());
    let is_offline = str_starts_with(trimmed.as_str(), "offline");
    match try_parse_remote_id(id.as_str()) {
        Some((ip, _port)) => Ok(LineScan::Network(IpResult { id, ip, is_offline })),
        None => Ok(LineScan::UsbProbeNeeded { id }),
    }
}

/// What the first match of a regular expression captures in its first group,
/// a function of the pattern and the searched text alone.
pub uninterp spec fn regex_capture(pattern: Seq<char>, haystack: Seq<char>) -> Option<Seq<char>>;

/// Relies on regex::Regex::new and regex::Regex::captures: the search is
/// deterministic in the pattern and the haystack, and yields the first
/// match's first capture group, if any; a pattern that does not compile
/// yields nothing.
#[verifier::external_body]
fn regex_capture_first(pattern: &str, haystack: &str) -> (r: Option<String>)
    ensures
        match r {
            None => regex_capture(pattern@, haystack@) is None,
            Some(s) => regex_capture(pattern@, haystack@) == Some(s@),
        },
{
    regex::Regex::new(pattern).ok().and_then(
        |re| re.captures(haystack).and_then(|c| c.get(1)).map(|m| m.as_str().to_string()),
    )
}

/// The pattern that picks a dotted-quad address out of an interface line.
pub open spec fn inet_pattern() -> Seq<char> {
    "inet6? addr:\\s*(\\d{1,3}(\\.\\d{1,3}){3})"@
}

/// The address one probe line contributes: what the pattern captures in the
/// trimmed line, provided it reads as a valid address and is not loopback.
pub open spec fn spec_line_address(line: Seq<char>) -> Option<Ipv4Address> {
    match regex_capture(inet_pattern(), spec_trim(line)) {
        None => None,
        Some(cap) => match spec_parse_ipv4(cap) {
            None => None,
            Some(ip) => if ip.spec_is_loopback() {
                None
            } else {
                Some(ip)
            },
        },
    }
}

pub open spec fn spec_collect_addresses(lines: Seq<Seq<char>>) -> Seq<Ipv4Address>
    decreases lines.len(),
{
    if lines.len() == 0 {
        Seq::empty()
    } else {
        let rest = spec_collect_addresses(lines.drop_last());
        match spec_line_address(lines.last()) {
            None => rest,
            Some(ip) => rest.push(ip),
        }
    }
}

/// The addresses an interface probe's output discovers, in line order.
pub open spec fn spec_interface_addresses(stdout: Seq<char>) -> Seq<Ipv4Address> {
    spec_collect_addresses(spec_split(spec_trim(stdout), '\n'))
}

/// Extracts the non-loopback addresses from the captured output of a
/// device's interface probe. Loopback addresses never appear in the result,
/// whatever the probe printed.
pub fn parse_interface_addresses(stdout: &str) -> (r: Vec<Ipv4Address>)
    ensures
        r@ == spec_interface_addresses(stdout@),
        forall|i: int| 0 <= i < r@.len() ==> !(#[trigger] r@[i]).spec_is_loopback(),
{
    let trimmed = trim_str(stdout);
    let lines = split_char(trimmed.as_str(), '\n');
    let ghost line_views = seq_views(lines@);
    let n = lines.len();
    let mut out: Vec<Ipv4Address> = Vec::new();
    let mut i: usize = 0;
    proof {
        assert(line_views.subrange(0, 0) =~~= Seq::<Seq<char>>::empty());
        assert(out@ =~= spec_collect_addresses(line_views.subrange(0, 0)));
    }
    while i < n
        invariant
            i <= n,
            n == lines@.len(),
            line_views == seq_views(lines@),
            out@ == spec_collect_addresses(line_views.subrange(0, i as int)),
            forall|k: int| 0 <= k < out@.len() ==> !(#[trigger] out@[k]).spec_is_loopback(),
        decreases n - i,
    {
        proof {
            assert(line_views.subrange(0, i + 1).drop_last() =~~= line_views.subrange(0, i as int));
            assert(line_views.subrange(0, i + 1).last() == line_views[i as int]);
            assert(line_views[i as int] == lines@[i as int]@);
        }
        let line = trim_str(lines[i].as_str());
        match regex_capture_first("inet6? addr:\\s*(\\d{1,3}(\\.\\d{1,3}){3})", line.as_str()) {
            None => {},
            Some(cap) => {
                match parse_ipv4(cap.as_str()) {
                    None => {},
                    Some(ip) => {
                        if !ip.is_loopback() {
                            out.push(ip);
                        }
                    },
                }
            },
        }
        i = i + 1;
    }
    proof {
        assert(line_views.subrange(0, n as int) =~~= line_views);
    }
    out
}

pub open spec fn scan_views(v: Seq<LineScan>) -> Seq<LineScanSpec> {
    v.map_values(|x: LineScan| x@)
}

pub open spec fn result_views(v: Seq<ScanResult>) -> Seq<ScanSpec> {
    v.map_values(|x: ScanResult| x@)
}

pub open spec fn device_views(v: Seq<Device>) -> Seq<DeviceSpec> {
    v.map_values(|x: Device| x@)
}

pub open spec fn option_view(o: Option<String>) -> Option<Seq<char>> {
    match o {
        Some(s) => Some(s@),
        None => None,
    }
}

pub open spec fn option_seq_views(v: Seq<Option<String>>) -> Seq<Option<Seq<char>>> {
    v.map_values(|o: Option<String>| option_view(o))
}

/// The data lines of the listing output: trailing whitespace dropped, split
/// into lines, the leading header line skipped unconditionally.
pub open spec fn spec_data_lines(stdout: Seq<char>) -> Seq<Seq<char>> {
    spec_split(spec_trim_end(stdout), '\n').skip(1)
}

/// The line scans the data lines produce, in line order; a line that fails
/// to parse is dropped and fails nothing else.
pub open spec fn spec_scan_lines(lines: Seq<Seq<char>>) -> Seq<LineScanSpec>
    decreases lines.len(),
{
    if lines.len() == 0 {
        Seq::empty()
    } else {
        let rest = spec_scan_lines(lines.drop_last());
        match spec_parse_device_line(lines.last()) {
            Ok(s) => rest.push(s),
            Err(_) => rest,
        }
    }
}

pub open spec fn spec_scan_output(stdout: Seq<char>, success: bool, code: Option<i32>) -> Result<
    Seq<LineScanSpec>,
    DeviceListingError,
> {
    if !success {
        Err(DeviceListingError::BadExitCode(code))
    } else {
        Ok(spec_scan_lines(spec_data_lines(stdout)))
    }
}

/// Turns a finished device-listing run into line scans: a failing exit
/// status is surfaced, the header line is skipped, every data line is
/// parsed, and malformed lines are dropped without failing the listing.
pub fn scan_devices_output(run: &RunOutput) -> (r: Result<Vec<LineScan>, DeviceListingError>)
    ensures
        match r {
            Ok(v) => spec_scan_output(run.stdout@, run.success, run.code) == Ok::<
                Seq<LineScanSpec>,
                DeviceListingError,
            >(scan_views(v@)),
            Err(e) => spec_scan_output(run.stdout@, run.success, run.code) == Err::<
                Seq<LineScanSpec>,
                DeviceListingError,
            >(e),
        },
{
    if !run.success {
        return Err(DeviceListingError::BadExitCode(run.code));
    }
    let trimmed = trim_end_str(run.stdout.as_str());
    let lines = split_char(trimmed.as_str(), '\n');
    let ghost line_views = seq_views(lines@);
    proof {
        lemma_split_nonempty(spec_trim_end(run.stdout@), '\n');
    }
    let n = lines.len();
    let mut out: Vec<LineScan> = Vec::new();
    let mut i: usize = 1;
    proof {
        assert(line_views.subrange(1, 1) =~~= Seq::<Seq<char>>::empty());
        assert(scan_views(out@) =~~= spec_scan_lines(line_views.subrange(1, 1)));
    }
    while i < n
        invariant
            1 <= i <= n,
            n >= 1,
            n == lines@.len(),
            line_views == seq_views(lines@),
            scan_views(out@) == spec_scan_lines(line_views.subrange(1, i as int)),
        decreases n - i,
    {
        proof {
            assert(line_views.subrange(1, i + 1).drop_last() =~~= line_views.subrange(1, i as int));
            assert(line_views.subrange(1, i + 1).last() == line_views[i as int]);
            assert(line_views[i as int] == lines@[i as int]@);
        }
        match parse_device_line(lines[i].as_str()) {
            Ok(s) => {
                let ghost old_out = out@;
                out.push(s);
                proof {
                    assert(scan_views(out@) =~~= scan_views(old_out).push(
                        out@[out@.len() - 1]@,
                    ));
                }
            },
            Err(_) => {},
        }
        i = i + 1;
    }
    proof {
        assert(line_views.subrange(1, n as int) =~~= line_views.skip(1));
    }
    Ok(out)
}

/// Resolving line scans with the outcomes of the per-device interface
/// probes: a network scan passes through; a USB scan whose probe produced
/// output gets its discovered addresses; a USB scan whose probe could not be
/// run is dropped, as its line would have been.
pub open spec fn spec_resolve(scans: Seq<LineScanSpec>, probes: Seq<Option<Seq<char>>>) -> Seq<
    ScanSpec,
>
    decreases scans.len(),
{
    if scans.len() == 0 {
        Seq::empty()
    } else {
        let rest = spec_resolve(scans.drop_last(), probes.drop_last());
        match scans.last() {
            LineScanSpec::Network { id, ip, offline } => rest.push(
                ScanSpec::Network { id, ip, offline },
            ),
            LineScanSpec::Usb { id } => match probes.last() {
                Some(text) => rest.push(
                    ScanSpec::Usb { id, addresses: spec_interface_addresses(text) },
                ),
                None => rest,
            },
        }
    }
}

pub fn resolve_scans(scans: &Vec<LineScan>, probes: &Vec<Option<String>>) -> (r: Vec<ScanResult>)
    requires
        scans@.len() == probes@.len(),
    ensures
        result_views(r@) == spec_resolve(scan_views(scans@), option_seq_views(probes@)),
{
    let n = scans.len();
    let ghost sv = scan_views(scans@);
    let ghost pv = option_seq_views(probes@);
    let mut out: Vec<ScanResult> = Vec::new();
    let mut i: usize = 0;
    proof {
        assert(sv.subrange(0, 0) =~~= Seq::<LineScanSpec>::empty());
        assert(pv.subrange(0, 0) =~~= Seq::<Option<Seq<char>>>::empty());
        assert(result_views(out@) =~~= spec_resolve(sv.subrange(0, 0), pv.subrange(0, 0)));
    }
    while i < n
        invariant
            i <= n,
            n == scans@.len(),
            n == probes@.len(),
            sv == scan_views(scans@),
            pv == option_seq_views(probes@),
            result_views(out@) == spec_resolve(sv.subrange(0, i as int), pv.subrange(0, i as int)),
        decreases n - i,
    {
        proof {
            assert(sv.subrange(0, i + 1).drop_last() =~~= sv.subrange(0, i as int));
            assert(pv.subrange(0, i + 1).drop_last() =~~= pv.subrange(0, i as int));
            assert(sv.subrange(0, i + 1).last() == sv[i as int]);
            assert(pv.subrange(0, i + 1).last() == pv[i as int]);
            assert(sv[i as int] == scans@[i as int]@);
            assert(pv[i as int] == option_view(probes@[i as int]));
        }
        match &scans[i] {
            LineScan::Network(nres) => {
                let ghost old_out = out@;
                out.push(
                    ScanResult::IpResult(
                        IpResult {
                            id: nres.id.clone(),
                            ip: nres.ip,
                            is_offline: nres.is_offline,
                        },
                    ),
                );
                proof {
                    assert(result_views(out@) =~~= result_views(old_out).push(
                        out@[out@.len() - 1]@,
                    ));
                }
            },
            LineScan::UsbProbeNeeded { id } => {
                match &probes[i] {
                    Some(text) => {
                        let addresses = parse_interface_addresses(text.as_str());
                        let ghost old_out = out@;
                        out.push(ScanResult::UsbResult(UsbResult { id: id.clone(), addresses }));
                        proof {
                            assert(result_views(out@) =~~= result_views(old_out).push(
                                out@[out@.len() - 1]@,
                            ));
                        }
                    },
                    None => {},
                }
            },
        }
        i = i + 1;
    }
    proof {
        assert(sv.subrange(0, n as int) =~~= sv);
        assert(pv.subrange(0, n as int) =~~= pv);
    }
    out
}

/// The identifier of the last network result carrying the address, as
/// collecting the network results into an address-keyed ordered map would
/// leave it.
pub open spec fn spec_remote_lookup(results: Seq<ScanSpec>, ip: Ipv4Address) -> Option<Seq<char>>
    decreases results.len(),
{
    if results.len() == 0 {
        None
    } else {
        match results.last() {
            ScanSpec::Network { id, ip: rip, .. } => if rip == ip {
                Some(id)
            } else {
                spec_remote_lookup(results.drop_last(), ip)
            },
            ScanSpec::Usb { .. } => spec_remote_lookup(results.drop_last(), ip),
        }
    }
}

fn remote_lookup(results: &Vec<ScanResult>, ip: Ipv4Address) -> (r: Option<String>)
    ensures
        match r {
            None => spec_remote_lookup(result_views(results@), ip) is None,
            Some(v) => spec_remote_lookup(result_views(results@), ip) == Some(v@),
        },
{
    let n = results.len();
    let ghost rv = result_views(results@);
    let mut latest: Option<String> = None;
    let mut i: usize = 0;
    proof {
        assert(rv.subrange(0, 0) =~~= Seq::<ScanSpec>::empty());
    }
    while i < n
        invariant
            i <= n,
            n == results@.len(),
            rv == result_views(results@),
            match latest {
                None => spec_remote_lookup(rv.subrange(0, i as int), ip) is None,
                Some(v) => spec_remote_lookup(rv.subrange(0, i as int), ip) == Some(v@),
            },
        decreases n - i,
    {
        proof {
            assert(rv.subrange(0, i + 1).drop_last() =~~= rv.subrange(0, i as int));
            assert(rv.subrange(0, i + 1).last() == rv[i as int]);
            assert(rv[i as int] == results@[i as int]@);
        }
        match &results[i] {
            ScanResult::IpResult(nres) => {
                if nres.ip == ip {
                    latest = Some(nres.id.clone());
                }
            },
            ScanResult::UsbResult(_) => {},
        }
        i = i + 1;
    }
    proof {
        assert(rv.subrange(0, n as int) =~~= rv);
    }
    latest
}

/// The network counterpart found for a list of discovered addresses: the
/// first address that a network result carries wins; later addresses and
/// later matches change nothing.
pub open spec fn spec_first_remote_match(
    addresses: Seq<Ipv4Address>,
    results: Seq<ScanSpec>,
) -> Option<Seq<char>>
    decreases addresses.len(),
{
    if addresses.len() == 0 {
        None
    } else {
        match spec_remote_lookup(results, addresses.first()) {
            Some(rid) => Some(rid),
            None => spec_first_remote_match(addresses.drop_first(), results),
        }
    }
}

fn first_remote_match(addresses: &Vec<Ipv4Address>, results: &Vec<ScanResult>) -> (r: Option<
    String,
>)
    ensures
        match r {
            None => spec_first_remote_match(addresses@, result_views(results@)) is None,
            Some(v) => spec_first_remote_match(addresses@, result_views(results@)) == Some(v@),
        },
{
    let n = addresses.len();
    let ghost rv = result_views(results@);
    let mut j: usize = 0;
    proof {
        assert(addresses@.skip(0) =~= addresses@);
    }
    while j < n
        invariant
            j <= n,
            n == addresses@.len(),
            rv == result_views(results@),
            spec_first_remote_match(addresses@, rv) == spec_first_remote_match(
                addresses@.skip(j as int),
                rv,
            ),
        decreases n - j,
    {
        proof {
            assert(addresses@.skip(j as int).first() == addresses@[j as int]);
            assert(addresses@.skip(j as int).drop_first() =~= addresses@.skip(j + 1));
        }
        match remote_lookup(results, addresses[j]) {
            Some(rid) => {
                return Some(rid);
            },
            None => {},
        }
        j = j + 1;
    }
    proof {
        assert(addresses@.skip(n as int) =~= Seq::<Ipv4Address>::empty());
    }
    None
}

impl ScanSpec {
    /// The discovered addresses of a USB result; empty for a network result.
    pub open spec fn usb_addresses(self) -> Seq<Ipv4Address> {
        match self {
            ScanSpec::Usb { addresses, .. } => addresses,
            ScanSpec::Network { .. } => Seq::empty(),
        }
    }
}

/// The alias table that the first `k` results contribute, matched against
/// the full result sequence: each USB result whose probe found a currently
/// connected network device inserts the pairing in both directions, in
/// result order.
pub open spec fn spec_alias_pairs_prefix(all: Seq<ScanSpec>, k: int) -> Seq<
    (Seq<char>, Seq<char>),
>
    decreases k,
{
    if k <= 0 {
        Seq::empty()
    } else {
        let rest = spec_alias_pairs_prefix(all, k - 1);
        match all[k - 1] {
            ScanSpec::Usb { id, addresses } => match spec_first_remote_match(addresses, all) {
                Some(rid) => rest.push((id, rid)).push((rid, id)),
                None => rest,
            },
            ScanSpec::Network { .. } => rest,
        }
    }
}

pub open spec fn spec_alias_pairs(all: Seq<ScanSpec>) -> Seq<(Seq<char>, Seq<char>)> {
    spec_alias_pairs_prefix(all, all.len() as int)
}

/// Builds the bidirectional serial/endpoint alias table for one set of
/// resolved results.
pub fn build_alias_pairs(results: &Vec<ScanResult>) -> (r: Vec<(String, String)>)
    ensures
        pair_views(r@) == spec_alias_pairs(result_views(results@)),
{
    let n = results.len();
    let ghost rv = result_views(results@);
    let mut out: Vec<(String, String)> = Vec::new();
    let mut k: usize = 0;
    proof {
        assert(pair_views(out@) =~~= spec_alias_pairs_prefix(rv, 0));
    }
    while k < n
        invariant
            k <= n,
            n == results@.len(),
            rv == result_views(results@),
            pair_views(out@) == spec_alias_pairs_prefix(rv, k as int),
        decreases n - k,
    {
        proof {
            assert(rv[k as int] == results@[k as int]@);
        }
        match &results[k] {
            ScanResult::UsbResult(u) => {
                match first_remote_match(&u.addresses, results) {
                    Some(rid) => {
                        let ghost old_out = out@;
                        out.push((u.id.clone(), rid.clone()));
                        out.push((rid, u.id.clone()));
                        proof {
                            assert(pair_views(out@) =~~= pair_views(old_out).push(
                                (out@[out@.len() - 2].0@, out@[out@.len() - 2].1@),
                            ).push((out@[out@.len() - 1].0@, out@[out@.len() - 1].1@)));
                        }
                    },
                    None => {},
                }
            },
            ScanResult::IpResult(_) => {},
        }
        k = k + 1;
    }
    out
}

/// The device record one resolved result yields, given its model string and
/// the alias table: a network result keeps its offline flag and knows its
/// own address; a USB result is never offline and knows its discovered
/// addresses; each takes as alias what the table holds for its identifier.
pub open spec fn spec_to_device(
    s: ScanSpec,
    model: Option<Seq<char>>,
    aliases: Seq<(Seq<char>, Seq<char>)>,
) -> DeviceSpec {
    match s {
        ScanSpec::Network { id, ip, offline } => DeviceSpec {
            id,
            is_remote: true,
            is_offline: offline,
            model,
            alias: spec_lookup(aliases, id),
            known_ips: seq![ip],
        },
        ScanSpec::Usb { id, addresses } => DeviceSpec {
            id,
            is_remote: false,
            is_offline: false,
            model,
            alias: spec_lookup(aliases, id),
            known_ips: addresses,
        },
    }
}

impl ScanResult {
    pub fn to_device(&self, model: Option<String>, aliases: &Vec<(String, String)>) -> (d: Device)
        ensures
            d@ == spec_to_device(self@, option_view(model), pair_views(aliases@)),
    {
        match self {
            ScanResult::IpResult(n) => {
                let alias = lookup_property(aliases, n.id.as_str());
                let mut known_ips: Vec<Ipv4Address> = Vec::new();
                known_ips.push(n.ip);
                proof {
                    assert(known_ips@ =~= seq![n.ip]);
                }
                Device {
                    id: n.id.clone(),
                    is_remote: true,
                    is_offline: n.is_offline,
                    model,
                    alias,
                    known_ips,
                }
            },
            ScanResult::UsbResult(u) => {
                let alias = lookup_property(aliases, u.id.as_str());
                let mut known_ips: Vec<Ipv4Address> = Vec::new();
                let m = u.addresses.len();
                let mut j: usize = 0;
                while j < m
                    invariant
                        j <= m,
                        m == u.addresses@.len(),
                        known_ips@ == u.addresses@.subrange(0, j as int),
                    decreases m - j,
                {
                    known_ips.push(u.addresses[j]);
                    proof {
                        assert(known_ips@ =~= u.addresses@.subrange(0, j + 1));
                    }
                    j = j + 1;
                }
                proof {
                    assert(known_ips@ =~= u.addresses@);
                }
                Device {
                    id: u.id.clone(),
                    is_remote: false,
                    is_offline: false,
                    model,
                    alias,
                    known_ips,
                }
            },
        }
    }
}

/// The devices one set of resolved results yields under a fixed alias
/// table, zipped with their model strings, in result order.
pub open spec fn spec_assemble_with(
    results: Seq<ScanSpec>,
    models: Seq<Option<Seq<char>>>,
    aliases: Seq<(Seq<char>, Seq<char>)>,
) -> Seq<DeviceSpec>
    decreases results.len(),
{
    if results.len() == 0 {
        Seq::empty()
    } else {
        spec_assemble_with(results.drop_last(), models.drop_last(), aliases).push(
            spec_to_device(results.last(), models.last(), aliases),
        )
    }
}

pub open spec fn spec_assemble(results: Seq<ScanSpec>, models: Seq<Option<Seq<char>>>) -> Seq<
    DeviceSpec,
> {
    spec_assemble_with(results, models, spec_alias_pairs(results))
}

/// Builds the final device list: the alias table of the resolved results,
/// then one device per result, each with its model string and alias.
pub fn assemble_devices(results: &Vec<ScanResult>, models: &Vec<Option<String>>) -> (r: Vec<
    Device,
>)
    requires
        results@.len() == models@.len(),
    ensures
        device_views(r@) == spec_assemble(result_views(results@), option_seq_views(models@)),
{
    let aliases = build_alias_pairs(results);
    let n = results.len();
    let ghost rv = result_views(results@);
    let ghost mv = option_seq_views(models@);
    let mut out: Vec<Device> = Vec::new();
    let mut i: usize = 0;
    proof {
        assert(rv.subrange(0, 0) =~~= Seq::<ScanSpec>::empty());
        assert(mv.subrange(0, 0) =~~= Seq::<Option<Seq<char>>>::empty());
        assert(device_views(out@) =~~= spec_assemble_with(
            rv.subrange(0, 0),
            mv.subrange(0, 0),
            pair_views(aliases@),
        ));
    }
    while i < n
        invariant
            i <= n,
            n == results@.len(),
            n == models@.len(),
            rv == result_views(results@),
            mv == option_seq_views(models@),
            pair_views(aliases@) == spec_alias_pairs(rv),
            device_views(out@) == spec_assemble_with(
                rv.subrange(0, i as int),
                mv.subrange(0, i as int),
                pair_views(aliases@),
            ),
        decreases n - i,
    {
        proof {
            assert(rv.subrange(0, i + 1).drop_last() =~~= rv.subrange(0, i as int));
            assert(mv.subrange(0, i + 1).drop_last() =~~= mv.subrange(0, i as int));
            assert(rv.subrange(0, i + 1).last() == rv[i as int]);
            assert(mv.subrange(0, i + 1).last() == mv[i as int]);
            assert(rv[i as int] == results@[i as int]@);
            assert(mv[i as int] == option_view(models@[i as int]));
        }
        let model = match &models[i] {
            Some(s) => Some(s.clone()),
            None => None,
        };
        let device = results[i].to_device(model, &aliases);
        let ghost old_out = out@;
        out.push(device);
        proof {
            assert(device_views(out@) =~~= device_views(old_out).push(out@[out@.len() - 1]@));
        }
        i = i + 1;
    }
    proof {
        assert(rv.subrange(0, n as int) =~~= rv);
        assert(mv.subrange(0, n as int) =~~= mv);
    }
    out
}

/// The whole enumeration as a function of the captured outputs: the listing
/// run's stdout and exit status, the interface-probe outputs aligned with
/// the line scans, and the model strings aligned with the resolved results.
pub open spec fn spec_enumerate(
    stdout: Seq<char>,
    success: bool,
    code: Option<i32>,
    probes: Seq<Option<Seq<char>>>,
    models: Seq<Option<Seq<char>>>,
) -> Result<Seq<DeviceSpec>, DeviceListingError> {
    match spec_scan_output(stdout, success, code) {
        Err(e) => Err(e),
        Ok(scans) => Ok(spec_assemble(spec_resolve(scans, probes), models)),
    }
}

pub proof fn lemma_scan_lines_count(lines: Seq<Seq<char>>)
    ensures
        spec_scan_lines(lines).len() <= lines.len(),
    decreases lines.len(),
{
    if lines.len() > 0 {
        lemma_scan_lines_count(lines.drop_last());
    }
}

pub proof fn lemma_resolve_count(scans: Seq<LineScanSpec>, probes: Seq<Option<Seq<char>>>)
    ensures
        spec_resolve(scans, probes).len() <= scans.len(),
    decreases scans.len(),
{
    if scans.len() > 0 {
        lemma_resolve_count(scans.drop_last(), probes.drop_last());
    }
}

pub proof fn lemma_assemble_with_count(
    results: Seq<ScanSpec>,
    models: Seq<Option<Seq<char>>>,
    aliases: Seq<(Seq<char>, Seq<char>)>,
)
    ensures
        spec_assemble_with(results, models, aliases).len() == results.len(),
    decreases results.len(),
{
    if results.len() > 0 {
        lemma_assemble_with_count(results.drop_last(), models.drop_last(), aliases);
    }
}

/// A successful listing run with N data lines after the header enumerates
/// at most N devices, whatever the probe and property outcomes were.
pub proof fn lemma_device_count_bounded(
    stdout: Seq<char>,
    code: Option<i32>,
    probes: Seq<Option<Seq<char>>>,
    models: Seq<Option<Seq<char>>>,
)
    ensures
        spec_enumerate(stdout, true, code, probes, models) matches Ok(devices) && devices.len()
            <= spec_data_lines(stdout).len(),
{
    let scans = spec_scan_lines(spec_data_lines(stdout));
    lemma_scan_lines_count(spec_data_lines(stdout));
    lemma_resolve_count(scans, probes);
    lemma_assemble_with_count(
        spec_resolve(scans, probes),
        models,
        spec_alias_pairs(spec_resolve(scans, probes)),
    );
}

/// The header line never affects the outcome: two listing outputs whose
/// data lines agree enumerate identically, whatever stood on their first
/// line.
pub proof fn lemma_header_line_ignored(
    a: Seq<char>,
    b: Seq<char>,
    code: Option<i32>,
    probes: Seq<Option<Seq<char>>>,
    models: Seq<Option<Seq<char>>>,
)
    requires
        spec_data_lines(a) == spec_data_lines(b),
    ensures
        spec_enumerate(a, true, code, probes, models) == spec_enumerate(
            b,
            true,
            code,
            probes,
            models,
        ),
{
}

proof fn lemma_contains_push<A>(s: Seq<A>, x: A, p: A)
    requires
        s.contains(p) || x == p,
    ensures
        s.push(x).contains(p),
{
    if x == p {
        assert(s.push(x)[s.len() as int] == p);
    } else {
        let i = choose|i: int| 0 <= i < s.len() && s[i] == p;
        assert(s.push(x)[i] == p);
    }
}

proof fn lemma_alias_prefix_monotone(all: Seq<ScanSpec>, j1: int, j2: int, p: (Seq<char>, Seq<char>))
    requires
        0 <= j1 <= j2,
        spec_alias_pairs_prefix(all, j1).contains(p),
    ensures
        spec_alias_pairs_prefix(all, j2).contains(p),
    decreases j2 - j1,
{
    if j1 < j2 {
        lemma_alias_prefix_monotone(all, j1, j2 - 1, p);
        let rest = spec_alias_pairs_prefix(all, j2 - 1);
        match all[j2 - 1] {
            ScanSpec::Usb { id, addresses } => {
                match spec_first_remote_match(addresses, all) {
                    Some(rid) => {
                        lemma_contains_push(rest, (id, rid), p);
                        lemma_contains_push(rest.push((id, rid)), (rid, id), p);
                    },
                    None => {},
                }
            },
            ScanSpec::Network { .. } => {},
        }
    }
}

/// The alias relation is inserted symmetrically: whenever a USB result's
/// first matching address finds a network counterpart, the table holds the
/// pairing in both directions.
pub proof fn lemma_alias_both_directions(results: Seq<ScanSpec>, k: int)
    requires
        0 <= k < results.len(),
        results[k] is Usb,
        spec_first_remote_match(results[k].usb_addresses(), results) is Some,
    ensures
        spec_alias_pairs(results).contains(
            (results[k].id(), spec_first_remote_match(results[k].usb_addresses(), results)->0),
        ),
        spec_alias_pairs(results).contains(
            (spec_first_remote_match(results[k].usb_addresses(), results)->0, results[k].id()),
        ),
{
    let uid = results[k].id();
    let rid = spec_first_remote_match(results[k].usb_addresses(), results)->0;
    let rest = spec_alias_pairs_prefix(results, k);
    assert(spec_alias_pairs_prefix(results, k + 1) == rest.push((uid, rid)).push((rid, uid)));
    lemma_contains_push(rest, (uid, rid), (uid, rid));
    lemma_contains_push(rest.push((uid, rid)), (rid, uid), (uid, rid));
    lemma_contains_push(rest.push((uid, rid)), (rid, uid), (rid, uid));
    lemma_alias_prefix_monotone(results, k + 1, results.len() as int, (uid, rid));
    lemma_alias_prefix_monotone(results, k + 1, results.len() as int, (rid, uid));
}

/// Enumeration is a pure function of the captured outputs: two runs over
/// the same listing output, the same probe outputs and the same property
/// outputs yield structurally equal device lists.
pub proof fn lemma_enumeration_idempotent(
    stdout1: Seq<char>,
    stdout2: Seq<char>,
    code1: Option<i32>,
    code2: Option<i32>,
    probes1: Seq<Option<Seq<char>>>,
    probes2: Seq<Option<Seq<char>>>,
    models1: Seq<Option<Seq<char>>>,
    models2: Seq<Option<Seq<char>>>,
)
    requires
        stdout1 == stdout2,
        code1 == code2,
        probes1 == probes2,
        models1 == models2,
    ensures
        spec_enumerate(stdout1, true, code1, probes1, models1) == spec_enumerate(
            stdout2,
            true,
            code2,
            probes2,
            models2,
        ),
{
}

} // verus!
