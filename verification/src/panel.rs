//! Status panel: a once-per-second snapshot of clock, battery and
//! network state for the top bar.
//!
//! The panel computes its state from plain readings: the wall clock
//! comes from a trusted wrapper over an outside time library, while
//! battery and network readings (raw sysfs file contents) are handed in
//! by the caller, since only the surrounding process may touch the
//! filesystem.  Every classification step is verified.

use vstd::prelude::*;

use crate::text::{bytes_eq, dec_bytes, dec_spec, lower_spec, parse_i32, parse_i32_spec, to_lower, trim, trim_spec};

verus! {

/// Network connection state.
#[derive(Clone, Copy, Debug, PartialEq, Eq, Structural)]
pub enum NetworkStatus {
    /// Not connected to any network.
    Disconnected,
    /// Connected via WiFi.
    WiFi,
    /// Connected via Ethernet.
    Ethernet,
    /// Connection status unknown (the scan itself failed).
    Unknown,
}

/// Raw contents of one battery device's sysfs attributes; `None` for a
/// file that could not be read.
pub struct BatteryProbe {
    /// Contents of the `capacity` attribute.
    pub capacity: Option<Vec<u8>>,
    /// Contents of the `status` attribute.
    pub status: Option<Vec<u8>>,
}

/// Snapshot of a battery probe.
pub ghost struct BatteryProbeModel {
    pub capacity: Option<Seq<u8>>,
    pub status: Option<Seq<u8>>,
}

impl View for BatteryProbe {
    type V = BatteryProbeModel;

    open spec fn view(&self) -> BatteryProbeModel {
        BatteryProbeModel {
            capacity: match self.capacity {
                Some(ref v) => Some(v@),
                None => None,
            },
            status: match self.status {
                Some(ref v) => Some(v@),
                None => None,
            },
        }
    }
}

/// One network interface: its name and the contents of its `operstate`
/// attribute.
pub struct NetInterface {
    pub name: Vec<u8>,
    pub operstate: Vec<u8>,
}

/// Snapshot of a network interface reading.
pub ghost struct NetInterfaceModel {
    pub name: Seq<u8>,
    pub operstate: Seq<u8>,
}

impl View for NetInterface {
    type V = NetInterfaceModel;

    open spec fn view(&self) -> NetInterfaceModel {
        NetInterfaceModel { name: self.name@, operstate: self.operstate@ }
    }
}

/// The status panel state.
pub struct StatusPanel {
    /// Cached clock string, UTF-8 bytes.
    pub clock_text: Vec<u8>,
    /// Second of the last recomputation.
    pub last_update_sec: i64,
    /// Battery percentage in `[0, 100]`, or `-1` without a battery.
    pub battery_percent: i32,
    /// Whether the battery is charging or full.
    pub battery_charging: bool,
    /// Network classification.
    pub network_status: NetworkStatus,
    /// Name of the connected interface, empty when not connected.
    pub network_name: Vec<u8>,
}

/// Mathematical snapshot of the panel.
pub ghost struct PanelModel {
    pub clock_text: Seq<u8>,
    pub last_update_sec: i64,
    pub battery_percent: i32,
    pub battery_charging: bool,
    pub network_status: NetworkStatus,
    pub network_name: Seq<u8>,
}

impl View for StatusPanel {
    type V = PanelModel;

    open spec fn view(&self) -> PanelModel {
        PanelModel {
            clock_text: self.clock_text@,
            last_update_sec: self.last_update_sec,
            battery_percent: self.battery_percent,
            battery_charging: self.battery_charging,
            network_status: self.network_status,
            network_name: self.network_name@,
        }
    }
}

// ---------------------------------------------------------------------
// Byte constants
// ---------------------------------------------------------------------

/// `charging`
pub open spec fn charging_bytes() -> Seq<u8> {
    seq![99u8, 104u8, 97u8, 114u8, 103u8, 105u8, 110u8, 103u8]
}

/// `full`
pub open spec fn full_bytes() -> Seq<u8> {
    seq![102u8, 117u8, 108u8, 108u8]
}

/// `up`
pub open spec fn up_bytes() -> Seq<u8> {
    seq![117u8, 112u8]
}

/// `lo`
pub open spec fn lo_bytes() -> Seq<u8> {
    seq![108u8, 111u8]
}

/// `AC`
pub open spec fn ac_bytes() -> Seq<u8> {
    seq![65u8, 67u8]
}

// ---------------------------------------------------------------------
// Battery
// ---------------------------------------------------------------------

/// A parsed capacity clamped into `[0, 100]`.
pub open spec fn clamp_percent(v: int) -> int {
    if v < 0 {
        0
    } else if v > 100 {
        100
    } else {
        v
    }
}

/// Apply one battery probe: a parsed capacity sets the clamped
/// percentage, a readable status sets the charging flag (`charging` or
/// `full`, case-insensitively); unreadable or unparsable attributes
/// leave the previous value; no battery at all shows `-1`.
pub open spec fn apply_battery_spec(m: PanelModel, probe: Option<BatteryProbeModel>) -> PanelModel {
    match probe {
        None => PanelModel { battery_percent: -1i32, ..m },
        Some(p) => {
            let pct: i32 = match p.capacity {
                Some(txt) => match parse_i32_spec(trim_spec(txt)) {
                    Some(v) => clamp_percent(v as int) as i32,
                    None => m.battery_percent,
                },
                None => m.battery_percent,
            };
            let charging = match p.status {
                Some(txt) => {
                    let st = lower_spec(trim_spec(txt));
                    st == charging_bytes() || st == full_bytes()
                },
                None => m.battery_charging,
            };
            PanelModel { battery_percent: pct, battery_charging: charging, ..m }
        },
    }
}

// ---------------------------------------------------------------------
// Network
// ---------------------------------------------------------------------

/// `pre` is a prefix of `s`.
pub open spec fn has_prefix(s: Seq<u8>, pre: Seq<u8>) -> bool {
    pre.len() <= s.len() && s.subrange(0, pre.len() as int) == pre
}

/// A wireless interface name: `wl...` (`wlan...` is covered).
pub open spec fn is_wifi_name(name: Seq<u8>) -> bool {
    has_prefix(name, seq![119u8, 108u8])
}

/// A wired interface name: `en...` (covers `ens...`) or `eth...`.
pub open spec fn is_ethernet_name(name: Seq<u8>) -> bool {
    has_prefix(name, seq![101u8, 110u8]) || has_prefix(name, seq![101u8, 116u8, 104u8])
}

/// The snapshots of scanned interfaces.
pub open spec fn net_models(v: Seq<NetInterface>) -> Seq<NetInterfaceModel> {
    v.map_values(|f: NetInterface| f@)
}

/// Scan interfaces in order: skip loopback, take the first interface
/// whose operational state is `up` and whose name classifies as WiFi
/// or Ethernet; none found means disconnected.
pub open spec fn classify_network_spec(ifaces: Seq<NetInterfaceModel>) -> (
    NetworkStatus,
    Seq<u8>,
)
    decreases ifaces.len(),
{
    if ifaces.len() == 0 {
        (NetworkStatus::Disconnected, Seq::empty())
    } else {
        let f = ifaces[0];
        let rest = classify_network_spec(ifaces.drop_first());
        if f.name == lo_bytes() {
            rest
        } else if trim_spec(f.operstate) == up_bytes() && is_wifi_name(f.name) {
            (NetworkStatus::WiFi, f.name)
        } else if trim_spec(f.operstate) == up_bytes() && is_ethernet_name(f.name) {
            (NetworkStatus::Ethernet, f.name)
        } else {
            rest
        }
    }
}

// ---------------------------------------------------------------------
// Update
// ---------------------------------------------------------------------

/// One refresh from plain readings.  Within the same wall-clock second
/// nothing changes; on a new second the clock text is replaced, the
/// battery probe is applied, and the interface scan is classified — a
/// failed scan (`None`) leaves the network state `Unknown`.
pub open spec fn update_with_spec(
    m: PanelModel,
    now_sec: i64,
    clock: Seq<u8>,
    battery: Option<BatteryProbeModel>,
    network: Option<Seq<NetInterfaceModel>>,
) -> PanelModel {
    if now_sec == m.last_update_sec {
        m
    } else {
        let m1 = PanelModel { last_update_sec: now_sec, clock_text: clock, ..m };
        let m2 = apply_battery_spec(m1, battery);
        match network {
            Some(ifaces) => {
                let (st, name) = classify_network_spec(ifaces);
                PanelModel { network_status: st, network_name: name, ..m2 }
            },
            None => PanelModel {
                network_status: NetworkStatus::Unknown,
                network_name: Seq::empty(),
                ..m2
            },
        }
    }
}

/// The battery display text: `AC` without a battery, otherwise an icon
/// for the charge state, a space, the percentage digits and `%`.
pub open spec fn battery_text_spec(m: PanelModel) -> Seq<u8> {
    if m.battery_percent < 0 {
        ac_bytes()
    } else {
        let icon: Seq<u8> = if m.battery_charging {
            seq![226u8, 154u8, 161u8]
        } else if m.battery_percent > 80 {
            seq![226u8, 150u8, 136u8]
        } else if m.battery_percent > 60 {
            seq![226u8, 150u8, 147u8]
        } else if m.battery_percent > 40 {
            seq![226u8, 150u8, 146u8]
        } else if m.battery_percent > 20 {
            seq![226u8, 150u8, 145u8]
        } else {
            seq![33u8]
        };
        icon + seq![32u8] + dec_spec(m.battery_percent as int) + seq![37u8]
    }
}

/// The network display text: the classification, and the interface
/// name where one is connected.
pub open spec fn network_text_spec(m: PanelModel) -> Seq<u8> {
    match m.network_status {
        NetworkStatus::WiFi => seq![87u8, 105u8, 70u8, 105u8, 58u8, 32u8] + m.network_name,
        NetworkStatus::Ethernet => seq![69u8, 116u8, 104u8, 58u8, 32u8] + m.network_name,
        NetworkStatus::Disconnected => seq![
            68u8,
            105u8,
            115u8,
            99u8,
            111u8,
            110u8,
            110u8,
            101u8,
            99u8,
            116u8,
            101u8,
            100u8,
        ],
        NetworkStatus::Unknown => seq![
            78u8,
            101u8,
            116u8,
            119u8,
            111u8,
            114u8,
            107u8,
            58u8,
            32u8,
            63u8,
        ],
    }
}

// ---------------------------------------------------------------------
// Clock (trusted)
// ---------------------------------------------------------------------

/// Relies on `chrono::Local::now` for the current local time,
/// `DateTime::timestamp` for its Unix second, and `DateTime::format`
/// with `"%a %b %d  %H:%M"` for the display text.  The result depends
/// on the wall clock and the machine's time zone, so nothing can be
/// promised of it.
#[verifier::external_body]
fn clock_now() -> (r: (i64, Vec<u8>)) {
    let now = chrono::Local::now();
    let text = now.format("%a %b %d  %H:%M").to_string();
    (now.timestamp(), text.into_bytes())
}

impl StatusPanel {
    /// A panel before any refresh: no clock text, no battery, network
    /// state unknown.
    pub fn new() -> (r: StatusPanel)
        ensures
            r@ == (PanelModel {
                clock_text: Seq::<u8>::empty(),
                last_update_sec: 0,
                battery_percent: -1i32,
                battery_charging: false,
                network_status: NetworkStatus::Unknown,
                network_name: Seq::<u8>::empty(),
            }),
    {
        let r = StatusPanel {
            clock_text: Vec::new(),
            last_update_sec: 0,
            battery_percent: -1,
            battery_charging: false,
            network_status: NetworkStatus::Unknown,
            network_name: Vec::new(),
        };
        proof {
            assert(r.clock_text@ =~= Seq::<u8>::empty());
            assert(r.network_name@ =~= Seq::<u8>::empty());
        }
        r
    }

    /// Refresh from explicit readings; rate-limited to once per second
    /// by `now_sec`.
    pub fn update_with(
        &mut self,
        now_sec: i64,
        clock: Vec<u8>,
        battery: Option<BatteryProbe>,
        network: Option<Vec<NetInterface>>,
    )
        ensures
            final(self)@ == update_with_spec(
                old(self)@,
                now_sec,
                clock@,
                match battery {
                    Some(ref p) => Some(p@),
                    None => None,
                },
                match network {
                    Some(ref v) => Some(net_models(v@)),
                    None => None,
                },
            ),
    {
        if now_sec == self.last_update_sec {
            return ;
        }
        self.last_update_sec = now_sec;
        self.clock_text = clock;
        match battery {
            None => {
                self.battery_percent = -1;
            },
            Some(probe) => {
                match probe.capacity {
                    Some(txt) => {
                        let trimmed = trim(txt.as_slice());
                        match parse_i32(trimmed.as_slice()) {
                            Some(v) => {
                                self.battery_percent = if v < 0 {
                                    0
                                } else if v > 100 {
                                    100
                                } else {
                                    v
                                };
                            },
                            None => {},
                        }
                    },
                    None => {},
                }
                match probe.status {
                    Some(txt) => {
                        let trimmed = trim(txt.as_slice());
                        let folded = to_lower(trimmed.as_slice());
                        let charging_word: Vec<u8> = vec![99, 104, 97, 114, 103, 105, 110, 103];
                        let full_word: Vec<u8> = vec![102, 117, 108, 108];
                        proof {
                            assert(charging_word@ =~= charging_bytes());
                            assert(full_word@ =~= full_bytes());
                        }
                        self.battery_charging = bytes_eq(
                            folded.as_slice(),
                            charging_word.as_slice(),
                        ) || bytes_eq(folded.as_slice(), full_word.as_slice());
                    },
                    None => {},
                }
            },
        }
        match network {
            Some(ifaces) => {
                let (st, name) = classify_network(&ifaces);
                self.network_status = st;
                self.network_name = name;
            },
            None => {
                self.network_status = NetworkStatus::Unknown;
                self.network_name = Vec::new();
                proof {
                    assert(self.network_name@ =~= Seq::<u8>::empty());
                }
            },
        }
    }

    /// Refresh using the wall clock for the time and the given probe
    /// results for battery and network.  Whatever second and clock text
    /// the clock wrapper reports, the panel ends in exactly the state
    /// `update_with_spec` gives for the second and clock text it then
    /// stores.
    pub fn update(&mut self, battery: Option<BatteryProbe>, network: Option<Vec<NetInterface>>)
        ensures
            ({
                let b = match battery {
                    Some(ref p) => Some(p@),
                    None => None,
                };
                let n = match network {
                    Some(ref v) => Some(net_models(v@)),
                    None => None,
                };
                final(self)@ == update_with_spec(
                    old(self)@,
                    final(self)@.last_update_sec,
                    final(self)@.clock_text,
                    b,
                    n,
                )
            }),
    {
        let ghost b = match battery {
            Some(ref p) => Some(p@),
            None => None,
        };
        let ghost n = match network {
            Some(ref v) => Some(net_models(v@)),
            None => None,
        };
        let (now_sec, clock) = clock_now();
        let ghost c = clock@;
        self.update_with(now_sec, clock, battery, network);
        proof {
            assert(self@ == update_with_spec(old(self)@, now_sec, c, b, n));
            if now_sec == old(self)@.last_update_sec {
                assert(self@ == old(self)@);
            } else {
                assert(self@.last_update_sec == now_sec);
                assert(self@.clock_text == c);
            }
        }
    }

    /// The cached clock text.
    pub fn clock_text(&self) -> (r: &Vec<u8>)
        ensures
            r@ == self@.clock_text,
    {
        &self.clock_text
    }

    /// Battery percentage, `-1` without a battery.
    pub fn battery_percent(&self) -> (r: i32)
        ensures
            r == self@.battery_percent,
    {
        self.battery_percent
    }

    /// Whether the battery is charging or full.
    pub fn is_charging(&self) -> (r: bool)
        ensures
            r == self@.battery_charging,
    {
        self.battery_charging
    }

    /// The battery display text.
    pub fn battery_text(&self) -> (r: Vec<u8>)
        ensures
            r@ == battery_text_spec(self@),
    {
        if self.battery_percent < 0 {
            let v: Vec<u8> = vec![65, 67];
            proof {
                assert(v@ =~= battery_text_spec(self@));
            }
            return v;
        }
        let mut out: Vec<u8> = if self.battery_charging {
            vec![226, 154, 161]
        } else if self.battery_percent > 80 {
            vec![226, 150, 136]
        } else if self.battery_percent > 60 {
            vec![226, 150, 147]
        } else if self.battery_percent > 40 {
            vec![226, 150, 146]
        } else if self.battery_percent > 20 {
            vec![226, 150, 145]
        } else {
            vec![33]
        };
        out.push(32);
        let pct = if self.battery_percent > 100 {
            100
        } else {
            self.battery_percent
        };
        let digits = dec_bytes(pct);
        let ghost base = out@;
        let mut i: usize = 0;
        proof {
            assert(out@ =~= base + digits@.take(0));
        }
        while i < digits.len()
            invariant
                i <= digits@.len(),
                digits@ == dec_spec(pct as int),
                out@ == base + digits@.take(i as int),
            decreases digits@.len() - i,
        {
            out.push(digits[i]);
            proof {
                assert(base + digits@.take(i as int + 1) =~= (base + digits@.take(i as int)).push(
                    digits@[i as int],
                ));
            }
            i += 1;
        }
        out.push(37);
        proof {
            assert(digits@.take(digits@.len() as int) =~= digits@);
            assert(dec_spec(self@.battery_percent as int) == dec_spec(pct as int));
            assert(out@ =~= battery_text_spec(self@));
        }
        out
    }

    /// The network classification.
    pub fn network_status(&self) -> (r: &NetworkStatus)
        ensures
            *r == self@.network_status,
    {
        &self.network_status
    }

    /// The network display text.
    pub fn network_text(&self) -> (r: Vec<u8>)
        ensures
            r@ == network_text_spec(self@),
    {
        match self.network_status {
            NetworkStatus::WiFi => {
                let mut out: Vec<u8> = vec![87, 105, 70, 105, 58, 32];
                append_bytes(&mut out, self.network_name.as_slice());
                proof {
                    assert(out@ =~= network_text_spec(self@));
                }
                out
            },
            NetworkStatus::Ethernet => {
                let mut out: Vec<u8> = vec![69, 116, 104, 58, 32];
                append_bytes(&mut out, self.network_name.as_slice());
                proof {
                    assert(out@ =~= network_text_spec(self@));
                }
                out
            },
            NetworkStatus::Disconnected => {
                let out: Vec<u8> = vec![68, 105, 115, 99, 111, 110, 110, 101, 99, 116, 101, 100];
                proof {
                    assert(out@ =~= network_text_spec(self@));
                }
                out
            },
            NetworkStatus::Unknown => {
                let out: Vec<u8> = vec![78, 101, 116, 119, 111, 114, 107, 58, 32, 63];
                proof {
                    assert(out@ =~= network_text_spec(self@));
                }
                out
            },
        }
    }

    /// A click on the panel band: the first hundred pixels are the
    /// launcher trigger and consume the click.
    pub fn handle_click(&mut self, x: i32, y: i32) -> (consumed: bool)
        ensures
            *final(self) == *old(self),
            consumed == (x < 100),
    {
        let _ = y;
        x < 100
    }
}

/// Classify a scanned interface list.
pub fn classify_network(ifaces: &Vec<NetInterface>) -> (r: (NetworkStatus, Vec<u8>))
    ensures
        ({
            let (st, name) = classify_network_spec(net_models(ifaces@));
            r.0 == st && r.1@ == name
        }),
{
    let ghost ms = net_models(ifaces@);
    let mut i: usize = 0;
    proof {
        assert(ms.skip(0) =~= ms);
    }
    while i < ifaces.len()
        invariant
            i <= ifaces@.len(),
            ms == net_models(ifaces@),
            classify_network_spec(ms) == classify_network_spec(ms.skip(i as int)),
        decreases ifaces@.len() - i,
    {
        proof {
            assert(ms.skip(i as int)[0] == ms[i as int]);
            assert(ms[i as int] == ifaces@[i as int]@);
            assert(ms.skip(i as int).drop_first() =~= ms.skip(i as int + 1));
        }
        let f = &ifaces[i];
        let lo_word: Vec<u8> = vec![108, 111];
        let up_word: Vec<u8> = vec![117, 112];
        proof {
            assert(lo_word@ =~= lo_bytes());
            assert(up_word@ =~= up_bytes());
        }
        if bytes_eq(f.name.as_slice(), lo_word.as_slice()) {
            i += 1;
            continue ;
        }
        let state = trim(f.operstate.as_slice());
        if bytes_eq(state.as_slice(), up_word.as_slice()) {
            if prefix_matches(f.name.as_slice(), 119, 108, 0) {
                proof {
                    assert(is_wifi_name(ms[i as int].name));
                }
                return (NetworkStatus::WiFi, f.name.clone());
            }
            let en = prefix_matches(f.name.as_slice(), 101, 110, 0);
            let eth = prefix_matches(f.name.as_slice(), 101, 116, 104);
            if en || eth {
                proof {
                    assert(is_ethernet_name(ms[i as int].name));
                }
                return (NetworkStatus::Ethernet, f.name.clone());
            }
            proof {
                assert(!is_wifi_name(ms[i as int].name));
                assert(!is_ethernet_name(ms[i as int].name));
            }
        }
        i += 1;
    }
    proof {
        assert(ms.skip(ms.len() as int) =~= Seq::<NetInterfaceModel>::empty());
    }
    let empty: Vec<u8> = Vec::new();
    proof {
        assert(empty@ =~= Seq::<u8>::empty());
    }
    (NetworkStatus::Disconnected, empty)
}

/// Does `s` start with the two- or three-byte prefix?  A zero third
/// byte means a two-byte prefix.
fn prefix_matches(s: &[u8], a: u8, b: u8, c: u8) -> (r: bool)
    ensures
        c == 0 ==> r == has_prefix(s@, seq![a, b]),
        c != 0 ==> r == has_prefix(s@, seq![a, b, c]),
{
    if c == 0 {
        if s.len() >= 2 && s[0] == a && s[1] == b {
            proof {
                assert(s@.subrange(0, 2) =~= seq![a, b]);
            }
            true
        } else {
            proof {
                if s@.len() >= 2 {
                    assert(s@.subrange(0, 2)[0] == s@[0]);
                    assert(s@.subrange(0, 2)[1] == s@[1]);
                }
            }
            false
        }
    } else {
        if s.len() >= 3 && s[0] == a && s[1] == b && s[2] == c {
            proof {
                assert(s@.subrange(0, 3) =~= seq![a, b, c]);
            }
            true
        } else {
            proof {
                if s@.len() >= 3 {
                    assert(s@.subrange(0, 3)[0] == s@[0]);
                    assert(s@.subrange(0, 3)[1] == s@[1]);
                    assert(s@.subrange(0, 3)[2] == s@[2]);
                }
            }
            false
        }
    }
}

/// Appends a byte slice to a vector.
fn append_bytes(out: &mut Vec<u8>, s: &[u8])
    ensures
        final(out)@ == old(out)@ + s@,
{
    let mut i: usize = 0;
    proof {
        assert(out@ =~= old(out)@ + s@.take(0));
    }
    while i < s.len()
        invariant
            i <= s@.len(),
            out@ == old(out)@ + s@.take(i as int),
        decreases s@.len() - i,
    {
        out.push(s[i]);
        proof {
            assert(old(out)@ + s@.take(i as int + 1) =~= (old(out)@ + s@.take(i as int)).push(
                s@[i as int],
            ));
        }
        i += 1;
    }
    proof {
        assert(s@.take(s@.len() as int) =~= s@);
    }
}

} // verus!
