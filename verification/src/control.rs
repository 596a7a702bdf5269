//! Control messages: building them, labelling them, and reading what the device answers.
use vstd::prelude::*;
use vstd::string::*;

use crate::address::Endpoint;
use crate::clock::now_millis;
use crate::float::{Float32, Float64};
use crate::text::{dec_u64, is_named, quoted};

verus! {

/// A JSON value, carried through unread.
#[verifier::external_type_specification]
#[verifier::external_body]
pub struct ExJsonValue(serde_json::Value);

/// Where one port sends its data, and from where.
#[derive(Clone, Copy, Debug, PartialEq, Eq)]
pub struct XGbeCfg {
    pub dst_mac: [u8; 6],
    pub src_mac: [u8; 6],
    pub dst_ip: [u8; 4],
    pub src_ip: [u8; 4],
    pub dst_port: u16,
    pub src_port: u16,
}

/// State of the device's hardware.
#[derive(Clone, Debug)]
pub enum Health {
    T510Health {
        rfdc_restart_cnt: u32,
        temperature: Float32,
        nports: u32,
        fifo_full_cnt: u32,
        over_voltage_state: u32,
        over_range_state: u32,
        smp_rate: u32,
        fan_pulse_cnt: u32,
        pkt_cnt1: Vec<u64>,
        axi_frame_cnt1: Vec<u64>,
        pkt_cnt2: Vec<u64>,
        axi_frame_cnt2: Vec<u64>,
    },
}

/// What an optical module reports. The readings are passed on as they come.
#[derive(Debug)]
pub struct QsfpReport {
    pub modpresent: serde_json::Value,
    pub lpmode: serde_json::Value,
    pub restl: serde_json::Value,
    pub modsell: serde_json::Value,
    pub temperature: serde_json::Value,
    pub vcc: serde_json::Value,
    pub tx_bias: serde_json::Value,
    pub rx_power: serde_json::Value,
    pub tx_power: serde_json::Value,
    pub los_lol: serde_json::Value,
    pub alarm: serde_json::Value,
    pub cdr_ctrl: [u8; 4],
    pub eq_ctrl: [i8; 4],
    pub adapt_eq: [u8; 4],
}

/// A message of the control protocol.
#[derive(Debug)]
#[allow(inconsistent_fields)]
pub enum CtrlMsg {
    Query { msg_id: u32 },
    QueryReply {
        msg_id: u32,
        fm_ver: u32,
        tick_cnt1: u32,
        tick_cnt2: u32,
        trans_state: u32,
        locked: u32,
        health: Health,
    },
    Sync { msg_id: u32 },
    StreamStart { msg_id: u32 },
    StreamStop { msg_id: u32 },
    Reboot { msg_id: u32 },
    ClrOv { msg_id: u32 },
    MixerSet { msg_id: u32, nports: u32, freq: Vec<Float64>, phase: Vec<Float64>, sync: u32 },
    GetDSA { msg_id: u32, port_id: u32 },
    GetDSAReply { msg_id: u32, dsa_value: Float32 },
    SetDSA { msg_id: u32, port_id: u32, dsa_value: Float32 },
    SetClk { msg_id: u32, clk_src: u32, pps_src: u32 },
    QsfpInfo { msg_id: u32 },
    QsfpInfoReply { msg_id: u32, report: QsfpReport },
    QsfpSet {
        msg_id: u32,
        restl: u8,
        modsell: u8,
        lpmode: u8,
        cdr_ctrl: [u8; 4],
        eq_ctrl: [i8; 4],
        adapt_eq: [u8; 4],
    },
    XGbeCfgQuery { msg_id: u32 },
    XGbeCfgQueryReply { msg_id: u32, cfg: Vec<XGbeCfg> },
    XGbeCfgSingle { msg_id: u32, port_id: u32, cfg: XGbeCfg },
    /// Any message that the console neither builds nor reads.
    Other,
}

/// A message that a device sent back.
#[derive(Debug)]
pub struct Reply {
    /// Who sent it, as printed.
    pub addr: String,
    pub msg: CtrlMsg,
    /// The message as JSON; absent where it has no such form.
    pub json: Option<serde_json::Value>,
}

/// What came back after a command was sent.
#[derive(Debug)]
pub struct CmdReplySummary {
    /// Devices that did not answer, as printed.
    pub no_reply: Vec<String>,
    pub invalid_reply: Vec<Reply>,
    pub normal_reply: Vec<Reply>,
}

/// A reply, ready to be shown.
#[derive(Debug)]
pub struct ReplyView {
    pub addr: String,
    /// The message as JSON; an absent one is shown as `null`.
    pub data: Option<serde_json::Value>,
}

/// The outcome of a command, ready to be shown.
#[derive(Debug)]
pub struct SummaryView {
    pub no_reply: Vec<String>,
    pub invalid: Vec<ReplyView>,
    pub normal: Vec<ReplyView>,
}

impl ReplyView {
    /// This shows `r`.
    pub open spec fn shows(&self, r: Reply) -> bool {
        self.addr == r.addr && self.data == r.json
    }
}

/// `views` shows `replies`, one for one and in order.
pub open spec fn shows_all(views: Seq<ReplyView>, replies: Seq<Reply>) -> bool {
    &&& views.len() == replies.len()
    &&& forall|i: int| 0 <= i < views.len() ==> (#[trigger] views[i]).shows(replies[i])
}

fn reply_views(replies: Vec<Reply>) -> (views: Vec<ReplyView>)
    ensures
        shows_all(views@, replies@),
{
    let mut views: Vec<ReplyView> = Vec::new();
    for r in it: replies
        invariant
            it.seq() == replies@,
            views@.len() == it.index(),
            forall|i: int|
                0 <= i < views@.len() ==> (#[trigger] views@[i]).shows(replies@[i]),
    {
        views.push(ReplyView { addr: r.addr, data: r.json });
    }
    views
}

impl SummaryView {
    /// Shows the outcome of a command: who kept silent, and each reply with its JSON form, in the
    /// order in which they came.
    pub fn from(s: CmdReplySummary) -> (v: SummaryView)
        ensures
            v.no_reply == s.no_reply,
            shows_all(v.invalid@, s.invalid_reply@),
            shows_all(v.normal@, s.normal_reply@),
    {
        SummaryView {
            no_reply: s.no_reply,
            invalid: reply_views(s.invalid_reply),
            normal: reply_views(s.normal_reply),
        }
    }
}

/// What the console needs to know of a message to pick it out of the replies.
#[derive(Clone, Copy, Debug, PartialEq, Eq, Structural)]
pub enum ReplyKind {
    Status,
    Xgbe,
    Dsa,
    Qsfp,
}

/// `m` is a reply of kind `k`.
pub open spec fn of_kind(m: CtrlMsg, k: ReplyKind) -> bool {
    match k {
        ReplyKind::Status => m is QueryReply,
        ReplyKind::Xgbe => m is XGbeCfgQueryReply,
        ReplyKind::Dsa => m is GetDSAReply,
        ReplyKind::Qsfp => m is QsfpInfoReply,
    }
}

/// The first reply of kind `k` is the one at position `i`.
pub open spec fn is_first(replies: Seq<Reply>, k: ReplyKind, i: int) -> bool {
    &&& 0 <= i < replies.len()
    &&& of_kind(replies[i].msg, k)
    &&& forall|j: int| 0 <= j < i ==> !of_kind(#[trigger] replies[j].msg, k)
}

/// There is no reply of kind `k`.
pub open spec fn none_of(replies: Seq<Reply>, k: ReplyKind) -> bool {
    forall|j: int| 0 <= j < replies.len() ==> !of_kind(#[trigger] replies[j].msg, k)
}

fn kind_matches(m: &CtrlMsg, k: ReplyKind) -> (r: bool)
    ensures
        r == of_kind(*m, k),
{
    match (m, k) {
        (CtrlMsg::QueryReply { .. }, ReplyKind::Status) => true,
        (CtrlMsg::XGbeCfgQueryReply { .. }, ReplyKind::Xgbe) => true,
        (CtrlMsg::GetDSAReply { .. }, ReplyKind::Dsa) => true,
        (CtrlMsg::QsfpInfoReply { .. }, ReplyKind::Qsfp) => true,
        _ => false,
    }
}

/// Finds the first reply of kind `k`.
pub fn find_reply(replies: &Vec<Reply>, k: ReplyKind) -> (r: Option<usize>)
    ensures
        match r {
            Some(i) => is_first(replies@, k, i as int),
            None => none_of(replies@, k),
        },
{
    let mut i: usize = 0;
    while i < replies.len()
        invariant
            i <= replies@.len(),
            forall|j: int| 0 <= j < i ==> !of_kind(#[trigger] replies@[j].msg, k),
        decreases replies@.len() - i,
    {
        if kind_matches(&replies[i].msg, k) {
            return Some(i);
        }
        i = i + 1;
    }
    None
}

/// There is at most one first reply of a kind.
pub proof fn law_the_first_reply_is_unique(replies: Seq<Reply>, k: ReplyKind, i: int, j: int)
    requires
        is_first(replies, k, i),
        is_first(replies, k, j),
    ensures
        i == j,
{
    if i < j {
        assert(!of_kind(replies[i].msg, k));
    } else if j < i {
        assert(!of_kind(replies[j].msg, k));
    }
}

/// How a command goes out.
#[derive(Debug)]
pub struct SendPlan {
    pub cmd: CtrlMsg,
    pub target: Endpoint,
    /// Local port to send from; 0 lets the system choose one.
    pub bind_port: u16,
    pub timeout_ms: u64,
    pub debug: u32,
}

/// Plans the sending of one command. Whatever local port is configured, the command goes out from
/// a port that the system chooses, so that a late answer to one command cannot be taken for an
/// answer to the next.
pub fn send(cmd: CtrlMsg, target: Endpoint, _local_port: u16, timeout_ms: u64, debug: u32) -> (p:
    SendPlan)
    ensures
        p == (SendPlan { cmd, target, bind_port: 0, timeout_ms, debug }),
{
    SendPlan { cmd, target, bind_port: 0, timeout_ms, debug }
}

/// The complaint about a text that is no socket address.
pub open spec fn invalid_addr_text(s: Seq<char>, reason: Seq<char>) -> Seq<char> {
    "invalid addr "@ + crate::text::debug_text(s) + ": "@ + reason
}

/// What becomes of the text `s`, given what reading it as a socket address came to.
pub fn parse_target(s: &str, parsed: Result<Endpoint, String>) -> (r: Result<Endpoint, String>)
    ensures
        match parsed {
            Ok(a) => r == Ok::<Endpoint, String>(a),
            Err(e) => r is Err && r->Err_0@ == invalid_addr_text(s@, e@),
        },
{
    match parsed {
        Ok(a) => Ok(a),
        Err(e) => {
            let mut m = "invalid addr ".to_string();
            m.append(quoted(s).as_str());
            m.append(": ");
            m.append(e.as_str());
            Err(m)
        },
    }
}

/// Health of the device, ready to be shown.
#[derive(Clone, Debug)]
pub struct HealthView {
    pub rfdc_restart_cnt: u32,
    pub temperature: Float32,
    pub nports: u32,
    pub fifo_full_cnt: u32,
    pub smp_rate: u32,
    pub fan_pulse_cnt: u32,
    pub over_voltage_state: u32,
    pub over_range_state: u32,
    pub pkt_cnt1: Vec<u64>,
    pub pkt_cnt2: Vec<u64>,
    pub axi_frame_cnt1: Vec<u64>,
    pub axi_frame_cnt2: Vec<u64>,
}

impl HealthView {
    /// This shows `h`.
    pub open spec fn shows(&self, h: Health) -> bool {
        match h {
            Health::T510Health {
                rfdc_restart_cnt,
                temperature,
                nports,
                fifo_full_cnt,
                over_voltage_state,
                over_range_state,
                smp_rate,
                fan_pulse_cnt,
                pkt_cnt1,
                axi_frame_cnt1,
                pkt_cnt2,
                axi_frame_cnt2,
            } => {
                &&& self.rfdc_restart_cnt == rfdc_restart_cnt
                &&& self.temperature == temperature
                &&& self.nports == nports
                &&& self.fifo_full_cnt == fifo_full_cnt
                &&& self.smp_rate == smp_rate
                &&& self.fan_pulse_cnt == fan_pulse_cnt
                &&& self.over_voltage_state == over_voltage_state
                &&& self.over_range_state == over_range_state
                &&& self.pkt_cnt1@ == pkt_cnt1@
                &&& self.pkt_cnt2@ == pkt_cnt2@
                &&& self.axi_frame_cnt1@ == axi_frame_cnt1@
                &&& self.axi_frame_cnt2@ == axi_frame_cnt2@
            },
        }
    }
}

/// State of a device at one moment.
#[derive(Clone, Debug)]
pub struct StatusSnapshot {
    pub addr: String,
    pub fm_year: u32,
    pub fm_month: u32,
    pub fm_day: u32,
    pub fm_hour: u32,
    pub fm_minute: u32,
    pub fm_second: u32,
    pub tick_cnt1: u32,
    pub tick_cnt2: u32,
    pub trans_state: u32,
    pub locked: u32,
    pub sd_lock_ok: bool,
    pub tick_ok: bool,
    pub health: HealthView,
    pub ts: i64,
}

/// Build time of the firmware, from the version word: year, month, day, hour, minute, second.
pub open spec fn fm_fields(v: u32) -> (int, int, int, int, int, int) {
    (
        2000 + (v as int / 0x20000) % 64,
        (v as int / 0x800000) % 16,
        v as int / 0x8000000,
        (v as int / 0x1000) % 32,
        (v as int / 0x40) % 64,
        v as int % 64,
    )
}

/// The version word for a build time.
pub open spec fn fm_word(year: int, month: int, day: int, hour: int, minute: int, second: int) -> int {
    day * 0x8000000 + month * 0x800000 + (year - 2000) * 0x20000 + hour * 0x1000 + minute * 0x40
        + second
}

/// The version word holds the build time and nothing else: the six fields give the word back.
pub proof fn law_version_word_is_its_fields(v: u32)
    ensures
        ({
            let (year, month, day, hour, minute, second) = fm_fields(v);
            fm_word(year, month, day, hour, minute, second) == v
        }),
{
    let n = v as int;
    assert(n / 0x40 / 0x40 == n / 0x1000);
    assert(n / 0x1000 / 32 == n / 0x20000);
    assert(n / 0x20000 / 64 == n / 0x800000);
    assert(n / 0x800000 / 16 == n / 0x8000000);
}

/// Build time of the firmware, from the version word: year, month, day, hour, minute, second.
pub fn unpack_fm_ver(fm_ver: u32) -> (r: (u32, u32, u32, u32, u32, u32))
    ensures
        (r.0 as int, r.1 as int, r.2 as int, r.3 as int, r.4 as int, r.5 as int) == fm_fields(
            fm_ver,
        ),
{
    let day: u32 = (fm_ver >> 27) & 0x1f;
    let month: u32 = (fm_ver >> 23) & 0x0f;
    assert((fm_ver >> 17) & 0x3f == (fm_ver / 0x20000) % 64 && (fm_ver >> 17) & 0x3f < 64)
        by (bit_vector);
    let year: u32 = 2000 + ((fm_ver >> 17) & 0x3f);
    let hour: u32 = (fm_ver >> 12) & 0x1f;
    let minute: u32 = (fm_ver >> 6) & 0x3f;
    let second: u32 = fm_ver & 0x3f;
    proof {
        assert((fm_ver >> 27) & 0x1f == fm_ver / 0x8000000) by (bit_vector);
        assert((fm_ver >> 23) & 0x0f == (fm_ver / 0x800000) % 16) by (bit_vector);
        assert((fm_ver >> 12) & 0x1f == (fm_ver / 0x1000) % 32) by (bit_vector);
        assert((fm_ver >> 6) & 0x3f == (fm_ver / 0x40) % 64) by (bit_vector);
        assert(fm_ver & 0x3f == fm_ver % 64) by (bit_vector);
    }
    (year, month, day, hour, minute, second)
}

/// The clocks of all four converters are locked: the four lowest bits of `locked` are set.
pub open spec fn locks_ok(locked: u32) -> bool {
    locked % 16 == 15
}

/// Ten million ticks lie between the two counts. The counters have 32 bits and roll over.
pub open spec fn ticks_ok(tick_cnt1: u32, tick_cnt2: u32) -> bool {
    (tick_cnt2 - tick_cnt1) % 0x1_0000_0000 == 10_000_000
}

impl StatusSnapshot {
    /// This is what the reply `msg` from `addr` says, taken down at time `ts`.
    pub open spec fn reports(&self, addr: Seq<char>, msg: CtrlMsg, ts: i64) -> bool {
        match msg {
            CtrlMsg::QueryReply {
                msg_id,
                fm_ver,
                tick_cnt1,
                tick_cnt2,
                trans_state,
                locked,
                health,
            } => {
                &&& self.addr@ == addr
                &&& (
                    self.fm_year as int,
                    self.fm_month as int,
                    self.fm_day as int,
                    self.fm_hour as int,
                    self.fm_minute as int,
                    self.fm_second as int,
                ) == fm_fields(fm_ver)
                &&& self.tick_cnt1 == tick_cnt1
                &&& self.tick_cnt2 == tick_cnt2
                &&& self.trans_state == trans_state
                &&& self.locked == locked
                &&& self.sd_lock_ok == locks_ok(locked)
                &&& self.tick_ok == ticks_ok(tick_cnt1, tick_cnt2)
                &&& self.health.shows(health)
                &&& self.ts == ts
            },
            _ => false,
        }
    }
}

fn health_view(health: &Health) -> (v: HealthView)
    ensures
        v.shows(*health),
{
    match health {
        Health::T510Health {
            rfdc_restart_cnt,
            temperature,
            nports,
            fifo_full_cnt,
            over_voltage_state,
            over_range_state,
            smp_rate,
            fan_pulse_cnt,
            pkt_cnt1,
            axi_frame_cnt1,
            pkt_cnt2,
            axi_frame_cnt2,
        } => {
            let v = HealthView {
                rfdc_restart_cnt: *rfdc_restart_cnt,
                temperature: *temperature,
                nports: *nports,
                fifo_full_cnt: *fifo_full_cnt,
                smp_rate: *smp_rate,
                fan_pulse_cnt: *fan_pulse_cnt,
                over_voltage_state: *over_voltage_state,
                over_range_state: *over_range_state,
                pkt_cnt1: pkt_cnt1.clone(),
                pkt_cnt2: pkt_cnt2.clone(),
                axi_frame_cnt1: axi_frame_cnt1.clone(),
                axi_frame_cnt2: axi_frame_cnt2.clone(),
            };
            assert(v.pkt_cnt1@ =~= pkt_cnt1@);
            assert(v.pkt_cnt2@ =~= pkt_cnt2@);
            assert(v.axi_frame_cnt1@ =~= axi_frame_cnt1@);
            assert(v.axi_frame_cnt2@ =~= axi_frame_cnt2@);
            v
        },
    }
}

/// What a reply says of the device's state, taken down at time `ts`; nothing, if the reply is not
/// an answer to a query.
pub fn status_at(addr: &str, msg: &CtrlMsg, ts: i64) -> (r: Option<StatusSnapshot>)
    ensures
        match r {
            Some(s) => s.reports(addr@, *msg, ts),
            None => !(msg is QueryReply),
        },
{
    match msg {
        CtrlMsg::QueryReply {
            msg_id: _,
            fm_ver,
            tick_cnt1,
            tick_cnt2,
            trans_state,
            locked,
            health,
        } => {
            let (fm_year, fm_month, fm_day, fm_hour, fm_minute, fm_second) = unpack_fm_ver(*fm_ver);
            let word: u32 = *locked;
            assert(word & 0x0f == word % 16) by (bit_vector);
            Some(
                StatusSnapshot {
                    addr: addr.to_string(),
                    fm_year,
                    fm_month,
                    fm_day,
                    fm_hour,
                    fm_minute,
                    fm_second,
                    tick_cnt1: *tick_cnt1,
                    tick_cnt2: *tick_cnt2,
                    trans_state: *trans_state,
                    locked: word,
                    sd_lock_ok: word & 0x0f == 0x0f,
                    tick_ok: tick_cnt2.wrapping_sub(*tick_cnt1) == 10_000_000,
                    health: health_view(health),
                    ts,
                },
            )
        },
        _ => None,
    }
}

/// What a reply says of the device's state, stamped with the present time; nothing, if the reply
/// is not an answer to a query.
pub fn parse_status(addr: &str, msg: &CtrlMsg) -> (r: Option<StatusSnapshot>)
    ensures
        match r {
            Some(s) => s.reports(addr@, *msg, s.ts),
            None => !(msg is QueryReply),
        },
{
    status_at(addr, msg, now_millis())
}

/// The state that the first answer to a query among `replies` gives, taken down at time `ts`.
pub fn first_status_at(replies: &Vec<Reply>, ts: i64) -> (r: Option<StatusSnapshot>)
    ensures
        match r {
            Some(s) => exists|i: int|
                #[trigger] is_first(replies@, ReplyKind::Status, i) && s.reports(
                    replies@[i].addr@,
                    replies@[i].msg,
                    ts,
                ),
            None => none_of(replies@, ReplyKind::Status),
        },
{
    match find_reply(replies, ReplyKind::Status) {
        Some(i) => status_at(replies[i].addr.as_str(), &replies[i].msg, ts),
        None => None,
    }
}

/// The state that the first answer to a query among `replies` gives, stamped with the present
/// time.
pub fn first_status(replies: &Vec<Reply>) -> (r: Option<StatusSnapshot>)
    ensures
        match r {
            Some(s) => exists|i: int|
                #[trigger] is_first(replies@, ReplyKind::Status, i) && s.reports(
                    replies@[i].addr@,
                    replies@[i].msg,
                    s.ts,
                ),
            None => none_of(replies@, ReplyKind::Status),
        },
{
    first_status_at(replies, now_millis())
}

/// Asks for the device's state.
pub fn cmd_query() -> (m: CtrlMsg)
    ensures
        m == (CtrlMsg::Query { msg_id: 0 }),
{
    CtrlMsg::Query { msg_id: 0 }
}

/// Aligns the converters.
pub fn cmd_sync() -> (m: CtrlMsg)
    ensures
        m == (CtrlMsg::Sync { msg_id: 0 }),
{
    CtrlMsg::Sync { msg_id: 0 }
}

/// Starts the data streams.
pub fn cmd_stream_start() -> (m: CtrlMsg)
    ensures
        m == (CtrlMsg::StreamStart { msg_id: 0 }),
{
    CtrlMsg::StreamStart { msg_id: 0 }
}

/// Stops the data streams.
pub fn cmd_stream_stop() -> (m: CtrlMsg)
    ensures
        m == (CtrlMsg::StreamStop { msg_id: 0 }),
{
    CtrlMsg::StreamStop { msg_id: 0 }
}

/// Restarts the device.
pub fn cmd_reboot() -> (m: CtrlMsg)
    ensures
        m == (CtrlMsg::Reboot { msg_id: 0 }),
{
    CtrlMsg::Reboot { msg_id: 0 }
}

/// Clears the over-voltage state.
pub fn cmd_clr_ov() -> (m: CtrlMsg)
    ensures
        m == (CtrlMsg::ClrOv { msg_id: 0 }),
{
    CtrlMsg::ClrOv { msg_id: 0 }
}

/// `m` sets the mixers of all eight ports to minus `freq_mhz`, with phase zero.
pub open spec fn is_mixer_set(m: CtrlMsg, freq_mhz: Float64, sync: u32) -> bool {
    &&& m matches CtrlMsg::MixerSet { msg_id, nports, freq, phase, sync: s }
    &&& msg_id == 0
    &&& nports == 8
    &&& freq@ == Seq::new(8, |i: int| freq_mhz.spec_negated())
    &&& phase@ == Seq::new(8, |i: int| Float64::spec_zero())
    &&& s == sync
}

fn eight(x: Float64) -> (v: Vec<Float64>)
    ensures
        v@ == Seq::new(8, |i: int| x),
{
    let mut v: Vec<Float64> = Vec::new();
    let mut i: usize = 0;
    while i < 8
        invariant
            i <= 8,
            v@ == Seq::new(i as nat, |i: int| x),
        decreases 8 - i,
    {
        v.push(x);
        i = i + 1;
    }
    v
}

/// Sets the mixers of all eight ports. The device mixes with the negative of the local
/// oscillator's frequency.
pub fn cmd_mixer(freq_mhz: Float64, sync: u32) -> (m: CtrlMsg)
    ensures
        is_mixer_set(m, freq_mhz, sync),
{
    CtrlMsg::MixerSet {
        msg_id: 0,
        nports: 8,
        freq: eight(freq_mhz.negated()),
        phase: eight(Float64::zero()),
        sync,
    }
}

/// Asks for the gain of one port.
pub fn cmd_get_dsa(port_id: u32) -> (m: CtrlMsg)
    ensures
        m == (CtrlMsg::GetDSA { msg_id: 0, port_id }),
{
    CtrlMsg::GetDSA { msg_id: 0, port_id }
}

/// Sets the gain of one port.
pub fn cmd_set_dsa(port_id: u32, dsa_value: Float32) -> (m: CtrlMsg)
    ensures
        m == (CtrlMsg::SetDSA { msg_id: 0, port_id, dsa_value }),
{
    CtrlMsg::SetDSA { msg_id: 0, port_id, dsa_value }
}

/// Chooses the sources of the reference clock and of the second pulse.
pub fn cmd_set_clk(clk_src: u32, pps_src: u32) -> (m: CtrlMsg)
    ensures
        m == (CtrlMsg::SetClk { msg_id: 0, clk_src, pps_src }),
{
    CtrlMsg::SetClk { msg_id: 0, clk_src, pps_src }
}

/// Asks for the optical module's report.
pub fn cmd_qsfp_info() -> (m: CtrlMsg)
    ensures
        m == (CtrlMsg::QsfpInfo { msg_id: 0 }),
{
    CtrlMsg::QsfpInfo { msg_id: 0 }
}

/// Sets up the optical module. Only the first element of the clock-recovery setting has a meaning
/// (bits 0 to 3 for the receive channels, bits 4 to 7 for the transmit channels); the module stays
/// out of reset, selected and at full power.
pub fn cmd_qsfp_set(cdr_ctrl: u8, eq_ctrl: [i8; 4], adapt_eq: [u8; 4]) -> (m: CtrlMsg)
    ensures
        m matches CtrlMsg::QsfpSet {
            msg_id,
            restl,
            modsell,
            lpmode,
            cdr_ctrl: cdr,
            eq_ctrl: eq,
            adapt_eq: adapt,
        } && msg_id == 0 && restl == 1 && modsell == 0 && lpmode == 0 && cdr@ == seq![
            cdr_ctrl,
            0u8,
            0u8,
            0u8,
        ] && eq == eq_ctrl && adapt == adapt_eq,
{
    CtrlMsg::QsfpSet {
        msg_id: 0,
        restl: 1,
        modsell: 0,
        lpmode: 0,
        cdr_ctrl: [cdr_ctrl, 0, 0, 0],
        eq_ctrl,
        adapt_eq,
    }
}

/// Asks for the network settings of all ports.
pub fn cmd_xgbe_query() -> (m: CtrlMsg)
    ensures
        m == (CtrlMsg::XGbeCfgQuery { msg_id: 0 }),
{
    CtrlMsg::XGbeCfgQuery { msg_id: 0 }
}

/// Sets the network settings of one port.
pub fn cmd_xgbe_cfg_single(port_id: u32, cfg: XGbeCfg) -> (m: CtrlMsg)
    ensures
        m == (CtrlMsg::XGbeCfgSingle { msg_id: 0, port_id, cfg }),
{
    CtrlMsg::XGbeCfgSingle { msg_id: 0, port_id, cfg }
}

/// The label of a command. `freq` is how its mixer frequencies are printed, if it has any.
pub open spec fn label_of(cmd: CtrlMsg, freq: Seq<char>) -> Seq<char> {
    match cmd {
        CtrlMsg::SetClk { clk_src, pps_src, .. } => "SetClk(clk_src="@ + crate::text::decimal(
            clk_src as nat,
        ) + ", pps_src="@ + crate::text::decimal(pps_src as nat) + ")"@,
        CtrlMsg::Sync { .. } => "Sync"@,
        CtrlMsg::XGbeCfgSingle { port_id, .. } => "XGbeCfgSingle(port "@ + crate::text::decimal(
            port_id as nat,
        ) + ")"@,
        CtrlMsg::MixerSet { sync, .. } => "MixerSet(freq="@ + freq + ", sync="@
            + crate::text::decimal(sync as nat) + ")"@,
        CtrlMsg::StreamStart { .. } => "StreamStart"@,
        CtrlMsg::StreamStop { .. } => "StreamStop"@,
        CtrlMsg::Query { .. } => "Query"@,
        CtrlMsg::Reboot { .. } => "Reboot"@,
        CtrlMsg::GetDSA { port_id, .. } => "GetDSA(port "@ + crate::text::decimal(port_id as nat)
            + ")"@,
        CtrlMsg::SetDSA { port_id, .. } => "SetDSA(port "@ + crate::text::decimal(port_id as nat)
            + ")"@,
        CtrlMsg::QsfpInfo { .. } => "QsfpInfo"@,
        CtrlMsg::XGbeCfgQuery { .. } => "XGbeCfgQuery"@,
        _ => "CtrlMsg"@,
    }
}

fn port_label(head: &str, port_id: u32) -> (r: String)
    ensures
        r@ == head@ + crate::text::decimal(port_id as nat) + ")"@,
{
    let mut r = head.to_string();
    r.append(dec_u64(port_id as u64).as_str());
    r.append(")");
    r
}

/// A readable label for a command, for the log. `freq` is how the mixer frequencies of the command
/// are printed; it is used for a mixer command only.
pub fn cmd_label(cmd: &CtrlMsg, freq: &str) -> (r: String)
    ensures
        r@ == label_of(*cmd, freq@),
{
    match cmd {
        CtrlMsg::SetClk { clk_src, pps_src, .. } => {
            let mut r = "SetClk(clk_src=".to_string();
            r.append(dec_u64(*clk_src as u64).as_str());
            r.append(", pps_src=");
            r.append(dec_u64(*pps_src as u64).as_str());
            r.append(")");
            r
        },
        CtrlMsg::Sync { .. } => "Sync".to_string(),
        CtrlMsg::XGbeCfgSingle { port_id, .. } => port_label("XGbeCfgSingle(port ", *port_id),
        CtrlMsg::MixerSet { sync, .. } => {
            let mut r = "MixerSet(freq=".to_string();
            r.append(freq);
            r.append(", sync=");
            r.append(dec_u64(*sync as u64).as_str());
            r.append(")");
            r
        },
        CtrlMsg::StreamStart { .. } => "StreamStart".to_string(),
        CtrlMsg::StreamStop { .. } => "StreamStop".to_string(),
        CtrlMsg::Query { .. } => "Query".to_string(),
        CtrlMsg::Reboot { .. } => "Reboot".to_string(),
        CtrlMsg::GetDSA { port_id, .. } => port_label("GetDSA(port ", *port_id),
        CtrlMsg::SetDSA { port_id, .. } => port_label("SetDSA(port ", *port_id),
        CtrlMsg::QsfpInfo { .. } => "QsfpInfo".to_string(),
        CtrlMsg::XGbeCfgQuery { .. } => "XGbeCfgQuery".to_string(),
        _ => "CtrlMsg".to_string(),
    }
}

/// The complaint about a device that does not tell its network settings.
pub open spec fn no_xgbe_text() -> Seq<char> {
    "XGbeCfgQuery 无回复"@
}

/// The network settings that the first fitting reply gives, one for each port. A port whose
/// destination MAC address is all zero is switched off: the device sends no data for it.
pub fn xgbe_cfg(replies: &Vec<Reply>) -> (r: Result<Vec<XGbeCfg>, String>)
    ensures
        match r {
            Ok(cfg) => exists|i: int| #[trigger]
                is_first(replies@, ReplyKind::Xgbe, i) && cfg@
                    == replies@[i].msg->XGbeCfgQueryReply_cfg@,
            Err(e) => none_of(replies@, ReplyKind::Xgbe) && e@ == no_xgbe_text(),
        },
{
    match find_reply(replies, ReplyKind::Xgbe) {
        Some(i) => {
            match &replies[i].msg {
                CtrlMsg::XGbeCfgQueryReply { cfg, .. } => {
                    let copy = cfg.clone();
                    assert(copy@ =~= cfg@);
                    assert(is_first(replies@, ReplyKind::Xgbe, i as int));
                    Ok(copy)
                },
                _ => Err("XGbeCfgQuery 无回复".to_string()),
            }
        },
        None => Err("XGbeCfgQuery 无回复".to_string()),
    }
}

/// `src` names the external reference.
pub open spec fn names_external(src: Seq<char>) -> bool {
    names_any(src, seq!["ext_clk"@, "ext"@, "external"@])
}

/// `s` names one of `options`.
pub open spec fn names_any(s: Seq<char>, options: Seq<Seq<char>>) -> bool {
    exists|i: int| 0 <= i < options.len() && crate::text::names(s, #[trigger] options[i])
}

/// Sources of the reference clock and of the second pulse for a clock source by name: the external
/// reference, or else the GPS receiver on the board.
pub fn clock_source_cfg(src: &str) -> (r: (u32, u32))
    ensures
        r == if names_external(src@) {
            (2u32, 1u32)
        } else {
            (1u32, 0u32)
        },
{
    let ghost options = seq!["ext_clk"@, "ext"@, "external"@];
    if is_named(src, "ext_clk") {
        assert(crate::text::names(src@, options[0]));
        (2, 1)
    } else if is_named(src, "ext") {
        assert(crate::text::names(src@, options[1]));
        (2, 1)
    } else if is_named(src, "external") {
        assert(crate::text::names(src@, options[2]));
        (2, 1)
    } else {
        assert(options.len() == 3);
        assert(!names_external(src@)) by {
            assert forall|i: int| 0 <= i < 3 implies !crate::text::names(
                src@,
                #[trigger] options[i],
            ) by {
                assert(i == 0 || i == 1 || i == 2);
            }
        }
        (1, 0)
    }
}

/// `cmds` initialises a device whose ports are set up as `cfg`: choose the clock, align the
/// converters, set up every port again as it is, and set the mixers.
pub open spec fn is_init_sequence(
    cmds: Seq<CtrlMsg>,
    cfg: Seq<XGbeCfg>,
    mixer_freq_mhz: Float64,
    clock_source: Seq<char>,
) -> bool {
    &&& cmds.len() == cfg.len() + 3
    &&& cmds[0] == if names_external(clock_source) {
        (CtrlMsg::SetClk { msg_id: 0, clk_src: 2, pps_src: 1 })
    } else {
        (CtrlMsg::SetClk { msg_id: 0, clk_src: 1, pps_src: 0 })
    }
    &&& cmds[1] == (CtrlMsg::Sync { msg_id: 0 })
    &&& forall|i: int|
        0 <= i < cfg.len() ==> #[trigger] cmds[i + 2] == (CtrlMsg::XGbeCfgSingle {
            msg_id: 0,
            port_id: i as u32,
            cfg: cfg[i],
        })
    &&& is_mixer_set(cmds[cfg.len() as int + 2], mixer_freq_mhz, 1)
}

/// The commands that initialise a device, given what asking for its network settings came to. The
/// ports are set up again with the values that the device has, so that no stale setting can
/// overwrite a working one.
pub fn default_init_commands(
    cfg: Result<Vec<XGbeCfg>, String>,
    mixer_freq_mhz: Float64,
    clock_source: &str,
) -> (r: Result<Vec<CtrlMsg>, String>)
    ensures
        match cfg {
            Ok(c) => r is Ok && is_init_sequence(
                r->Ok_0@,
                c@,
                mixer_freq_mhz,
                clock_source@,
            ),
            Err(e) => r == Err::<Vec<CtrlMsg>, String>(e),
        },
{
    let (clk_src, pps_src) = clock_source_cfg(clock_source);
    match cfg {
        Ok(c) => {
            let mut cmds: Vec<CtrlMsg> = Vec::new();
            cmds.push(cmd_set_clk(clk_src, pps_src));
            cmds.push(cmd_sync());
            let mut i: usize = 0;
            while i < c.len()
                invariant
                    i <= c@.len(),
                    cmds@.len() == i + 2,
                    cmds@[0] == (CtrlMsg::SetClk { msg_id: 0, clk_src, pps_src }),
                    cmds@[1] == (CtrlMsg::Sync { msg_id: 0 }),
                    forall|k: int|
                        0 <= k < i ==> #[trigger] cmds@[k + 2] == (CtrlMsg::XGbeCfgSingle {
                            msg_id: 0,
                            port_id: k as u32,
                            cfg: c@[k],
                        }),
                decreases c@.len() - i,
            {
                cmds.push(cmd_xgbe_cfg_single(i as u32, c[i]));
                i = i + 1;
            }
            cmds.push(cmd_mixer(mixer_freq_mhz, 1));
            Ok(cmds)
        },
        Err(e) => Err(e),
    }
}

/// The network settings of a device after it has carried out `cmd`: a settings command replaces
/// those of the port it names.
pub open spec fn settings_after(cfg: Seq<XGbeCfg>, cmd: CtrlMsg) -> Seq<XGbeCfg> {
    match cmd {
        CtrlMsg::XGbeCfgSingle { port_id, cfg: c, .. } => if port_id < cfg.len() {
            cfg.update(port_id as int, c)
        } else {
            cfg
        },
        _ => cfg,
    }
}

/// The network settings of a device after it has carried out the first `n` of `cmds`.
pub open spec fn settings_after_all(cfg: Seq<XGbeCfg>, cmds: Seq<CtrlMsg>, n: int) -> Seq<XGbeCfg>
    decreases n,
{
    if n <= 0 {
        cfg
    } else {
        settings_after(settings_after_all(cfg, cmds, n - 1), cmds[n - 1])
    }
}

/// Initialising a device is safe to repeat: a device that has the settings which the sequence was
/// made from still has them after every step of it.
pub proof fn law_initialising_keeps_the_settings(
    cmds: Seq<CtrlMsg>,
    cfg: Seq<XGbeCfg>,
    mixer_freq_mhz: Float64,
    clock_source: Seq<char>,
    n: int,
)
    requires
        is_init_sequence(cmds, cfg, mixer_freq_mhz, clock_source),
        cfg.len() <= 0x1_0000_0000,
        0 <= n <= cmds.len(),
    ensures
        settings_after_all(cfg, cmds, n) == cfg,
    decreases n,
{
    if n > 0 {
        law_initialising_keeps_the_settings(cmds, cfg, mixer_freq_mhz, clock_source, n - 1);
        let i = n - 3;
        if 0 <= i < cfg.len() {
            assert(cmds[i + 2] == (CtrlMsg::XGbeCfgSingle {
                msg_id: 0,
                port_id: i as u32,
                cfg: cfg[i],
            }));
            assert(cfg.update(i, cfg[i]) =~= cfg);
        }
    }
}

/// A snapshot says what the device's reply says, figure by figure.
pub proof fn law_the_state_is_what_the_device_says(
    s: StatusSnapshot,
    addr: Seq<char>,
    msg: CtrlMsg,
    ts: i64,
)
    requires
        s.reports(addr, msg, ts),
    ensures
        msg is QueryReply,
        s.addr@ == addr,
        s.ts == ts,
        s.tick_cnt1 == msg->tick_cnt1,
        s.tick_cnt2 == msg->tick_cnt2,
        s.trans_state == msg->trans_state,
        s.locked == msg->locked,
        s.health.rfdc_restart_cnt == msg->health->rfdc_restart_cnt,
        s.health.temperature == msg->health->temperature,
        s.health.nports == msg->health->nports,
        s.health.fifo_full_cnt == msg->health->fifo_full_cnt,
        s.health.smp_rate == msg->health->smp_rate,
        s.health.fan_pulse_cnt == msg->health->fan_pulse_cnt,
        s.health.over_voltage_state == msg->health->over_voltage_state,
        s.health.over_range_state == msg->health->over_range_state,
        s.health.pkt_cnt1@ == msg->health->pkt_cnt1@,
        s.health.pkt_cnt2@ == msg->health->pkt_cnt2@,
        s.health.axi_frame_cnt1@ == msg->health->axi_frame_cnt1@,
        s.health.axi_frame_cnt2@ == msg->health->axi_frame_cnt2@,
{
}

/// The converters are reported as locked if and only if each of the four lowest bits of the device's
/// word is set.
pub proof fn law_locked_means_every_converter(
    s: StatusSnapshot,
    addr: Seq<char>,
    msg: CtrlMsg,
    ts: i64,
)
    requires
        s.reports(addr, msg, ts),
    ensures
        s.sd_lock_ok <==> (msg->locked & 1 == 1 && msg->locked & 2 == 2 && msg->locked & 4 == 4
            && msg->locked & 8 == 8),
        s.sd_lock_ok <==> forall|i: u32| i < 4 ==> #[trigger] (msg->locked >> i) & 1 == 1,
{
    let w = msg->locked;
    assert(w % 16 == 15 <==> (w & 1 == 1 && w & 2 == 2 && w & 4 == 4 && w & 8 == 8))
        by (bit_vector);
    assert((w & 1 == 1 <==> (w >> 0u32) & 1 == 1) && (w & 2 == 2 <==> (w >> 1u32) & 1 == 1) && (w
        & 4 == 4 <==> (w >> 2u32) & 1 == 1) && (w & 8 == 8 <==> (w >> 3u32) & 1 == 1))
        by (bit_vector);
    if s.sd_lock_ok {
        assert forall|i: u32| i < 4 implies #[trigger] (w >> i) & 1 == 1 by {
            assert(i == 0 || i == 1 || i == 2 || i == 3);
        }
    } else if forall|i: u32| i < 4 ==> #[trigger] (w >> i) & 1 == 1 {
        assert((w >> 0u32) & 1 == 1);
        assert((w >> 1u32) & 1 == 1);
        assert((w >> 2u32) & 1 == 1);
        assert((w >> 3u32) & 1 == 1);
    }
}

/// One converter out of lock is enough: clearing any of the four lowest bits of a word that is
/// reported as locked gives one that is not. The higher bits do not matter.
pub proof fn law_one_unlocked_converter_shows(
    s: StatusSnapshot,
    addr: Seq<char>,
    msg: CtrlMsg,
    ts: i64,
    s2: StatusSnapshot,
    addr2: Seq<char>,
    msg2: CtrlMsg,
    ts2: i64,
    i: u32,
)
    requires
        s.reports(addr, msg, ts),
        s2.reports(addr2, msg2, ts2),
        s.sd_lock_ok,
        i < 4,
    ensures
        msg2->locked == msg->locked & !(1u32 << i) ==> !s2.sd_lock_ok,
        msg2->locked & 0x0f == msg->locked & 0x0f ==> s2.sd_lock_ok,
{
    law_locked_means_every_converter(s, addr, msg, ts);
    law_locked_means_every_converter(s2, addr2, msg2, ts2);
    let w = msg->locked;
    let v = msg2->locked;
    assert(v == w & !(1u32 << i) && i < 4 ==> !(v & 1 == 1 && v & 2 == 2 && v & 4 == 4 && v & 8
        == 8)) by (bit_vector);
    assert(v & 0x0f == w & 0x0f ==> (v & 1 == w & 1 && v & 2 == w & 2 && v & 4 == w & 4 && v & 8 == w
        & 8)) by (bit_vector);
}

/// The tick check passes if and only if the second count is ten million ahead of the first, the
/// counters having rolled over in between or not.
pub proof fn law_ticks_are_ten_million_apart(
    s: StatusSnapshot,
    addr: Seq<char>,
    msg: CtrlMsg,
    ts: i64,
)
    requires
        s.reports(addr, msg, ts),
    ensures
        msg->tick_cnt1 <= msg->tick_cnt2 ==> (s.tick_ok <==> msg->tick_cnt2 == msg->tick_cnt1
            + 10_000_000),
        msg->tick_cnt1 > msg->tick_cnt2 ==> (s.tick_ok <==> msg->tick_cnt2 + 0x1_0000_0000
            == msg->tick_cnt1 + 10_000_000),
{
}

/// The build time lies in the version word bit by bit: six bits of seconds at the bottom, then six of
/// minutes, five of hours, six of years since 2000, four of months and five of days.
pub proof fn law_the_build_time_is_in_the_version_word(
    s: StatusSnapshot,
    addr: Seq<char>,
    msg: CtrlMsg,
    ts: i64,
)
    requires
        s.reports(addr, msg, ts),
    ensures
        s.fm_second == msg->fm_ver & 0x3f,
        s.fm_minute == (msg->fm_ver >> 6) & 0x3f,
        s.fm_hour == (msg->fm_ver >> 12) & 0x1f,
        s.fm_year == 2000 + ((msg->fm_ver >> 17) & 0x3f),
        s.fm_month == (msg->fm_ver >> 23) & 0x0f,
        s.fm_day == (msg->fm_ver >> 27) & 0x1f,
{
    let v = msg->fm_ver;
    assert(v & 0x3f == v % 64) by (bit_vector);
    assert((v >> 6) & 0x3f == (v / 0x40) % 64) by (bit_vector);
    assert((v >> 12) & 0x1f == (v / 0x1000) % 32) by (bit_vector);
    assert((v >> 17) & 0x3f == (v / 0x20000) % 64) by (bit_vector);
    assert((v >> 23) & 0x0f == (v / 0x800000) % 16) by (bit_vector);
    assert((v >> 27) & 0x1f == v / 0x8000000) by (bit_vector);
}

/// The first reply of a kind is of that kind and comes before every other of it; replies that come in
/// later do not change which one it is.
pub proof fn law_the_first_reply_comes_first(
    replies: Seq<Reply>,
    k: ReplyKind,
    i: int,
    j: int,
    more: Seq<Reply>,
)
    requires
        is_first(replies, k, i),
    ensures
        0 <= i < replies.len(),
        k is Status ==> replies[i].msg is QueryReply,
        k is Xgbe ==> replies[i].msg is XGbeCfgQueryReply,
        k is Dsa ==> replies[i].msg is GetDSAReply,
        k is Qsfp ==> replies[i].msg is QsfpInfoReply,
        0 <= j < replies.len() && j < i ==> {
            &&& k is Status ==> !(replies[j].msg is QueryReply)
            &&& k is Xgbe ==> !(replies[j].msg is XGbeCfgQueryReply)
            &&& k is Dsa ==> !(replies[j].msg is GetDSAReply)
            &&& k is Qsfp ==> !(replies[j].msg is QsfpInfoReply)
        },
        is_first(replies + more, k, i),
{
    if 0 <= j < i {
        assert(!of_kind(replies[j].msg, k));
    }
    assert forall|n: int| 0 <= n < i implies !of_kind(#[trigger] (replies + more)[n].msg, k) by {
        assert(!of_kind(replies[n].msg, k));
    }
}

/// No reply of a kind means that not one of the replies is of it; and exactly where there is no
/// first one, there is none.
pub proof fn law_no_reply_means_none(replies: Seq<Reply>, k: ReplyKind, i: int)
    requires
        none_of(replies, k),
    ensures
        !is_first(replies, k, i),
        0 <= i < replies.len() ==> {
            &&& k is Status ==> !(replies[i].msg is QueryReply)
            &&& k is Xgbe ==> !(replies[i].msg is XGbeCfgQueryReply)
            &&& k is Dsa ==> !(replies[i].msg is GetDSAReply)
            &&& k is Qsfp ==> !(replies[i].msg is QsfpInfoReply)
        },
{
    if 0 <= i < replies.len() {
        assert(!of_kind(replies[i].msg, k));
    }
}

/// Each reply is shown with its own sender and its own message.
pub proof fn law_replies_are_shown_one_for_one(views: Seq<ReplyView>, replies: Seq<Reply>, i: int)
    requires
        shows_all(views, replies),
    ensures
        views.len() == replies.len(),
        0 <= i < replies.len() ==> views[i].addr == replies[i].addr && views[i].data
            == replies[i].json,
{
    if 0 <= i < replies.len() {
        assert(views[i].shows(replies[i]));
    }
}

/// A mixer command sets all eight ports to the frequency with its sign reversed and nothing else
/// changed, at phase zero.
pub proof fn law_mixers_run_at_the_negative_frequency(
    m: CtrlMsg,
    freq_mhz: Float64,
    sync: u32,
    i: int,
)
    requires
        is_mixer_set(m, freq_mhz, sync),
        0 <= i < 8,
    ensures
        m is MixerSet,
        m->MixerSet_msg_id == 0,
        m->MixerSet_nports == 8,
        m->MixerSet_sync == sync,
        m->freq@.len() == 8,
        m->phase@.len() == 8,
        m->phase@[i].bits == 0,
        m->freq@[i].bits == freq_mhz.bits ^ 0x8000_0000_0000_0000u64,
{
    crate::float::law_negating_reverses_the_sign_bit(freq_mhz);
}

/// Carrying out an initialisation brings a device with as many ports to the settings that it was made
/// from, whatever settings it had: every port gets its own.
pub proof fn law_initialising_brings_the_settings(
    cmds: Seq<CtrlMsg>,
    cfg: Seq<XGbeCfg>,
    mixer_freq_mhz: Float64,
    clock_source: Seq<char>,
    had: Seq<XGbeCfg>,
)
    requires
        is_init_sequence(cmds, cfg, mixer_freq_mhz, clock_source),
        cfg.len() <= 0x1_0000_0000,
        had.len() == cfg.len(),
    ensures
        settings_after_all(had, cmds, cmds.len() as int) == cfg,
{
    let n = cfg.len() as int;
    lemma_ports_set_so_far(cmds, cfg, mixer_freq_mhz, clock_source, had, n);
    assert(cmds[n + 2] is MixerSet);
    assert(settings_after_all(had, cmds, n + 3) == settings_after_all(had, cmds, n + 2));
    assert(cfg.take(n) + had.skip(n) =~= cfg);
}

proof fn lemma_ports_set_so_far(
    cmds: Seq<CtrlMsg>,
    cfg: Seq<XGbeCfg>,
    mixer_freq_mhz: Float64,
    clock_source: Seq<char>,
    had: Seq<XGbeCfg>,
    n: int,
)
    requires
        is_init_sequence(cmds, cfg, mixer_freq_mhz, clock_source),
        cfg.len() <= 0x1_0000_0000,
        had.len() == cfg.len(),
        0 <= n <= cfg.len(),
    ensures
        settings_after_all(had, cmds, n + 2) == cfg.take(n) + had.skip(n),
    decreases n,
{
    if n == 0 {
        assert(settings_after_all(had, cmds, 0) == had);
        assert(settings_after_all(had, cmds, 1) == had);
        assert(settings_after_all(had, cmds, 2) == had);
        assert(cfg.take(0) + had.skip(0) =~= had);
    } else {
        lemma_ports_set_so_far(cmds, cfg, mixer_freq_mhz, clock_source, had, n - 1);
        let i = n - 1;
        assert(cmds[i + 2] == (CtrlMsg::XGbeCfgSingle {
            msg_id: 0,
            port_id: i as u32,
            cfg: cfg[i],
        }));
        assert((cfg.take(i) + had.skip(i)).update(i, cfg[i]) =~= cfg.take(n) + had.skip(n));
    }
}

/// An initialisation chooses the clock, then aligns the converters, and sets the mixers last of all, to
/// the frequency asked for.
pub proof fn law_initialising_has_its_order(
    cmds: Seq<CtrlMsg>,
    cfg: Seq<XGbeCfg>,
    mixer_freq_mhz: Float64,
    clock_source: Seq<char>,
    i: int,
)
    requires
        is_init_sequence(cmds, cfg, mixer_freq_mhz, clock_source),
        0 <= i < cmds.len(),
    ensures
        cmds.len() == cfg.len() + 3,
        cmds[i] is SetClk <==> i == 0,
        cmds[i] is Sync <==> i == 1,
        cmds[i] is XGbeCfgSingle <==> 2 <= i < cmds.len() - 1,
        cmds[i] is MixerSet <==> i == cmds.len() - 1,
        cmds.last()->MixerSet_sync == 1,
        cmds.last()->freq@.len() == 8,
        forall|p: int|
            0 <= p < 8 ==> (#[trigger] cmds.last()->freq@[p]).bits == mixer_freq_mhz.bits
                ^ 0x8000_0000_0000_0000u64,
        cmds[0]->clk_src == 2 <==> names_external(clock_source),
        cmds[0]->clk_src == 1 <==> !names_external(clock_source),
        cmds[0]->pps_src == cmds[0]->clk_src - 1,
        cmds[0]->SetClk_msg_id == 0,
        cmds[1]->Sync_msg_id == 0,
        cmds.last()->MixerSet_msg_id == 0,
        cmds.last()->phase@.len() == 8,
        forall|p: int| 0 <= p < 8 ==> (#[trigger] cmds.last()->phase@[p]).bits == 0,
        2 <= i < cmds.len() - 1 ==> {
            &&& cmds[i]->XGbeCfgSingle_msg_id == 0
            &&& cmds[i]->XGbeCfgSingle_cfg == cfg[i - 2]
            &&& cfg.len() <= 0x1_0000_0000 ==> cmds[i]->XGbeCfgSingle_port_id == i - 2
        },
{
    if 2 <= i < cmds.len() - 1 {
        let p = i - 2;
        assert(cmds[p + 2] == (CtrlMsg::XGbeCfgSingle {
            msg_id: 0,
            port_id: p as u32,
            cfg: cfg[p],
        }));
    }
    assert forall|p: int| 0 <= p < 8 implies (#[trigger] cmds.last()->phase@[p]).bits == 0 by {
        law_mixers_run_at_the_negative_frequency(cmds.last(), mixer_freq_mhz, 1, p);
    }
    assert forall|p: int| 0 <= p < 8 implies (#[trigger] cmds.last()->freq@[p]).bits
        == mixer_freq_mhz.bits ^ 0x8000_0000_0000_0000u64 by {
        law_mixers_run_at_the_negative_frequency(cmds.last(), mixer_freq_mhz, 1, p);
    }
}

/// The external reference has three names and no others.
pub proof fn law_the_external_reference_has_three_names(src: Seq<char>)
    ensures
        names_external(src) <==> {
            let name = crate::text::lowered(crate::text::trimmed(src));
            name == "ext_clk"@ || name == "ext"@ || name == "external"@
        },
{
    let options = seq!["ext_clk"@, "ext"@, "external"@];
    if crate::text::names(src, "ext_clk"@) {
        assert(crate::text::names(src, options[0]));
    }
    if crate::text::names(src, "ext"@) {
        assert(crate::text::names(src, options[1]));
    }
    if crate::text::names(src, "external"@) {
        assert(crate::text::names(src, options[2]));
    }
}

/// Labels tell commands of one sort apart: a port by its number, the clock by both of its sources, the
/// mixers by their frequencies and the way they are synchronised.
pub proof fn law_labels_show_what_a_command_is_about(cmd: CtrlMsg, freq: Seq<char>)
    ensures
        cmd is SetClk ==> label_of(cmd, freq) == "SetClk(clk_src="@ + crate::text::decimal(
            cmd->clk_src as nat,
        ) + ", pps_src="@ + crate::text::decimal(cmd->pps_src as nat) + ")"@,
        cmd is XGbeCfgSingle ==> label_of(cmd, freq) == "XGbeCfgSingle(port "@
            + crate::text::decimal(cmd->XGbeCfgSingle_port_id as nat) + ")"@,
        cmd is GetDSA ==> label_of(cmd, freq) == "GetDSA(port "@ + crate::text::decimal(
            cmd->GetDSA_port_id as nat,
        ) + ")"@,
        cmd is SetDSA ==> label_of(cmd, freq) == "SetDSA(port "@ + crate::text::decimal(
            cmd->SetDSA_port_id as nat,
        ) + ")"@,
        cmd is MixerSet ==> label_of(cmd, freq) == "MixerSet(freq="@ + freq + ", sync="@
            + crate::text::decimal(cmd->MixerSet_sync as nat) + ")"@,
        cmd is Sync ==> label_of(cmd, freq) == "Sync"@,
        cmd is StreamStart ==> label_of(cmd, freq) == "StreamStart"@,
        cmd is StreamStop ==> label_of(cmd, freq) == "StreamStop"@,
        cmd is Query ==> label_of(cmd, freq) == "Query"@,
        cmd is Reboot ==> label_of(cmd, freq) == "Reboot"@,
        cmd is QsfpInfo ==> label_of(cmd, freq) == "QsfpInfo"@,
        cmd is XGbeCfgQuery ==> label_of(cmd, freq) == "XGbeCfgQuery"@,
        cmd is ClrOv || cmd is QsfpSet || cmd is QueryReply || cmd is GetDSAReply
            || cmd is QsfpInfoReply || cmd is XGbeCfgQueryReply || cmd is Other ==> label_of(
            cmd,
            freq,
        ) == "CtrlMsg"@,
{
}

/// The complaint about a bad address quotes the address and gives the reason.
pub proof fn law_a_bad_address_is_quoted(s: Seq<char>, reason: Seq<char>)
    ensures
        invalid_addr_text(s, reason) == "invalid addr "@ + crate::text::debug_text(s) + ": "@
            + reason,
{
}

} // verus!
