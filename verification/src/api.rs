//! Requests to the console: what they ask of the device, and how they are answered.
use vstd::prelude::*;
use vstd::string::*;

use crate::address::{ip4_to_str, mac6_to_str, Endpoint};
use crate::capture::CaptureSpec;
use crate::config::Config;
use crate::control::{
    cmd_get_dsa, cmd_set_dsa, cmd_xgbe_cfg_single, find_reply, first_status, parse_target, send,
    xgbe_cfg, CtrlMsg, QsfpReport, Reply, ReplyKind, SendPlan, StatusSnapshot, XGbeCfg,
};
use crate::float::{Float32, Float64};
use crate::settings::{DsaSetting, XgbePortIn};
use crate::text::{hex_u8, quoted};

verus! {

/// Whose fault an error is.
#[derive(Clone, Copy, Debug, PartialEq, Eq, Structural)]
pub enum ApiStatus {
    BadRequest,
    InternalServerError,
}

/// An error, as it is answered.
#[derive(Clone, Debug)]
pub struct ApiError {
    pub status: ApiStatus,
    pub msg: String,
}

impl ApiError {
    /// This says that the request was at fault, with the message `msg`.
    pub open spec fn is_bad(&self, msg: Seq<char>) -> bool {
        self.status is BadRequest && self.msg@ == msg
    }

    /// This says that the console was at fault, with the message `msg`.
    pub open spec fn is_internal(&self, msg: Seq<char>) -> bool {
        self.status is InternalServerError && self.msg@ == msg
    }

    /// The request was at fault.
    pub fn bad(msg: String) -> (e: Self)
        ensures
            e == (ApiError { status: ApiStatus::BadRequest, msg }),
    {
        ApiError { status: ApiStatus::BadRequest, msg }
    }

    /// The console was at fault.
    pub fn internal(msg: String) -> (e: Self)
        ensures
            e == (ApiError { status: ApiStatus::InternalServerError, msg }),
    {
        ApiError { status: ApiStatus::InternalServerError, msg }
    }
}

/// The error for work that came to no end, with the reason for that.
pub fn task_failed(what: &str, reason: &str) -> (e: ApiError)
    ensures
        e.is_internal(what@ + ": "@ + reason@),
{
    let mut msg = what.to_string();
    msg.append(": ");
    msg.append(reason);
    ApiError::internal(msg)
}

pub open spec fn no_device_text() -> Seq<char> {
    "还未选择设备：请先在页面『发现设备』并选中一个"@
}

/// `r` is the selected device's address, given what reading it came to; an error says that there is
/// none, or what is wrong with it.
pub open spec fn is_selected(
    cfg: Config,
    parsed: Result<Endpoint, String>,
    r: Result<Endpoint, ApiError>,
) -> bool {
    match cfg.selected_device {
        None => r is Err && r->Err_0.is_bad(no_device_text()),
        Some(s) => match parsed {
            Ok(a) => r == Ok::<Endpoint, ApiError>(a),
            Err(e) => r is Err && r->Err_0.is_bad(
                crate::control::invalid_addr_text(s@, e@),
            ),
        },
    }
}

/// The address of the selected device. `parsed` is what reading that device's address came to; it
/// does not count where no device is selected.
pub fn selected_addr(cfg: &Config, parsed: Result<Endpoint, String>) -> (r: Result<
    Endpoint,
    ApiError,
>)
    ensures
        is_selected(*cfg, parsed, r),
{
    match &cfg.selected_device {
        Some(s) => match parse_target(s.as_str(), parsed) {
            Ok(a) => Ok(a),
            Err(e) => Err(ApiError::bad(e)),
        },
        None => Err(
            ApiError::bad("还未选择设备：请先在页面『发现设备』并选中一个".to_string()),
        ),
    }
}

/// `r` says how `cmd` goes out to the selected device, or why it does not.
pub open spec fn is_command_plan(
    cfg: Config,
    parsed: Result<Endpoint, String>,
    cmd: CtrlMsg,
    r: Result<SendPlan, ApiError>,
) -> bool {
    exists|target: Result<Endpoint, ApiError>| #[trigger]
        is_selected(cfg, parsed, target) && match target {
            Ok(a) => r == Ok::<SendPlan, ApiError>(
                SendPlan { cmd, target: a, bind_port: 0, timeout_ms: cfg.timeout_ms, debug: 0 },
            ),
            Err(e) => r == Err::<SendPlan, ApiError>(e),
        }
}

/// How a command goes out to the selected device.
pub fn command_plan(cfg: &Config, parsed: Result<Endpoint, String>, cmd: CtrlMsg) -> (r: Result<
    SendPlan,
    ApiError,
>)
    ensures
        is_command_plan(*cfg, parsed, cmd, r),
{
    let target = selected_addr(cfg, parsed);
    match target {
        Ok(a) => {
            let plan = send(cmd, a, cfg.local_ctrl_port, cfg.timeout_ms, 0);
            assert(is_selected(*cfg, parsed, Ok(a)));
            Ok(plan)
        },
        Err(e) => {
            assert(is_selected(*cfg, parsed, Err(e)));
            Err(e)
        },
    }
}

/// `r` says how `cmds` go out to the selected device, or why they do not: each as it would on its
/// own, all to the same address and with the same patience, in order.
pub open spec fn are_command_plans(
    cfg: Config,
    parsed: Result<Endpoint, String>,
    cmds: Seq<CtrlMsg>,
    r: Result<Vec<SendPlan>, ApiError>,
) -> bool {
    exists|target: Result<Endpoint, ApiError>| #[trigger]
        is_selected(cfg, parsed, target) && match target {
            Ok(a) => r is Ok && r->Ok_0@ == cmds.map_values(
                |cmd: CtrlMsg|
                    SendPlan { cmd, target: a, bind_port: 0, timeout_ms: cfg.timeout_ms, debug: 0 },
            ),
            Err(e) => r == Err::<Vec<SendPlan>, ApiError>(e),
        }
}

/// How a list of commands goes out to the selected device.
pub fn command_plans(cfg: &Config, parsed: Result<Endpoint, String>, cmds: Vec<CtrlMsg>) -> (r:
    Result<Vec<SendPlan>, ApiError>)
    ensures
        are_command_plans(*cfg, parsed, cmds@, r),
{
    let target = selected_addr(cfg, parsed);
    match target {
        Ok(a) => {
            let ghost f = |cmd: CtrlMsg|
                SendPlan { cmd, target: a, bind_port: 0, timeout_ms: cfg.timeout_ms, debug: 0 };
            let mut plans: Vec<SendPlan> = Vec::new();
            for cmd in it: cmds
                invariant
                    it.seq() == cmds@,
                    f == (|cmd: CtrlMsg|
                        SendPlan {
                            cmd,
                            target: a,
                            bind_port: 0,
                            timeout_ms: cfg.timeout_ms,
                            debug: 0,
                        }),
                    plans@.len() == it.index(),
                    forall|i: int| 0 <= i < plans@.len() ==> #[trigger] plans@[i] == f(cmds@[i]),
            {
                plans.push(send(cmd, a.clone(), cfg.local_ctrl_port, cfg.timeout_ms, 0));
            }
            assert(plans@ =~= cmds@.map_values(f));
            assert(is_selected(*cfg, parsed, Ok(a)));
            Ok(plans)
        },
        Err(e) => {
            assert(is_selected(*cfg, parsed, Err(e)));
            Err(e)
        },
    }
}

/// What the page is filled in with.
#[derive(Clone, Debug)]
pub struct IndexView {
    pub poll_interval_ms: u64,
    pub default_frames_per_port: usize,
    pub default_fft_size: usize,
    pub default_addr: String,
}

/// What the page is filled in with.
pub fn index_view(cfg: &Config) -> (v: IndexView)
    ensures
        v.poll_interval_ms == cfg.poll_interval_ms,
        v.default_frames_per_port == cfg.capture.frames_per_port,
        v.default_fft_size == cfg.capture.fft_size,
        v.default_addr@ == match cfg.selected_device {
            Some(s) => s@,
            None => Seq::<char>::empty(),
        },
{
    let default_addr = match &cfg.selected_device {
        Some(s) => s.clone(),
        None => String::new(),
    };
    IndexView {
        poll_interval_ms: cfg.poll_interval_ms,
        default_frames_per_port: cfg.capture.frames_per_port,
        default_fft_size: cfg.capture.fft_size,
        default_addr,
    }
}

/// Selects the device at `addr`, unless that is no address.
pub fn select_device(cfg: &mut Config, addr: String, parsed: Result<Endpoint, String>) -> (r:
    Result<(), ApiError>)
    ensures
        match parsed {
            Ok(_) => r is Ok && *final(cfg) == (Config {
                selected_device: Some(addr),
                ..*old(cfg)
            }),
            Err(e) => r is Err && r->Err_0.is_bad(
                crate::control::invalid_addr_text(addr@, e@),
            ) && *final(cfg) == *old(cfg),
        },
{
    match parse_target(addr.as_str(), parsed) {
        Ok(_) => {
            cfg.selected_device = Some(addr);
            Ok(())
        },
        Err(e) => Err(ApiError::bad(e)),
    }
}

/// Notes the frequency that the mixers were set to as that of the local oscillator.
pub fn remember_lo(cfg: &mut Config, freq_mhz: Float64)
    ensures
        *final(cfg) == (Config { lo_mhz: freq_mhz, ..*old(cfg) }),
{
    cfg.lo_mhz = freq_mhz;
}

pub open spec fn no_status_text() -> Seq<char> {
    "设备未回复 Query"@
}

/// The answer to a request for the device's state, given what the device said of it.
pub fn status_answer(snapshot: Option<StatusSnapshot>) -> (r: Result<StatusSnapshot, ApiError>)
    ensures
        match snapshot {
            Some(s) => r == Ok::<StatusSnapshot, ApiError>(s),
            None => r is Err && r->Err_0.is_bad(no_status_text()),
        },
{
    match snapshot {
        Some(s) => Ok(s),
        None => Err(ApiError::bad("设备未回复 Query".to_string())),
    }
}

/// The answer to a request for the device's state, given the replies to the query for it.
pub fn do_status(replies: &Vec<Reply>) -> (r: Result<StatusSnapshot, ApiError>)
    ensures
        match r {
            Ok(s) => exists|i: int|
                #[trigger] crate::control::is_first(replies@, ReplyKind::Status, i) && s.reports(
                    replies@[i].addr@,
                    replies@[i].msg,
                    s.ts,
                ),
            Err(e) => crate::control::none_of(replies@, ReplyKind::Status) && e.is_bad(
                no_status_text(),
            ),
        },
{
    status_answer(first_status(replies))
}

/// Report of the optical module, ready to be shown.
#[derive(Debug)]
pub struct QsfpView {
    pub report: QsfpReport,
    /// The clock-recovery setting in hexadecimal.
    pub cdr_hex: String,
}

pub open spec fn no_qsfp_text() -> Seq<char> {
    "QSFP 无回复"@
}

/// The answer to a request for the optical module's report, given the replies to the query for it.
pub fn get_qsfp(replies: Vec<Reply>) -> (r: Result<QsfpView, ApiError>)
    ensures
        match r {
            Ok(v) => exists|i: int|
                #[trigger] crate::control::is_first(replies@, ReplyKind::Qsfp, i) && v.report
                    == replies@[i].msg->report && v.cdr_hex@ == "0x"@ + crate::text::hex_byte(
                    v.report.cdr_ctrl@[0],
                ),
            Err(e) => crate::control::none_of(replies@, ReplyKind::Qsfp) && e.is_bad(
                no_qsfp_text(),
            ),
        },
{
    match find_reply(&replies, ReplyKind::Qsfp) {
        Some(i) => {
            let ghost all = replies@;
            let mut replies = replies;
            let reply = replies.remove(i);
            assert(crate::control::is_first(all, ReplyKind::Qsfp, i as int));
            match reply.msg {
                CtrlMsg::QsfpInfoReply { report, .. } => {
                    let mut cdr_hex = "0x".to_string();
                    cdr_hex.append(hex_u8(report.cdr_ctrl[0]).as_str());
                    Ok(QsfpView { report, cdr_hex })
                },
                _ => Err(ApiError::bad("QSFP 无回复".to_string())),
            }
        },
        None => Err(ApiError::bad("QSFP 无回复".to_string())),
    }
}

/// Network settings of one port, ready to be shown.
#[derive(Clone, Debug)]
pub struct XgbePortView {
    pub port: usize,
    pub dst_mac: String,
    pub src_mac: String,
    pub dst_ip: String,
    pub src_ip: String,
    pub dst_port: u16,
    pub src_port: u16,
}

/// Network settings of all ports, ready to be shown.
#[derive(Clone, Debug)]
pub struct XgbeConfigView {
    pub nports: usize,
    pub ports: Vec<XgbePortView>,
}

impl XgbePortView {
    /// This shows the settings `c` of port `port`.
    pub open spec fn shows(&self, port: int, c: XGbeCfg) -> bool {
        &&& self.port == port
        &&& self.dst_mac@ == crate::address::mac_text(c.dst_mac@)
        &&& self.src_mac@ == crate::address::mac_text(c.src_mac@)
        &&& self.dst_ip@ == crate::address::ip_text(c.dst_ip@)
        &&& self.src_ip@ == crate::address::ip_text(c.src_ip@)
        &&& self.dst_port == c.dst_port
        &&& self.src_port == c.src_port
    }
}

impl XgbeConfigView {
    /// This shows the settings `cfg`, port by port.
    pub open spec fn shows(&self, cfg: Seq<XGbeCfg>) -> bool {
        &&& self.nports == cfg.len()
        &&& self.ports@.len() == cfg.len()
        &&& forall|i: int|
            0 <= i < cfg.len() ==> (#[trigger] self.ports@[i]).shows(i, cfg[i])
    }
}

/// Network settings, ready to be shown.
pub fn xgbe_view(cfg: &Vec<XGbeCfg>) -> (v: XgbeConfigView)
    ensures
        v.shows(cfg@),
{
    let mut ports: Vec<XgbePortView> = Vec::new();
    let mut i: usize = 0;
    while i < cfg.len()
        invariant
            i <= cfg@.len(),
            ports@.len() == i,
            forall|k: int| 0 <= k < i ==> (#[trigger] ports@[k]).shows(k, cfg@[k]),
        decreases cfg@.len() - i,
    {
        let c = &cfg[i];
        ports.push(
            XgbePortView {
                port: i,
                dst_mac: mac6_to_str(&c.dst_mac),
                src_mac: mac6_to_str(&c.src_mac),
                dst_ip: ip4_to_str(&c.dst_ip),
                src_ip: ip4_to_str(&c.src_ip),
                dst_port: c.dst_port,
                src_port: c.src_port,
            },
        );
        i = i + 1;
    }
    XgbeConfigView { nports: ports.len(), ports }
}

/// The answer to a request for the network settings, given the replies to the query for them.
pub fn get_xgbe_config(replies: &Vec<Reply>) -> (r: Result<XgbeConfigView, ApiError>)
    ensures
        match r {
            Ok(v) => exists|i: int|
                #[trigger] crate::control::is_first(replies@, ReplyKind::Xgbe, i) && v.shows(
                    replies@[i].msg->XGbeCfgQueryReply_cfg@,
                ),
            Err(e) => crate::control::none_of(replies@, ReplyKind::Xgbe) && e.is_bad(
                crate::control::no_xgbe_text(),
            ),
        },
{
    match xgbe_cfg(replies) {
        Ok(cfg) => Ok(xgbe_view(&cfg)),
        Err(e) => Err(ApiError::bad(e)),
    }
}

/// The commands that make the network settings in `ports`, in that order.
pub fn set_xgbe_commands(ports: &[XgbePortIn]) -> (cmds: Vec<CtrlMsg>)
    ensures
        cmds@ == ports@.map_values(
            |p: XgbePortIn|
                CtrlMsg::XGbeCfgSingle { msg_id: 0, port_id: p.port, cfg: p.spec_cfg() },
        ),
{
    let mut cmds: Vec<CtrlMsg> = Vec::new();
    let ghost f = |p: XgbePortIn|
        CtrlMsg::XGbeCfgSingle { msg_id: 0, port_id: p.port, cfg: p.spec_cfg() };
    let mut i: usize = 0;
    while i < ports.len()
        invariant
            i <= ports@.len(),
            f == (|p: XgbePortIn|
                CtrlMsg::XGbeCfgSingle { msg_id: 0, port_id: p.port, cfg: p.spec_cfg() }),
            cmds@.len() == i,
            forall|k: int| 0 <= k < i ==> #[trigger] cmds@[k] == f(ports@[k]),
        decreases ports@.len() - i,
    {
        let p = &ports[i];
        cmds.push(cmd_xgbe_cfg_single(p.port, p.cfg()));
        i = i + 1;
    }
    assert(cmds@ =~= ports@.map_values(f));
    cmds
}

/// Number of ports that have a gain to be asked for.
pub const MAX_DSA_PORTS: u32 = 8;

/// The commands that ask for the gains of the first `nports` ports, as far as the device has them.
pub open spec fn dsa_commands(nports: u32) -> Seq<CtrlMsg> {
    Seq::new(
        if nports <= MAX_DSA_PORTS {
            nports as nat
        } else {
            MAX_DSA_PORTS as nat
        },
        |i: int| CtrlMsg::GetDSA { msg_id: 0, port_id: i as u32 },
    )
}

/// The commands that ask for the gains of the first `nports` ports. A port that the device does not
/// have is not asked for.
pub fn get_dsa_commands(nports: u32) -> (cmds: Vec<CtrlMsg>)
    ensures
        cmds@ == dsa_commands(nports),
{
    let n: u32 = if nports <= MAX_DSA_PORTS {
        nports
    } else {
        MAX_DSA_PORTS
    };
    let mut cmds: Vec<CtrlMsg> = Vec::new();
    let mut p: u32 = 0;
    while p < n
        invariant
            p <= n,
            cmds@.len() == p,
            forall|k: int|
                0 <= k < p ==> #[trigger] cmds@[k] == (CtrlMsg::GetDSA {
                    msg_id: 0,
                    port_id: k as u32,
                }),
        decreases n - p,
    {
        cmds.push(cmd_get_dsa(p));
        p = p + 1;
    }
    assert(cmds@ =~= dsa_commands(nports));
    cmds
}

/// Gain of one port, as far as the device told it.
#[derive(Clone, Copy, Debug, PartialEq, Eq, Structural)]
pub struct DsaReading {
    pub port: u32,
    /// Absent where the device did not answer.
    pub dsa_value: Option<Float32>,
}

impl DsaReading {
    /// This is what `replies` tell of the gain of `port`: the value in the first fitting reply.
    pub open spec fn reads(&self, port: int, replies: Seq<Reply>) -> bool {
        &&& self.port == port
        &&& match self.dsa_value {
            Some(v) => exists|i: int|
                #[trigger] crate::control::is_first(replies, ReplyKind::Dsa, i) && v
                    == replies[i].msg->GetDSAReply_dsa_value,
            None => crate::control::none_of(replies, ReplyKind::Dsa),
        }
    }
}

/// The gain of `port`, given the replies to the query for it.
pub fn dsa_reading(port: u32, replies: &Vec<Reply>) -> (r: DsaReading)
    ensures
        r.reads(port as int, replies@),
{
    match find_reply(replies, ReplyKind::Dsa) {
        Some(i) => {
            assert(crate::control::is_first(replies@, ReplyKind::Dsa, i as int));
            match &replies[i].msg {
                CtrlMsg::GetDSAReply { dsa_value, .. } => DsaReading {
                    port,
                    dsa_value: Some(*dsa_value),
                },
                _ => DsaReading { port, dsa_value: None },
            }
        },
        None => DsaReading { port, dsa_value: None },
    }
}

/// `v` answers a request for the gains of the first `nports` ports with one entry for each of them,
/// in order. `replies[i]` are the replies for port `i`; a port for which there are none has an entry
/// without a value.
pub open spec fn answers_gains(v: Seq<DsaReading>, nports: u32, replies: Seq<Vec<Reply>>) -> bool {
    &&& v.len() == nports
    &&& forall|i: int|
        0 <= i < nports ==> (#[trigger] v[i]).reads(
            i,
            if i < replies.len() {
                replies[i]@
            } else {
                Seq::empty()
            },
        )
}

/// The answer to a request for the gains of the first `nports` ports: one entry for each of them.
/// `replies[i]` are the replies to the query for port `i`. A port that kept silent, or that was not
/// asked, is not left out; its entry has no value.
pub fn dsa_readings(nports: u32, replies: &Vec<Vec<Reply>>) -> (v: Vec<DsaReading>)
    ensures
        answers_gains(v@, nports, replies@),
{
    let mut v: Vec<DsaReading> = Vec::new();
    let mut port: u32 = 0;
    while port < nports
        invariant
            port <= nports,
            v@.len() == port,
            forall|i: int|
                0 <= i < port ==> (#[trigger] v@[i]).reads(
                    i,
                    if i < replies@.len() {
                        replies@[i]@
                    } else {
                        Seq::empty()
                    },
                ),
        decreases nports - port,
    {
        let r = if (port as usize) < replies.len() {
            dsa_reading(port, &replies[port as usize])
        } else {
            DsaReading { port, dsa_value: None }
        };
        v.push(r);
        port = port + 1;
    }
    v
}

/// Asking and answering go together: the answer has as many entries as were asked for, whatever the
/// device said, and command number `i` asks for the port of entry number `i`.
pub proof fn law_every_port_asked_for_is_answered(
    nports: u32,
    v: Seq<DsaReading>,
    replies: Seq<Vec<Reply>>,
    i: int,
)
    requires
        answers_gains(v, nports, replies),
        0 <= i < nports,
    ensures
        v.len() == nports,
        v[i].port == i,
        dsa_commands(nports).len() <= v.len(),
        i < dsa_commands(nports).len() ==> dsa_commands(nports)[i] == (CtrlMsg::GetDSA {
            msg_id: 0,
            port_id: v[i].port,
        }),
        i < MAX_DSA_PORTS ==> i < dsa_commands(nports).len(),
{
    assert(v[i].reads(
        i,
        if i < replies.len() {
            replies[i]@
        } else {
            Seq::empty()
        },
    ));
}

/// The commands that set the gains in `ports`, in that order.
pub fn set_dsa_commands(ports: &Vec<DsaSetting>) -> (cmds: Vec<CtrlMsg>)
    ensures
        cmds@ == ports@.map_values(
            |p: DsaSetting|
                CtrlMsg::SetDSA { msg_id: 0, port_id: p.port, dsa_value: p.dsa_value },
        ),
{
    let mut cmds: Vec<CtrlMsg> = Vec::new();
    let ghost f = |p: DsaSetting|
        CtrlMsg::SetDSA { msg_id: 0, port_id: p.port, dsa_value: p.dsa_value };
    let mut i: usize = 0;
    while i < ports.len()
        invariant
            i <= ports@.len(),
            f == (|p: DsaSetting|
                CtrlMsg::SetDSA { msg_id: 0, port_id: p.port, dsa_value: p.dsa_value }),
            cmds@.len() == i,
            forall|k: int| 0 <= k < i ==> #[trigger] cmds@[k] == f(ports@[k]),
        decreases ports@.len() - i,
    {
        cmds.push(cmd_set_dsa(ports[i].port, ports[i].dsa_value));
        i = i + 1;
    }
    assert(cmds@ =~= ports@.map_values(f));
    cmds
}

/// A request for a capture. What is left out is taken from the configuration.
#[derive(Clone, Debug)]
pub struct CaptureRequest {
    pub device_ip: Option<String>,
    pub frames_per_port: Option<usize>,
    pub fft_size: Option<usize>,
    pub window: Option<String>,
    pub timeout_ms: Option<u64>,
}

/// A capture to be made.
#[derive(Clone, Debug)]
pub struct CaptureOrder {
    /// Address of the device, as it was given.
    pub ip: String,
    pub spec: CaptureSpec,
    pub lo_mhz: Float64,
}

/// The window that a request asks for by name.
pub open spec fn window_asked(cfg: Config, req: CaptureRequest) -> Seq<char> {
    match req.window {
        Some(w) => w@,
        None => cfg.capture.window@,
    }
}

impl CaptureOrder {
    /// This fills in `req` from `cfg`. The port to send commands from is left to the system.
    pub open spec fn fills_in(&self, cfg: Config, req: CaptureRequest) -> bool {
        &&& self.spec.frames_per_port == req.frames_per_port.unwrap_or(cfg.capture.frames_per_port)
        &&& self.spec.fft_size == req.fft_size.unwrap_or(cfg.capture.fft_size)
        &&& self.spec.window == if crate::capture::names_rect(window_asked(cfg, req)) {
            crate::capture::Window::Rect
        } else {
            crate::capture::Window::Hann
        }
        &&& self.spec.timeout_ms == req.timeout_ms.unwrap_or(cfg.capture.timeout_ms)
        &&& self.spec.local_ctrl_port == 0
        &&& self.lo_mhz == cfg.lo_mhz
    }
}

/// The capture that a request asks for. `parsed` is what reading the selected device's address came
/// to; it counts only where the request names no device.
pub fn capture_order(cfg: &Config, req: CaptureRequest, parsed: Result<Endpoint, String>) -> (r:
    Result<CaptureOrder, ApiError>)
    ensures
        match req.device_ip {
            Some(ip) => r is Ok && r->Ok_0.ip == ip && r->Ok_0.fills_in(*cfg, req),
            None => exists|target: Result<Endpoint, ApiError>| #[trigger]
                is_selected(*cfg, parsed, target) && match target {
                    Ok(a) => r is Ok && r->Ok_0.ip == a.ip && r->Ok_0.fills_in(*cfg, req),
                    Err(e) => r == Err::<CaptureOrder, ApiError>(e),
                },
        },
{
    let frames: usize = req.frames_per_port.unwrap_or(cfg.capture.frames_per_port);
    let fft_size: usize = req.fft_size.unwrap_or(cfg.capture.fft_size);
    let timeout_ms: u64 = req.timeout_ms.unwrap_or(cfg.capture.timeout_ms);
    let spec = match &req.window {
        Some(w) => CaptureSpec::from_config(frames, fft_size, w.as_str(), timeout_ms, 0),
        None => CaptureSpec::from_config(
            frames,
            fft_size,
            cfg.capture.window.as_str(),
            timeout_ms,
            0,
        ),
    };
    match req.device_ip {
        Some(ip) => Ok(CaptureOrder { ip, spec, lo_mhz: cfg.lo_mhz }),
        None => {
            let target = selected_addr(cfg, parsed);
            match target {
                Ok(a) => {
                    assert(is_selected(*cfg, parsed, Ok(a)));
                    Ok(CaptureOrder { ip: a.ip, spec, lo_mhz: cfg.lo_mhz })
                },
                Err(e) => {
                    assert(is_selected(*cfg, parsed, Err(e)));
                    Err(e)
                },
            }
        },
    }
}

/// What becomes of the device address `ip` of a capture, given what reading it as an IPv4 address
/// came to.
pub fn capture_ip(ip: &str, parsed: Option<[u8; 4]>) -> (r: Result<[u8; 4], ApiError>)
    ensures
        match parsed {
            Some(a) => r == Ok::<[u8; 4], ApiError>(a),
            None => r is Err && r->Err_0.is_bad(
                "invalid device ip "@ + crate::text::debug_text(ip@),
            ),
        },
{
    match parsed {
        Some(a) => Ok(a),
        None => {
            let mut msg = "invalid device ip ".to_string();
            msg.append(quoted(ip).as_str());
            Err(ApiError::bad(msg))
        },
    }
}

/// A command goes out if and only if a device is selected and its address can be read: then to that
/// address, with the configured patience. Otherwise the request is at fault, and there is nothing to
/// send.
pub proof fn law_commands_need_an_address(
    cfg: Config,
    parsed: Result<Endpoint, String>,
    cmd: CtrlMsg,
    r: Result<SendPlan, ApiError>,
)
    requires
        is_command_plan(cfg, parsed, cmd, r),
    ensures
        r is Ok <==> cfg.selected_device is Some && parsed is Ok,
        r is Ok ==> r->Ok_0.cmd == cmd && r->Ok_0.target == parsed->Ok_0 && r->Ok_0.timeout_ms
            == cfg.timeout_ms,
        r is Err ==> r->Err_0.status is BadRequest,
{
}

/// A list of commands goes out exactly where a single one does, and each of them as it would on its
/// own: none is left out, none is added.
pub proof fn law_lists_go_out_like_single_commands(
    cfg: Config,
    parsed: Result<Endpoint, String>,
    cmds: Seq<CtrlMsg>,
    plans: Result<Vec<SendPlan>, ApiError>,
    i: int,
    plan: Result<SendPlan, ApiError>,
)
    requires
        are_command_plans(cfg, parsed, cmds, plans),
        0 <= i < cmds.len(),
        is_command_plan(cfg, parsed, cmds[i], plan),
    ensures
        plans is Ok <==> plan is Ok,
        plans is Ok ==> plans->Ok_0@.len() == cmds.len() && plans->Ok_0@[i] == plan->Ok_0,
        plans is Err ==> plans->Err_0.status is BadRequest,
{
}

/// A capture of the selected device that names no other goes to that device's own IPv4 address.
pub proof fn law_a_capture_goes_to_the_selected_device(
    cfg: Config,
    a: Endpoint,
    r: Result<Endpoint, ApiError>,
    order: CaptureOrder,
)
    requires
        cfg.selected_device is Some,
        is_selected(cfg, Ok(a), r),
        a.wf(),
        a.v4 is Some,
        order.ip == r->Ok_0.ip,
    ensures
        order.ip@ == crate::address::ip_text(a.v4->0.ip@),
{
}

/// A device that was selected is the one that commands go to.
pub proof fn law_the_selected_device_is_addressed(
    cfg: Config,
    addr: String,
    a: Endpoint,
    r: Result<Endpoint, ApiError>,
)
    requires
        is_selected(Config { selected_device: Some(addr), ..cfg }, Ok(a), r),
    ensures
        r == Ok::<Endpoint, ApiError>(a),
{
}

/// Without a selected device the request is refused with a hint to choose one; with an address that
/// cannot be read it is refused with that address and the reason.
pub proof fn law_a_missing_device_is_explained(
    cfg: Config,
    parsed: Result<Endpoint, String>,
    r: Result<Endpoint, ApiError>,
)
    requires
        is_selected(cfg, parsed, r),
    ensures
        r is Ok <==> cfg.selected_device is Some && parsed is Ok,
        r is Ok ==> r->Ok_0 == parsed->Ok_0,
        r is Err ==> r->Err_0.status is BadRequest,
        cfg.selected_device is None ==> r->Err_0.msg@
            == "还未选择设备：请先在页面『发现设备』并选中一个"@,
        cfg.selected_device is Some && parsed is Err ==> r->Err_0.msg@ == "invalid addr "@
            + crate::text::debug_text(cfg.selected_device->0@) + ": "@ + parsed->Err_0@,
{
}

/// A command that goes out does so as it is, from a port that the system chooses.
pub proof fn law_commands_go_out_as_they_are(
    cfg: Config,
    parsed: Result<Endpoint, String>,
    cmd: CtrlMsg,
    r: Result<SendPlan, ApiError>,
)
    requires
        is_command_plan(cfg, parsed, cmd, r),
        r is Ok,
    ensures
        r->Ok_0.cmd == cmd,
        r->Ok_0.target == parsed->Ok_0,
        r->Ok_0.bind_port == 0,
        r->Ok_0.timeout_ms == cfg.timeout_ms,
        r->Ok_0.debug == 0,
{
}

/// The network settings are shown port by port, each field as the text of that very field.
pub proof fn law_each_port_is_shown_with_its_own_settings(
    v: XgbeConfigView,
    cfg: Seq<XGbeCfg>,
    i: int,
)
    requires
        v.shows(cfg),
        0 <= i < cfg.len(),
    ensures
        v.nports == cfg.len(),
        v.ports@.len() == cfg.len(),
        v.ports@[i].port == i,
        v.ports@[i].dst_mac@ == crate::address::mac_text(cfg[i].dst_mac@),
        v.ports@[i].src_mac@ == crate::address::mac_text(cfg[i].src_mac@),
        v.ports@[i].dst_ip@ == crate::address::ip_text(cfg[i].dst_ip@),
        v.ports@[i].src_ip@ == crate::address::ip_text(cfg[i].src_ip@),
        v.ports@[i].dst_port == cfg[i].dst_port,
        v.ports@[i].src_port == cfg[i].src_port,
{
    assert(v.ports@[i].shows(i, cfg[i]));
}

/// What is shown of the network settings determines them: different settings are shown differently.
pub proof fn law_settings_can_be_read_off(v: XgbeConfigView, a: Seq<XGbeCfg>, b: Seq<XGbeCfg>)
    requires
        v.shows(a),
        v.shows(b),
    ensures
        a == b,
{
    assert forall|i: int| 0 <= i < a.len() implies a[i] == b[i] by {
        law_each_port_is_shown_with_its_own_settings(v, a, i);
        law_each_port_is_shown_with_its_own_settings(v, b, i);
        crate::address::law_mac_text_is_injective(a[i].dst_mac, b[i].dst_mac);
        crate::address::law_mac_text_is_injective(a[i].src_mac, b[i].src_mac);
        crate::address::law_ip_text_is_injective(a[i].dst_ip, b[i].dst_ip);
        crate::address::law_ip_text_is_injective(a[i].src_ip, b[i].src_ip);
    }
    assert(a =~= b);
}

/// The gain that is shown for a port comes from the replies for that very port, from the first that
/// gives one; a port without such a reply has an entry without a value.
pub proof fn law_each_gain_comes_from_its_own_port(
    v: Seq<DsaReading>,
    nports: u32,
    replies: Seq<Vec<Reply>>,
    i: int,
    k: int,
)
    requires
        answers_gains(v, nports, replies),
        0 <= i < nports,
    ensures
        v.len() == nports,
        v[i].port == i,
        i >= replies.len() ==> v[i].dsa_value is None,
        i < replies.len() && crate::control::none_of(replies[i]@, ReplyKind::Dsa)
            ==> v[i].dsa_value is None,
        i < replies.len() && crate::control::is_first(replies[i]@, ReplyKind::Dsa, k)
            ==> v[i].dsa_value == Some(replies[i]@[k].msg->GetDSAReply_dsa_value),
        dsa_commands(nports).len() <= 8,
{
    let own = if i < replies.len() {
        replies[i]@
    } else {
        Seq::empty()
    };
    assert(v[i].reads(i, own));
    if i < replies.len() && crate::control::is_first(replies[i]@, ReplyKind::Dsa, k) {
        if v[i].dsa_value is Some {
            let j = choose|j: int| #[trigger]
                crate::control::is_first(own, ReplyKind::Dsa, j) && v[i].dsa_value->0
                    == own[j].msg->GetDSAReply_dsa_value;
            crate::control::law_the_first_reply_is_unique(own, ReplyKind::Dsa, j, k);
        } else {
            crate::control::law_no_reply_means_none(own, ReplyKind::Dsa, k);
        }
    }
    if i < replies.len() && crate::control::none_of(replies[i]@, ReplyKind::Dsa) {
        if v[i].dsa_value is Some {
            let j = choose|j: int| #[trigger]
                crate::control::is_first(own, ReplyKind::Dsa, j) && v[i].dsa_value->0
                    == own[j].msg->GetDSAReply_dsa_value;
            crate::control::law_no_reply_means_none(own, ReplyKind::Dsa, j);
        }
    }
}

/// What a request for a capture names goes before the configuration, item by item; what it leaves out
/// is taken from the configuration. The oscillator frequency is always the configured one.
pub proof fn law_a_request_goes_before_the_configuration(
    order: CaptureOrder,
    cfg: Config,
    req: CaptureRequest,
)
    requires
        order.fills_in(cfg, req),
    ensures
        req.frames_per_port is Some ==> order.spec.frames_per_port == req.frames_per_port->0,
        req.frames_per_port is None ==> order.spec.frames_per_port == cfg.capture.frames_per_port,
        req.fft_size is Some ==> order.spec.fft_size == req.fft_size->0,
        req.fft_size is None ==> order.spec.fft_size == cfg.capture.fft_size,
        req.timeout_ms is Some ==> order.spec.timeout_ms == req.timeout_ms->0,
        req.timeout_ms is None ==> order.spec.timeout_ms == cfg.capture.timeout_ms,
        req.window is Some ==> (order.spec.window is Rect <==> crate::capture::names_rect(
            req.window->0@,
        )),
        req.window is None ==> (order.spec.window is Rect <==> crate::capture::names_rect(
            cfg.capture.window@,
        )),
        order.spec.local_ctrl_port == 0,
        order.lo_mhz == cfg.lo_mhz,
{
}

/// An error of the request and an error of the console bear different marks, and each its own message.
pub proof fn law_errors_bear_their_mark(e: ApiError, msg: Seq<char>)
    ensures
        e.is_bad(msg) ==> e.status is BadRequest && e.msg@ == msg,
        e.is_internal(msg) ==> e.status is InternalServerError && e.msg@ == msg,
{
}

} // verus!
