//! The course of one capture: what to do next, given what happened.
use vstd::prelude::*;
use vstd::string::*;

use crate::address::{v4_to_str, Endpoint, V4Addr};
use crate::capture::{
    histograms_of, mark_skipped, select_ports, spectra_of, CaptureHandle, CaptureResult,
    CaptureSpec, DeviceInfo, PortAnalysis,
};
use crate::control::{
    cmd_xgbe_query, find_reply, send, xgbe_cfg, CtrlMsg, Health, Reply, ReplyKind, SendPlan,
};
use crate::float::Float64;
use crate::histogram::IqSample;
use crate::text::{bracket, dec_u64};

verus! {

/// What a capture is waiting for.
#[derive(Clone, Copy, Debug, PartialEq, Eq, Structural)]
pub enum Stage {
    /// For what is known of the device.
    Discover,
    /// For the answer to the query for the sampling rate.
    Rate,
    /// For the network settings of the ports.
    Xgbe,
    /// For the sockets to be bound and the receivers to be started.
    Bind,
    /// For all receivers to be ready.
    Arm,
    /// For the streams to be started.
    Start,
    /// For the receivers to end.
    Receive,
    /// For the streams to be stopped.
    Stop,
    /// For the samples and what their transforms give.
    Analyse,
    /// For the receivers to end, after which the capture has failed.
    Abandon,
    /// For nothing: the result is there.
    Finished,
}

/// Something that a capture waited for.
#[derive(Debug)]
pub enum CaptureEvent {
    /// What is known of the device, if anything.
    Info(Option<DeviceInfo>),
    /// Replies to the query for the sampling rate.
    RateReplies(Vec<Reply>),
    /// Replies to the query for the network settings.
    XgbeReplies(Vec<Reply>),
    /// All sockets are bound and all receivers started.
    Bound,
    /// A socket could not be bound.
    BindFailed { addr: V4Addr, reason: String },
    /// How many receivers are ready, and whether the time for that is over.
    ArmCheck { armed: usize, expired: bool },
    /// The streams are started.
    StreamStarted,
    /// All receivers have ended.
    Joined,
    /// The streams are stopped.
    StreamStopped,
    /// The samples of each port, and what the transforms gave for the ports that have some.
    Samples { slots: Vec<Vec<IqSample>>, analyses: Vec<PortAnalysis> },
}

/// What to do next.
#[derive(Debug)]
pub enum CaptureAction {
    /// Query the device for its sampling rate.
    AskRate,
    /// Ask the device for its network settings.
    AskXgbe,
    /// Bind a socket for each of these ports and start its receiver.
    Bind(Vec<(usize, V4Addr)>),
    /// See how many receivers are ready.
    CheckArmed,
    /// Wait a moment, then see again.
    Wait,
    /// Start the streams.
    StartStream,
    /// Let the receivers go, and wait for them to end.
    ReleaseAndJoin,
    /// Stop the streams.
    StopStream,
    /// Make the receivers end, and wait for them.
    AbortAndJoin,
    /// Analyse the samples.
    AnalyseSamples,
    /// Nothing: the result is there.
    Finish,
    /// Nothing: this was not waited for.
    Ignore,
}

/// A capture under way.
#[derive(Clone, Debug)]
pub struct CaptureRun {
    /// What is asked for.
    pub spec: CaptureSpec,
    /// Frequency of the local oscillator, by which spectra are shifted.
    pub lo_mhz: Float64,
    pub stage: Stage,
    /// Where the device is controlled, once that is known.
    pub ctrl: Option<Endpoint>,
    /// Where this host expects the data of each port.
    pub payload: Vec<Option<V4Addr>>,
    /// Sampling rate in MHz; 0 as long as it is not known.
    pub smp_rate: u32,
    pub enabled_ports: Vec<usize>,
    pub skipped_ports: Vec<usize>,
    /// Why the capture fails, once it is abandoned.
    pub failure: String,
}

pub open spec fn no_info_text() -> Seq<char> {
    "no device info for this ip (未发现设备)"@
}

pub open spec fn not_v4_text() -> Seq<char> {
    "control address is not IPv4"@
}

pub open spec fn no_rate_text() -> Seq<char> {
    "设备未回复 Query，无法确定采样率/带宽；请先发现并选择设备（或确认设备在线）。"@
}

pub open spec fn all_off_text() -> Seq<char> {
    "所有 Xgbe port 的 dst_mac 均为 0，设备未使能任何数据通路（或未完成初始化）"@
}

pub open spec fn cancelled_text() -> Seq<char> {
    "已取消"@
}

pub open spec fn not_armed_text() -> Seq<char> {
    "部分抓取端口未能就绪"@
}

pub open spec fn bind_failed_text(addr: V4Addr, reason: Seq<char>) -> Seq<char> {
    "bind "@ + crate::address::v4_text(addr) + ": "@ + reason
}

pub open spec fn no_data_text(enabled: Seq<usize>) -> Seq<char> {
    "未收到任何数据帧（已使能端口 "@ + crate::text::bracketed(enabled)
        + "，可能设备未起流或配置异常）"@
}

pub open spec fn arm_phase_text(ports: nat) -> Seq<char> {
    "arm ("@ + crate::text::decimal(ports) + " ports)"@
}

/// Sampling rate that a reply gives.
pub open spec fn rate_in(m: CtrlMsg) -> u32 {
    match m {
        CtrlMsg::QueryReply { health, .. } => match health {
            Health::T510Health { smp_rate, .. } => smp_rate,
        },
        _ => 0,
    }
}

/// `rate` is the sampling rate that the first answer to a query among `replies` gives, or 0 if
/// there is no such answer.
pub open spec fn is_rate_of(replies: Seq<Reply>, rate: u32) -> bool {
    ||| exists|i: int| #[trigger]
        crate::control::is_first(replies, ReplyKind::Status, i) && rate == rate_in(replies[i].msg)
    ||| crate::control::none_of(replies, ReplyKind::Status) && rate == 0
}

/// The sampling rate that the first answer to a query among `replies` gives; 0 if there is none.
pub fn sample_rate(replies: &Vec<Reply>) -> (rate: u32)
    ensures
        is_rate_of(replies@, rate),
{
    match find_reply(replies, ReplyKind::Status) {
        Some(i) => {
            assert(crate::control::is_first(replies@, ReplyKind::Status, i as int));
            match &replies[i].msg {
                CtrlMsg::QueryReply { health, .. } => match health {
                    Health::T510Health { smp_rate, .. } => *smp_rate,
                },
                _ => 0,
            }
        },
        None => 0,
    }
}

/// The result in `h` is the failure `text`.
pub open spec fn failed_with(h: CaptureHandle, text: Seq<char>) -> bool {
    &&& h.result matches Some(Err(e))
    &&& e@ == text
}

/// The capture `pre` ends at once with the failure `text`, and nothing else changes.
pub open spec fn fails(
    pre: CaptureRun,
    h: CaptureHandle,
    post: CaptureRun,
    h2: CaptureHandle,
    action: CaptureAction,
    text: Seq<char>,
) -> bool {
    &&& post == (CaptureRun { stage: Stage::Finished, ..pre })
    &&& action is Finish
    &&& failed_with(h2, text)
    &&& h2 == (CaptureHandle { done: true, result: h2.result, ..h })
}

/// The capture `pre` is to end with the failure `text` once its receivers have ended.
pub open spec fn abandons(
    pre: CaptureRun,
    h: CaptureHandle,
    post: CaptureRun,
    h2: CaptureHandle,
    action: CaptureAction,
    text: Seq<char>,
) -> bool {
    &&& post == (CaptureRun { stage: Stage::Abandon, failure: post.failure, ..pre })
    &&& post.failure@ == text
    &&& action is AbortAndJoin
    &&& h2 == (CaptureHandle { abort: true, ..h })
}

/// The capture goes on to `stage`; apart from that nothing changes.
pub open spec fn goes_on(pre: CaptureRun, post: CaptureRun, stage: Stage) -> bool {
    post == (CaptureRun { stage, ..pre })
}

/// Step on being told of the device.
pub open spec fn info_step(
    pre: CaptureRun,
    h: CaptureHandle,
    info: Option<DeviceInfo>,
    post: CaptureRun,
    h2: CaptureHandle,
    action: CaptureAction,
) -> bool {
    match info {
        None => fails(pre, h, post, h2, action, no_info_text()),
        Some(i) => if i.ctrl_addr.v4 is None {
            fails(pre, h, post, h2, action, not_v4_text())
        } else {
            &&& post == (CaptureRun {
                stage: Stage::Rate,
                ctrl: Some(i.ctrl_addr),
                payload: i.payload_addr,
                ..pre
            })
            &&& action is AskRate
            &&& h.with_phase("query-rate"@, h2)
        },
    }
}

/// Step on the replies to the query for the sampling rate. The bandwidth must come from the
/// device: without a rate the capture fails.
pub open spec fn rate_step(
    pre: CaptureRun,
    h: CaptureHandle,
    replies: Seq<Reply>,
    post: CaptureRun,
    h2: CaptureHandle,
    action: CaptureAction,
) -> bool {
    exists|rate: u32| #[trigger]
        is_rate_of(replies, rate) && if rate == 0 {
            fails(pre, h, post, h2, action, no_rate_text())
        } else {
            &&& post == (CaptureRun { stage: Stage::Xgbe, smp_rate: rate, ..pre })
            &&& action is AskXgbe
            &&& h2 == h
        }
}

/// Step once the network settings `cfg` are known.
pub open spec fn settings_step(
    pre: CaptureRun,
    h: CaptureHandle,
    cfg: Seq<crate::control::XGbeCfg>,
    post: CaptureRun,
    h2: CaptureHandle,
    action: CaptureAction,
) -> bool {
    let on = crate::capture::ports_on(cfg, crate::capture::PORTS as int);
    let off = crate::capture::ports_off(cfg, crate::capture::PORTS as int);
    if on.len() == 0 {
        fails(pre, h, post, h2, action, all_off_text())
    } else {
        &&& post == (CaptureRun {
            stage: Stage::Bind,
            enabled_ports: post.enabled_ports,
            skipped_ports: post.skipped_ports,
            ..pre
        })
        &&& post.enabled_ports@ == on
        &&& post.skipped_ports@ == off
        &&& action is Bind
        &&& action->Bind_0@ == on.map_values(
            |i: usize| (i, crate::capture::port_addr(cfg, pre.payload@, i as int)),
        )
        &&& h2 == (CaptureHandle { phase: h2.phase, progress: h2.progress, ..h })
        &&& h2.phase@ == arm_phase_text(on.len())
        &&& h2.progress@ == crate::capture::progress_skipping(h.progress@, off, off.len() as int)
    }
}

/// Step on the replies to the query for the network settings.
pub open spec fn xgbe_step(
    pre: CaptureRun,
    h: CaptureHandle,
    replies: Seq<Reply>,
    post: CaptureRun,
    h2: CaptureHandle,
    action: CaptureAction,
) -> bool {
    ||| exists|i: int| #[trigger]
        crate::control::is_first(replies, ReplyKind::Xgbe, i) && settings_step(
            pre,
            h,
            replies[i].msg->XGbeCfgQueryReply_cfg@,
            post,
            h2,
            action,
        )
    ||| crate::control::none_of(replies, ReplyKind::Xgbe) && fails(
        pre,
        h,
        post,
        h2,
        action,
        crate::control::no_xgbe_text(),
    )
}

/// Step on a look at the receivers. Time that is over comes first, then a wish to end, then
/// readiness.
pub open spec fn arm_step(
    pre: CaptureRun,
    h: CaptureHandle,
    armed: usize,
    expired: bool,
    post: CaptureRun,
    h2: CaptureHandle,
    action: CaptureAction,
) -> bool {
    if expired {
        abandons(pre, h, post, h2, action, not_armed_text())
    } else if h.abort {
        abandons(pre, h, post, h2, action, cancelled_text())
    } else if armed >= pre.enabled_ports@.len() {
        &&& goes_on(pre, post, Stage::Start)
        &&& action is StartStream
        &&& h.with_phase("stream-start"@, h2)
    } else {
        &&& post == pre
        &&& action is Wait
        &&& h2 == h
    }
}

/// Step on the samples and what their transforms gave. Without a sample on any port the capture
/// fails. Otherwise the result has one spectrum and one histogram for each port that data came in
/// on, in the same order.
pub open spec fn samples_step(
    pre: CaptureRun,
    h: CaptureHandle,
    slots: Seq<Vec<IqSample>>,
    analyses: Seq<PortAnalysis>,
    post: CaptureRun,
    h2: CaptureHandle,
    action: CaptureAction,
) -> bool {
    if crate::capture::ports_with_data(slots, slots.len() as int).len() == 0 {
        fails(pre, h, post, h2, action, no_data_text(pre.enabled_ports@))
    } else {
        &&& goes_on(pre, post, Stage::Finished)
        &&& action is Finish
        &&& h2 == (CaptureHandle { phase: h2.phase, done: true, result: h2.result, ..h })
        &&& h2.phase@ == "done"@
        &&& h2.result matches Some(Ok(r))
        &&& r.enabled_ports@ == pre.enabled_ports@
        &&& r.skipped_ports@ == pre.skipped_ports@
        &&& crate::capture::spectra_describe(
            r.spectra@,
            slots,
            pre.spec.fft_size as nat,
            analyses,
            pre.smp_rate,
            pre.lo_mhz,
        )
        &&& crate::capture::histograms_describe(r.histograms@, slots)
    }
}

/// One step of a capture: `pre` becomes `post`, its outside state `h` becomes `h2`, and `action`
/// is what to do next. An event that was not waited for changes nothing.
pub open spec fn steps(
    pre: CaptureRun,
    h: CaptureHandle,
    event: CaptureEvent,
    post: CaptureRun,
    h2: CaptureHandle,
    action: CaptureAction,
) -> bool {
    match (pre.stage, event) {
        (Stage::Discover, CaptureEvent::Info(info)) => info_step(pre, h, info, post, h2, action),
        (Stage::Rate, CaptureEvent::RateReplies(replies)) => rate_step(
            pre,
            h,
            replies@,
            post,
            h2,
            action,
        ),
        (Stage::Xgbe, CaptureEvent::XgbeReplies(replies)) => xgbe_step(
            pre,
            h,
            replies@,
            post,
            h2,
            action,
        ),
        (Stage::Bind, CaptureEvent::Bound) => {
            &&& goes_on(pre, post, Stage::Arm)
            &&& action is CheckArmed
            &&& h2 == h
        },
        (Stage::Bind, CaptureEvent::BindFailed { addr, reason }) => fails(
            pre,
            h,
            post,
            h2,
            action,
            bind_failed_text(addr, reason@),
        ),
        (Stage::Arm, CaptureEvent::ArmCheck { armed, expired }) => arm_step(
            pre,
            h,
            armed,
            expired,
            post,
            h2,
            action,
        ),
        (Stage::Start, CaptureEvent::StreamStarted) => {
            &&& goes_on(pre, post, Stage::Receive)
            &&& action is ReleaseAndJoin
            &&& h.with_phase("capture"@, h2)
        },
        (Stage::Receive, CaptureEvent::Joined) => {
            &&& goes_on(pre, post, Stage::Stop)
            &&& action is StopStream
            &&& h2 == h
        },
        (Stage::Stop, CaptureEvent::StreamStopped) => if h.abort {
            fails(pre, h, post, h2, action, cancelled_text())
        } else {
            &&& goes_on(pre, post, Stage::Analyse)
            &&& action is AnalyseSamples
            &&& h.with_phase("analyze"@, h2)
        },
        (Stage::Analyse, CaptureEvent::Samples { slots, analyses }) => samples_step(
            pre,
            h,
            slots@,
            analyses@,
            post,
            h2,
            action,
        ),
        (Stage::Abandon, CaptureEvent::Joined) => fails(
            pre,
            h,
            post,
            h2,
            action,
            pre.failure@,
        ),
        _ => {
            &&& post == pre
            &&& h2 == h
            &&& action is Ignore
        },
    }
}

/// There is one slot for each port, and only ports that are received have samples in theirs.
pub open spec fn only_from(slots: Seq<Vec<IqSample>>, enabled: Seq<usize>) -> bool {
    &&& slots.len() == crate::capture::PORTS
    &&& forall|i: int|
        0 <= i < slots.len() && (#[trigger] slots[i])@.len() > 0 ==> enabled.contains(i as usize)
}

/// `event` can happen to the capture `run`: its samples can be counted, and were transformed as it
/// asks.
pub open spec fn fits(run: CaptureRun, event: CaptureEvent) -> bool {
    event matches CaptureEvent::Samples { slots, analyses } ==> {
        &&& crate::capture::countable(slots@)
        &&& crate::capture::analysed(analyses@, slots@, run.spec.fft_size as nat)
    }
}

impl CaptureRun {
    /// From the stage on at which they are found out, the control address, the sampling rate and
    /// the ports are there; at least one port is received, and every port is received or left out.
    pub open spec fn wf(&self) -> bool {
        &&& !(self.stage is Discover || self.stage is Finished) ==> self.ctrl is Some
            && self.ctrl->0.v4 is Some
        &&& !(self.stage is Discover || self.stage is Rate || self.stage is Finished)
            ==> self.smp_rate > 0
        &&& !(self.stage is Discover || self.stage is Rate || self.stage is Xgbe
            || self.stage is Finished) ==> {
            &&& self.enabled_ports@.len() > 0
            &&& self.enabled_ports@.len() + self.skipped_ports@.len() == crate::capture::PORTS
        }
    }

    /// Begins a capture. The first thing to do is to find out what is known of the device.
    pub fn start(handle: &mut CaptureHandle, spec: CaptureSpec, lo_mhz: Float64) -> (run:
        CaptureRun)
        ensures
            run.spec == spec,
            run.lo_mhz == lo_mhz,
            run.stage is Discover,
            run.ctrl is None,
            run.payload@ == Seq::<Option<V4Addr>>::empty(),
            run.smp_rate == 0,
            run.enabled_ports@ == Seq::<usize>::empty(),
            run.skipped_ports@ == Seq::<usize>::empty(),
            run.failure@ == Seq::<char>::empty(),
            run.wf(),
            old(handle).with_phase("discover"@, *final(handle)),
    {
        handle.set_phase("discover");
        let payload: Vec<Option<V4Addr>> = Vec::new();
        let enabled_ports: Vec<usize> = Vec::new();
        let skipped_ports: Vec<usize> = Vec::new();
        CaptureRun {
            spec,
            lo_mhz,
            stage: Stage::Discover,
            ctrl: None,
            payload,
            smp_rate: 0,
            enabled_ports,
            skipped_ports,
            failure: String::new(),
        }
    }

    /// How the device is asked for its network settings, once its address is known.
    pub fn xgbe_plan(&self) -> (p: Option<SendPlan>)
        ensures
            p == match self.ctrl {
                Some(target) => Some(
                    SendPlan {
                        cmd: CtrlMsg::XGbeCfgQuery { msg_id: 0 },
                        target,
                        bind_port: 0,
                        timeout_ms: self.spec.timeout_ms,
                        debug: 0,
                    },
                ),
                None => None,
            },
    {
        match &self.ctrl {
            Some(target) => Some(
                send(
                    cmd_xgbe_query(),
                    target.clone(),
                    self.spec.local_ctrl_port,
                    self.spec.timeout_ms,
                    0,
                ),
            ),
            None => None,
        }
    }

    fn fail(&mut self, handle: &mut CaptureHandle, text: String) -> (action: CaptureAction)
        ensures
            fails(*old(self), *old(handle), *final(self), *final(handle), action, text@),
    {
        self.stage = Stage::Finished;
        handle.result = Some(Err(text));
        handle.done = true;
        CaptureAction::Finish
    }

    fn abandon(&mut self, handle: &mut CaptureHandle, text: &str) -> (action: CaptureAction)
        ensures
            abandons(*old(self), *old(handle), *final(self), *final(handle), action, text@),
    {
        self.stage = Stage::Abandon;
        self.failure = text.to_string();
        handle.abort = true;
        CaptureAction::AbortAndJoin
    }

    fn on_info(&mut self, handle: &mut CaptureHandle, info: Option<DeviceInfo>) -> (action:
        CaptureAction)
        ensures
            info_step(*old(self), *old(handle), info, *final(self), *final(handle), action),
    {
        match info {
            None => self.fail(handle, "no device info for this ip (未发现设备)".to_string()),
            Some(i) => {
                if i.ctrl_addr.v4.is_none() {
                    return self.fail(handle, "control address is not IPv4".to_string());
                }
                self.stage = Stage::Rate;
                self.ctrl = Some(i.ctrl_addr);
                self.payload = i.payload_addr;
                handle.set_phase("query-rate");
                CaptureAction::AskRate
            },
        }
    }

    fn on_rate(&mut self, handle: &mut CaptureHandle, replies: &Vec<Reply>) -> (action:
        CaptureAction)
        ensures
            rate_step(
                *old(self),
                *old(handle),
                replies@,
                *final(self),
                *final(handle),
                action,
            ),
    {
        let rate = sample_rate(replies);
        if rate == 0 {
            self.fail(
                handle,
                "设备未回复 Query，无法确定采样率/带宽；请先发现并选择设备（或确认设备在线）。".to_string(),
            )
        } else {
            self.stage = Stage::Xgbe;
            self.smp_rate = rate;
            CaptureAction::AskXgbe
        }
    }

    fn on_xgbe(&mut self, handle: &mut CaptureHandle, replies: &Vec<Reply>) -> (action:
        CaptureAction)
        ensures
            xgbe_step(
                *old(self),
                *old(handle),
                replies@,
                *final(self),
                *final(handle),
                action,
            ),
    {
        match xgbe_cfg(replies) {
            Err(e) => self.fail(handle, e),
            Ok(cfg) => {
                let plan = select_ports(&cfg, &self.payload);
                if plan.ports.len() == 0 {
                    return self.fail(
                        handle,
                        "所有 Xgbe port 的 dst_mac 均为 0，设备未使能任何数据通路（或未完成初始化）".to_string(),
                    );
                }
                let mut progress = handle.progress.clone();
                assert(progress@ =~= handle.progress@);
                mark_skipped(&mut progress, &plan.skipped_ports);
                handle.progress = progress;
                let mut phase = "arm (".to_string();
                phase.append(dec_u64(plan.ports.len() as u64).as_str());
                phase.append(" ports)");
                handle.phase = phase;
                self.stage = Stage::Bind;
                self.enabled_ports = plan.enabled_ports;
                self.skipped_ports = plan.skipped_ports;
                CaptureAction::Bind(plan.ports)
            },
        }
    }

    fn on_arm_check(&mut self, handle: &mut CaptureHandle, armed: usize, expired: bool) -> (action:
        CaptureAction)
        ensures
            arm_step(
                *old(self),
                *old(handle),
                armed,
                expired,
                *final(self),
                *final(handle),
                action,
            ),
    {
        if expired {
            self.abandon(handle, "部分抓取端口未能就绪")
        } else if handle.abort {
            self.abandon(handle, "已取消")
        } else if armed >= self.enabled_ports.len() {
            self.stage = Stage::Start;
            handle.set_phase("stream-start");
            CaptureAction::StartStream
        } else {
            CaptureAction::Wait
        }
    }

    fn on_samples(
        &mut self,
        handle: &mut CaptureHandle,
        slots: &Vec<Vec<IqSample>>,
        analyses: &Vec<PortAnalysis>,
    ) -> (action: CaptureAction)
        requires
            crate::capture::countable(slots@),
            crate::capture::analysed(analyses@, slots@, old(self).spec.fft_size as nat),
        ensures
            samples_step(
                *old(self),
                *old(handle),
                slots@,
                analyses@,
                *final(self),
                *final(handle),
                action,
            ),
    {
        let histograms = histograms_of(slots);
        if histograms.len() == 0 {
            let mut text = "未收到任何数据帧（已使能端口 ".to_string();
            text.append(bracket(&self.enabled_ports).as_str());
            text.append("，可能设备未起流或配置异常）");
            return self.fail(handle, text);
        }
        let spectra = spectra_of(slots, &self.spec, analyses, self.smp_rate, self.lo_mhz);
        let enabled_ports = self.enabled_ports.clone();
        let skipped_ports = self.skipped_ports.clone();
        assert(enabled_ports@ =~= self.enabled_ports@);
        assert(skipped_ports@ =~= self.skipped_ports@);
        handle.set_phase("done");
        handle.result = Some(
            Ok(CaptureResult { enabled_ports, skipped_ports, spectra, histograms }),
        );
        handle.done = true;
        self.stage = Stage::Finished;
        CaptureAction::Finish
    }

    /// Takes in an event and says what to do next.
    pub fn step(&mut self, handle: &mut CaptureHandle, event: CaptureEvent) -> (action:
        CaptureAction)
        requires
            fits(*old(self), event),
        ensures
            steps(*old(self), *old(handle), event, *final(self), *final(handle), action),
            old(self).wf() ==> final(self).wf(),
    {
        proof {
            assert forall|cfg: Seq<crate::control::XGbeCfg>|
                (#[trigger] crate::capture::ports_on(cfg, crate::capture::PORTS as int)).len()
                    + crate::capture::ports_off(cfg, crate::capture::PORTS as int).len()
                    == crate::capture::PORTS by {
                crate::capture::law_ports_are_received_or_left_out(
                    cfg,
                    crate::capture::PORTS as int,
                    0,
                );
            }
        }
        match (self.stage, event) {
            (Stage::Discover, CaptureEvent::Info(info)) => self.on_info(handle, info),
            (Stage::Rate, CaptureEvent::RateReplies(replies)) => self.on_rate(handle, &replies),
            (Stage::Xgbe, CaptureEvent::XgbeReplies(replies)) => self.on_xgbe(handle, &replies),
            (Stage::Bind, CaptureEvent::Bound) => {
                self.stage = Stage::Arm;
                CaptureAction::CheckArmed
            },
            (Stage::Bind, CaptureEvent::BindFailed { addr, reason }) => {
                let mut text = "bind ".to_string();
                text.append(v4_to_str(&addr).as_str());
                text.append(": ");
                text.append(reason.as_str());
                self.fail(handle, text)
            },
            (Stage::Arm, CaptureEvent::ArmCheck { armed, expired }) => self.on_arm_check(
                handle,
                armed,
                expired,
            ),
            (Stage::Start, CaptureEvent::StreamStarted) => {
                self.stage = Stage::Receive;
                handle.set_phase("capture");
                CaptureAction::ReleaseAndJoin
            },
            (Stage::Receive, CaptureEvent::Joined) => {
                self.stage = Stage::Stop;
                CaptureAction::StopStream
            },
            (Stage::Stop, CaptureEvent::StreamStopped) => {
                if handle.abort {
                    self.fail(handle, "已取消".to_string())
                } else {
                    self.stage = Stage::Analyse;
                    handle.set_phase("analyze");
                    CaptureAction::AnalyseSamples
                }
            },
            (Stage::Analyse, CaptureEvent::Samples { slots, analyses }) => self.on_samples(
                handle,
                &slots,
                &analyses,
            ),
            (Stage::Abandon, CaptureEvent::Joined) => {
                let text = self.failure.clone();
                self.fail(handle, text)
            },
            _ => CaptureAction::Ignore,
        }
    }
}

/// The streams have been started, or are being started, and not stopped since.
pub open spec fn streams_on(stage: Stage) -> bool {
    stage is Start || stage is Receive
}

/// How far along a capture is.
pub open spec fn rank(stage: Stage) -> int {
    match stage {
        Stage::Discover => 0,
        Stage::Rate => 1,
        Stage::Xgbe => 2,
        Stage::Bind => 3,
        Stage::Arm => 4,
        Stage::Start => 5,
        Stage::Receive => 6,
        Stage::Stop => 7,
        Stage::Analyse => 8,
        Stage::Abandon => 9,
        Stage::Finished => 10,
    }
}

/// The streams go on only by the action that starts them, and only once every receiver is ready;
/// the receivers are let go only once the streams are started; the streams go off only by the action
/// that stops them. So no capture ends with the streams left on.
pub proof fn law_streams_are_started_when_ready_and_always_stopped(
    pre: CaptureRun,
    h: CaptureHandle,
    event: CaptureEvent,
    post: CaptureRun,
    h2: CaptureHandle,
    action: CaptureAction,
)
    requires
        steps(pre, h, event, post, h2, action),
    ensures
        !streams_on(pre.stage) && streams_on(post.stage) ==> {
            &&& action is StartStream
            &&& event matches CaptureEvent::ArmCheck { armed, .. }
            &&& armed >= pre.enabled_ports@.len()
        },
        action is ReleaseAndJoin ==> streams_on(pre.stage) && event is StreamStarted,
        streams_on(pre.stage) && !streams_on(post.stage) ==> action is StopStream,
        action is Finish ==> !streams_on(pre.stage) && !streams_on(post.stage),
{
}

/// A capture comes to an end: every step leads on to a later stage, except a wait for receivers
/// that are not ready yet and an event that was not waited for.
pub proof fn law_every_step_leads_on(
    pre: CaptureRun,
    h: CaptureHandle,
    event: CaptureEvent,
    post: CaptureRun,
    h2: CaptureHandle,
    action: CaptureAction,
)
    requires
        steps(pre, h, event, post, h2, action),
    ensures
        action is Wait || action is Ignore || rank(pre.stage) < rank(post.stage),
        action is Wait ==> post == pre && h2 == h && !h.abort,
        action is Ignore ==> post == pre && h2 == h,
{
}

/// The result comes with the end of the capture, together with the mark that it is done, and is
/// never replaced.
pub proof fn law_the_result_comes_once(
    pre: CaptureRun,
    h: CaptureHandle,
    event: CaptureEvent,
    post: CaptureRun,
    h2: CaptureHandle,
    action: CaptureAction,
)
    requires
        steps(pre, h, event, post, h2, action),
        pre.stage is Finished <==> h.done,
        h.done <==> h.result is Some,
    ensures
        post.stage is Finished <==> h2.done,
        h2.done <==> h2.result is Some,
        action is Finish <==> h2.done && !h.done,
        h.done ==> h2.result == h.result,
{
}

/// A capture that yields a result has samples of some port to show, and yields it on being given
/// them.
pub proof fn law_success_needs_data(
    pre: CaptureRun,
    h: CaptureHandle,
    event: CaptureEvent,
    post: CaptureRun,
    h2: CaptureHandle,
    action: CaptureAction,
)
    requires
        steps(pre, h, event, post, h2, action),
        h.result is None,
        h2.result is Some,
        h2.result->0 is Ok,
    ensures
        pre.stage is Analyse,
        event matches CaptureEvent::Samples { slots, .. } && crate::capture::ports_with_data(
            slots@,
            slots@.len() as int,
        ).len() > 0,
        h2.result->0->Ok_0.histograms@.len() > 0,
{
}

/// A capture's result shows the ports that data came in on and no others: at least one, each with one
/// spectrum and one histogram, in ascending order, all among the received ones where samples come
/// from nowhere else. Its spectra go by
/// the capture's own sampling rate and oscillator frequency, and have as many bins as the transform
/// is long.
pub proof fn law_a_result_shows_the_ports_with_data(
    pre: CaptureRun,
    h: CaptureHandle,
    event: CaptureEvent,
    post: CaptureRun,
    h2: CaptureHandle,
    action: CaptureAction,
)
    requires
        steps(pre, h, event, post, h2, action),
        fits(pre, event),
        event matches CaptureEvent::Samples { slots, .. } ==> only_from(
            slots@,
            pre.enabled_ports@,
        ),
        h.result is None,
        h2.result is Some,
        h2.result->0 is Ok,
    ensures
        ({
            let r = h2.result->0->Ok_0;
            &&& r.spectra@.len() == r.histograms@.len()
            &&& r.spectra@.len() >= 1
            &&& forall|k: int|
                #![trigger r.spectra@[k]]
                #![trigger r.histograms@[k]]
                0 <= k < r.spectra@.len() ==> {
                    &&& r.spectra@[k].port == r.histograms@[k].port
                    &&& r.enabled_ports@.contains(r.spectra@[k].port)
                    &&& r.spectra@[k].lo_mhz == pre.lo_mhz
                    &&& r.spectra@[k].bin_width_hz == event->analyses@[k].bin_width_hz
                    &&& r.spectra@[k].duration_ms == event->analyses@[k].duration_ms
                    &&& r.spectra@[k].bins@.len() == event->analyses@[k].levels@.len()
                    &&& r.histograms@[k].samples == 2 * event->slots@[r.histograms@[k].port as int]@.len()
                    &&& crate::float::is_whole(r.spectra@[k].smp_rate_mhz.bits, pre.smp_rate)
                    &&& crate::spectrum::is_fft_size(
                        pre.spec.fft_size as nat,
                        r.spectra@[k].bins@.len(),
                    )
                }
            &&& forall|j: int, k: int|
                #![trigger r.spectra@[j], r.spectra@[k]]
                0 <= j < k < r.spectra@.len() ==> r.spectra@[j].port < r.spectra@[k].port
            &&& event matches CaptureEvent::Samples { slots, .. } && forall|p: usize|
                #![trigger slots@[p as int]]
                p < slots@.len() ==> (slots@[p as int]@.len() > 0 <==> exists|k: int|
                    0 <= k < r.spectra@.len() && (#[trigger] r.spectra@[k]).port == p)
            &&& forall|k: int, j: int|
                #![trigger r.spectra@[k].bins@[j]]
                0 <= k < r.spectra@.len() && 0 <= j < r.spectra@[k].bins@.len() ==> {
                    let n = r.spectra@[k].bins@.len() as int;
                    r.spectra@[k].bins@[j] == event->analyses@[k].levels@[(j + n / 2) % n]
                }
            &&& forall|k: int, b: int|
                #![trigger r.histograms@[k].counts@[b]]
                0 <= k < r.histograms@.len() && 0 <= b < 16384 ==> {
                    let own = event->slots@[r.histograms@[k].port as int]@;
                    r.histograms@[k].counts@[b] == own.filter(
                        |s: IqSample| -32768 + 4 * b <= s.re < -32768 + 4 * (b + 1),
                    ).len() + own.filter(
                        |s: IqSample| -32768 + 4 * b <= s.im < -32768 + 4 * (b + 1),
                    ).len()
                }
            &&& h2.phase@ == "done"@
        }),
{
    let r = h2.result->0->Ok_0;
    let slots = event->slots;
    let ports = crate::capture::ports_with_data(slots@, slots@.len() as int);
    crate::capture::law_ports_with_data_are_in_order(slots@, slots@.len() as int);
    assert forall|k: int|
        #![trigger r.spectra@[k]]
        #![trigger r.histograms@[k]]
        0 <= k < r.spectra@.len() implies r.spectra@[k].port == ports[k] && r.histograms@[k].port
        == ports[k] && r.enabled_ports@.contains(ports[k]) && r.spectra@[k].lo_mhz == pre.lo_mhz
        && crate::float::is_whole(r.spectra@[k].smp_rate_mhz.bits, pre.smp_rate)
        && r.spectra@[k].bin_width_hz == event->analyses@[k].bin_width_hz
        && r.spectra@[k].duration_ms == event->analyses@[k].duration_ms
        && r.spectra@[k].bins@.len() == event->analyses@[k].levels@.len()
        && r.histograms@[k].samples == 2 * slots@[r.histograms@[k].port as int]@.len()
        && crate::spectrum::is_fft_size(
        pre.spec.fft_size as nat,
        r.spectra@[k].bins@.len(),
    ) by {
        assert(ports.contains(ports[k]));
        assert(slots@[ports[k] as int]@.len() > 0);
        assert(r.spectra@[k].shows(
            ports[k],
            slots@[ports[k] as int]@.len(),
            pre.spec.fft_size as nat,
            event->analyses@[k],
            pre.smp_rate,
            pre.lo_mhz,
        ));
        assert(r.histograms@[k].describes(ports[k], slots@[ports[k] as int]@));
    }
    assert forall|k: int, j: int|
        #![trigger r.spectra@[k].bins@[j]]
        0 <= k < r.spectra@.len() && 0 <= j < r.spectra@[k].bins@.len() implies ({
        let n = r.spectra@[k].bins@.len() as int;
        r.spectra@[k].bins@[j] == event->analyses@[k].levels@[(j + n / 2) % n]
    }) by {
        crate::capture::law_a_spectrum_shows_its_own_port(
            r.spectra@,
            slots@,
            pre.spec.fft_size as nat,
            event->analyses@,
            pre.smp_rate,
            pre.lo_mhz,
            k,
        );
    }
    assert forall|k: int, b: int|
        #![trigger r.histograms@[k].counts@[b]]
        0 <= k < r.histograms@.len() && 0 <= b < 16384 implies ({
        let own = slots@[r.histograms@[k].port as int]@;
        r.histograms@[k].counts@[b] == own.filter(
            |s: IqSample| -32768 + 4 * b <= s.re < -32768 + 4 * (b + 1),
        ).len() + own.filter(
            |s: IqSample| -32768 + 4 * b <= s.im < -32768 + 4 * (b + 1),
        ).len()
    }) by {
        crate::capture::law_a_histogram_counts_its_own_port(r.histograms@, slots@, k, b);
    }
    assert forall|p: usize| #![trigger slots@[p as int]] p < slots@.len() implies (
    slots@[p as int]@.len() > 0 <==> exists|k: int|
        0 <= k < r.spectra@.len() && (#[trigger] r.spectra@[k]).port == p) by {
        if slots@[p as int]@.len() > 0 {
            assert(ports.contains(p));
            let k = choose|k: int| 0 <= k < ports.len() && ports[k] == p;
            assert(r.spectra@[k].port == p);
        }
        if exists|k: int| 0 <= k < r.spectra@.len() && (#[trigger] r.spectra@[k]).port == p {
            let k = choose|k: int|
                0 <= k < r.spectra@.len() && (#[trigger] r.spectra@[k]).port == p;
            assert(ports[k] == p);
            assert(ports.contains(p));
        }
    }
}

/// A capture goes by what it was asked for from its start to its end: no step changes that.
pub proof fn law_no_step_changes_what_is_asked_for(
    pre: CaptureRun,
    h: CaptureHandle,
    event: CaptureEvent,
    post: CaptureRun,
    h2: CaptureHandle,
    action: CaptureAction,
)
    requires
        steps(pre, h, event, post, h2, action),
    ensures
        post.spec == pre.spec,
        post.lo_mhz == pre.lo_mhz,
{
}

/// A capture that somebody wants to end while its receivers get ready answers that it was
/// cancelled, as soon as the receivers have ended.
pub proof fn law_cancelling_while_arming_is_answered(
    pre: CaptureRun,
    h: CaptureHandle,
    armed: usize,
    mid: CaptureRun,
    h2: CaptureHandle,
    action: CaptureAction,
    h3: CaptureHandle,
    post: CaptureRun,
    h4: CaptureHandle,
    action2: CaptureAction,
)
    requires
        pre.stage is Arm,
        h.abort,
        steps(pre, h, CaptureEvent::ArmCheck { armed, expired: false }, mid, h2, action),
        steps(mid, h3, CaptureEvent::Joined, post, h4, action2),
    ensures
        action is AbortAndJoin,
        action2 is Finish,
        failed_with(h4, cancelled_text()),
{
}

/// A capture that somebody wants to end while it receives answers that it was cancelled, once the
/// streams are stopped.
pub proof fn law_cancelling_while_receiving_is_answered(
    pre: CaptureRun,
    h: CaptureHandle,
    mid: CaptureRun,
    h2: CaptureHandle,
    action: CaptureAction,
    h3: CaptureHandle,
    post: CaptureRun,
    h4: CaptureHandle,
    action2: CaptureAction,
)
    requires
        pre.stage is Receive,
        steps(pre, h, CaptureEvent::Joined, mid, h2, action),
        h3.abort,
        steps(mid, h3, CaptureEvent::StreamStopped, post, h4, action2),
    ensures
        action is StopStream,
        action2 is Finish,
        failed_with(h4, cancelled_text()),
{
}

/// `steps_taken` steps lead a capture through the stages in `runs`. Before step `i` the capture is
/// seen from outside as `before[i]`, after it as `after[i]`. Between two steps others may ask it to
/// end and note its progress, and nothing else.
pub open spec fn is_history(
    runs: Seq<CaptureRun>,
    before: Seq<CaptureHandle>,
    events: Seq<CaptureEvent>,
    actions: Seq<CaptureAction>,
    after: Seq<CaptureHandle>,
    steps_taken: int,
) -> bool {
    &&& forall|i: int|
        0 <= i < steps_taken ==> steps(
            runs[i],
            #[trigger] before[i],
            events[i],
            runs[i + 1],
            after[i],
            actions[i],
        )
    &&& forall|i: int|
        #![trigger after[i]]
        0 <= i < steps_taken ==> {
            &&& after[i].abort ==> before[i + 1].abort
            &&& before[i + 1].result == after[i].result
        }
}

/// Cancelling counts at every stage until the streams are stopped: a capture that has been asked to
/// end by then never yields a result, whatever happens afterwards.
pub proof fn law_a_cancelled_capture_yields_no_result(
    runs: Seq<CaptureRun>,
    before: Seq<CaptureHandle>,
    events: Seq<CaptureEvent>,
    actions: Seq<CaptureAction>,
    after: Seq<CaptureHandle>,
    steps_taken: int,
    i: int,
    j: int,
)
    requires
        is_history(runs, before, events, actions, after, steps_taken),
        0 <= i <= j <= steps_taken,
        before[i].abort,
        before[i].result is None,
        !(runs[i].stage is Analyse),
    ensures
        before[j].abort,
        !(runs[j].stage is Analyse),
        !(before[j].result matches Some(Ok(_))),
    decreases j,
{
    if i < j {
        law_a_cancelled_capture_yields_no_result(
            runs,
            before,
            events,
            actions,
            after,
            steps_taken,
            i,
            j - 1,
        );
        let k = j - 1;
        assert(steps(runs[k], before[k], events[k], runs[k + 1], after[k], actions[k]));
        law_a_step_takes_nothing_back(
            runs[k],
            before[k],
            events[k],
            runs[k + 1],
            after[k],
            actions[k],
        );
        assert(after[k].abort);
        assert(before[k + 1].result == after[k].result);
    }
}

/// Being asked to end, being done and having a result are for good: no step takes them back.
pub proof fn law_a_step_takes_nothing_back(
    pre: CaptureRun,
    h: CaptureHandle,
    event: CaptureEvent,
    post: CaptureRun,
    h2: CaptureHandle,
    action: CaptureAction,
)
    requires
        steps(pre, h, event, post, h2, action),
    ensures
        h.abort ==> h2.abort,
        h.done ==> h2.done,
        h.result is Some ==> h2.result is Some,
{
}

/// The sampling rate that a capture goes by is the one that the device's state shows.
pub proof fn law_the_rate_is_the_one_in_the_status(
    s: crate::control::StatusSnapshot,
    addr: Seq<char>,
    msg: CtrlMsg,
    ts: i64,
)
    requires
        s.reports(addr, msg, ts),
    ensures
        rate_in(msg) == s.health.smp_rate,
{
}

/// Some event takes the capture from `pre` to `post` by way of `action`. What can be seen of the
/// capture from outside may have changed since the step before.
pub open spec fn leads_to(pre: CaptureRun, action: CaptureAction, post: CaptureRun) -> bool {
    exists|h: CaptureHandle, event: CaptureEvent, h2: CaptureHandle|
        steps(pre, h, event, post, h2, action)
}

/// `runs` is the course of a capture, and `actions` what was done on the way.
pub open spec fn is_course(runs: Seq<CaptureRun>, actions: Seq<CaptureAction>) -> bool {
    &&& runs.len() == actions.len() + 1
    &&& forall|i: int|
        0 <= i < actions.len() ==> leads_to(runs[i], #[trigger] actions[i], runs[i + 1])
}

proof fn lemma_streams_stay_on(
    runs: Seq<CaptureRun>,
    actions: Seq<CaptureAction>,
    from: int,
    to: int,
)
    requires
        is_course(runs, actions),
        0 <= from <= to < runs.len(),
        streams_on(runs[from].stage),
        forall|j: int| from <= j < to ==> !((#[trigger] actions[j]) is StopStream),
    ensures
        streams_on(runs[to].stage),
    decreases to - from,
{
    if from < to {
        lemma_streams_stay_on(runs, actions, from, to - 1);
        assert(!(actions[to - 1] is StopStream));
        let pre = runs[to - 1];
        let action = actions[to - 1];
        let post = runs[to - 1 + 1];
        assert(leads_to(pre, action, post));
        let (h, event, h2) = choose|h: CaptureHandle, event: CaptureEvent, h2: CaptureHandle|
            steps(pre, h, event, post, h2, action);
        law_streams_are_started_when_ready_and_always_stopped(pre, h, event, post, h2, action);
    }
}

/// In the course of a capture that comes to its end, streams that are started are stopped again.
pub proof fn law_a_finished_capture_has_stopped_its_streams(
    runs: Seq<CaptureRun>,
    actions: Seq<CaptureAction>,
    i: int,
)
    requires
        is_course(runs, actions),
        runs.last().stage is Finished,
        0 <= i < actions.len(),
        actions[i] is StartStream,
    ensures
        exists|j: int| i < j < actions.len() && (#[trigger] actions[j]) is StopStream,
{
    let pre = runs[i];
    let action = actions[i];
    let post = runs[i + 1];
    assert(leads_to(pre, action, post));
    let (h, event, h2) = choose|h: CaptureHandle, event: CaptureEvent, h2: CaptureHandle|
        steps(pre, h, event, post, h2, action);
    assert(streams_on(post.stage));
    if forall|j: int| i < j < actions.len() ==> !((#[trigger] actions[j]) is StopStream) {
        lemma_streams_stay_on(runs, actions, i + 1, actions.len() as int);
    }
}

proof fn lemma_stages_only_rise(
    runs: Seq<CaptureRun>,
    before: Seq<CaptureHandle>,
    events: Seq<CaptureEvent>,
    actions: Seq<CaptureAction>,
    after: Seq<CaptureHandle>,
    steps_taken: int,
    i: int,
    j: int,
)
    requires
        is_history(runs, before, events, actions, after, steps_taken),
        0 <= i <= j <= steps_taken,
    ensures
        rank(runs[i].stage) <= rank(runs[j].stage),
    decreases j,
{
    if i < j {
        lemma_stages_only_rise(runs, before, events, actions, after, steps_taken, i, j - 1);
        let k = j - 1;
        assert(steps(runs[k], before[k], events[k], runs[k + 1], after[k], actions[k]));
        law_every_step_leads_on(runs[k], before[k], events[k], runs[k + 1], after[k], actions[k]);
    }
}

/// The streams are started at most once in the life of a capture, and stopped at most once.
pub proof fn law_streams_are_started_and_stopped_once(
    runs: Seq<CaptureRun>,
    before: Seq<CaptureHandle>,
    events: Seq<CaptureEvent>,
    actions: Seq<CaptureAction>,
    after: Seq<CaptureHandle>,
    steps_taken: int,
    i: int,
    j: int,
)
    requires
        is_history(runs, before, events, actions, after, steps_taken),
        0 <= i < j < steps_taken,
    ensures
        !(actions[i] is StartStream && actions[j] is StartStream),
        !(actions[i] is StopStream && actions[j] is StopStream),
{
    assert(steps(runs[i], before[i], events[i], runs[i + 1], after[i], actions[i]));
    assert(steps(runs[j], before[j], events[j], runs[j + 1], after[j], actions[j]));
    lemma_stages_only_rise(runs, before, events, actions, after, steps_taken, i + 1, j);
}

/// The streams are started only after every socket has been bound.
pub proof fn law_streams_are_started_after_binding(
    runs: Seq<CaptureRun>,
    before: Seq<CaptureHandle>,
    events: Seq<CaptureEvent>,
    actions: Seq<CaptureAction>,
    after: Seq<CaptureHandle>,
    steps_taken: int,
    i: int,
)
    requires
        is_history(runs, before, events, actions, after, steps_taken),
        runs[0].stage is Discover,
        0 <= i < steps_taken,
        actions[i] is StartStream,
    ensures
        exists|k: int| 0 <= k < i && (#[trigger] events[k]) is Bound,
{
    assert(steps(runs[i], before[i], events[i], runs[i + 1], after[i], actions[i]));
    lemma_arming_follows_binding(runs, before, events, actions, after, steps_taken, i);
}

proof fn lemma_arming_follows_binding(
    runs: Seq<CaptureRun>,
    before: Seq<CaptureHandle>,
    events: Seq<CaptureEvent>,
    actions: Seq<CaptureAction>,
    after: Seq<CaptureHandle>,
    steps_taken: int,
    i: int,
)
    requires
        is_history(runs, before, events, actions, after, steps_taken),
        runs[0].stage is Discover,
        0 <= i <= steps_taken,
        runs[i].stage is Arm,
    ensures
        exists|k: int| 0 <= k < i && (#[trigger] events[k]) is Bound,
    decreases i,
{
    let k = i - 1;
    assert(steps(runs[k], before[k], events[k], runs[k + 1], after[k], actions[k]));
    if runs[k].stage is Arm {
        lemma_arming_follows_binding(runs, before, events, actions, after, steps_taken, k);
    } else {
        assert(events[k] is Bound);
    }
}

/// What is known of the device decides how a capture goes on: without anything known, or with a control
/// address that is not IPv4, it fails and says so; otherwise it asks that device for its rate, and keeps
/// the addresses that this host was matched with.
pub proof fn law_a_capture_needs_a_known_device(
    pre: CaptureRun,
    h: CaptureHandle,
    info: Option<DeviceInfo>,
    post: CaptureRun,
    h2: CaptureHandle,
    action: CaptureAction,
)
    requires
        pre.stage is Discover,
        steps(pre, h, CaptureEvent::Info(info), post, h2, action),
    ensures
        info is None ==> action is Finish && (h2.result matches Some(Err(e)) && e@
            == "no device info for this ip (未发现设备)"@),
        info is Some && info->0.ctrl_addr.v4 is None ==> action is Finish && (
        h2.result matches Some(Err(e)) && e@ == "control address is not IPv4"@),
        info is Some && info->0.ctrl_addr.v4 is Some ==> {
            &&& action is AskRate
            &&& post.stage is Rate
            &&& post.ctrl == Some(info->0.ctrl_addr)
            &&& post.payload == info->0.payload_addr
            &&& h2.phase@ == "query-rate"@
            &&& h2.result == h.result
            &&& h2.done == h.done
        },
{
}

/// The sampling rate is the one in the device's first answer to the query. Without an answer, or with a
/// rate of zero, the capture fails and says so.
pub proof fn law_a_capture_needs_a_rate(
    pre: CaptureRun,
    h: CaptureHandle,
    replies: Vec<Reply>,
    post: CaptureRun,
    h2: CaptureHandle,
    action: CaptureAction,
    i: int,
)
    requires
        pre.stage is Rate,
        steps(pre, h, CaptureEvent::RateReplies(replies), post, h2, action),
    ensures
        crate::control::none_of(replies@, ReplyKind::Status) ==> action is Finish,
        crate::control::is_first(replies@, ReplyKind::Status, i) ==> {
            let rate = replies@[i].msg->health->smp_rate;
            &&& rate == 0 ==> action is Finish
            &&& rate > 0 ==> action is AskXgbe && post.stage is Xgbe && post.smp_rate == rate && h2
                == h && post.ctrl == pre.ctrl && post.payload == pre.payload
        },
        action is Finish ==> (h2.result matches Some(Err(e)) && e@
            == "设备未回复 Query，无法确定采样率/带宽；请先发现并选择设备（或确认设备在线）。"@),
        action is Finish || action is AskXgbe,
{
    let rate = choose|rate: u32| #[trigger]
        is_rate_of(replies@, rate) && if rate == 0 {
            fails(pre, h, post, h2, action, no_rate_text())
        } else {
            &&& post == (CaptureRun { stage: Stage::Xgbe, smp_rate: rate, ..pre })
            &&& action is AskXgbe
            &&& h2 == h
        };
    if crate::control::none_of(replies@, ReplyKind::Status) {
        if exists|j: int| #[trigger] crate::control::is_first(replies@, ReplyKind::Status, j) {
            let j = choose|j: int| #[trigger]
                crate::control::is_first(replies@, ReplyKind::Status, j);
            crate::control::law_no_reply_means_none(replies@, ReplyKind::Status, j);
        }
    }
    if crate::control::is_first(replies@, ReplyKind::Status, i) {
        if crate::control::none_of(replies@, ReplyKind::Status) {
            crate::control::law_no_reply_means_none(replies@, ReplyKind::Status, i);
        }
        let j = choose|j: int| #[trigger]
            crate::control::is_first(replies@, ReplyKind::Status, j) && rate == rate_in(
                replies@[j].msg,
            );
        crate::control::law_the_first_reply_is_unique(replies@, ReplyKind::Status, i, j);
    }
}

/// A port whose destination MAC address has a byte that is not zero is bound, at its own address, and is
/// among the received ones; any other port is left out, and nothing is waited for there. Where that
/// leaves no port the capture fails and says so, and likewise where the device does not tell its
/// settings.
pub proof fn law_a_capture_binds_the_ports_that_are_on(
    pre: CaptureRun,
    h: CaptureHandle,
    replies: Vec<Reply>,
    post: CaptureRun,
    h2: CaptureHandle,
    action: CaptureAction,
    r: int,
    i: usize,
)
    requires
        pre.stage is Xgbe,
        steps(pre, h, CaptureEvent::XgbeReplies(replies), post, h2, action),
        crate::control::is_first(replies@, ReplyKind::Xgbe, r),
        crate::capture::one_entry_each(h.progress@),
        h.progress@.len() == 8,
        i < 8,
    ensures
        ({
            let cfg = replies@[r].msg->XGbeCfgQueryReply_cfg@;
            let on = i < cfg.len() && (exists|b: int|
                0 <= b < 6 && #[trigger] cfg[i as int].dst_mac@[b] != 0);
            let addr = if i < pre.payload@.len() && pre.payload@[i as int] is Some {
                pre.payload@[i as int]->0
            } else {
                V4Addr { ip: cfg[i as int].dst_ip, port: cfg[i as int].dst_port }
            };
            &&& on ==> action is Bind
            &&& action is Bind ==> {
                &&& post.stage is Bind
                &&& post.enabled_ports@.len() + post.skipped_ports@.len() == 8
                &&& action->Bind_0@.len() == post.enabled_ports@.len()
                &&& post.enabled_ports@.len() > 0
                &&& post.smp_rate == pre.smp_rate
                &&& post.ctrl == pre.ctrl
                &&& on <==> post.enabled_ports@.contains(i)
                &&& !on <==> post.skipped_ports@.contains(i)
                &&& on ==> action->Bind_0@.contains((i, addr))
                &&& forall|k: int|
                    0 <= k < action->Bind_0@.len() && (#[trigger] action->Bind_0@[k]).0 == i
                        ==> action->Bind_0@[k].1 == addr
                &&& h2.progress@[i as int].port == i
                &&& h2.progress@[i as int].received == h.progress@[i as int].received
                &&& on ==> h2.progress@[i as int].total == h.progress@[i as int].total
                &&& !on ==> h2.progress@[i as int].total == 0
                &&& h2.phase@ == "arm ("@ + crate::text::decimal(post.enabled_ports@.len())
                    + " ports)"@
                &&& h2.abort == h.abort
                &&& h2.done == h.done
                &&& h2.result == h.result
            }
            &&& !(action is Bind) ==> action is Finish && !on && (h2.result matches Some(Err(e))
                && e@
                == "所有 Xgbe port 的 dst_mac 均为 0，设备未使能任何数据通路（或未完成初始化）"@)
        }),
{
    let cfg = replies@[r].msg->XGbeCfgQueryReply_cfg@;
    if crate::control::none_of(replies@, ReplyKind::Xgbe) {
        crate::control::law_no_reply_means_none(replies@, ReplyKind::Xgbe, r);
    }
    let j = choose|j: int| #[trigger]
        crate::control::is_first(replies@, ReplyKind::Xgbe, j) && settings_step(
            pre,
            h,
            replies@[j].msg->XGbeCfgQueryReply_cfg@,
            post,
            h2,
            action,
        );
    crate::control::law_the_first_reply_is_unique(replies@, ReplyKind::Xgbe, r, j);
    crate::capture::law_ports_are_received_or_left_out(cfg, 8, i);
    let off = crate::capture::ports_off(cfg, 8);
    crate::capture::law_leaving_out_changes_totals_only(h.progress@, off, i as int);
    if i < cfg.len() {
        assert(crate::capture::is_zero_mac(cfg[i as int].dst_mac) <==> !(exists|b: int|
            0 <= b < 6 && #[trigger] cfg[i as int].dst_mac@[b] != 0));
    }
    let on = crate::capture::ports_on(cfg, 8);
    if on.contains(i) {
        let k = choose|k: int| 0 <= k < on.len() && on[k] == i;
        if action is Bind {
            assert(action->Bind_0@[k] == (i, crate::capture::port_addr(cfg, pre.payload@, i as int)));
        }
    }
}

/// A device that does not tell its settings ends the capture.
pub proof fn law_a_capture_needs_the_settings(
    pre: CaptureRun,
    h: CaptureHandle,
    replies: Vec<Reply>,
    post: CaptureRun,
    h2: CaptureHandle,
    action: CaptureAction,
)
    requires
        pre.stage is Xgbe,
        steps(pre, h, CaptureEvent::XgbeReplies(replies), post, h2, action),
        crate::control::none_of(replies@, ReplyKind::Xgbe),
    ensures
        action is Finish,
        h2.result matches Some(Err(e)) && e@ == "XGbeCfgQuery 无回复"@,
{
    if exists|j: int| #[trigger] crate::control::is_first(replies@, ReplyKind::Xgbe, j) {
        let j = choose|j: int| #[trigger] crate::control::is_first(replies@, ReplyKind::Xgbe, j);
        crate::control::law_no_reply_means_none(replies@, ReplyKind::Xgbe, j);
    }
}

/// A socket that cannot be bound ends the capture with its address and the reason; once all are bound,
/// the receivers are looked after.
pub proof fn law_a_capture_needs_its_sockets(
    pre: CaptureRun,
    h: CaptureHandle,
    addr: V4Addr,
    reason: String,
    post: CaptureRun,
    h2: CaptureHandle,
    action: CaptureAction,
)
    requires
        pre.stage is Bind,
    ensures
        steps(pre, h, CaptureEvent::BindFailed { addr, reason }, post, h2, action) ==> action is Finish
            && (h2.result matches Some(Err(e)) && e@ == "bind "@ + crate::address::v4_text(addr)
            + ": "@ + reason@),
        steps(pre, h, CaptureEvent::Bound, post, h2, action) ==> action is CheckArmed && post.stage is Arm
            && h2 == h,
{
}

/// While the receivers get ready: once the time is over the capture is given up; a wish to end is
/// answered before that; the streams are started when as many are ready as ports are received; and until
/// then it waits. Whatever is given up, the receivers are made to end.
pub proof fn law_arming_has_four_ends(
    pre: CaptureRun,
    h: CaptureHandle,
    armed: usize,
    expired: bool,
    post: CaptureRun,
    h2: CaptureHandle,
    action: CaptureAction,
)
    requires
        pre.stage is Arm,
        steps(pre, h, CaptureEvent::ArmCheck { armed, expired }, post, h2, action),
    ensures
        expired ==> action is AbortAndJoin && post.stage is Abandon && post.failure@
            == "部分抓取端口未能就绪"@ && h2.abort,
        !expired && h.abort ==> action is AbortAndJoin && post.stage is Abandon && post.failure@
            == "已取消"@ && h2.abort,
        !expired && !h.abort && armed >= pre.enabled_ports@.len() ==> action is StartStream
            && post.stage is Start && h2.phase@ == "stream-start"@ && !h2.abort,
        !expired && !h.abort && armed < pre.enabled_ports@.len() ==> action is Wait && post == pre
            && h2 == h,
        h2.done == h.done,
        h2.result == h.result,
        h2.progress == h.progress,
        post.enabled_ports == pre.enabled_ports,
        post.skipped_ports == pre.skipped_ports,
{
}

/// The rest of a capture runs in one order: streams started, receivers let go and waited for, streams
/// stopped, samples analysed. A capture that was given up ends with its reason once its receivers have.
pub proof fn law_a_capture_runs_in_order(
    pre: CaptureRun,
    h: CaptureHandle,
    post: CaptureRun,
    h2: CaptureHandle,
    action: CaptureAction,
)
    ensures
        pre.stage is Start && steps(pre, h, CaptureEvent::StreamStarted, post, h2, action)
            ==> action is ReleaseAndJoin && post.stage is Receive && h2.phase@ == "capture"@,
        pre.stage is Receive && steps(pre, h, CaptureEvent::Joined, post, h2, action)
            ==> action is StopStream && post.stage is Stop && h2 == h,
        pre.stage is Stop && h.abort && steps(
            pre,
            h,
            CaptureEvent::StreamStopped,
            post,
            h2,
            action,
        ) ==> action is Finish && (h2.result matches Some(Err(e)) && e@ == "已取消"@),
        pre.stage is Stop && !h.abort && steps(
            pre,
            h,
            CaptureEvent::StreamStopped,
            post,
            h2,
            action,
        ) ==> action is AnalyseSamples && post.stage is Analyse && h2.phase@ == "analyze"@,
        pre.stage is Abandon && steps(pre, h, CaptureEvent::Joined, post, h2, action)
            ==> action is Finish && (h2.result matches Some(Err(e)) && e@ == pre.failure@),
{
}

/// A capture on which no sample came in fails, and names the ports that it was received on.
pub proof fn law_silence_is_a_failure(
    pre: CaptureRun,
    h: CaptureHandle,
    slots: Vec<Vec<IqSample>>,
    analyses: Vec<PortAnalysis>,
    post: CaptureRun,
    h2: CaptureHandle,
    action: CaptureAction,
)
    requires
        pre.stage is Analyse,
        slots@.len() <= usize::MAX,
        steps(pre, h, CaptureEvent::Samples { slots, analyses }, post, h2, action),
    ensures
        action is Finish,
        h2.done,
        post.stage is Finished,
        h2.result is Some,
        h2.result->0 is Err <==> (forall|i: int|
            0 <= i < slots@.len() ==> (#[trigger] slots@[i])@.len() == 0),
        h2.result->0 is Err ==> h2.result->0->Err_0@ == "未收到任何数据帧（已使能端口 "@
            + crate::text::bracketed(pre.enabled_ports@) + "，可能设备未起流或配置异常）"@,
        h2.result->0 is Ok ==> h2.result->0->Ok_0.enabled_ports@ == pre.enabled_ports@
            && h2.result->0->Ok_0.skipped_ports@ == pre.skipped_ports@,
{
    let ports = crate::capture::ports_with_data(slots@, slots@.len() as int);
    crate::capture::law_ports_with_data_are_in_order(slots@, slots@.len() as int);
    if ports.len() > 0 {
        assert(ports.contains(ports[0]));
        assert(slots@[ports[0] as int]@.len() > 0);
    } else {
        assert forall|i: int| 0 <= i < slots@.len() implies (#[trigger] slots@[i])@.len() == 0 by {
            assert(!ports.contains(i as usize));
        }
    }
}

/// A failure leaves everything but the result and the mark that the capture is done as it was; and what a
/// step does not speak of stays.
pub proof fn law_a_failure_changes_nothing_else(
    pre: CaptureRun,
    h: CaptureHandle,
    event: CaptureEvent,
    post: CaptureRun,
    h2: CaptureHandle,
    action: CaptureAction,
)
    requires
        steps(pre, h, event, post, h2, action),
        h.result is None,
    ensures
        h2.result is Some && h2.result->0 is Err ==> {
            &&& action is Finish
            &&& h2.done
            &&& h2.abort == h.abort
            &&& h2.phase == h.phase
            &&& h2.progress == h.progress
            &&& post == (CaptureRun { stage: Stage::Finished, ..pre })
        },
        !(pre.stage is Xgbe) ==> h2.progress == h.progress,
        h2.abort != h.abort ==> action is AbortAndJoin,
{
}

/// Only what a capture waits for counts: any other event changes nothing and asks for nothing.
pub proof fn law_only_what_is_waited_for_counts(
    pre: CaptureRun,
    h: CaptureHandle,
    event: CaptureEvent,
    post: CaptureRun,
    h2: CaptureHandle,
    action: CaptureAction,
)
    requires
        steps(pre, h, event, post, h2, action),
        pre.stage is Discover ==> !(event is Info),
        pre.stage is Rate ==> !(event is RateReplies),
        pre.stage is Xgbe ==> !(event is XgbeReplies),
        pre.stage is Bind ==> !(event is Bound) && !(event is BindFailed),
        pre.stage is Arm ==> !(event is ArmCheck),
        pre.stage is Start ==> !(event is StreamStarted),
        pre.stage is Receive ==> !(event is Joined),
        pre.stage is Stop ==> !(event is StreamStopped),
        pre.stage is Analyse ==> !(event is Samples),
        pre.stage is Abandon ==> !(event is Joined),
    ensures
        action is Ignore,
        post == pre,
        h2 == h,
{
}

/// What a capture has found out stays: where the device is from the first step on, the rate and the ports
/// from the steps on that gave them. The result and the mark that it is done come with the end alone, and
/// the reason for giving up with giving up.
pub proof fn law_what_is_found_out_stays(
    pre: CaptureRun,
    h: CaptureHandle,
    event: CaptureEvent,
    post: CaptureRun,
    h2: CaptureHandle,
    action: CaptureAction,
)
    requires
        steps(pre, h, event, post, h2, action),
    ensures
        !(action is AskRate) ==> post.ctrl == pre.ctrl && post.payload == pre.payload,
        !(action is AskXgbe) ==> post.smp_rate == pre.smp_rate,
        !(action is Bind) ==> post.enabled_ports == pre.enabled_ports && post.skipped_ports
            == pre.skipped_ports && h2.progress == h.progress,
        !(action is AbortAndJoin) ==> post.failure == pre.failure && h2.abort == h.abort,
        !(action is Finish) ==> h2.result == h.result && h2.done == h.done,
        action is Finish <==> post.stage is Finished && !(action is Ignore),
        action is AskXgbe || action is CheckArmed || action is Wait || action is StopStream
            || action is AbortAndJoin || action is Ignore ==> h2.phase == h.phase,
{
}

} // verus!
