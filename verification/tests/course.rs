use syncdaq_web::address::{Endpoint, V4Addr};
use syncdaq_web::capture::{CaptureHandle, CaptureSpec, DeviceInfo, PortAnalysis};
use syncdaq_web::control::{CtrlMsg, Health, Reply, XGbeCfg};
use syncdaq_web::float::{Float32, Float64};
use syncdaq_web::histogram::IqSample;
use syncdaq_web::run::{sample_rate, CaptureAction, CaptureEvent, CaptureRun, Stage};

fn endpoint(v4: bool) -> Endpoint {
    Endpoint {
        text: "10.0.0.1:3000".to_string(),
        ip: "10.0.0.1".to_string(),
        port: 3000,
        v4: if v4 { Some(V4Addr { ip: [10, 0, 0, 1], port: 3000 }) } else { None },
    }
}

fn info() -> CaptureEvent {
    CaptureEvent::Info(Some(DeviceInfo { ctrl_addr: endpoint(true), payload_addr: vec![None] }))
}

fn query_reply(smp_rate: u32) -> Reply {
    Reply {
        addr: "10.0.0.1:3000".to_string(),
        msg: CtrlMsg::QueryReply {
            msg_id: 0,
            fm_ver: 0,
            tick_cnt1: 0,
            tick_cnt2: 0,
            trans_state: 0,
            locked: 0,
            health: Health::T510Health {
                rfdc_restart_cnt: 0,
                temperature: Float32 { bits: 0 },
                nports: 8,
                fifo_full_cnt: 0,
                over_voltage_state: 0,
                over_range_state: 0,
                smp_rate,
                fan_pulse_cnt: 0,
                pkt_cnt1: vec![],
                axi_frame_cnt1: vec![],
                pkt_cnt2: vec![],
                axi_frame_cnt2: vec![],
            },
        },
        json: None,
    }
}

fn other() -> Reply {
    Reply { addr: "x".to_string(), msg: CtrlMsg::Other, json: None }
}

fn xgbe(macs: &[u8]) -> CaptureEvent {
    let cfg = macs
        .iter()
        .map(|m| XGbeCfg {
            dst_mac: [*m; 6],
            src_mac: [0; 6],
            dst_ip: [10, 0, 0, 9],
            src_ip: [0; 4],
            dst_port: 4000,
            src_port: 0,
        })
        .collect();
    CaptureEvent::XgbeReplies(vec![Reply {
        addr: "x".to_string(),
        msg: CtrlMsg::XGbeCfgQueryReply { msg_id: 0, cfg },
        json: None,
    }])
}

const LO: Float64 = Float64 { bits: 0x4076_8000_0000_0000 };

fn spec() -> CaptureSpec {
    CaptureSpec::from_config(10, 3, "hann", 100, 0)
}

fn analysis() -> PortAnalysis {
    PortAnalysis {
        levels: (0..4u32).map(|bits| Float32 { bits }).collect(),
        bin_width_hz: Float64 { bits: 7 },
        duration_ms: Float64 { bits: 8 },
    }
}

fn slots(port: usize) -> Vec<Vec<IqSample>> {
    let mut v: Vec<Vec<IqSample>> = vec![Vec::new(); 8];
    v[port] = vec![IqSample { re: 1, im: 1 }; 4];
    v
}

/// A capture that waits for its two receivers to be ready.
fn arming() -> (CaptureRun, CaptureHandle) {
    let mut h = CaptureHandle::new(10);
    let mut run = CaptureRun::start(&mut h, spec(), LO);
    assert_eq!(h.phase, "discover");
    assert!(matches!(run.step(&mut h, info()), CaptureAction::AskRate));
    assert_eq!(h.phase, "query-rate");
    let rate = CaptureEvent::RateReplies(vec![other(), query_reply(240)]);
    assert!(matches!(run.step(&mut h, rate), CaptureAction::AskXgbe));
    match run.step(&mut h, xgbe(&[1, 0, 2])) {
        CaptureAction::Bind(ports) => {
            let addr = V4Addr { ip: [10, 0, 0, 9], port: 4000 };
            assert_eq!(ports, vec![(0, addr), (2, addr)]);
        }
        a => panic!("{a:?}"),
    }
    assert_eq!(h.phase, "arm (2 ports)");
    assert!(matches!(run.step(&mut h, CaptureEvent::Bound), CaptureAction::CheckArmed));
    (run, h)
}

/// A capture whose receivers have been let go.
fn receiving() -> (CaptureRun, CaptureHandle) {
    let (mut run, mut h) = arming();
    let ready = CaptureEvent::ArmCheck { armed: 2, expired: false };
    assert!(matches!(run.step(&mut h, ready), CaptureAction::StartStream));
    assert_eq!(h.phase, "stream-start");
    assert!(matches!(run.step(&mut h, CaptureEvent::StreamStarted), CaptureAction::ReleaseAndJoin));
    assert_eq!(h.phase, "capture");
    (run, h)
}

fn failure(h: &CaptureHandle) -> String {
    assert!(h.done);
    match &h.result {
        Some(Err(e)) => e.clone(),
        _ => panic!("no failure"),
    }
}

#[test]
fn network_settings_are_asked_of_the_device() {
    let mut h = CaptureHandle::new(10);
    let mut run = CaptureRun::start(&mut h, spec(), LO);
    assert!(run.xgbe_plan().is_none());
    run.step(&mut h, info());
    let p = run.xgbe_plan().unwrap();
    assert_eq!((p.target.text.as_str(), p.target.port), ("10.0.0.1:3000", 3000));
    assert_eq!((p.timeout_ms, p.bind_port, p.debug), (100, 0, 0));
    assert!(matches!(p.cmd, CtrlMsg::XGbeCfgQuery { msg_id: 0 }));
}

#[test]
fn rate_of_the_first_answer() {
    assert_eq!(sample_rate(&vec![other(), query_reply(240), query_reply(480)]), 240);
    assert_eq!(sample_rate(&vec![other()]), 0);
}

#[test]
fn capture_runs_to_its_result() {
    let (mut run, mut h) = receiving();
    assert!(matches!(run.step(&mut h, CaptureEvent::Joined), CaptureAction::StopStream));
    let stopped = run.step(&mut h, CaptureEvent::StreamStopped);
    assert!(matches!(stopped, CaptureAction::AnalyseSamples));
    assert_eq!(h.phase, "analyze");
    assert_eq!(run.smp_rate, 240);
    let samples = CaptureEvent::Samples { slots: slots(2), analyses: vec![analysis()] };
    assert!(matches!(run.step(&mut h, samples), CaptureAction::Finish));
    assert_eq!((h.phase.as_str(), h.done), ("done", true));
    match &h.result {
        Some(Ok(r)) => {
            assert_eq!(r.enabled_ports, vec![0, 2]);
            assert_eq!(r.skipped_ports, vec![1, 3, 4, 5, 6, 7]);
            assert_eq!((r.spectra.len(), r.spectra[0].port), (1, 2));
            let s = &r.spectra[0];
            assert_eq!((s.blocks, s.samples_used, s.bins.len()), (1, 4, 4));
            assert_eq!(s.bins.iter().map(|b| b.bits).collect::<Vec<_>>(), vec![2, 3, 0, 1]);
            assert_eq!(f64::from_bits(s.smp_rate_mhz.bits), 240.0);
            assert_eq!(f64::from_bits(s.lo_mhz.bits), 360.0);
            assert_eq!((s.bin_width_hz.bits, s.duration_ms.bits), (7, 8));
            assert_eq!((r.histograms.len(), r.histograms[0].port), (1, 2));
            assert_eq!((r.histograms[0].samples, r.histograms[0].counts[8192]), (8, 8));
        }
        _ => panic!("no result"),
    }
}

#[test]
fn result_shows_the_ports_with_data() {
    let (mut run, mut h) = receiving();
    run.step(&mut h, CaptureEvent::Joined);
    run.step(&mut h, CaptureEvent::StreamStopped);
    let mut both = slots(2);
    both[0] = vec![IqSample { re: 1, im: 1 }; 9];
    let samples = CaptureEvent::Samples { slots: both, analyses: vec![analysis(), analysis()] };
    run.step(&mut h, samples);
    match &h.result {
        Some(Ok(r)) => {
            assert_eq!(r.spectra.iter().map(|s| s.port).collect::<Vec<_>>(), vec![0, 2]);
            assert_eq!(r.histograms.iter().map(|s| s.port).collect::<Vec<_>>(), vec![0, 2]);
            assert_eq!((r.spectra[0].blocks, r.spectra[0].samples_used), (2, 8));
        }
        _ => panic!("no result"),
    }
}

#[test]
fn progress_shows_the_ports_left_out() {
    let (_, h) = arming();
    let totals: Vec<usize> = h.progress.iter().map(|p| p.total).collect();
    assert_eq!(totals, vec![10, 0, 10, 0, 0, 0, 0, 0]);
}

#[test]
fn unknown_device_fails() {
    let mut h = CaptureHandle::new(1);
    let mut run = CaptureRun::start(&mut h, spec(), LO);
    assert!(matches!(run.step(&mut h, CaptureEvent::Info(None)), CaptureAction::Finish));
    assert_eq!(failure(&h), "no device info for this ip (未发现设备)");
    assert_eq!(h.phase, "discover");
}

#[test]
fn control_address_must_be_v4() {
    let mut h = CaptureHandle::new(1);
    let mut run = CaptureRun::start(&mut h, spec(), LO);
    let info = DeviceInfo { ctrl_addr: endpoint(false), payload_addr: vec![] };
    run.step(&mut h, CaptureEvent::Info(Some(info)));
    assert_eq!(failure(&h), "control address is not IPv4");
}

#[test]
fn rate_must_be_known() {
    for replies in [vec![], vec![other()], vec![query_reply(0), query_reply(240)]] {
        let mut h = CaptureHandle::new(1);
        let mut run = CaptureRun::start(&mut h, spec(), LO);
        run.step(&mut h, info());
        run.step(&mut h, CaptureEvent::RateReplies(replies));
        assert_eq!(
            failure(&h),
            "设备未回复 Query，无法确定采样率/带宽；请先发现并选择设备（或确认设备在线）。"
        );
    }
}

#[test]
fn network_settings_must_be_known() {
    let mut h = CaptureHandle::new(1);
    let mut run = CaptureRun::start(&mut h, spec(), LO);
    run.step(&mut h, info());
    run.step(&mut h, CaptureEvent::RateReplies(vec![query_reply(240)]));
    run.step(&mut h, CaptureEvent::XgbeReplies(vec![other()]));
    assert_eq!(failure(&h), "XGbeCfgQuery 无回复");
}

#[test]
fn some_port_must_be_on() {
    let mut h = CaptureHandle::new(1);
    let mut run = CaptureRun::start(&mut h, spec(), LO);
    run.step(&mut h, info());
    run.step(&mut h, CaptureEvent::RateReplies(vec![query_reply(240)]));
    run.step(&mut h, xgbe(&[0, 0]));
    assert_eq!(
        failure(&h),
        "所有 Xgbe port 的 dst_mac 均为 0，设备未使能任何数据通路（或未完成初始化）"
    );
    assert!(h.progress.iter().all(|p| p.total == 1));
}

#[test]
fn sockets_must_be_bound() {
    let mut h = CaptureHandle::new(1);
    let mut run = CaptureRun::start(&mut h, spec(), LO);
    run.step(&mut h, info());
    run.step(&mut h, CaptureEvent::RateReplies(vec![query_reply(240)]));
    run.step(&mut h, xgbe(&[1]));
    let addr = V4Addr { ip: [10, 0, 0, 9], port: 4000 };
    let event = CaptureEvent::BindFailed { addr, reason: "in use".to_string() };
    assert!(matches!(run.step(&mut h, event), CaptureAction::Finish));
    assert_eq!(failure(&h), "bind 10.0.0.9:4000: in use");
}

#[test]
fn receivers_get_time_to_be_ready() {
    let (mut run, mut h) = arming();
    let waiting = CaptureEvent::ArmCheck { armed: 1, expired: false };
    assert!(matches!(run.step(&mut h, waiting), CaptureAction::Wait));
    assert_eq!(run.stage, Stage::Arm);
    let late = CaptureEvent::ArmCheck { armed: 2, expired: true };
    assert!(matches!(run.step(&mut h, late), CaptureAction::AbortAndJoin));
    assert!(h.abort && !h.done);
    assert!(matches!(run.step(&mut h, CaptureEvent::Joined), CaptureAction::Finish));
    assert_eq!(failure(&h), "部分抓取端口未能就绪");
}

#[test]
fn cancelling_while_arming() {
    let (mut run, mut h) = arming();
    h.abort = true;
    let ready = CaptureEvent::ArmCheck { armed: 2, expired: false };
    assert!(matches!(run.step(&mut h, ready), CaptureAction::AbortAndJoin));
    assert!(matches!(run.step(&mut h, CaptureEvent::Joined), CaptureAction::Finish));
    assert_eq!(failure(&h), "已取消");
}

#[test]
fn cancelling_while_receiving_stops_the_streams_first() {
    let (mut run, mut h) = receiving();
    h.abort = true;
    assert!(matches!(run.step(&mut h, CaptureEvent::Joined), CaptureAction::StopStream));
    assert!(matches!(run.step(&mut h, CaptureEvent::StreamStopped), CaptureAction::Finish));
    assert_eq!(failure(&h), "已取消");
    assert_eq!(h.phase, "capture");
}

#[test]
fn cancelling_early_yields_no_result() {
    let mut h = CaptureHandle::new(1);
    let mut run = CaptureRun::start(&mut h, spec(), LO);
    h.abort = true;
    run.step(&mut h, info());
    run.step(&mut h, CaptureEvent::RateReplies(vec![query_reply(240)]));
    run.step(&mut h, xgbe(&[1]));
    run.step(&mut h, CaptureEvent::Bound);
    run.step(&mut h, CaptureEvent::ArmCheck { armed: 1, expired: false });
    run.step(&mut h, CaptureEvent::Joined);
    assert_eq!(failure(&h), "已取消");
}

#[test]
fn silence_fails() {
    let (mut run, mut h) = receiving();
    run.step(&mut h, CaptureEvent::Joined);
    run.step(&mut h, CaptureEvent::StreamStopped);
    let none = CaptureEvent::Samples { slots: vec![Vec::new(); 8], analyses: vec![] };
    assert!(matches!(run.step(&mut h, none), CaptureAction::Finish));
    assert_eq!(
        failure(&h),
        "未收到任何数据帧（已使能端口 [0, 2]，可能设备未起流或配置异常）"
    );
    assert_eq!(h.phase, "analyze");
}

#[test]
fn unexpected_events_change_nothing() {
    let (mut run, mut h) = arming();
    assert!(matches!(run.step(&mut h, CaptureEvent::Joined), CaptureAction::Ignore));
    assert!(matches!(run.step(&mut h, info()), CaptureAction::Ignore));
    assert_eq!((run.stage, h.phase.as_str()), (Stage::Arm, "arm (2 ports)"));
}

#[test]
fn finished_capture_keeps_its_result() {
    let mut h = CaptureHandle::new(1);
    let mut run = CaptureRun::start(&mut h, spec(), LO);
    run.step(&mut h, CaptureEvent::Info(None));
    assert!(matches!(run.step(&mut h, info()), CaptureAction::Ignore));
    assert_eq!(failure(&h), "no device info for this ip (未发现设备)");
}
