use serde_json::Value;
use syncdaq_web::address::{Endpoint, V4Addr};
use syncdaq_web::api::{
    capture_ip, capture_order, command_plan, command_plans, do_status, dsa_reading, dsa_readings,
    get_dsa_commands, get_qsfp, get_xgbe_config, index_view, remember_lo, select_device, selected_addr, set_dsa_commands,
    set_xgbe_commands, status_answer, task_failed, xgbe_view, ApiError, ApiStatus, CaptureRequest,
    MAX_DSA_PORTS,
};
use syncdaq_web::capture::{CaptureHandle, CaptureResult, Window};
use syncdaq_web::captures::{CaptureStatus, Captures};
use syncdaq_web::config::Config;
use syncdaq_web::control::{
    cmd_sync, default_init_commands, CtrlMsg, Health, QsfpReport, Reply, StatusSnapshot,
    SummaryView, XGbeCfg,
};
use syncdaq_web::devices::{merge_devices, DeviceEntry};
use syncdaq_web::float::{Float32, Float64};
use syncdaq_web::init::{init_order, InitRun, MIN_INIT_TIMEOUT_MS};
use syncdaq_web::push::{
    first_news, note_status, poll_plan, progress_news, result_news, ws_step, WsAction, WsEvent,
    WsMsg,
};
use syncdaq_web::settings::{DsaSetting, XgbePortIn};

fn endpoint(port: u16) -> Endpoint {
    Endpoint {
        text: format!("10.100.11.20:{port}"),
        ip: "10.100.11.20".to_string(),
        port,
        v4: Some(V4Addr { ip: [10, 100, 11, 20], port }),
    }
}

fn selected() -> Config {
    let mut c = Config::default();
    c.selected_device = Some("10.100.11.20:3000".to_string());
    c
}

fn no_parse() -> Result<Endpoint, String> {
    Err("bad syntax".to_string())
}

fn reply(msg: CtrlMsg) -> Reply {
    Reply { addr: "10.0.0.1:3000".to_string(), msg, json: None }
}

fn query_reply(tick_cnt1: u32) -> Reply {
    reply(CtrlMsg::QueryReply {
        msg_id: 0,
        fm_ver: 0,
        tick_cnt1,
        tick_cnt2: 0,
        trans_state: 0,
        locked: 0,
        health: Health::T510Health {
            rfdc_restart_cnt: 0,
            temperature: Float32 { bits: 0 },
            nports: 8,
            fifo_full_cnt: 0,
            over_voltage_state: 0,
            over_range_state: 0,
            smp_rate: 240,
            fan_pulse_cnt: 0,
            pkt_cnt1: vec![],
            axi_frame_cnt1: vec![],
            pkt_cnt2: vec![],
            axi_frame_cnt2: vec![],
        },
    })
}

fn snapshot(tick_cnt1: u32) -> StatusSnapshot {
    do_status(&vec![query_reply(tick_cnt1)]).unwrap()
}

fn cfg(n: u8) -> XGbeCfg {
    XGbeCfg {
        dst_mac: [n; 6],
        src_mac: [0, 1, 2, 3, 4, n],
        dst_ip: [10, 0, 0, n],
        src_ip: [10, 0, 1, n],
        dst_port: 4000,
        src_port: 5000,
    }
}

fn check_bad(e: &ApiError, msg: &str) {
    assert_eq!((e.status, e.msg.as_str()), (ApiStatus::BadRequest, msg));
}

#[test]
fn errors_say_whose_fault_they_are() {
    check_bad(&ApiError::bad("x".to_string()), "x");
    let e = ApiError::internal("y".to_string());
    assert_eq!((e.status, e.msg.as_str()), (ApiStatus::InternalServerError, "y"));
    let e = task_failed("spawn_blocking", "panicked");
    assert_eq!(
        (e.status, e.msg.as_str()),
        (ApiStatus::InternalServerError, "spawn_blocking: panicked")
    );
}

#[test]
fn a_device_must_be_selected() {
    let e = selected_addr(&Config::default(), Ok(endpoint(3000))).unwrap_err();
    check_bad(&e, "还未选择设备：请先在页面『发现设备』并选中一个");
    let e = selected_addr(&selected(), no_parse()).unwrap_err();
    check_bad(&e, "invalid addr \"10.100.11.20:3000\": bad syntax");
    assert_eq!(selected_addr(&selected(), Ok(endpoint(3000))).unwrap().port, 3000);
}

#[test]
fn commands_go_to_the_selected_device() {
    let mut c = selected();
    c.timeout_ms = 1234;
    let p = command_plan(&c, Ok(endpoint(3000)), cmd_sync()).unwrap();
    assert_eq!((p.bind_port, p.timeout_ms, p.debug, p.target.port), (0, 1234, 0, 3000));
    assert!(matches!(p.cmd, CtrlMsg::Sync { msg_id: 0 }));
    assert!(command_plan(&Config::default(), Ok(endpoint(1)), cmd_sync()).is_err());
}

#[test]
fn lists_of_commands_go_to_the_selected_device() {
    let mut c = selected();
    c.timeout_ms = 77;
    let plans = command_plans(&c, Ok(endpoint(3000)), get_dsa_commands(3)).unwrap();
    assert_eq!(plans.len(), 3);
    for (i, p) in plans.iter().enumerate() {
        assert_eq!((p.bind_port, p.timeout_ms, p.debug), (0, 77, 0));
        assert_eq!((p.target.text.as_str(), p.target.v4), ("10.100.11.20:3000", endpoint(3000).v4));
        match p.cmd {
            CtrlMsg::GetDSA { msg_id: 0, port_id } => assert_eq!(port_id as usize, i),
            _ => panic!("{p:?}"),
        }
    }
    assert!(command_plans(&c, Ok(endpoint(3000)), vec![]).unwrap().is_empty());
    let e = command_plans(&c, no_parse(), vec![]).unwrap_err();
    check_bad(&e, "invalid addr \"10.100.11.20:3000\": bad syntax");
}

#[test]
fn page_is_filled_in() {
    let v = index_view(&selected());
    assert_eq!((v.poll_interval_ms, v.default_frames_per_port, v.default_fft_size), (2000, 1000, 8192));
    assert_eq!(v.default_addr, "10.100.11.20:3000");
    assert_eq!(index_view(&Config::default()).default_addr, "");
}

#[test]
fn selecting_a_device() {
    let mut c = Config::default();
    let e = select_device(&mut c, "x y".to_string(), no_parse()).unwrap_err();
    check_bad(&e, "invalid addr \"x y\": bad syntax");
    assert!(c.selected_device.is_none());
    select_device(&mut c, "10.100.11.20:3000".to_string(), Ok(endpoint(3000))).unwrap();
    assert_eq!(c.selected_device.as_deref(), Some("10.100.11.20:3000"));
    assert_eq!(selected_addr(&c, Ok(endpoint(3000))).unwrap().text, "10.100.11.20:3000");
}

#[test]
fn one_oscillator_frequency() {
    let mut c = selected();
    let f = Float64 { bits: 123.5f64.to_bits() };
    remember_lo(&mut c, f);
    assert_eq!(init_order(&c, Ok(endpoint(3000))).unwrap().freq_mhz, f);
    let req = CaptureRequest {
        device_ip: Some("1.2.3.4".to_string()),
        frames_per_port: None,
        fft_size: None,
        window: None,
        timeout_ms: None,
    };
    assert_eq!(capture_order(&c, req, no_parse()).unwrap().lo_mhz, f);
}

#[test]
fn state_is_answered() {
    let s = do_status(&vec![reply(CtrlMsg::Other), query_reply(7), query_reply(8)]).unwrap();
    assert_eq!((s.tick_cnt1, s.addr.as_str()), (7, "10.0.0.1:3000"));
    check_bad(&do_status(&vec![reply(CtrlMsg::Other)]).unwrap_err(), "设备未回复 Query");
    check_bad(&status_answer(None).unwrap_err(), "设备未回复 Query");
    assert_eq!(status_answer(Some(snapshot(3))).unwrap().tick_cnt1, 3);
}

#[test]
fn optical_report_is_answered() {
    let v = |s: &str| Value::String(s.to_string());
    let report = QsfpReport {
        modpresent: v("modpresent"),
        lpmode: v("lpmode"),
        restl: v("restl"),
        modsell: v("modsell"),
        temperature: v("temperature"),
        vcc: v("vcc"),
        tx_bias: v("tx_bias"),
        rx_power: v("rx_power"),
        tx_power: v("tx_power"),
        los_lol: v("los_lol"),
        alarm: v("alarm"),
        cdr_ctrl: [0x0f, 1, 2, 3],
        eq_ctrl: [-1, 2, -3, 4],
        adapt_eq: [5, 6, 7, 8],
    };
    let msg = CtrlMsg::QsfpInfoReply { msg_id: 0, report };
    let view = get_qsfp(vec![reply(CtrlMsg::Other), reply(msg)]).unwrap();
    assert_eq!(view.cdr_hex, "0x0f");
    assert_eq!(view.report.vcc, v("vcc"));
    assert_eq!(view.report.alarm, v("alarm"));
    assert_eq!(view.report.eq_ctrl, [-1, 2, -3, 4]);
    check_bad(&get_qsfp(vec![]).unwrap_err(), "QSFP 无回复");
}

#[test]
fn network_settings_are_shown() {
    let v = xgbe_view(&vec![cfg(0xab), cfg(1)]);
    assert_eq!((v.nports, v.ports.len()), (2, 2));
    assert_eq!((v.ports[0].port, v.ports[1].port), (0, 1));
    assert_eq!(v.ports[0].dst_mac, "ab:ab:ab:ab:ab:ab");
    assert_eq!(v.ports[1].src_mac, "00:01:02:03:04:01");
    assert_eq!(v.ports[0].dst_ip, "10.0.0.171");
    assert_eq!(v.ports[1].src_ip, "10.0.1.1");
    assert_eq!((v.ports[1].dst_port, v.ports[1].src_port), (4000, 5000));
}

#[test]
fn network_settings_are_answered() {
    let msg = CtrlMsg::XGbeCfgQueryReply { msg_id: 0, cfg: vec![cfg(1)] };
    assert_eq!(get_xgbe_config(&vec![reply(msg)]).unwrap().nports, 1);
    check_bad(&get_xgbe_config(&vec![]).unwrap_err(), "XGbeCfgQuery 无回复");
}

#[test]
fn network_settings_are_made() {
    let port = XgbePortIn {
        port: 6,
        dst_mac: [1; 6],
        src_mac: [2; 6],
        dst_ip: [3; 4],
        src_ip: [4; 4],
        dst_port: 5,
        src_port: 6,
    };
    let cmds = set_xgbe_commands(&[port, XgbePortIn { port: 2, ..port }]);
    assert_eq!(cmds.len(), 2);
    match &cmds[0] {
        CtrlMsg::XGbeCfgSingle { msg_id: 0, port_id: 6, cfg } => assert_eq!(*cfg, port.cfg()),
        m => panic!("{m:?}"),
    }
    assert!(matches!(cmds[1], CtrlMsg::XGbeCfgSingle { port_id: 2, .. }));
    assert_eq!((port.cfg().src_ip, port.cfg().dst_port), ([4; 4], 5));
}

#[test]
fn gains_are_asked_for() {
    let cmds = get_dsa_commands(2);
    assert_eq!(cmds.len(), 2);
    assert!(matches!(cmds[1], CtrlMsg::GetDSA { msg_id: 0, port_id: 1 }));
    assert_eq!(get_dsa_commands(0).len(), 0);
    assert_eq!(get_dsa_commands(u32::MAX).len(), MAX_DSA_PORTS as usize);
}

#[test]
fn gains_are_answered() {
    let gain = |bits| reply(CtrlMsg::GetDSAReply { msg_id: 0, dsa_value: Float32 { bits } });
    let r = dsa_reading(3, &vec![reply(CtrlMsg::Other), gain(5), gain(6)]);
    assert_eq!((r.port, r.dsa_value), (3, Some(Float32 { bits: 5 })));
    assert_eq!(dsa_reading(1, &vec![reply(CtrlMsg::Other)]).dsa_value, None);
}

#[test]
fn every_port_asked_for_is_answered() {
    let gain = |bits| reply(CtrlMsg::GetDSAReply { msg_id: 0, dsa_value: Float32 { bits } });
    let replies = vec![vec![gain(5)], vec![], vec![reply(CtrlMsg::Other), gain(7), gain(8)]];
    let v = dsa_readings(10, &replies);
    assert_eq!(v.len(), 10);
    for (i, r) in v.iter().enumerate() {
        assert_eq!(r.port as usize, i);
    }
    assert_eq!(v[0].dsa_value, Some(Float32 { bits: 5 }));
    assert_eq!(v[1].dsa_value, None);
    assert_eq!(v[2].dsa_value, Some(Float32 { bits: 7 }));
    assert!(v[3..].iter().all(|r| r.dsa_value.is_none()));
    assert_eq!(dsa_readings(1, &replies).len(), 1);
    assert_eq!(dsa_readings(0, &replies).len(), 0);
}

#[test]
fn gains_are_set() {
    let d = |port, bits| DsaSetting { port, dsa_value: Float32 { bits } };
    let cmds = set_dsa_commands(&vec![d(7, 1), d(0, 2)]);
    assert_eq!(cmds.len(), 2);
    assert!(matches!(
        cmds[0],
        CtrlMsg::SetDSA { msg_id: 0, port_id: 7, dsa_value: Float32 { bits: 1 } }
    ));
    assert!(matches!(cmds[1], CtrlMsg::SetDSA { port_id: 0, .. }));
}

#[test]
fn capture_request_is_filled_in() {
    let req = CaptureRequest {
        device_ip: None,
        frames_per_port: Some(5),
        fft_size: None,
        window: Some("BOXCAR".to_string()),
        timeout_ms: Some(9),
    };
    let o = capture_order(&selected(), req.clone(), Ok(endpoint(3000))).unwrap();
    assert_eq!(o.ip, "10.100.11.20");
    assert_eq!((o.spec.frames_per_port, o.spec.fft_size, o.spec.timeout_ms), (5, 8192, 9));
    assert_eq!((o.spec.window, o.spec.local_ctrl_port), (Window::Rect, 0));
    let e = capture_order(&Config::default(), req.clone(), no_parse()).unwrap_err();
    check_bad(&e, "还未选择设备：请先在页面『发现设备』并选中一个");
    let named = CaptureRequest {
        device_ip: Some("1.2.3.4".to_string()),
        frames_per_port: None,
        window: None,
        ..req
    };
    let o = capture_order(&Config::default(), named, no_parse()).unwrap();
    assert_eq!((o.ip.as_str(), o.spec.frames_per_port, o.spec.window), ("1.2.3.4", 1000, Window::Hann));
}

#[test]
fn capture_address_is_checked() {
    assert_eq!(capture_ip("1.2.3.4", Some([1, 2, 3, 4])).unwrap(), [1, 2, 3, 4]);
    let e = capture_ip("a\\b", None).unwrap_err();
    check_bad(&e, &format!("invalid device ip {:?}", "a\\b"));
    assert_eq!(e.msg, "invalid device ip \"a\\\\b\"");
}

#[test]
fn discovery_adds_new_devices() {
    let mut devices: Vec<DeviceEntry> = Vec::new();
    merge_devices(&mut devices, vec![endpoint(1), endpoint(2), endpoint(1)]);
    assert_eq!(devices.len(), 2);
    assert_eq!(devices[0].ctrl_addr, "10.100.11.20:1");
    assert_eq!((devices[1].ip.as_str(), devices[1].port), ("10.100.11.20", 2));
    merge_devices(&mut devices, vec![endpoint(3), endpoint(2)]);
    let addrs: Vec<&str> = devices.iter().map(|d| d.ctrl_addr.as_str()).collect();
    assert_eq!(addrs, vec!["10.100.11.20:1", "10.100.11.20:2", "10.100.11.20:3"]);
    merge_devices(&mut devices, vec![endpoint(3), endpoint(2)]);
    assert_eq!(devices.len(), 3);
}

#[test]
fn news_of_a_capture() {
    let id = "cap-1".to_string();
    let mut h = CaptureHandle::new(4);
    match progress_news(&id, &h) {
        Some(WsMsg::CaptureProgress { capture_id, phase, progress }) => {
            assert_eq!((capture_id.as_str(), phase.as_str(), progress.len()), ("cap-1", "queued", 8));
        }
        m => panic!("{m:?}"),
    }
    assert!(result_news(&id, &h).is_none());
    h.done = true;
    assert!(progress_news(&id, &h).is_none());
    h.result = Some(Err("oops".to_string()));
    match result_news(&id, &h) {
        Some(WsMsg::CaptureError { capture_id, error }) => {
            assert_eq!((capture_id.as_str(), error.as_str()), ("cap-1", "oops"));
        }
        m => panic!("{m:?}"),
    }
    h.result = Some(Ok(CaptureResult {
        enabled_ports: vec![3],
        skipped_ports: vec![],
        spectra: vec![],
        histograms: vec![],
    }));
    match result_news(&id, &h) {
        Some(WsMsg::CaptureResult { result, .. }) => assert_eq!(result.enabled_ports, vec![3]),
        m => panic!("{m:?}"),
    }
}

#[test]
fn connection_of_a_page() {
    assert_eq!(ws_step(WsEvent::News), WsAction::Send);
    assert_eq!(ws_step(WsEvent::NewsLost), WsAction::End);
    assert_eq!(ws_step(WsEvent::Sent { ok: true }), WsAction::Listen);
    assert_eq!(ws_step(WsEvent::Sent { ok: false }), WsAction::End);
    assert_eq!(ws_step(WsEvent::PeerClose), WsAction::End);
    assert_eq!(ws_step(WsEvent::PeerOther), WsAction::Listen);
    assert_eq!(ws_step(WsEvent::PeerLost), WsAction::End);
}

#[test]
fn a_new_page_gets_the_last_state() {
    assert!(first_news(&None).is_none());
    let s = Some(snapshot(9));
    match first_news(&s) {
        Some(WsMsg::Status { payload }) => assert_eq!(payload.tick_cnt1, 9),
        m => panic!("{m:?}"),
    }
}

#[test]
fn polling() {
    assert!(poll_plan(&Config::default(), Ok(endpoint(1))).is_none());
    assert!(poll_plan(&selected(), no_parse()).is_none());
    let p = poll_plan(&selected(), Ok(endpoint(3000))).unwrap();
    assert_eq!((p.bind_port, p.timeout_ms, p.target.port), (0, 5000, 3000));
    assert!(matches!(p.cmd, CtrlMsg::Query { msg_id: 0 }));
}

#[test]
fn polled_states_are_noted() {
    let mut status = None;
    assert!(!note_status(&mut status, None));
    assert!(status.is_none());
    assert!(note_status(&mut status, Some(snapshot(1))));
    assert!(!note_status(&mut status, None));
    match first_news(&status) {
        Some(WsMsg::Status { payload }) => assert_eq!(payload.tick_cnt1, 1),
        m => panic!("{m:?}"),
    }
}

#[test]
fn initialising_takes_its_time() {
    let mut c = selected();
    c.timeout_ms = 100;
    c.clock_source = "ext".to_string();
    let o = init_order(&c, Ok(endpoint(3000))).unwrap();
    assert_eq!((o.query_timeout_ms, o.cmd_timeout_ms), (100, MIN_INIT_TIMEOUT_MS));
    assert_eq!((o.local_ctrl_port, o.clock_source.as_str(), o.target.port), (3001, "ext", 3000));
    c.timeout_ms = 7000;
    assert_eq!(init_order(&c, Ok(endpoint(3000))).unwrap().cmd_timeout_ms, 7000);
    assert!(init_order(&Config::default(), Ok(endpoint(3000))).is_err());
}

#[test]
fn initialising_is_planned() {
    let mut c = selected();
    c.timeout_ms = 100;
    c.clock_source = "ext".to_string();
    let o = init_order(&c, Ok(endpoint(3000))).unwrap();
    let q = o.query_plan();
    assert_eq!((q.timeout_ms, q.bind_port, q.target.port), (100, 0, 3000));
    assert!(matches!(q.cmd, CtrlMsg::XGbeCfgQuery { msg_id: 0 }));
    let p = o.command_plan(cmd_sync());
    assert_eq!((p.timeout_ms, p.bind_port, p.target.port), (5000, 0, 3000));
    assert!(matches!(p.cmd, CtrlMsg::Sync { msg_id: 0 }));
    let msg = CtrlMsg::XGbeCfgQueryReply { msg_id: 0, cfg: vec![cfg(1)] };
    let cmds = o.commands(&vec![reply(msg)]).unwrap();
    assert_eq!(cmds.len(), 4);
    assert!(matches!(cmds[0], CtrlMsg::SetClk { clk_src: 2, pps_src: 1, .. }));
    match &cmds[3] {
        CtrlMsg::MixerSet { freq, .. } => assert_eq!(f64::from_bits(freq[0].bits), -360.0),
        m => panic!("{m:?}"),
    }
    assert_eq!(o.commands(&vec![]).unwrap_err(), "XGbeCfgQuery 无回复");
}

#[test]
fn initialising_step_by_step() {
    let cmds = default_init_commands(Ok(vec![cfg(1)]), Float64::zero(), "gps").unwrap();
    let mut run = InitRun::begin("init-1".to_string(), Some(cmds)).unwrap();
    let names = ["SetClk(clk_src=1, pps_src=0)", "Sync", "XGbeCfgSingle(port 0)", "MixerSet(freq=F, sync=1)"];
    for (i, name) in names.iter().enumerate() {
        let c = run.next("F").unwrap();
        assert_eq!((c.index, c.name.as_str()), (i, *name));
        let view = SummaryView { no_reply: vec![], invalid: vec![], normal: vec![] };
        let answered = i != 1;
        match run.on_reply(c.index, &c.name, if answered { Some(&view) } else { None }) {
            Some(WsMsg::InitStep { init_id, index, name: n, .. }) => {
                assert!(answered);
                assert_eq!((init_id.as_str(), index, n.as_str()), ("init-1", i, *name));
            }
            None => assert!(!answered),
            m => panic!("{m:?}"),
        }
    }
    assert!(run.next("F").is_none());
    match run.done_news() {
        WsMsg::InitDone { init_id, steps } => assert_eq!((init_id.as_str(), steps), ("init-1", 3)),
        m => panic!("{m:?}"),
    }
}

#[test]
fn initialising_without_commands() {
    let id = "init-2".to_string();
    assert!(InitRun::begin(id.clone(), None).is_none());
    match InitRun::no_commands_news(&id) {
        WsMsg::InitError { init_id, error } => {
            assert_eq!((init_id.as_str(), error), ("init-2", "生成 init 命令失败"));
        }
        m => panic!("{m:?}"),
    }
}

const HERE: [u8; 4] = [10, 0, 0, 1];
const THERE: [u8; 4] = [10, 0, 0, 2];

#[test]
fn starting_a_capture_ends_those_on_its_device() {
    let mut c = Captures::new();
    let a = c.start("a".to_string(), HERE, 1);
    let b = c.start("b".to_string(), HERE, 2);
    assert_eq!((a, b), (0, 1));
    assert!(c.handle(a).abort && !c.handle(b).abort);
    c.handle_mut(b).done = true;
    let d = c.start("c".to_string(), HERE, 3);
    assert!(!c.handle(b).abort && !c.handle(d).abort);
    assert_eq!(c.handle(d).progress[0].total, 3);
    assert_eq!(c.find(&"b".to_string()), Some(1));
    assert_eq!(c.find(&"x".to_string()), None);
}

#[test]
fn captures_on_other_devices_go_on() {
    let mut c = Captures::new();
    let a = c.start("a".to_string(), HERE, 1);
    let b = c.start("b".to_string(), THERE, 1);
    assert!(!c.handle(a).abort && !c.handle(b).abort);
    let d = c.start("c".to_string(), THERE, 1);
    assert!(!c.handle(a).abort && c.handle(b).abort && !c.handle(d).abort);
    assert_eq!((c.slots[a].ip, c.slots[d].ip), (HERE, THERE));
}

#[test]
fn a_name_passes_to_the_last_capture() {
    let mut c = Captures::new();
    c.start("a".to_string(), HERE, 1);
    c.start("b".to_string(), HERE, 1);
    c.start("a".to_string(), HERE, 1);
    assert_eq!(c.find(&"a".to_string()), Some(2));
    let names: Vec<String> = c.list().into_iter().map(|l| l.capture_id).collect();
    assert_eq!(names, vec!["b".to_string(), "a".to_string()]);
}

#[test]
fn captures_are_listed() {
    let mut c = Captures::new();
    c.start("a".to_string(), HERE, 1);
    c.start("b".to_string(), HERE, 1);
    c.handle_mut(1).set_phase("capture");
    let l = c.list();
    assert_eq!((l[0].capture_id.as_str(), l[0].done, l[0].aborted, l[0].phase.as_str()), ("a", false, true, "queued"));
    assert_eq!((l[1].done, l[1].aborted, l[1].phase.as_str()), (false, false, "capture"));
}

#[test]
fn cancelling_a_capture() {
    let mut c = Captures::new();
    c.start("a".to_string(), HERE, 1);
    assert_eq!(c.cancel(&"a".to_string()).unwrap(), 0);
    assert!(c.handle(0).abort);
    check_bad(&c.cancel(&"zz".to_string()).unwrap_err(), "no capture zz");
}

#[test]
fn results_are_answered() {
    let mut c = Captures::new();
    let id = "a".to_string();
    check_bad(&c.result(&id).unwrap_err(), "no capture a");
    c.start(id.clone(), HERE, 1);
    assert!(matches!(c.result(&id), Ok(CaptureStatus::Running)));
    c.handle_mut(0).done = true;
    assert!(matches!(c.result(&id), Ok(CaptureStatus::Empty)));
    c.handle_mut(0).result = Some(Err("e".to_string()));
    match c.result(&id) {
        Ok(CaptureStatus::Failed(e)) => assert_eq!(e, "e"),
        r => panic!("{r:?}"),
    }
    c.handle_mut(0).result = Some(Ok(CaptureResult {
        enabled_ports: vec![1],
        skipped_ports: vec![],
        spectra: vec![],
        histograms: vec![],
    }));
    match c.result(&id) {
        Ok(CaptureStatus::Finished(r)) => assert_eq!(r.enabled_ports, vec![1]),
        r => panic!("{r:?}"),
    }
}
