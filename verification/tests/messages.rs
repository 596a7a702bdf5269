use serde_json::Value;
use syncdaq_web::address::{Endpoint, V4Addr};
use syncdaq_web::control::{
    clock_source_cfg, cmd_clr_ov, cmd_get_dsa, cmd_label, cmd_mixer, cmd_qsfp_info, cmd_qsfp_set,
    cmd_query, cmd_reboot, cmd_set_clk, cmd_set_dsa, cmd_stream_start, cmd_stream_stop, cmd_sync,
    cmd_xgbe_cfg_single, cmd_xgbe_query, default_init_commands, find_reply, first_status,
    first_status_at, parse_status, parse_target, send, status_at, unpack_fm_ver, xgbe_cfg,
    CmdReplySummary, CtrlMsg, Health, Reply, ReplyKind, SummaryView, XGbeCfg,
};
use syncdaq_web::float::{Float32, Float64};

fn health(smp_rate: u32) -> Health {
    Health::T510Health {
        rfdc_restart_cnt: 1,
        temperature: Float32 { bits: 41.5f32.to_bits() },
        nports: 8,
        fifo_full_cnt: 2,
        over_voltage_state: 3,
        over_range_state: 4,
        smp_rate,
        fan_pulse_cnt: 5,
        pkt_cnt1: vec![1, 2],
        axi_frame_cnt1: vec![3],
        pkt_cnt2: vec![4, 5, 6],
        axi_frame_cnt2: vec![],
    }
}

fn query_reply(tick_cnt1: u32, tick_cnt2: u32, locked: u32) -> CtrlMsg {
    CtrlMsg::QueryReply {
        msg_id: 9,
        fm_ver: (17 << 27) | (11 << 23) | (25 << 17) | (23 << 12) | (59 << 6) | 58,
        tick_cnt1,
        tick_cnt2,
        trans_state: 6,
        locked,
        health: health(240),
    }
}

fn reply(addr: &str, msg: CtrlMsg) -> Reply {
    Reply { addr: addr.to_string(), msg, json: None }
}

fn cfg(n: u8) -> XGbeCfg {
    XGbeCfg {
        dst_mac: [n; 6],
        src_mac: [n + 1; 6],
        dst_ip: [10, 0, 0, n],
        src_ip: [10, 0, 1, n],
        dst_port: 4000 + n as u16,
        src_port: 5000 + n as u16,
    }
}

fn endpoint() -> Endpoint {
    Endpoint {
        text: "10.100.11.20:3000".to_string(),
        ip: "10.100.11.20".to_string(),
        port: 3000,
        v4: Some(V4Addr { ip: [10, 100, 11, 20], port: 3000 }),
    }
}

#[test]
fn version_word_is_unpacked() {
    let word = (17 << 27) | (11 << 23) | (25 << 17) | (23 << 12) | (59 << 6) | 58;
    assert_eq!(unpack_fm_ver(word), (2025, 11, 17, 23, 59, 58));
    assert_eq!(unpack_fm_ver(0), (2000, 0, 0, 0, 0, 0));
    assert_eq!(unpack_fm_ver(u32::MAX), (2063, 15, 31, 31, 63, 63));
}

#[test]
fn version_word_is_its_fields() {
    for word in [0u32, 1, 0x8000_0000, 0x1234_5678, 0xdead_beef, u32::MAX] {
        let (y, mo, d, h, mi, s) = unpack_fm_ver(word);
        assert_eq!((d << 27) | (mo << 23) | ((y - 2000) << 17) | (h << 12) | (mi << 6) | s, word);
    }
}

#[test]
fn status_is_read_from_a_query_reply() {
    let s = status_at("10.0.0.1:3000", &query_reply(5, 10_000_005, 0xff), 77).unwrap();
    assert_eq!(s.addr, "10.0.0.1:3000");
    assert_eq!(
        (s.fm_year, s.fm_month, s.fm_day, s.fm_hour, s.fm_minute, s.fm_second),
        (2025, 11, 17, 23, 59, 58)
    );
    assert_eq!((s.tick_cnt1, s.tick_cnt2, s.trans_state, s.locked), (5, 10_000_005, 6, 0xff));
    assert!(s.sd_lock_ok);
    assert!(s.tick_ok);
    assert_eq!(s.ts, 77);
    assert_eq!(s.health.smp_rate, 240);
    assert_eq!(f32::from_bits(s.health.temperature.bits), 41.5);
    assert_eq!(s.health.pkt_cnt1, vec![1, 2]);
    assert_eq!(s.health.axi_frame_cnt1, vec![3]);
    assert_eq!(s.health.pkt_cnt2, vec![4, 5, 6]);
    assert_eq!(s.health.axi_frame_cnt2, Vec::<u64>::new());
    assert_eq!((s.health.over_voltage_state, s.health.over_range_state), (3, 4));
    assert_eq!((s.health.rfdc_restart_cnt, s.health.fifo_full_cnt), (1, 2));
    assert_eq!((s.health.nports, s.health.fan_pulse_cnt), (8, 5));
}

#[test]
fn status_flags() {
    assert!(!status_at("a", &query_reply(0, 9_999_999, 0x0e), 0).unwrap().tick_ok);
    assert!(!status_at("a", &query_reply(0, 0, 0x0e), 0).unwrap().sd_lock_ok);
    assert!(status_at("a", &query_reply(0, 0, 0xf0f), 0).unwrap().sd_lock_ok);
    assert!(status_at("a", &query_reply(u32::MAX - 4, 9_999_995, 0), 0).unwrap().tick_ok);
}

#[test]
fn no_status_in_another_message() {
    assert!(status_at("a", &cmd_query(), 0).is_none());
    assert!(parse_status("a", &CtrlMsg::Other).is_none());
}

#[test]
fn status_is_stamped_with_the_present_time() {
    let before = chrono::Utc::now().timestamp_millis();
    let s = parse_status("a", &query_reply(0, 0, 0)).unwrap();
    let after = chrono::Utc::now().timestamp_millis();
    assert!(before <= s.ts && s.ts <= after);
}

#[test]
fn first_fitting_reply_counts() {
    let replies = vec![
        reply("a", CtrlMsg::Other),
        reply("b", query_reply(1, 2, 3)),
        reply("c", query_reply(4, 5, 6)),
    ];
    assert_eq!(find_reply(&replies, ReplyKind::Status), Some(1));
    assert_eq!(find_reply(&replies, ReplyKind::Qsfp), None);
    let s = first_status_at(&replies, 5).unwrap();
    assert_eq!((s.addr.as_str(), s.tick_cnt1, s.ts), ("b", 1, 5));
    assert!(first_status(&vec![reply("a", CtrlMsg::Other)]).is_none());
    assert_eq!(first_status(&replies).unwrap().tick_cnt2, 2);
}

#[test]
fn plain_commands() {
    assert!(matches!(cmd_query(), CtrlMsg::Query { msg_id: 0 }));
    assert!(matches!(cmd_sync(), CtrlMsg::Sync { msg_id: 0 }));
    assert!(matches!(cmd_stream_start(), CtrlMsg::StreamStart { msg_id: 0 }));
    assert!(matches!(cmd_stream_stop(), CtrlMsg::StreamStop { msg_id: 0 }));
    assert!(matches!(cmd_reboot(), CtrlMsg::Reboot { msg_id: 0 }));
    assert!(matches!(cmd_clr_ov(), CtrlMsg::ClrOv { msg_id: 0 }));
    assert!(matches!(cmd_qsfp_info(), CtrlMsg::QsfpInfo { msg_id: 0 }));
    assert!(matches!(cmd_xgbe_query(), CtrlMsg::XGbeCfgQuery { msg_id: 0 }));
    assert!(matches!(cmd_get_dsa(3), CtrlMsg::GetDSA { msg_id: 0, port_id: 3 }));
    assert!(matches!(
        cmd_set_dsa(4, Float32 { bits: 9 }),
        CtrlMsg::SetDSA { msg_id: 0, port_id: 4, dsa_value: Float32 { bits: 9 } }
    ));
    assert!(matches!(cmd_set_clk(2, 1), CtrlMsg::SetClk { msg_id: 0, clk_src: 2, pps_src: 1 }));
}

#[test]
fn mixer_command_negates_the_frequency() {
    match cmd_mixer(Float64 { bits: 360.0f64.to_bits() }, 7) {
        CtrlMsg::MixerSet { msg_id, nports, freq, phase, sync } => {
            assert_eq!((msg_id, nports, sync), (0, 8, 7));
            let f: Vec<f64> = freq.iter().map(|x| f64::from_bits(x.bits)).collect();
            assert_eq!(f, vec![-360.0; 8]);
            let p: Vec<f64> = phase.iter().map(|x| f64::from_bits(x.bits)).collect();
            assert_eq!(p, vec![0.0; 8]);
        }
        _ => panic!("not a mixer command"),
    }
}

#[test]
fn optical_module_command() {
    match cmd_qsfp_set(0xa5, [1, -2, 3, -4], [5, 6, 7, 8]) {
        CtrlMsg::QsfpSet { msg_id, restl, modsell, lpmode, cdr_ctrl, eq_ctrl, adapt_eq } => {
            assert_eq!((msg_id, restl, modsell, lpmode), (0, 1, 0, 0));
            assert_eq!(cdr_ctrl, [0xa5, 0, 0, 0]);
            assert_eq!(eq_ctrl, [1, -2, 3, -4]);
            assert_eq!(adapt_eq, [5, 6, 7, 8]);
        }
        _ => panic!("not a setting of the module"),
    }
}

#[test]
fn commands_have_labels() {
    assert_eq!(cmd_label(&cmd_set_clk(2, 1), ""), "SetClk(clk_src=2, pps_src=1)");
    assert_eq!(cmd_label(&cmd_sync(), ""), "Sync");
    assert_eq!(cmd_label(&cmd_xgbe_cfg_single(11, cfg(1)), ""), "XGbeCfgSingle(port 11)");
    let freq = format!("{:?}", vec![-1.5f64; 2]);
    assert_eq!(
        cmd_label(&cmd_mixer(Float64::zero(), 1), &freq),
        "MixerSet(freq=[-1.5, -1.5], sync=1)"
    );
    assert_eq!(cmd_label(&cmd_stream_start(), ""), "StreamStart");
    assert_eq!(cmd_label(&cmd_stream_stop(), ""), "StreamStop");
    assert_eq!(cmd_label(&cmd_query(), ""), "Query");
    assert_eq!(cmd_label(&cmd_reboot(), ""), "Reboot");
    assert_eq!(cmd_label(&cmd_get_dsa(0), ""), "GetDSA(port 0)");
    assert_eq!(cmd_label(&cmd_set_dsa(7, Float32 { bits: 0 }), ""), "SetDSA(port 7)");
    assert_eq!(cmd_label(&cmd_qsfp_info(), ""), "QsfpInfo");
    assert_eq!(cmd_label(&cmd_xgbe_query(), ""), "XGbeCfgQuery");
    assert_eq!(cmd_label(&cmd_clr_ov(), ""), "CtrlMsg");
    assert_eq!(cmd_label(&CtrlMsg::Other, ""), "CtrlMsg");
}

#[test]
fn clock_sources() {
    assert_eq!(clock_source_cfg("gps"), (1, 0));
    assert_eq!(clock_source_cfg("ext_clk"), (2, 1));
    assert_eq!(clock_source_cfg(" EXT "), (2, 1));
    assert_eq!(clock_source_cfg("External"), (2, 1));
    assert_eq!(clock_source_cfg("ext clk"), (1, 0));
    assert_eq!(clock_source_cfg(""), (1, 0));
}

#[test]
fn network_settings_are_read() {
    let replies = vec![
        reply("a", CtrlMsg::Other),
        reply("b", CtrlMsg::XGbeCfgQueryReply { msg_id: 0, cfg: vec![cfg(1), cfg(2)] }),
    ];
    assert_eq!(xgbe_cfg(&replies).unwrap(), vec![cfg(1), cfg(2)]);
    assert_eq!(xgbe_cfg(&Vec::new()).unwrap_err(), "XGbeCfgQuery 无回复");
}

#[test]
fn initialising_replays_the_settings() {
    let freq = Float64 { bits: 100.0f64.to_bits() };
    let cmds = default_init_commands(Ok(vec![cfg(1), cfg(2)]), freq, "ext").unwrap();
    assert_eq!(cmds.len(), 5);
    assert!(matches!(cmds[0], CtrlMsg::SetClk { msg_id: 0, clk_src: 2, pps_src: 1 }));
    assert!(matches!(cmds[1], CtrlMsg::Sync { msg_id: 0 }));
    for i in 0..2u32 {
        match &cmds[2 + i as usize] {
            CtrlMsg::XGbeCfgSingle { msg_id, port_id, cfg: c } => {
                assert_eq!((*msg_id, *port_id, *c), (0, i, cfg(i as u8 + 1)));
            }
            _ => panic!("not a setting of a port"),
        }
    }
    match &cmds[4] {
        CtrlMsg::MixerSet { freq, sync, .. } => {
            assert_eq!(*sync, 1);
            assert_eq!(f64::from_bits(freq[7].bits), -100.0);
        }
        _ => panic!("not a mixer command"),
    }
}

#[test]
fn initialising_needs_the_settings() {
    let r = default_init_commands(Err("no answer".to_string()), Float64::zero(), "gps");
    assert_eq!(r.unwrap_err(), "no answer");
    assert_eq!(default_init_commands(Ok(Vec::new()), Float64::zero(), "gps").unwrap().len(), 3);
}

#[test]
fn commands_go_out_from_a_free_port() {
    let p = send(cmd_query(), endpoint(), 3001, 1234, 5);
    assert_eq!((p.bind_port, p.timeout_ms, p.debug), (0, 1234, 5));
    assert_eq!(p.target.text, "10.100.11.20:3000");
    assert!(matches!(p.cmd, CtrlMsg::Query { msg_id: 0 }));
}

#[test]
fn addresses_are_checked() {
    assert_eq!(parse_target("x", Ok(endpoint())).unwrap().port, 3000);
    let e = parse_target("a\"b\n", Err("invalid socket address syntax".to_string())).unwrap_err();
    assert_eq!(e, "invalid addr \"a\\\"b\\n\": invalid socket address syntax");
    assert_eq!(e, format!("invalid addr {:?}: {}", "a\"b\n", "invalid socket address syntax"));
}

#[test]
fn summary_keeps_order_and_json() {
    let s = CmdReplySummary {
        no_reply: vec!["1.2.3.4:5".to_string()],
        invalid_reply: vec![reply("a", CtrlMsg::Other)],
        normal_reply: vec![
            Reply { addr: "b".to_string(), msg: cmd_sync(), json: Some(Value::Bool(true)) },
            Reply { addr: "c".to_string(), msg: cmd_sync(), json: Some(Value::String("x".to_string())) },
        ],
    };
    let v = SummaryView::from(s);
    assert_eq!(v.no_reply, vec!["1.2.3.4:5".to_string()]);
    assert_eq!((v.invalid.len(), v.invalid[0].addr.as_str()), (1, "a"));
    assert!(v.invalid[0].data.is_none());
    assert_eq!(v.normal.len(), 2);
    assert_eq!(v.normal[0].addr, "b");
    assert_eq!(v.normal[0].data, Some(Value::Bool(true)));
    assert_eq!(v.normal[1].addr, "c");
    assert_eq!(v.normal[1].data, Some(Value::String("x".to_string())));
}
