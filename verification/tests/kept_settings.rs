use syncdaq_web::config::{
    default_capture_frames, default_capture_timeout_ms, default_clock_source, default_fft_size,
    default_lo_mhz, default_local_ctrl_port, default_poll_interval_ms, default_timeout_ms,
    default_window, Config, PathBase, SaveAction, SaveEvent, SaveFault, Stored,
};
use syncdaq_web::float::Float32;
use syncdaq_web::settings::{
    default_adapt, default_eq, xgbe_in_to_settings, DeviceSettings, DsaSetting, QsfpSetting,
    XgbePortIn, XgbePortSetting,
};

fn port(n: u8) -> XgbePortIn {
    XgbePortIn {
        port: n as u32,
        dst_mac: [n, 1, 2, 3, 4, 0xab],
        src_mac: [0, 0, 0, 0, 0, n],
        dst_ip: [10, 0, 0, n],
        src_ip: [192, 168, 1, n],
        dst_port: 4000,
        src_port: 5000,
    }
}

fn check_default(c: &Config) {
    assert_eq!((c.local_ctrl_port, c.timeout_ms, c.poll_interval_ms), (3001, 5000, 2000));
    assert_eq!(c.clock_source, "gps");
    assert_eq!(f64::from_bits(c.lo_mhz.bits), 360.0);
    assert!(c.selected_device.is_none());
    assert_eq!((c.capture.frames_per_port, c.capture.fft_size), (1000, 8192));
    assert_eq!((c.capture.window.as_str(), c.capture.timeout_ms), ("hann", 5000));
}

#[test]
fn built_in_configuration() {
    check_default(&Config::default());
    assert_eq!(default_local_ctrl_port(), 3001);
    assert_eq!(default_timeout_ms(), 5000);
    assert_eq!(default_poll_interval_ms(), 2000);
    assert_eq!(default_clock_source(), "gps");
    assert_eq!(default_lo_mhz().bits, 360.0f64.to_bits());
    assert_eq!(default_capture_frames(), 1000);
    assert_eq!(default_fft_size(), 8192);
    assert_eq!(default_capture_timeout_ms(), 5000);
    assert_eq!(default_window(), "hann");
}

#[test]
fn configuration_path() {
    let p = Config::path(true, true);
    assert_eq!(p.base, PathBase::XdgConfigHome);
    assert_eq!(p.parts, vec!["syncdaq_web".to_string(), "config.yaml".to_string()]);
    let p = Config::path(false, true);
    assert_eq!(p.base, PathBase::Home);
    assert_eq!(p.parts.join("/"), ".config/syncdaq_web/config.yaml");
    let p = Config::path(false, false);
    assert_eq!(p.base, PathBase::Current);
    assert_eq!(p.parts.join("/"), "syncdaq_web/config.yaml");
}

#[test]
fn settings_lie_beside_the_configuration() {
    for (xdg, home) in [(true, false), (false, true), (false, false)] {
        let c = Config::path(xdg, home);
        let s = DeviceSettings::path(xdg, home);
        assert_eq!(c.base, s.base);
        assert_eq!(c.parts[..c.parts.len() - 1], s.parts[..s.parts.len() - 1]);
        assert_eq!(s.parts[s.parts.len() - 1], "settings.yaml");
    }
}

#[test]
fn configuration_is_loaded() {
    let mut c = Config::default();
    c.timeout_ms = 17;
    let (loaded, save) = Config::load(Stored::Parsed(c));
    assert_eq!((loaded.timeout_ms, save), (17, false));
    let (loaded, save) = Config::load(Stored::Malformed);
    check_default(&loaded);
    assert!(!save);
    let (loaded, save) = Config::load(Stored::Unreadable);
    check_default(&loaded);
    assert!(save);
}

#[test]
fn configuration_is_saved_step_by_step() {
    assert_eq!(Config::save(SaveEvent::Begin { in_dir: true }), SaveAction::MakeDir);
    assert_eq!(Config::save(SaveEvent::Begin { in_dir: false }), SaveAction::Render);
    assert_eq!(Config::save(SaveEvent::DirMade { ok: true }), SaveAction::Render);
    assert_eq!(Config::save(SaveEvent::DirMade { ok: false }), SaveAction::Report(SaveFault::Dir));
    assert_eq!(Config::save(SaveEvent::Rendered { ok: true }), SaveAction::Write);
    assert_eq!(Config::save(SaveEvent::Rendered { ok: false }), SaveAction::Report(SaveFault::Render));
    assert_eq!(Config::save(SaveEvent::Written { ok: true }), SaveAction::Done);
    assert_eq!(Config::save(SaveEvent::Written { ok: false }), SaveAction::Report(SaveFault::Write));
}

#[test]
fn settings_are_saved_step_by_step() {
    assert_eq!(DeviceSettings::save(SaveEvent::Begin { in_dir: true }), SaveAction::MakeDir);
    assert_eq!(DeviceSettings::save(SaveEvent::Begin { in_dir: false }), SaveAction::Render);
    assert_eq!(DeviceSettings::save(SaveEvent::DirMade { ok: false }), SaveAction::Render);
    assert_eq!(DeviceSettings::save(SaveEvent::Rendered { ok: true }), SaveAction::Write);
    assert_eq!(
        DeviceSettings::save(SaveEvent::Rendered { ok: false }),
        SaveAction::Report(SaveFault::Render)
    );
    assert_eq!(DeviceSettings::save(SaveEvent::Written { ok: false }), SaveAction::Done);
}

#[test]
fn blank_settings() {
    for s in [DeviceSettings::default(), DeviceSettings::load(Stored::Malformed), DeviceSettings::load(Stored::Unreadable)] {
        assert!(s.xgbe.is_empty() && s.dsa.is_empty());
        assert_eq!(s.qsfp, QsfpSetting { cdr_ctrl: 0, eq_ctrl: [0; 4], adapt_eq: [0; 4] });
    }
    assert_eq!(default_eq(), [5; 4]);
    assert_eq!(default_adapt(), [1; 4]);
    let x = XgbePortSetting::default();
    assert_eq!((x.port, x.dst_mac.as_str(), x.src_ip.as_str(), x.src_port), (0, "", "", 0));
    assert_eq!(DsaSetting::default(), DsaSetting { port: 0, dsa_value: Float32 { bits: 0 } });
}

#[test]
fn settings_are_loaded() {
    let mut s = DeviceSettings::default();
    s.remember_qsfp(3, [1; 4], [2; 4]);
    assert_eq!(DeviceSettings::load(Stored::Parsed(s)).qsfp.cdr_ctrl, 3);
}

#[test]
fn port_settings_as_text() {
    let r = xgbe_in_to_settings(&[port(7), port(200)]);
    assert_eq!(r.len(), 2);
    assert_eq!(r[0].port, 7);
    assert_eq!(r[0].dst_mac, "07:01:02:03:04:ab");
    assert_eq!(r[0].src_mac, "00:00:00:00:00:07");
    assert_eq!(r[0].dst_ip, "10.0.0.7");
    assert_eq!(r[1].src_ip, "192.168.1.200");
    assert_eq!((r[1].dst_port, r[1].src_port), (4000, 5000));
}

#[test]
fn text_form_tells_settings_apart() {
    let a = xgbe_in_to_settings(&[port(1)]);
    let b = xgbe_in_to_settings(&[port(2)]);
    assert_ne!(a[0].dst_mac, b[0].dst_mac);
    assert_ne!(a[0].dst_ip, b[0].dst_ip);
}

#[test]
fn settings_are_remembered_group_by_group() {
    let mut s = DeviceSettings::default();
    s.remember_xgbe(&[port(1)]);
    s.remember_dsa(vec![DsaSetting { port: 4, dsa_value: Float32 { bits: 5 } }]);
    s.remember_qsfp(0xff, [1, 2, 3, 4], [5, 6, 7, 8]);
    assert_eq!(s.xgbe.len(), 1);
    assert_eq!(s.dsa, vec![DsaSetting { port: 4, dsa_value: Float32 { bits: 5 } }]);
    assert_eq!(s.qsfp, QsfpSetting { cdr_ctrl: 255, eq_ctrl: [1, 2, 3, 4], adapt_eq: [5, 6, 7, 8] });
    s.remember_xgbe(&[]);
    assert!(s.xgbe.is_empty());
    assert_eq!(s.dsa.len(), 1);
}
