use syncdaq_web::address::V4Addr;
use syncdaq_web::capture::{
    histograms_of, mark_skipped, select_ports, spectrum_jobs, spectrum_result, updated_progress,
    CaptureHandle, CaptureSpec, PortProgress, PortReceiver, RecvEvent, Window, PORTS, REPORT_EVERY,
};
use syncdaq_web::control::XGbeCfg;
use syncdaq_web::float::{Float32, Float64};
use syncdaq_web::histogram::IqSample;
use syncdaq_web::spectrum::SpectrumPlan;

fn cfg(mac: u8, n: u8) -> XGbeCfg {
    XGbeCfg {
        dst_mac: [0, 0, 0, 0, 0, mac],
        src_mac: [9; 6],
        dst_ip: [10, 0, 0, n],
        src_ip: [10, 0, 1, n],
        dst_port: 4000 + n as u16,
        src_port: 5000,
    }
}

fn spec(fft_size: usize) -> CaptureSpec {
    CaptureSpec::from_config(10, fft_size, "hann", 100, 0)
}

#[test]
fn windows_by_name() {
    assert_eq!(Window::from_name("rect"), Window::Rect);
    assert_eq!(Window::from_name(" None\t"), Window::Rect);
    assert_eq!(Window::from_name("BOXCAR"), Window::Rect);
    assert_eq!(Window::from_name("hann"), Window::Hann);
    assert_eq!(Window::from_name("blackman"), Window::Hann);
    assert_eq!(Window::from_name(""), Window::Hann);
}

#[test]
fn spec_from_configuration() {
    let s = CaptureSpec::from_config(1, 2, "none", 3, 4);
    assert_eq!(
        s,
        CaptureSpec {
            frames_per_port: 1,
            fft_size: 2,
            window: Window::Rect,
            timeout_ms: 3,
            local_ctrl_port: 4,
        }
    );
}

#[test]
fn new_capture_is_queued() {
    let h = CaptureHandle::new(77);
    assert!(!h.abort && !h.done && h.result.is_none());
    assert_eq!(h.phase, "queued");
    assert_eq!(h.progress.len(), PORTS);
    for (i, p) in h.progress.iter().enumerate() {
        assert_eq!(*p, PortProgress { port: i, received: 0, total: 77 });
    }
}

#[test]
fn phase_is_noted() {
    let mut h = CaptureHandle::new(1);
    h.set_phase("discover");
    assert_eq!(h.phase, "discover");
    assert_eq!(h.progress.len(), 8);
}

#[test]
fn progress_of_one_port_changes() {
    let mut p = CaptureHandle::new(100).progress;
    updated_progress(&mut p, 3, 25);
    assert_eq!(p[3], PortProgress { port: 3, received: 25, total: 100 });
    assert_eq!(p[2], PortProgress { port: 2, received: 0, total: 100 });
    let before = p.clone();
    updated_progress(&mut p, 8, 1);
    assert_eq!(p, before);
}

#[test]
fn progress_of_the_first_entry_counts() {
    let mut p = vec![
        PortProgress { port: 1, received: 0, total: 5 },
        PortProgress { port: 1, received: 0, total: 6 },
    ];
    updated_progress(&mut p, 1, 4);
    assert_eq!((p[0].received, p[1].received), (4, 0));
}

#[test]
fn ports_left_out_wait_for_nothing() {
    let mut p = CaptureHandle::new(100).progress;
    mark_skipped(&mut p, &vec![0, 7, 9]);
    let totals: Vec<usize> = p.iter().map(|e| e.total).collect();
    assert_eq!(totals, vec![0, 100, 100, 100, 100, 100, 100, 0]);
    assert!(p.iter().all(|e| e.received == 0));
}

#[test]
fn ports_are_selected() {
    let matched = V4Addr { ip: [192, 168, 0, 5], port: 6000 };
    let settings = vec![cfg(1, 0), cfg(0, 1), cfg(2, 2)];
    let plan = select_ports(&settings, &vec![Some(matched), Some(matched)]);
    assert_eq!(plan.enabled_ports, vec![0, 2]);
    assert_eq!(plan.skipped_ports, vec![1, 3, 4, 5, 6, 7]);
    assert_eq!(
        plan.ports,
        vec![(0, matched), (2, V4Addr { ip: [10, 0, 0, 2], port: 4002 })]
    );
}

#[test]
fn ports_without_a_match_use_the_settings() {
    let plan = select_ports(&vec![cfg(1, 0)], &vec![None]);
    assert_eq!(plan.ports, vec![(0, V4Addr { ip: [10, 0, 0, 0], port: 4000 })]);
}

#[test]
fn at_most_eight_ports_are_selected() {
    let settings: Vec<XGbeCfg> = (0..12).map(|n| cfg(1, n)).collect();
    let plan = select_ports(&settings, &Vec::new());
    assert_eq!(plan.enabled_ports, vec![0, 1, 2, 3, 4, 5, 6, 7]);
    assert!(plan.skipped_ports.is_empty());
    let plan = select_ports(&Vec::new(), &Vec::new());
    assert!(plan.ports.is_empty() && plan.enabled_ports.is_empty());
    assert_eq!(plan.skipped_ports.len(), 8);
}

#[test]
fn receiver_takes_frames() {
    let frame = [IqSample { re: 1, im: 2 }, IqSample { re: 3, im: 4 }];
    let mut r = PortReceiver::new(5, 26);
    for n in 1..=26usize {
        assert!(r.wants_more(false, false));
        assert_eq!(r.on_recv(RecvEvent::WrongSize), None);
        assert_eq!(r.on_recv(RecvEvent::Idle), Some(n - 1));
        let report = r.on_recv(RecvEvent::Frame(&frame));
        assert_eq!(report, if n == REPORT_EVERY { Some(25) } else { None });
    }
    assert_eq!((r.port, r.received, r.samples.len()), (5, 26, 52));
    assert_eq!(r.samples[50], frame[0]);
    assert!(!r.wants_more(false, false));
}

#[test]
fn receiver_ends_early() {
    let r = PortReceiver::new(0, 3);
    assert!(r.wants_more(false, false));
    assert!(!r.wants_more(true, false));
    assert!(!r.wants_more(false, true));
    assert!(!PortReceiver::new(0, 0).wants_more(false, false));
}

#[test]
fn ports_with_data_are_analysed() {
    let data = vec![IqSample { re: 0, im: 0 }; 10];
    let slots = vec![Vec::new(), data.clone(), Vec::new(), data];
    let jobs = spectrum_jobs(&slots, &spec(4));
    assert_eq!(jobs.iter().map(|j| j.port).collect::<Vec<_>>(), vec![1, 3]);
    assert_eq!(jobs[0].plan, SpectrumPlan::new(10, 4));
    assert_eq!((jobs[1].plan.blocks, jobs[1].plan.samples_used), (2, 8));
    let h = histograms_of(&slots);
    assert_eq!(h.iter().map(|j| j.port).collect::<Vec<_>>(), vec![1, 3]);
    assert_eq!((h[0].samples, h[0].counts[8192]), (20, 20));
}

#[test]
fn spectrum_is_put_in_order_of_frequency() {
    let levels: Vec<Float32> = (0..4u32).map(|bits| Float32 { bits }).collect();
    let plan = SpectrumPlan::new(9, 4);
    let f = |bits: u64| Float64 { bits };
    let s = spectrum_result(6, &plan, &levels, f(1), f(2), f(3), f(4));
    assert_eq!((s.port, s.samples_used, s.blocks), (6, 8, 2));
    assert_eq!(s.bins.iter().map(|b| b.bits).collect::<Vec<_>>(), vec![2, 3, 0, 1]);
    assert_eq!(
        (s.bin_width_hz.bits, s.smp_rate_mhz.bits, s.lo_mhz.bits, s.duration_ms.bits),
        (1, 2, 3, 4)
    );
}
