//! What a capture is asked to do, how far it has come, and what it yields.
use vstd::prelude::*;
use vstd::string::*;

use crate::address::V4Addr;
use crate::control::XGbeCfg;
use crate::float::{Float32, Float64};
use crate::histogram::{histogram_of, IqSample, PortHistogram};
use crate::spectrum::{centre_bins, SpectrumPlan};
use crate::text::is_named;

verus! {

/// Number of data ports that a device has.
pub const PORTS: usize = 8;

/// Weighting of the samples in a transform block.
#[derive(Clone, Copy, Debug, PartialEq, Eq, Structural)]
pub enum Window {
    Hann,
    Rect,
}

/// `s` names the window without weighting.
pub open spec fn names_rect(s: Seq<char>) -> bool {
    crate::control::names_any(s, seq!["rect"@, "none"@, "boxcar"@])
}

impl Window {
    /// The window of that name; any name that is not known stands for the Hann window.
    pub fn from_name(s: &str) -> (w: Window)
        ensures
            w == if names_rect(s@) {
                Window::Rect
            } else {
                Window::Hann
            },
    {
        let ghost options = seq!["rect"@, "none"@, "boxcar"@];
        if is_named(s, "rect") {
            assert(crate::text::names(s@, options[0]));
            Window::Rect
        } else if is_named(s, "none") {
            assert(crate::text::names(s@, options[1]));
            Window::Rect
        } else if is_named(s, "boxcar") {
            assert(crate::text::names(s@, options[2]));
            Window::Rect
        } else {
            assert(!names_rect(s@)) by {
                assert forall|i: int| 0 <= i < 3 implies !crate::text::names(
                    s@,
                    #[trigger] options[i],
                ) by {
                    assert(i == 0 || i == 1 || i == 2);
                }
            }
            Window::Hann
        }
    }
}

/// What a capture is asked to do.
#[derive(Clone, Copy, Debug, PartialEq, Eq, Structural)]
pub struct CaptureSpec {
    pub frames_per_port: usize,
    pub fft_size: usize,
    pub window: Window,
    pub timeout_ms: u64,
    pub local_ctrl_port: u16,
}

impl CaptureSpec {
    pub fn from_config(
        frames: usize,
        fft_size: usize,
        window: &str,
        timeout_ms: u64,
        local_ctrl_port: u16,
    ) -> (s: Self)
        ensures
            s == (CaptureSpec {
                frames_per_port: frames,
                fft_size,
                window: if names_rect(window@) {
                    Window::Rect
                } else {
                    Window::Hann
                },
                timeout_ms,
                local_ctrl_port,
            }),
    {
        CaptureSpec {
            frames_per_port: frames,
            fft_size,
            window: Window::from_name(window),
            timeout_ms,
            local_ctrl_port,
        }
    }
}

/// How many of the frames of one port have come in.
#[derive(Clone, Copy, Debug, PartialEq, Eq, Structural)]
pub struct PortProgress {
    pub port: usize,
    pub received: usize,
    /// Frames that are waited for; 0 for a port that is left out.
    pub total: usize,
}

/// Averaged spectrum of one port.
#[derive(Clone, Debug)]
pub struct PortSpectrum {
    pub port: usize,
    pub samples_used: usize,
    pub blocks: usize,
    /// Levels over the whole band, in order of frequency, the zero frequency in the middle; as many
    /// as the transform is long.
    pub bins: Vec<Float32>,
    pub bin_width_hz: Float64,
    pub smp_rate_mhz: Float64,
    /// Frequency of the local oscillator, by which the frequency axis is shifted.
    pub lo_mhz: Float64,
    pub duration_ms: Float64,
}

/// What a capture yields.
#[derive(Clone, Debug)]
pub struct CaptureResult {
    /// Ports that the device sends data for.
    pub enabled_ports: Vec<usize>,
    /// Ports that are switched off in the device and were left out.
    pub skipped_ports: Vec<usize>,
    /// One spectrum for each port that data came in on.
    pub spectra: Vec<PortSpectrum>,
    /// One histogram for each port that data came in on.
    pub histograms: Vec<PortHistogram>,
}

/// State of a capture, as seen from outside.
#[derive(Clone, Debug)]
pub struct CaptureHandle {
    /// Somebody wants the capture to end.
    pub abort: bool,
    pub phase: String,
    pub progress: Vec<PortProgress>,
    pub done: bool,
    pub result: Option<Result<CaptureResult, String>>,
}

/// The progress of a capture that has not begun: no frame of any of the eight ports is in.
pub open spec fn no_progress(frames_per_port: usize) -> Seq<PortProgress> {
    Seq::new(
        PORTS as nat,
        |i: int| PortProgress { port: i as usize, received: 0, total: frames_per_port },
    )
}

impl CaptureHandle {
    /// A capture that waits for its turn.
    pub fn new(frames_per_port: usize) -> (h: Self)
        ensures
            !h.abort,
            h.phase@ == "queued"@,
            h.progress@ == no_progress(frames_per_port),
            !h.done,
            h.result is None,
    {
        let mut progress: Vec<PortProgress> = Vec::new();
        let mut port: usize = 0;
        while port < PORTS
            invariant
                port <= PORTS,
                progress@ == no_progress(frames_per_port).take(port as int),
            decreases PORTS - port,
        {
            progress.push(PortProgress { port, received: 0, total: frames_per_port });
            port = port + 1;
            assert(progress@ =~= no_progress(frames_per_port).take(port as int));
        }
        assert(progress@ =~= no_progress(frames_per_port));
        CaptureHandle { abort: false, phase: "queued".to_string(), progress, done: false, result: None }
    }

    /// `after` is `self` in the phase `phase`.
    pub open spec fn with_phase(&self, phase: Seq<char>, after: CaptureHandle) -> bool {
        &&& after.phase@ == phase
        &&& after == (CaptureHandle { phase: after.phase, ..*self })
    }

    /// Notes which phase the capture is in.
    pub fn set_phase(&mut self, s: &str)
        ensures
            old(self).with_phase(s@, *final(self)),
    {
        self.phase = s.to_string();
    }
}

/// `p` with `f` applied to its first entry for `port`; `p` itself, if there is no such entry.
pub open spec fn with_entry(
    p: Seq<PortProgress>,
    port: usize,
    f: spec_fn(PortProgress) -> PortProgress,
) -> Seq<PortProgress>
    decreases p.len(),
{
    if p.len() == 0 {
        p
    } else if p[0].port == port {
        p.update(0, f(p[0]))
    } else {
        seq![p[0]] + with_entry(p.drop_first(), port, f)
    }
}

proof fn lemma_with_entry_found(
    p: Seq<PortProgress>,
    port: usize,
    f: spec_fn(PortProgress) -> PortProgress,
    i: int,
)
    requires
        0 <= i < p.len(),
        p[i].port == port,
        forall|j: int| 0 <= j < i ==> (#[trigger] p[j]).port != port,
    ensures
        with_entry(p, port, f) == p.update(i, f(p[i])),
    decreases i,
{
    if i > 0 {
        let rest = p.drop_first();
        assert(p[0].port != port);
        assert forall|j: int| 0 <= j < i - 1 implies (#[trigger] rest[j]).port != port by {
            assert(p[j + 1].port != port);
        }
        lemma_with_entry_found(rest, port, f, i - 1);
        assert(seq![p[0]] + rest.update(i - 1, f(p[i])) =~= p.update(i, f(p[i])));
    }
}

proof fn lemma_with_entry_missing(
    p: Seq<PortProgress>,
    port: usize,
    f: spec_fn(PortProgress) -> PortProgress,
)
    requires
        forall|j: int| 0 <= j < p.len() ==> (#[trigger] p[j]).port != port,
    ensures
        with_entry(p, port, f) == p,
    decreases p.len(),
{
    if p.len() > 0 {
        let rest = p.drop_first();
        assert(p[0].port != port);
        assert forall|j: int| 0 <= j < rest.len() implies (#[trigger] rest[j]).port != port by {
            assert(p[j + 1].port != port);
        }
        lemma_with_entry_missing(rest, port, f);
        assert(seq![p[0]] + rest =~= p);
    }
}

fn find_entry(p: &Vec<PortProgress>, port: usize) -> (r: Option<usize>)
    ensures
        match r {
            Some(i) => i < p@.len() && p@[i as int].port == port && forall|j: int|
                0 <= j < i ==> (#[trigger] p@[j]).port != port,
            None => forall|j: int| 0 <= j < p@.len() ==> (#[trigger] p@[j]).port != port,
        },
{
    let mut i: usize = 0;
    while i < p.len()
        invariant
            i <= p@.len(),
            forall|j: int| 0 <= j < i ==> (#[trigger] p@[j]).port != port,
        decreases p@.len() - i,
    {
        if p[i].port == port {
            return Some(i);
        }
        i = i + 1;
    }
    None
}

/// `e` with `received` frames in.
pub open spec fn entry_received(e: PortProgress, received: usize) -> PortProgress {
    PortProgress { received, ..e }
}

/// `e` for a port that is left out.
pub open spec fn entry_skipped(e: PortProgress) -> PortProgress {
    PortProgress { total: 0, ..e }
}

/// The progress `p` once `received` frames of `port` are in.
pub open spec fn progress_received(
    p: Seq<PortProgress>,
    port: usize,
    received: usize,
) -> Seq<PortProgress> {
    with_entry(p, port, |e: PortProgress| entry_received(e, received))
}

/// The progress `p` with the first `n` of the ports in `skipped` left out.
pub open spec fn progress_skipping(p: Seq<PortProgress>, skipped: Seq<usize>, n: int) -> Seq<
    PortProgress,
>
    decreases n,
{
    if n <= 0 {
        p
    } else {
        with_entry(
            progress_skipping(p, skipped, n - 1),
            skipped[n - 1],
            |e: PortProgress| entry_skipped(e),
        )
    }
}

/// Notes how many frames of one port are in.
pub fn updated_progress(progress: &mut Vec<PortProgress>, port_id: usize, received: usize)
    ensures
        final(progress)@ == progress_received(old(progress)@, port_id, received),
{
    let ghost f = |e: PortProgress| entry_received(e, received);
    match find_entry(progress, port_id) {
        Some(i) => {
            proof {
                lemma_with_entry_found(progress@, port_id, f, i as int);
            }
            let e = progress[i];
            progress.set(i, PortProgress { received, ..e });
        },
        None => {
            proof {
                lemma_with_entry_missing(progress@, port_id, f);
            }
        },
    }
}

/// Notes which ports are left out: nothing is waited for there.
pub fn mark_skipped(progress: &mut Vec<PortProgress>, skipped: &Vec<usize>)
    ensures
        final(progress)@ == progress_skipping(
            old(progress)@,
            skipped@,
            skipped@.len() as int,
        ),
{
    let ghost f = |e: PortProgress| entry_skipped(e);
    let ghost before = progress@;
    let mut k: usize = 0;
    while k < skipped.len()
        invariant
            k <= skipped@.len(),
            progress@ == progress_skipping(before, skipped@, k as int),
            f == (|e: PortProgress| entry_skipped(e)),
        decreases skipped@.len() - k,
    {
        let port: usize = skipped[k];
        match find_entry(progress, port) {
            Some(i) => {
                proof {
                    lemma_with_entry_found(progress@, port, f, i as int);
                }
                let e = progress[i];
                progress.set(i, PortProgress { total: 0, ..e });
            },
            None => {
                proof {
                    lemma_with_entry_missing(progress@, port, f);
                }
            },
        }
        k = k + 1;
    }
}

/// Nothing but the entry of one port changes when frames come in, and that entry keeps its total.
pub proof fn law_progress_of_other_ports_is_kept(
    p: Seq<PortProgress>,
    port: usize,
    received: usize,
    i: int,
)
    requires
        0 <= i < p.len(),
    ensures
        progress_received(p, port, received).len() == p.len(),
        progress_received(p, port, received)[i].port == p[i].port,
        progress_received(p, port, received)[i].total == p[i].total,
        p[i].port != port ==> progress_received(p, port, received)[i] == p[i],
    decreases p.len(),
{
    let f = |e: PortProgress| entry_received(e, received);
    lemma_with_entry_len(p, port, f);
    if p[0].port != port {
        let rest = p.drop_first();
        lemma_with_entry_len(rest, port, f);
        if i > 0 {
            law_progress_of_other_ports_is_kept(rest, port, received, i - 1);
            assert(progress_received(p, port, received)[i] == progress_received(
                rest,
                port,
                received,
            )[i - 1]);
        }
    }
}

proof fn lemma_with_entry_len(
    p: Seq<PortProgress>,
    port: usize,
    f: spec_fn(PortProgress) -> PortProgress,
)
    ensures
        with_entry(p, port, f).len() == p.len(),
    decreases p.len(),
{
    if p.len() > 0 && p[0].port != port {
        lemma_with_entry_len(p.drop_first(), port, f);
    }
}

/// `p` has one entry for each port, in order.
pub open spec fn one_entry_each(p: Seq<PortProgress>) -> bool {
    forall|i: int| 0 <= i < p.len() ==> (#[trigger] p[i]).port == i
}

/// Leaving ports out sets their totals to zero and changes nothing else.
pub proof fn law_ports_left_out_wait_for_nothing(
    p: Seq<PortProgress>,
    skipped: Seq<usize>,
    n: int,
    i: int,
)
    requires
        one_entry_each(p),
        0 <= n <= skipped.len(),
        0 <= i < p.len() <= usize::MAX,
    ensures
        progress_skipping(p, skipped, n).len() == p.len(),
        one_entry_each(progress_skipping(p, skipped, n)),
        progress_skipping(p, skipped, n)[i] == if skipped.take(n).contains(i as usize) {
            entry_skipped(p[i])
        } else {
            p[i]
        },
    decreases n,
{
    let f = |e: PortProgress| entry_skipped(e);
    if n > 0 {
        law_ports_left_out_wait_for_nothing(p, skipped, n - 1, i);
        let before = progress_skipping(p, skipped, n - 1);
        let port = skipped[n - 1];
        assert(skipped.take(n) =~= skipped.take(n - 1).push(port));
        lemma_push_contains(skipped.take(n - 1), port, i as usize);
        if port < p.len() {
            lemma_with_entry_found(before, port, f, port as int);
        } else {
            lemma_with_entry_missing(before, port, f);
        }
    } else {
        assert(skipped.take(0) =~= Seq::empty());
    }
}

/// Where a device is, and where its ports send their data as far as this host can tell.
#[derive(Clone, Debug)]
pub struct DeviceInfo {
    pub ctrl_addr: crate::address::Endpoint,
    pub payload_addr: Vec<Option<V4Addr>>,
}

/// A MAC address of zeros, which switches a port off.
pub open spec fn is_zero_mac(m: [u8; 6]) -> bool {
    forall|i: int| 0 <= i < 6 ==> #[trigger] m@[i] == 0
}

/// The device sends data for port `i`.
pub open spec fn port_on(cfg: Seq<XGbeCfg>, i: int) -> bool {
    0 <= i < cfg.len() && !is_zero_mac(cfg[i].dst_mac)
}

/// Where the data of port `i` is received: the address that this host was matched with, or else
/// the destination that the device is set up with.
pub open spec fn port_addr(cfg: Seq<XGbeCfg>, payload: Seq<Option<V4Addr>>, i: int) -> V4Addr {
    if i < payload.len() && payload[i] is Some {
        payload[i]->0
    } else {
        V4Addr { ip: cfg[i].dst_ip, port: cfg[i].dst_port }
    }
}

/// The ports below `n` that the device sends data for, in order.
pub open spec fn ports_on(cfg: Seq<XGbeCfg>, n: int) -> Seq<usize>
    decreases n,
{
    if n <= 0 {
        Seq::empty()
    } else if port_on(cfg, n - 1) {
        ports_on(cfg, n - 1).push((n - 1) as usize)
    } else {
        ports_on(cfg, n - 1)
    }
}

/// The ports below `n` that the device sends no data for, in order.
pub open spec fn ports_off(cfg: Seq<XGbeCfg>, n: int) -> Seq<usize>
    decreases n,
{
    if n <= 0 {
        Seq::empty()
    } else if port_on(cfg, n - 1) {
        ports_off(cfg, n - 1)
    } else {
        ports_off(cfg, n - 1).push((n - 1) as usize)
    }
}

/// Every port in `ports` is higher than those before it.
pub open spec fn ascending(ports: Seq<usize>) -> bool {
    forall|i: int, j: int| 0 <= i < j < ports.len() ==> #[trigger] ports[i] < #[trigger] ports[j]
}

/// Which ports are received, and where.
#[derive(Clone, Debug)]
pub struct PortPlan {
    pub ports: Vec<(usize, V4Addr)>,
    pub enabled_ports: Vec<usize>,
    pub skipped_ports: Vec<usize>,
}

impl PortPlan {
    /// This is the plan for the network settings `cfg` and the addresses `payload`.
    pub open spec fn plans(&self, cfg: Seq<XGbeCfg>, payload: Seq<Option<V4Addr>>) -> bool {
        &&& self.enabled_ports@ == ports_on(cfg, PORTS as int)
        &&& self.skipped_ports@ == ports_off(cfg, PORTS as int)
        &&& self.ports@ == self.enabled_ports@.map_values(
            |i: usize| (i, port_addr(cfg, payload, i as int)),
        )
    }
}

fn zero_mac(m: &[u8; 6]) -> (r: bool)
    ensures
        r == is_zero_mac(*m),
{
    let mut i: usize = 0;
    while i < 6
        invariant
            i <= 6,
            forall|k: int| 0 <= k < i ==> #[trigger] m@[k] == 0,
        decreases 6 - i,
    {
        if m[i] != 0 {
            return false;
        }
        i = i + 1;
    }
    true
}

/// Decides which ports to receive and where. A port whose destination MAC address is all zero, or
/// that the device did not tell of, is left out.
pub fn select_ports(cfg: &Vec<XGbeCfg>, payload: &Vec<Option<V4Addr>>) -> (plan: PortPlan)
    ensures
        plan.plans(cfg@, payload@),
{
    let mut ports: Vec<(usize, V4Addr)> = Vec::new();
    let mut enabled_ports: Vec<usize> = Vec::new();
    let mut skipped_ports: Vec<usize> = Vec::new();
    let ghost place = |i: usize| (i, port_addr(cfg@, payload@, i as int));
    let mut i: usize = 0;
    assert(ports@ =~= enabled_ports@.map_values(place));
    while i < PORTS
        invariant
            i <= PORTS,
            place == (|i: usize| (i, port_addr(cfg@, payload@, i as int))),
            enabled_ports@ == ports_on(cfg@, i as int),
            skipped_ports@ == ports_off(cfg@, i as int),
            ports@ == enabled_ports@.map_values(place),
        decreases PORTS - i,
    {
        if i >= cfg.len() || zero_mac(&cfg[i].dst_mac) {
            skipped_ports.push(i);
        } else {
            let matched: Option<V4Addr> = if i < payload.len() {
                payload[i]
            } else {
                None
            };
            let addr = match matched {
                Some(a) => a,
                None => V4Addr { ip: cfg[i].dst_ip, port: cfg[i].dst_port },
            };
            let ghost before = enabled_ports@;
            enabled_ports.push(i);
            ports.push((i, addr));
            assert(before.push(i).map_values(place) =~= before.map_values(place).push(place(i)));
        }
        i = i + 1;
    }
    PortPlan { ports, enabled_ports, skipped_ports }
}

/// Every one of the first `n` ports is received or left out, and never both: received if and only
/// if the device sends data for it.
pub proof fn law_ports_are_received_or_left_out(cfg: Seq<XGbeCfg>, n: int, i: usize)
    requires
        0 <= n <= PORTS,
    ensures
        ports_on(cfg, n).contains(i) <==> i < n && port_on(cfg, i as int),
        ports_off(cfg, n).contains(i) <==> i < n && !port_on(cfg, i as int),
        ports_on(cfg, n).len() + ports_off(cfg, n).len() == n,
    decreases n,
{
    if n > 0 {
        law_ports_are_received_or_left_out(cfg, n - 1, i);
        let on = ports_on(cfg, n - 1);
        let off = ports_off(cfg, n - 1);
        let last = (n - 1) as usize;
        if port_on(cfg, n - 1) {
            lemma_push_contains(on, last, i);
        } else {
            lemma_push_contains(off, last, i);
        }
    }
}

/// The ports that are received and the ports that are left out are both listed in ascending order.
pub proof fn law_ports_are_listed_in_order(cfg: Seq<XGbeCfg>, n: int)
    requires
        0 <= n <= PORTS,
    ensures
        ascending(ports_on(cfg, n)),
        ascending(ports_off(cfg, n)),
    decreases n,
{
    if n > 0 {
        law_ports_are_listed_in_order(cfg, n - 1);
        let on = ports_on(cfg, n - 1);
        let off = ports_off(cfg, n - 1);
        let last = (n - 1) as usize;
        assert forall|i: int| 0 <= i < on.len() implies #[trigger] on[i] < last by {
            law_ports_are_received_or_left_out(cfg, n - 1, on[i]);
            assert(on.contains(on[i]));
        }
        assert forall|i: int| 0 <= i < off.len() implies #[trigger] off[i] < last by {
            law_ports_are_received_or_left_out(cfg, n - 1, off[i]);
            assert(off.contains(off[i]));
        }
    }
}

proof fn lemma_push_contains(s: Seq<usize>, x: usize, y: usize)
    ensures
        s.push(x).contains(y) <==> s.contains(y) || x == y,
{
    if s.contains(y) {
        let k = choose|k: int| 0 <= k < s.len() && s[k] == y;
        assert(s.push(x)[k] == y);
    }
    if x == y {
        assert(s.push(x)[s.len() as int] == y);
    }
}

/// Frames between two reports of a port's progress.
pub const REPORT_EVERY: usize = 25;

/// What came of waiting for a datagram.
#[derive(Clone, Copy, Debug)]
pub enum RecvEvent<'a> {
    /// A frame with these samples.
    Frame(&'a [IqSample]),
    /// Something that is no frame, as its size shows.
    WrongSize,
    /// Nothing.
    Idle,
}

/// One port's share of a capture: what has come in so far.
#[derive(Clone, Debug)]
pub struct PortReceiver {
    pub port: usize,
    /// Frames that are waited for.
    pub total: usize,
    pub received: usize,
    pub samples: Vec<IqSample>,
}

impl PortReceiver {
    /// A port on which nothing has come in.
    pub fn new(port: usize, total: usize) -> (r: Self)
        ensures
            r.port == port,
            r.total == total,
            r.received == 0,
            r.samples@ == Seq::<IqSample>::empty(),
            forall|frame_len: nat| r.wf(frame_len),
    {
        let samples: Vec<IqSample> = Vec::new();
        PortReceiver { port, total, received: 0, samples }
    }

    /// No more frames are in than are waited for, and each has brought `frame_len` samples.
    pub open spec fn wf(&self, frame_len: nat) -> bool {
        &&& self.received <= self.total
        &&& self.samples@.len() == self.received * frame_len
    }

    /// Tells whether to wait for another frame: the capture is not to end, frames are missing,
    /// and there is time left.
    pub fn wants_more(&self, abort: bool, expired: bool) -> (r: bool)
        ensures
            r == (!abort && self.received < self.total && !expired),
    {
        !abort && self.received < self.total && !expired
    }

    /// Takes in what came of waiting for a datagram. Returns the number of frames that are in, where
    /// it is time to report it: after every so many frames, and whenever nothing comes.
    pub fn on_recv(&mut self, event: RecvEvent<'_>) -> (report: Option<usize>)
        requires
            old(self).received < old(self).total,
        ensures
            final(self).port == old(self).port,
            final(self).total == old(self).total,
            match event {
                RecvEvent::Frame(data) => {
                    &&& final(self).received == old(self).received + 1
                    &&& final(self).samples@ == old(self).samples@ + data@
                    &&& report == if final(self).received % REPORT_EVERY == 0 {
                        Some(final(self).received)
                    } else {
                        None
                    }
                },
                RecvEvent::WrongSize => *final(self) == *old(self) && report is None,
                RecvEvent::Idle => *final(self) == *old(self) && report == Some(
                    old(self).received,
                ),
            },
            forall|frame_len: nat|
                old(self).wf(frame_len) && (event matches RecvEvent::Frame(data) ==> data@.len()
                    == frame_len) ==> #[trigger] final(self).wf(frame_len),
    {
        match event {
            RecvEvent::Frame(data) => {
                let ghost before = *self;
                self.samples.extend_from_slice(data);
                assert(self.samples@ =~= before.samples@ + data@);
                self.received = self.received + 1;
                proof {
                    assert forall|frame_len: nat|
                        before.wf(frame_len) && data@.len()
                            == frame_len implies #[trigger] self.wf(frame_len) by {
                        assert((before.received + 1) * frame_len == before.received * frame_len
                            + frame_len) by (nonlinear_arith);
                    }
                }
                if self.received % REPORT_EVERY == 0 {
                    Some(self.received)
                } else {
                    None
                }
            },
            RecvEvent::WrongSize => None,
            RecvEvent::Idle => Some(self.received),
        }
    }
}

/// The ports that data came in on, in order.
pub open spec fn ports_with_data(slots: Seq<Vec<IqSample>>, n: int) -> Seq<usize>
    decreases n,
{
    if n <= 0 {
        Seq::empty()
    } else if slots[n - 1]@.len() > 0 {
        ports_with_data(slots, n - 1).push((n - 1) as usize)
    } else {
        ports_with_data(slots, n - 1)
    }
}

/// A port to be analysed, and how.
#[derive(Clone, Copy, Debug, PartialEq, Eq, Structural)]
pub struct SpectrumJob {
    pub port: usize,
    pub plan: SpectrumPlan,
}

/// Which ports to analyse, and how: every port that data came in on.
pub fn spectrum_jobs(slots: &Vec<Vec<IqSample>>, spec: &CaptureSpec) -> (jobs: Vec<SpectrumJob>)
    ensures
        jobs@.map_values(|j: SpectrumJob| j.port) == ports_with_data(
            slots@,
            slots@.len() as int,
        ),
        forall|k: int|
            0 <= k < jobs@.len() ==> (#[trigger] jobs@[k]).port < slots@.len()
                && jobs@[k].plan.plans(
                slots@[jobs@[k].port as int]@.len(),
                spec.fft_size as nat,
            ),
{
    let mut jobs: Vec<SpectrumJob> = Vec::new();
    let ghost f = |j: SpectrumJob| j.port;
    let mut i: usize = 0;
    assert(jobs@.map_values(f) =~= Seq::empty());
    while i < slots.len()
        invariant
            i <= slots@.len(),
            f == (|j: SpectrumJob| j.port),
            jobs@.map_values(f) == ports_with_data(slots@, i as int),
            forall|k: int|
                0 <= k < jobs@.len() ==> (#[trigger] jobs@[k]).port < slots@.len()
                    && jobs@[k].plan.plans(
                    slots@[jobs@[k].port as int]@.len(),
                    spec.fft_size as nat,
                ),
        decreases slots@.len() - i,
    {
        if slots[i].len() > 0 {
            let ghost before = jobs@;
            let job = SpectrumJob {
                port: i,
                plan: SpectrumPlan::new(slots[i].len(), spec.fft_size),
            };
            jobs.push(job);
            assert(before.push(job).map_values(f) =~= before.map_values(f).push(i));
        }
        i = i + 1;
    }
    jobs
}

/// `histograms` holds the histograms of all ports that data came in on, in order.
pub open spec fn histograms_describe(
    histograms: Seq<PortHistogram>,
    slots: Seq<Vec<IqSample>>,
) -> bool {
    let ports = ports_with_data(slots, slots.len() as int);
    &&& histograms.len() == ports.len()
    &&& forall|k: int|
        0 <= k < histograms.len() ==> (#[trigger] histograms[k]).describes(
            ports[k],
            slots[ports[k] as int]@,
        )
}

/// Each slot holds so few samples that their values can be counted.
pub open spec fn countable(slots: Seq<Vec<IqSample>>) -> bool {
    forall|i: int| 0 <= i < slots.len() ==> 2 * (#[trigger] slots[i])@.len() <= usize::MAX
}

/// The histograms of all ports that data came in on, in order.
pub fn histograms_of(slots: &Vec<Vec<IqSample>>) -> (histograms: Vec<PortHistogram>)
    requires
        countable(slots@),
    ensures
        histograms_describe(histograms@, slots@),
{
    let mut histograms: Vec<PortHistogram> = Vec::new();
    let mut i: usize = 0;
    while i < slots.len()
        invariant
            countable(slots@),
            i <= slots@.len(),
            histograms@.len() == ports_with_data(slots@, i as int).len(),
            forall|k: int|
                0 <= k < histograms@.len() ==> (#[trigger] histograms@[k]).describes(
                    ports_with_data(slots@, i as int)[k],
                    slots@[ports_with_data(slots@, i as int)[k] as int]@,
                ),
        decreases slots@.len() - i,
    {
        if slots[i].len() > 0 {
            assert(2 * slots@[i as int]@.len() <= usize::MAX);
            histograms.push(histogram_of(i, slots[i].as_slice()));
        }
        i = i + 1;
    }
    histograms
}

/// Samples are there if and only if at least one frame came in.
pub proof fn law_samples_come_in_frames(r: PortReceiver, frame_len: nat)
    requires
        r.wf(frame_len),
        frame_len > 0,
    ensures
        r.samples@.len() > 0 <==> r.received > 0,
{
    assert(r.received * frame_len > 0 <==> r.received > 0) by (nonlinear_arith)
        requires
            frame_len > 0,
    ;
}

/// The ports that data came in on are those whose slots are not empty, each once and in ascending
/// order.
pub proof fn law_ports_with_data_are_in_order(slots: Seq<Vec<IqSample>>, n: int)
    requires
        0 <= n <= slots.len(),
        n <= usize::MAX,
    ensures
        ascending(ports_with_data(slots, n)),
        forall|p: usize| #[trigger]
            ports_with_data(slots, n).contains(p) <==> p < n && slots[p as int]@.len() > 0,
    decreases n,
{
    if n > 0 {
        law_ports_with_data_are_in_order(slots, n - 1);
        let before = ports_with_data(slots, n - 1);
        let last = (n - 1) as usize;
        if slots[n - 1]@.len() > 0 {
            assert forall|p: usize| #[trigger] ports_with_data(slots, n).contains(p) <==> p < n
                && slots[p as int]@.len() > 0 by {
                lemma_push_contains(before, last, p);
            }
            assert forall|i: int| 0 <= i < before.len() implies #[trigger] before[i] < last by {
                assert(before.contains(before[i]));
            }
        }
    }
}

/// What the transforms of one port gave.
#[derive(Clone, Debug)]
pub struct PortAnalysis {
    /// Averaged levels of the bins, in the order in which the transform gives them.
    pub levels: Vec<Float32>,
    pub bin_width_hz: Float64,
    pub duration_ms: Float64,
}

/// `analyses` has one entry for each port that data came in on, with as many levels as the transform
/// is long.
pub open spec fn analysed(
    analyses: Seq<PortAnalysis>,
    slots: Seq<Vec<IqSample>>,
    requested: nat,
) -> bool {
    &&& analyses.len() == ports_with_data(slots, slots.len() as int).len()
    &&& forall|k: int|
        0 <= k < analyses.len() ==> crate::spectrum::is_fft_size(
            requested,
            (#[trigger] analyses[k]).levels@.len(),
        )
}

impl PortSpectrum {
    /// This is the spectrum of `port`, of which `n` samples came in: the levels in `a` in order of
    /// frequency, with the plan for that many samples, the sampling rate and the frequency of the
    /// local oscillator.
    pub open spec fn shows(
        &self,
        port: usize,
        n: nat,
        requested: nat,
        a: PortAnalysis,
        smp_rate: u32,
        lo_mhz: Float64,
    ) -> bool {
        &&& self.port == port
        &&& (SpectrumPlan {
            fft_size: self.bins.len(),
            blocks: self.blocks,
            samples_used: self.samples_used,
        }).plans(n, requested)
        &&& self.bins@ == Seq::new(
            a.levels@.len(),
            |k: int| a.levels@[crate::spectrum::centred_source(k, a.levels@.len() as int)],
        )
        &&& self.bin_width_hz == a.bin_width_hz
        &&& crate::float::is_whole(self.smp_rate_mhz.bits, smp_rate)
        &&& self.lo_mhz == lo_mhz
        &&& self.duration_ms == a.duration_ms
    }
}

/// An incomplete last block does not show in a spectrum: with the same levels, samples and the same
/// samples with a tail that is shorter than a block give the same bins and the same counts.
pub proof fn law_a_spectrum_ignores_an_incomplete_block(
    short: PortSpectrum,
    long: PortSpectrum,
    port: usize,
    m: nat,
    t: nat,
    requested: nat,
    a: PortAnalysis,
    b: PortAnalysis,
    smp_rate: u32,
    lo_mhz: Float64,
)
    requires
        m >= 1,
        t < a.levels@.len(),
        short.shows(port, m * a.levels@.len(), requested, a, smp_rate, lo_mhz),
        long.shows(port, m * a.levels@.len() + t, requested, b, smp_rate, lo_mhz),
        a.levels@ == b.levels@,
    ensures
        long.bins@ == short.bins@,
        long.blocks == short.blocks,
        long.samples_used == short.samples_used,
        short.blocks == m,
{
    let n = a.levels@.len();
    crate::spectrum::law_a_tail_makes_no_block(m, 0, n);
    crate::spectrum::law_a_tail_makes_no_block(m, t, n);
    assert(m * n >= n) by (nonlinear_arith)
        requires
            m >= 1,
    ;
}

/// `spectra` holds the spectra of all ports that data came in on, in order.
pub open spec fn spectra_describe(
    spectra: Seq<PortSpectrum>,
    slots: Seq<Vec<IqSample>>,
    requested: nat,
    analyses: Seq<PortAnalysis>,
    smp_rate: u32,
    lo_mhz: Float64,
) -> bool {
    let ports = ports_with_data(slots, slots.len() as int);
    &&& spectra.len() == ports.len()
    &&& forall|k: int|
        0 <= k < spectra.len() ==> (#[trigger] spectra[k]).shows(
            ports[k],
            slots[ports[k] as int]@.len(),
            requested,
            analyses[k],
            smp_rate,
            lo_mhz,
        )
}

/// The spectra of all ports that data came in on, in order.
pub fn spectra_of(
    slots: &Vec<Vec<IqSample>>,
    spec: &CaptureSpec,
    analyses: &Vec<PortAnalysis>,
    smp_rate: u32,
    lo_mhz: Float64,
) -> (spectra: Vec<PortSpectrum>)
    requires
        analysed(analyses@, slots@, spec.fft_size as nat),
    ensures
        spectra_describe(
            spectra@,
            slots@,
            spec.fft_size as nat,
            analyses@,
            smp_rate,
            lo_mhz,
        ),
{
    let jobs = spectrum_jobs(slots, spec);
    let smp_rate_mhz = Float64::from_u32(smp_rate);
    let ghost ports = ports_with_data(slots@, slots@.len() as int);
    let ghost f = |j: SpectrumJob| j.port;
    assert(jobs@.map_values(f) == ports);
    let mut spectra: Vec<PortSpectrum> = Vec::new();
    let mut k: usize = 0;
    while k < jobs.len()
        invariant
            k <= jobs@.len(),
            jobs@.len() == ports.len(),
            jobs@.map_values(f) == ports,
            f == (|j: SpectrumJob| j.port),
            analysed(analyses@, slots@, spec.fft_size as nat),
            ports == ports_with_data(slots@, slots@.len() as int),
            crate::float::is_whole(smp_rate_mhz.bits, smp_rate),
            forall|i: int|
                0 <= i < jobs@.len() ==> (#[trigger] jobs@[i]).port < slots@.len()
                    && jobs@[i].plan.plans(
                    slots@[jobs@[i].port as int]@.len(),
                    spec.fft_size as nat,
                ),
            spectra@.len() == k,
            forall|i: int|
                0 <= i < k ==> (#[trigger] spectra@[i]).shows(
                    ports[i],
                    slots@[ports[i] as int]@.len(),
                    spec.fft_size as nat,
                    analyses@[i],
                    smp_rate,
                    lo_mhz,
                ),
        decreases jobs@.len() - k,
    {
        let job = jobs[k];
        let a = &analyses[k];
        proof {
            assert(jobs@.map_values(f)[k as int] == job.port);
            assert(crate::spectrum::is_fft_size(
                spec.fft_size as nat,
                analyses@[k as int].levels@.len(),
            ));
            crate::spectrum::law_fft_size_is_unique(
                spec.fft_size as nat,
                a.levels@.len(),
                job.plan.fft_size as nat,
            );
        }
        spectra.push(
            spectrum_result(
                job.port,
                &job.plan,
                &a.levels,
                a.bin_width_hz,
                smp_rate_mhz,
                lo_mhz,
                a.duration_ms,
            ),
        );
        k = k + 1;
    }
    spectra
}

/// Spectrum of one port from the levels of its bins, in the order in which the transform gives
/// them, and the figures that go with them.
pub fn spectrum_result(
    port: usize,
    plan: &SpectrumPlan,
    levels: &Vec<Float32>,
    bin_width_hz: Float64,
    smp_rate_mhz: Float64,
    lo_mhz: Float64,
    duration_ms: Float64,
) -> (s: PortSpectrum)
    requires
        levels@.len() == plan.fft_size,
    ensures
        s.port == port,
        s.samples_used == plan.samples_used,
        s.blocks == plan.blocks,
        s.bins@.len() == plan.fft_size,
        s.bins@ == Seq::new(
            levels@.len(),
            |k: int| levels@[crate::spectrum::centred_source(k, levels@.len() as int)],
        ),
        s.bin_width_hz == bin_width_hz,
        s.smp_rate_mhz == smp_rate_mhz,
        s.lo_mhz == lo_mhz,
        s.duration_ms == duration_ms,
{
    let bins = centre_bins(levels);
    assert(bins@ =~= Seq::new(
        levels@.len(),
        |k: int| levels@[crate::spectrum::centred_source(k, levels@.len() as int)],
    ));
    PortSpectrum {
        port,
        samples_used: plan.samples_used,
        blocks: plan.blocks,
        bins,
        bin_width_hz,
        smp_rate_mhz,
        lo_mhz,
        duration_ms,
    }
}

/// Where some byte of a port's destination MAC address is not zero the port is received, at its own
/// address: the one that this host was matched with for that very port, or else the destination in
/// that port's own settings. All other ports are left out.
pub proof fn law_ports_are_received_at_their_own_address(
    plan: PortPlan,
    cfg: Seq<XGbeCfg>,
    payload: Seq<Option<V4Addr>>,
    i: usize,
)
    requires
        plan.plans(cfg, payload),
        i < 8,
    ensures
        plan.ports@.len() == plan.enabled_ports@.len(),
        forall|k: int|
            0 <= k < plan.ports@.len() ==> (#[trigger] plan.ports@[k]).0 == plan.enabled_ports@[k],
        i < cfg.len() && (exists|b: int| 0 <= b < 6 && #[trigger] cfg[i as int].dst_mac@[b] != 0)
            ==> {
            &&& plan.enabled_ports@.contains(i)
            &&& !plan.skipped_ports@.contains(i)
            &&& i < payload.len() && payload[i as int] is Some ==> plan.ports@.contains(
                (i, payload[i as int]->0),
            )
            &&& !(i < payload.len() && payload[i as int] is Some) ==> plan.ports@.contains(
                (i, V4Addr { ip: cfg[i as int].dst_ip, port: cfg[i as int].dst_port }),
            )
        },
        !(i < cfg.len() && (exists|b: int|
            0 <= b < 6 && #[trigger] cfg[i as int].dst_mac@[b] != 0)) ==> {
            &&& !plan.enabled_ports@.contains(i)
            &&& plan.skipped_ports@.contains(i)
        },
        forall|k: int|
            0 <= k < plan.ports@.len() && (#[trigger] plan.ports@[k]).0 == i ==> plan.ports@[k].1
                == if i < payload.len() && payload[i as int] is Some {
                payload[i as int]->0
            } else {
                V4Addr { ip: cfg[i as int].dst_ip, port: cfg[i as int].dst_port }
            },
{
    law_ports_are_received_or_left_out(cfg, 8, i);
    let on = plan.enabled_ports@;
    if i < cfg.len() {
        assert(is_zero_mac(cfg[i as int].dst_mac) <==> !(exists|b: int|
            0 <= b < 6 && #[trigger] cfg[i as int].dst_mac@[b] != 0));
    }
    if on.contains(i) {
        let k = choose|k: int| 0 <= k < on.len() && on[k] == i;
        assert(plan.ports@[k] == (i, port_addr(cfg, payload, i as int)));
    }
}

/// Where a port is received depends on nothing but that port's own entries: plans that agree on them
/// receive it at the same address, whatever the other ports are set to.
pub proof fn law_an_address_depends_on_its_own_port(
    plan: PortPlan,
    cfg: Seq<XGbeCfg>,
    payload: Seq<Option<V4Addr>>,
    plan2: PortPlan,
    cfg2: Seq<XGbeCfg>,
    payload2: Seq<Option<V4Addr>>,
    k: int,
    k2: int,
)
    requires
        plan.plans(cfg, payload),
        plan2.plans(cfg2, payload2),
        0 <= k < plan.ports@.len(),
        0 <= k2 < plan2.ports@.len(),
        plan.ports@[k].0 == plan2.ports@[k2].0,
        ({
            let i = plan.ports@[k].0 as int;
            &&& cfg[i] == cfg2[i]
            &&& i < payload.len() <==> i < payload2.len()
            &&& i < payload.len() ==> payload[i] == payload2[i]
        }),
    ensures
        plan.ports@[k].1 == plan2.ports@[k2].1,
{
    let i = plan.ports@[k].0;
    law_ports_are_received_or_left_out(cfg, 8, i);
    assert(plan.enabled_ports@.contains(plan.enabled_ports@[k]));
    law_ports_are_received_at_their_own_address(plan, cfg, payload, i);
    law_ports_are_received_at_their_own_address(plan2, cfg2, payload2, i);
}

/// Ports that this host was matched with different addresses for are received at different addresses.
pub proof fn law_distinct_matches_stay_distinct(
    plan: PortPlan,
    cfg: Seq<XGbeCfg>,
    payload: Seq<Option<V4Addr>>,
    j: int,
    k: int,
)
    requires
        plan.plans(cfg, payload),
        0 <= j < plan.ports@.len(),
        0 <= k < plan.ports@.len(),
        plan.ports@[j].0 < payload.len(),
        plan.ports@[k].0 < payload.len(),
        payload[plan.ports@[j].0 as int] is Some,
        payload[plan.ports@[k].0 as int] is Some,
        payload[plan.ports@[j].0 as int] != payload[plan.ports@[k].0 as int],
    ensures
        plan.ports@[j].1 != plan.ports@[k].1,
{
    let a = plan.ports@[j].0;
    let b = plan.ports@[k].0;
    law_ports_are_received_or_left_out(cfg, 8, a);
    law_ports_are_received_or_left_out(cfg, 8, b);
    assert(plan.enabled_ports@.contains(plan.enabled_ports@[j]));
    assert(plan.enabled_ports@.contains(plan.enabled_ports@[k]));
    law_ports_are_received_at_their_own_address(plan, cfg, payload, a);
    law_ports_are_received_at_their_own_address(plan, cfg, payload, b);
}

/// Both lists of a plan are in ascending order, and together they are the eight ports.
pub proof fn law_a_plan_covers_the_eight_ports(
    plan: PortPlan,
    cfg: Seq<XGbeCfg>,
    payload: Seq<Option<V4Addr>>,
)
    requires
        plan.plans(cfg, payload),
    ensures
        plan.enabled_ports@.len() + plan.skipped_ports@.len() == 8,
        forall|i: int, j: int|
            0 <= i < j < plan.enabled_ports@.len() ==> #[trigger] plan.enabled_ports@[i]
                < #[trigger] plan.enabled_ports@[j],
        forall|i: int, j: int|
            0 <= i < j < plan.skipped_ports@.len() ==> #[trigger] plan.skipped_ports@[i]
                < #[trigger] plan.skipped_ports@[j],
        forall|i: int|
            0 <= i < plan.enabled_ports@.len() ==> #[trigger] plan.enabled_ports@[i] < 8,
        forall|i: int|
            0 <= i < plan.skipped_ports@.len() ==> #[trigger] plan.skipped_ports@[i] < 8,
{
    law_ports_are_listed_in_order(cfg, 8);
    law_ports_are_received_or_left_out(cfg, 8, 0);
    assert forall|i: int| 0 <= i < plan.enabled_ports@.len() implies #[trigger] plan.enabled_ports@[i]
        < 8 by {
        assert(plan.enabled_ports@.contains(plan.enabled_ports@[i]));
        law_ports_are_received_or_left_out(cfg, 8, plan.enabled_ports@[i]);
    }
    assert forall|i: int| 0 <= i < plan.skipped_ports@.len() implies #[trigger] plan.skipped_ports@[i]
        < 8 by {
        assert(plan.skipped_ports@.contains(plan.skipped_ports@[i]));
        law_ports_are_received_or_left_out(cfg, 8, plan.skipped_ports@[i]);
    }
}

/// A new capture has one entry for each of the eight ports, with nothing in and all frames to come.
pub proof fn law_a_new_capture_waits_for_all_frames(frames_per_port: usize, i: int)
    requires
        0 <= i < 8,
    ensures
        no_progress(frames_per_port).len() == 8,
        no_progress(frames_per_port)[i].port == i,
        no_progress(frames_per_port)[i].received == 0,
        no_progress(frames_per_port)[i].total == frames_per_port,
{
}

/// Noting a phase changes the phase and nothing else.
pub proof fn law_a_phase_is_all_that_changes(h: CaptureHandle, phase: Seq<char>, after: CaptureHandle)
    requires
        h.with_phase(phase, after),
    ensures
        after.phase@ == phase,
        after.abort == h.abort,
        after.progress == h.progress,
        after.done == h.done,
        after.result == h.result,
{
}

/// The number of frames that is noted for a port is what its entry shows afterwards.
pub proof fn law_noted_frames_show(p: Seq<PortProgress>, port: usize, received: usize)
    requires
        one_entry_each(p),
        port < p.len(),
    ensures
        progress_received(p, port, received).len() == p.len(),
        progress_received(p, port, received)[port as int].received == received,
        progress_received(p, port, received)[port as int].port == port,
        progress_received(p, port, received)[port as int].total == p[port as int].total,
        forall|i: int|
            0 <= i < p.len() && i != port ==> #[trigger] progress_received(p, port, received)[i]
                == p[i],
{
    let f = |e: PortProgress| entry_received(e, received);
    lemma_with_entry_found(p, port, f, port as int);
}

/// A port that is left out has nothing to wait for and keeps the rest of its entry; a port that is not
/// left out keeps all of it.
pub proof fn law_leaving_out_changes_totals_only(
    p: Seq<PortProgress>,
    skipped: Seq<usize>,
    i: int,
)
    requires
        one_entry_each(p),
        0 <= i < p.len() <= usize::MAX,
    ensures
        ({
            let after = progress_skipping(p, skipped, skipped.len() as int)[i];
            &&& after.port == p[i].port
            &&& after.received == p[i].received
            &&& skipped.contains(i as usize) ==> after.total == 0
            &&& !skipped.contains(i as usize) ==> after.total == p[i].total
        }),
{
    law_ports_left_out_wait_for_nothing(p, skipped, skipped.len() as int, i);
    assert(skipped.take(skipped.len() as int) =~= skipped);
}

/// The window without weighting has three names and no others.
pub proof fn law_the_plain_window_has_three_names(s: Seq<char>)
    ensures
        names_rect(s) <==> {
            let name = crate::text::lowered(crate::text::trimmed(s));
            name == "rect"@ || name == "none"@ || name == "boxcar"@
        },
{
    let options = seq!["rect"@, "none"@, "boxcar"@];
    if crate::text::names(s, "rect"@) {
        assert(crate::text::names(s, options[0]));
    }
    if crate::text::names(s, "none"@) {
        assert(crate::text::names(s, options[1]));
    }
    if crate::text::names(s, "boxcar"@) {
        assert(crate::text::names(s, options[2]));
    }
}

/// There is one histogram for each port that data came in on, in ascending order of ports, and a
/// histogram that bears the name of a port counts the samples of that very port: each of its counts is
/// the number of real and of imaginary parts of those samples that lie in the bin.
pub proof fn law_a_histogram_counts_its_own_port(
    histograms: Seq<PortHistogram>,
    slots: Seq<Vec<IqSample>>,
    k: int,
    b: int,
)
    requires
        histograms_describe(histograms, slots),
        slots.len() <= usize::MAX,
        0 <= k < histograms.len(),
        0 <= b < 16384,
    ensures
        ({
            let h = histograms[k];
            let own = slots[h.port as int]@;
            &&& h.port < slots.len()
            &&& own.len() > 0
            &&& h.samples == 2 * own.len()
            &&& h.bin_width == 4
            &&& h.min == -32768
            &&& h.max == 32767
            &&& h.counts@.len() == 16384
            &&& h.counts@[b] == own.filter(
                |s: IqSample| -32768 + 4 * b <= s.re < -32768 + 4 * (b + 1),
            ).len() + own.filter(
                |s: IqSample| -32768 + 4 * b <= s.im < -32768 + 4 * (b + 1),
            ).len()
        }),
        forall|j: int| 0 <= j < k ==> (#[trigger] histograms[j]).port < histograms[k].port,
        forall|p: usize|
            #![trigger slots[p as int]]
            p < slots.len() && slots[p as int]@.len() > 0 ==> exists|j: int|
                0 <= j < histograms.len() && (#[trigger] histograms[j]).port == p,
{
    let ports = ports_with_data(slots, slots.len() as int);
    law_ports_with_data_are_in_order(slots, slots.len() as int);
    let h = histograms[k];
    assert(h.describes(ports[k], slots[ports[k] as int]@));
    assert(ports.contains(ports[k]));
    crate::histogram::law_a_count_is_a_number_of_values(h, ports[k], slots[ports[k] as int]@, b);
    assert forall|j: int| 0 <= j < k implies (#[trigger] histograms[j]).port < histograms[k].port by {
        assert(histograms[j].describes(ports[j], slots[ports[j] as int]@));
    }
    assert forall|p: usize|
        #![trigger slots[p as int]]
        p < slots.len() && slots[p as int]@.len() > 0 implies exists|j: int|
        0 <= j < histograms.len() && (#[trigger] histograms[j]).port == p by {
        assert(ports.contains(p));
        let j = choose|j: int| 0 <= j < ports.len() && ports[j] == p;
        assert(histograms[j].describes(ports[j], slots[ports[j] as int]@));
    }
}

/// There is one spectrum for each port that data came in on, in ascending order of ports. The spectrum
/// number `k` holds what the transforms number `k` gave, level by level, with the upper half of the
/// band first, and counts the blocks of its own port's samples. So ports whose levels differ somewhere
/// have spectra that differ in the matching bin.
pub proof fn law_a_spectrum_shows_its_own_port(
    spectra: Seq<PortSpectrum>,
    slots: Seq<Vec<IqSample>>,
    requested: nat,
    analyses: Seq<PortAnalysis>,
    smp_rate: u32,
    lo_mhz: Float64,
    k: int,
)
    requires
        spectra_describe(spectra, slots, requested, analyses, smp_rate, lo_mhz),
        analysed(analyses, slots, requested),
        slots.len() <= usize::MAX,
        0 <= k < spectra.len(),
    ensures
        spectra.len() == analyses.len(),
        ({
            let s = spectra[k];
            let own = slots[s.port as int]@;
            let n = analyses[k].levels@.len() as int;
            &&& s.port < slots.len()
            &&& own.len() > 0
            &&& n > 0
            &&& s.bins@.len() == n
            &&& forall|j: int|
                0 <= j < n ==> #[trigger] s.bins@[j] == analyses[k].levels@[(j + n / 2) % n]
            &&& s.bin_width_hz == analyses[k].bin_width_hz
            &&& s.duration_ms == analyses[k].duration_ms
            &&& s.lo_mhz == lo_mhz
            &&& crate::float::is_whole(s.smp_rate_mhz.bits, smp_rate)
            &&& s.blocks >= 1
            &&& s.samples_used == s.blocks * n
            &&& own.len() >= n ==> s.samples_used <= own.len() < s.samples_used + n
            &&& own.len() < n ==> s.blocks == 1
        }),
        forall|j: int| 0 <= j < k ==> (#[trigger] spectra[j]).port < spectra[k].port,
        forall|p: usize|
            #![trigger slots[p as int]]
            p < slots.len() && slots[p as int]@.len() > 0 ==> exists|j: int|
                0 <= j < spectra.len() && (#[trigger] spectra[j]).port == p,
{
    let ports = ports_with_data(slots, slots.len() as int);
    law_ports_with_data_are_in_order(slots, slots.len() as int);
    let s = spectra[k];
    let own = slots[ports[k] as int]@;
    assert(s.shows(ports[k], own.len(), requested, analyses[k], smp_rate, lo_mhz));
    assert(ports.contains(ports[k]));
    let plan = SpectrumPlan {
        fft_size: s.bins.len(),
        blocks: s.blocks,
        samples_used: s.samples_used,
    };
    crate::spectrum::law_a_plan_counts_whole_blocks(plan, own.len(), requested);
    assert forall|j: int| 0 <= j < k implies (#[trigger] spectra[j]).port < spectra[k].port by {
        assert(spectra[j].shows(
            ports[j],
            slots[ports[j] as int]@.len(),
            requested,
            analyses[j],
            smp_rate,
            lo_mhz,
        ));
    }
    assert forall|p: usize|
        #![trigger slots[p as int]]
        p < slots.len() && slots[p as int]@.len() > 0 implies exists|j: int|
        0 <= j < spectra.len() && (#[trigger] spectra[j]).port == p by {
        assert(ports.contains(p));
        let j = choose|j: int| 0 <= j < ports.len() && ports[j] == p;
        assert(spectra[j].shows(
            ports[j],
            slots[ports[j] as int]@.len(),
            requested,
            analyses[j],
            smp_rate,
            lo_mhz,
        ));
    }
}

/// If the levels of two ports differ somewhere, their spectra differ in the matching bin.
pub proof fn law_different_levels_give_different_spectra(
    spectra: Seq<PortSpectrum>,
    slots: Seq<Vec<IqSample>>,
    requested: nat,
    analyses: Seq<PortAnalysis>,
    smp_rate: u32,
    lo_mhz: Float64,
    i: int,
    k: int,
    j: int,
)
    requires
        spectra_describe(spectra, slots, requested, analyses, smp_rate, lo_mhz),
        analysed(analyses, slots, requested),
        slots.len() <= usize::MAX,
        0 <= i < spectra.len(),
        0 <= k < spectra.len(),
        0 <= j < analyses[i].levels@.len(),
        ({
            let n = analyses[i].levels@.len() as int;
            analyses[i].levels@[(j + n / 2) % n] != analyses[k].levels@[(j + n / 2) % n]
        }),
    ensures
        analyses[i].levels@.len() == analyses[k].levels@.len(),
        spectra[i].bins@[j] != spectra[k].bins@[j],
{
    assert(crate::spectrum::is_fft_size(requested, analyses[i].levels@.len()));
    assert(crate::spectrum::is_fft_size(requested, analyses[k].levels@.len()));
    crate::spectrum::law_fft_size_is_unique(
        requested,
        analyses[i].levels@.len(),
        analyses[k].levels@.len(),
    );
    law_a_spectrum_shows_its_own_port(
        spectra,
        slots,
        requested,
        analyses,
        smp_rate,
        lo_mhz,
        i,
    );
    law_a_spectrum_shows_its_own_port(
        spectra,
        slots,
        requested,
        analyses,
        smp_rate,
        lo_mhz,
        k,
    );
}

/// A receiver that takes in frames of one length holds as many samples as its frames brought, and never
/// has more frames than it waits for.
pub proof fn law_a_receiver_holds_whole_frames(r: PortReceiver, frame_len: nat)
    requires
        r.wf(frame_len),
    ensures
        r.received <= r.total,
        r.samples@.len() == r.received * frame_len,
{
}

} // verus!
