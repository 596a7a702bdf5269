//! Settings of the device, as they were made last, and how they are kept.
use vstd::prelude::*;
use vstd::string::*;

use crate::address::{ip4_to_str, mac6_to_str};
use crate::config::{file_path, FilePath, SaveAction, SaveEvent, SaveFault, Stored};
use crate::control::XGbeCfg;
use crate::float::Float32;

verus! {

/// Network settings of one port, with addresses as text, ready to be filled into a form.
#[derive(Clone, Debug)]
pub struct XgbePortSetting {
    pub port: u32,
    pub dst_mac: String,
    pub src_mac: String,
    pub dst_ip: String,
    pub src_ip: String,
    pub dst_port: u16,
    pub src_port: u16,
}

/// Gain of one port.
#[derive(Clone, Copy, Debug, PartialEq, Eq, Structural)]
pub struct DsaSetting {
    pub port: u32,
    pub dsa_value: Float32,
}

/// Settings of the optical module.
#[derive(Clone, Copy, Debug, PartialEq, Eq)]
pub struct QsfpSetting {
    pub cdr_ctrl: u32,
    pub eq_ctrl: [i8; 4],
    pub adapt_eq: [u8; 4],
}

/// All settings of the device.
#[derive(Clone, Debug)]
pub struct DeviceSettings {
    pub xgbe: Vec<XgbePortSetting>,
    pub dsa: Vec<DsaSetting>,
    pub qsfp: QsfpSetting,
}

/// Equaliser settings that stand in where the file gives none.
pub fn default_eq() -> (r: [i8; 4])
    ensures
        r@ == seq![5i8, 5i8, 5i8, 5i8],
{
    [5, 5, 5, 5]
}

/// Adaptation settings that stand in where the file gives none.
pub fn default_adapt() -> (r: [u8; 4])
    ensures
        r@ == seq![1u8, 1u8, 1u8, 1u8],
{
    [1, 1, 1, 1]
}

impl XgbePortSetting {
    /// Every number is zero and every text empty.
    pub open spec fn is_blank(&self) -> bool {
        &&& self.port == 0
        &&& self.dst_mac@.len() == 0
        &&& self.src_mac@.len() == 0
        &&& self.dst_ip@.len() == 0
        &&& self.src_ip@.len() == 0
        &&& self.dst_port == 0
        &&& self.src_port == 0
    }

    /// This is the text form of `p`.
    pub open spec fn shows(&self, p: XgbePortIn) -> bool {
        &&& self.port == p.port
        &&& self.dst_mac@ == crate::address::mac_text(p.dst_mac@)
        &&& self.src_mac@ == crate::address::mac_text(p.src_mac@)
        &&& self.dst_ip@ == crate::address::ip_text(p.dst_ip@)
        &&& self.src_ip@ == crate::address::ip_text(p.src_ip@)
        &&& self.dst_port == p.dst_port
        &&& self.src_port == p.src_port
    }
}

impl Default for XgbePortSetting {
    fn default() -> (r: Self)
        ensures
            r.is_blank(),
    {
        XgbePortSetting {
            port: 0,
            dst_mac: String::new(),
            src_mac: String::new(),
            dst_ip: String::new(),
            src_ip: String::new(),
            dst_port: 0,
            src_port: 0,
        }
    }
}

impl Default for DsaSetting {
    fn default() -> (r: Self)
        ensures
            r == (DsaSetting { port: 0, dsa_value: Float32 { bits: 0 } }),
    {
        DsaSetting { port: 0, dsa_value: Float32 { bits: 0 } }
    }
}

impl QsfpSetting {
    /// Every number is zero.
    pub open spec fn is_blank(&self) -> bool {
        &&& self.cdr_ctrl == 0
        &&& self.eq_ctrl@ == seq![0i8, 0i8, 0i8, 0i8]
        &&& self.adapt_eq@ == seq![0u8, 0u8, 0u8, 0u8]
    }
}

impl Default for QsfpSetting {
    fn default() -> (r: Self)
        ensures
            r.is_blank(),
    {
        QsfpSetting { cdr_ctrl: 0, eq_ctrl: [0, 0, 0, 0], adapt_eq: [0, 0, 0, 0] }
    }
}

impl Default for DeviceSettings {
    fn default() -> (r: Self)
        ensures
            r.is_blank(),
    {
        let xgbe: Vec<XgbePortSetting> = Vec::new();
        let dsa: Vec<DsaSetting> = Vec::new();
        DeviceSettings { xgbe, dsa, qsfp: QsfpSetting::default() }
    }
}

/// Network settings of one port, as they are asked for.
#[derive(Clone, Copy, Debug, PartialEq, Eq)]
pub struct XgbePortIn {
    pub port: u32,
    pub dst_mac: [u8; 6],
    pub src_mac: [u8; 6],
    pub dst_ip: [u8; 4],
    pub src_ip: [u8; 4],
    pub dst_port: u16,
    pub src_port: u16,
}

impl XgbePortIn {
    /// The part of the settings that the device is told.
    pub open spec fn spec_cfg(&self) -> XGbeCfg {
        XGbeCfg {
            dst_mac: self.dst_mac,
            src_mac: self.src_mac,
            dst_ip: self.dst_ip,
            src_ip: self.src_ip,
            dst_port: self.dst_port,
            src_port: self.src_port,
        }
    }

    /// The part of the settings that the device is told.
    pub fn cfg(&self) -> (c: XGbeCfg)
        ensures
            c == self.spec_cfg(),
    {
        XGbeCfg {
            dst_mac: self.dst_mac,
            src_mac: self.src_mac,
            dst_ip: self.dst_ip,
            src_ip: self.src_ip,
            dst_port: self.dst_port,
            src_port: self.src_port,
        }
    }
}

/// `settings` is the text form of `ports`, one for one and in order.
pub open spec fn shows_ports(settings: Seq<XgbePortSetting>, ports: Seq<XgbePortIn>) -> bool {
    &&& settings.len() == ports.len()
    &&& forall|i: int| 0 <= i < settings.len() ==> (#[trigger] settings[i]).shows(ports[i])
}

/// The settings of `ports` with addresses as text.
pub fn xgbe_in_to_settings(ports: &[XgbePortIn]) -> (r: Vec<XgbePortSetting>)
    ensures
        shows_ports(r@, ports@),
{
    let mut r: Vec<XgbePortSetting> = Vec::new();
    let mut i: usize = 0;
    while i < ports.len()
        invariant
            i <= ports@.len(),
            shows_ports(r@, ports@.take(i as int)),
        decreases ports@.len() - i,
    {
        let p = &ports[i];
        let s = XgbePortSetting {
            port: p.port,
            dst_mac: mac6_to_str(&p.dst_mac),
            src_mac: mac6_to_str(&p.src_mac),
            dst_ip: ip4_to_str(&p.dst_ip),
            src_ip: ip4_to_str(&p.src_ip),
            dst_port: p.dst_port,
            src_port: p.src_port,
        };
        r.push(s);
        i = i + 1;
    }
    assert(ports@.take(i as int) =~= ports@);
    r
}

/// Nothing is lost in the text form: it determines the settings that it was made from.
pub proof fn law_text_form_determines_the_settings(s: XgbePortSetting, a: XgbePortIn, b: XgbePortIn)
    requires
        s.shows(a),
        s.shows(b),
    ensures
        a == b,
{
    crate::address::law_mac_text_is_injective(a.dst_mac, b.dst_mac);
    crate::address::law_mac_text_is_injective(a.src_mac, b.src_mac);
    crate::address::law_ip_text_is_injective(a.dst_ip, b.dst_ip);
    crate::address::law_ip_text_is_injective(a.src_ip, b.src_ip);
}

/// How the device's settings are written: only a failure to put them into text is reported.
pub open spec fn lenient_save(event: SaveEvent) -> SaveAction {
    match event {
        SaveEvent::Begin { in_dir } => if in_dir {
            SaveAction::MakeDir
        } else {
            SaveAction::Render
        },
        SaveEvent::DirMade { .. } => SaveAction::Render,
        SaveEvent::Rendered { ok } => if ok {
            SaveAction::Write
        } else {
            SaveAction::Report(SaveFault::Render)
        },
        SaveEvent::Written { .. } => SaveAction::Done,
    }
}

impl DeviceSettings {
    /// Nothing is set.
    pub open spec fn is_blank(&self) -> bool {
        &&& self.xgbe@.len() == 0
        &&& self.dsa@.len() == 0
        &&& self.qsfp.is_blank()
    }

    /// Where the settings are kept: beside those of the console.
    pub fn path(xdg_set: bool, home_set: bool) -> (p: FilePath)
        ensures
            p.leads_to(xdg_set, home_set, "settings.yaml"@),
    {
        file_path(xdg_set, home_set, "settings.yaml")
    }

    /// The settings to start with, given what reading their file came to.
    pub fn load(stored: Stored<DeviceSettings>) -> (r: DeviceSettings)
        ensures
            match stored {
                Stored::Parsed(s) => r == s,
                _ => r.is_blank(),
            },
    {
        match stored {
            Stored::Parsed(s) => s,
            Stored::Malformed => DeviceSettings::default(),
            Stored::Unreadable => DeviceSettings::default(),
        }
    }

    /// What to do next to write the settings to their file.
    pub fn save(event: SaveEvent) -> (a: SaveAction)
        ensures
            a == lenient_save(event),
    {
        match event {
            SaveEvent::Begin { in_dir } => if in_dir {
                SaveAction::MakeDir
            } else {
                SaveAction::Render
            },
            SaveEvent::DirMade { .. } => SaveAction::Render,
            SaveEvent::Rendered { ok } => if ok {
                SaveAction::Write
            } else {
                SaveAction::Report(SaveFault::Render)
            },
            SaveEvent::Written { .. } => SaveAction::Done,
        }
    }

    /// Notes the network settings that were made.
    pub fn remember_xgbe(&mut self, ports: &[XgbePortIn])
        ensures
            shows_ports(final(self).xgbe@, ports@),
            final(self).dsa == old(self).dsa,
            final(self).qsfp == old(self).qsfp,
    {
        self.xgbe = xgbe_in_to_settings(ports);
    }

    /// Notes the gains that were set.
    pub fn remember_dsa(&mut self, ports: Vec<DsaSetting>)
        ensures
            *final(self) == (DeviceSettings { dsa: ports, ..*old(self) }),
    {
        self.dsa = ports;
    }

    /// Notes the settings of the optical module that were made.
    pub fn remember_qsfp(&mut self, cdr_ctrl: u8, eq_ctrl: [i8; 4], adapt_eq: [u8; 4])
        ensures
            *final(self) == (DeviceSettings {
                qsfp: QsfpSetting { cdr_ctrl: cdr_ctrl as u32, eq_ctrl, adapt_eq },
                ..*old(self)
            }),
    {
        self.qsfp = QsfpSetting { cdr_ctrl: cdr_ctrl as u32, eq_ctrl, adapt_eq };
    }
}

/// The device's settings lie in the same directory as those of the console.
pub proof fn law_settings_lie_beside_the_configuration(
    config: FilePath,
    settings: FilePath,
    xdg_set: bool,
    home_set: bool,
)
    requires
        config.leads_to(xdg_set, home_set, "config.yaml"@),
        settings.leads_to(xdg_set, home_set, "settings.yaml"@),
    ensures
        config.base == settings.base,
        crate::text::views(config.parts@).drop_last() == crate::text::views(
            settings.parts@,
        ).drop_last(),
{
    assert(crate::text::views(config.parts@).drop_last() =~= crate::config::directories(
        config.base,
    ));
    assert(crate::text::views(settings.parts@).drop_last() =~= crate::config::directories(
        settings.base,
    ));
}

/// What the device is told of a port is what was asked for, field by field.
pub proof fn law_the_device_is_told_what_was_asked(p: XgbePortIn)
    ensures
        p.spec_cfg().dst_mac == p.dst_mac,
        p.spec_cfg().src_mac == p.src_mac,
        p.spec_cfg().dst_ip == p.dst_ip,
        p.spec_cfg().src_ip == p.src_ip,
        p.spec_cfg().dst_port == p.dst_port,
        p.spec_cfg().src_port == p.src_port,
{
}

/// The text form of a port's settings shows each field as the text of that very field.
pub proof fn law_each_field_has_its_own_text(s: XgbePortSetting, p: XgbePortIn)
    requires
        s.shows(p),
    ensures
        s.port == p.port,
        s.dst_mac@ == crate::address::mac_text(p.dst_mac@),
        s.src_mac@ == crate::address::mac_text(p.src_mac@),
        s.dst_ip@ == crate::address::ip_text(p.dst_ip@),
        s.src_ip@ == crate::address::ip_text(p.src_ip@),
        s.dst_port == p.dst_port,
        s.src_port == p.src_port,
{
}

/// Settings are remembered one for one: entry number `i` is the text form of port number `i` of the
/// request.
pub proof fn law_settings_are_remembered_one_for_one(
    settings: Seq<XgbePortSetting>,
    ports: Seq<XgbePortIn>,
    i: int,
)
    requires
        shows_ports(settings, ports),
        0 <= i < ports.len(),
    ensures
        settings.len() == ports.len(),
        settings[i].port == ports[i].port,
        settings[i].dst_mac@ == crate::address::mac_text(ports[i].dst_mac@),
        settings[i].src_mac@ == crate::address::mac_text(ports[i].src_mac@),
        settings[i].dst_ip@ == crate::address::ip_text(ports[i].dst_ip@),
        settings[i].src_ip@ == crate::address::ip_text(ports[i].src_ip@),
        settings[i].dst_port == ports[i].dst_port,
        settings[i].src_port == ports[i].src_port,
{
    assert(settings[i].shows(ports[i]));
}

/// Setting and showing go together: a device that has been told the settings `p` of a port is shown
/// with the same texts and ports that are remembered for `p`.
pub proof fn law_what_is_set_is_what_is_shown(
    p: XgbePortIn,
    remembered: XgbePortSetting,
    shown: crate::api::XgbePortView,
    at: int,
)
    requires
        remembered.shows(p),
        shown.shows(at, p.spec_cfg()),
    ensures
        shown.port == at,
        shown.dst_mac@ == remembered.dst_mac@,
        shown.src_mac@ == remembered.src_mac@,
        shown.dst_ip@ == remembered.dst_ip@,
        shown.src_ip@ == remembered.src_ip@,
        shown.dst_port == remembered.dst_port,
        shown.src_port == remembered.src_port,
{
}

/// Writing the device's settings passes over a directory that could not be made and a file that could
/// not be written, and goes on in order otherwise.
pub proof fn law_only_rendering_is_reported(event: SaveEvent)
    ensures
        event == (SaveEvent::Begin { in_dir: true }) <==> lenient_save(event) is MakeDir,
        event == (SaveEvent::Begin { in_dir: false }) || event is DirMade <==> lenient_save(
            event,
        ) is Render,
        event == (SaveEvent::Rendered { ok: true }) <==> lenient_save(event) is Write,
        event == (SaveEvent::Rendered { ok: false }) <==> lenient_save(event) is Report,
        event is Written <==> lenient_save(event) is Done,
        lenient_save(event) is Report ==> lenient_save(event) == SaveAction::Report(
            SaveFault::Render,
        ),
{
}

/// Blank settings hold no port, no gain, and zeros for the optical module; a blank port has zeros for its
/// numbers and no text at all.
pub proof fn law_blank_settings_hold_nothing(d: DeviceSettings, q: QsfpSetting, x: XgbePortSetting)
    ensures
        d.is_blank() ==> d.xgbe@ == Seq::<XgbePortSetting>::empty() && d.dsa@
            == Seq::<DsaSetting>::empty() && d.qsfp.is_blank(),
        q.is_blank() ==> q.cdr_ctrl == 0 && forall|i: int|
            0 <= i < 4 ==> #[trigger] q.eq_ctrl@[i] == 0 && #[trigger] q.adapt_eq@[i] == 0,
        x.is_blank() ==> x.port == 0 && x.dst_mac@ == Seq::<char>::empty() && x.src_mac@ == Seq::<
            char,
        >::empty() && x.dst_ip@ == Seq::<char>::empty() && x.src_ip@ == Seq::<char>::empty()
            && x.dst_port == 0 && x.src_port == 0,
{
    if q.is_blank() {
        let e = seq![0i8, 0i8, 0i8, 0i8];
        let a = seq![0u8, 0u8, 0u8, 0u8];
        assert forall|i: int| 0 <= i < 4 implies #[trigger] q.eq_ctrl@[i] == 0
            && #[trigger] q.adapt_eq@[i] == 0 by {
            assert(e[i] == 0 && a[i] == 0);
        }
    }
}

} // verus!
