//! Initialising a device, step by step.
use vstd::prelude::*;
use vstd::string::*;

use crate::address::Endpoint;
use crate::api::{selected_addr, ApiError};
use crate::config::Config;
use crate::control::{
    cmd_label, cmd_xgbe_query, default_init_commands, send, xgbe_cfg, CtrlMsg, Reply, ReplyKind,
    SendPlan, SummaryView,
};
use crate::float::Float64;
use crate::push::WsMsg;

verus! {

/// Shortest time that the reply to a command of the sequence is waited for.
pub const MIN_INIT_TIMEOUT_MS: u64 = 5000;

/// A device to be initialised.
#[derive(Clone, Debug)]
pub struct InitOrder {
    pub target: Endpoint,
    pub local_ctrl_port: u16,
    /// How long the network settings are waited for.
    pub query_timeout_ms: u64,
    /// How long the reply to each command is waited for.
    pub cmd_timeout_ms: u64,
    pub clock_source: String,
    pub freq_mhz: Float64,
}

impl InitOrder {
    /// This initialises the device at `target` as `cfg` says, and waits long enough for commands
    /// that take their time.
    pub open spec fn follows(&self, cfg: Config, target: Endpoint) -> bool {
        &&& self.target == target
        &&& self.local_ctrl_port == cfg.local_ctrl_port
        &&& self.query_timeout_ms == cfg.timeout_ms
        &&& self.cmd_timeout_ms == if cfg.timeout_ms >= MIN_INIT_TIMEOUT_MS {
            cfg.timeout_ms
        } else {
            MIN_INIT_TIMEOUT_MS
        }
        &&& self.clock_source == cfg.clock_source
        &&& self.freq_mhz == cfg.lo_mhz
    }
}

impl InitOrder {
    /// How the device is asked for its network settings.
    pub fn query_plan(&self) -> (p: SendPlan)
        ensures
            p == (SendPlan {
                cmd: CtrlMsg::XGbeCfgQuery { msg_id: 0 },
                target: self.target,
                bind_port: 0,
                timeout_ms: self.query_timeout_ms,
                debug: 0,
            }),
    {
        send(
            cmd_xgbe_query(),
            self.target.clone(),
            self.local_ctrl_port,
            self.query_timeout_ms,
            0,
        )
    }

    /// The commands that initialise the device, given the replies to the query for its network
    /// settings: with the clock source and the frequency of this order.
    pub fn commands(&self, replies: &Vec<Reply>) -> (r: Result<Vec<CtrlMsg>, String>)
        ensures
            match r {
                Ok(cmds) => exists|i: int|
                    #[trigger] crate::control::is_first(replies@, ReplyKind::Xgbe, i)
                        && crate::control::is_init_sequence(
                        cmds@,
                        replies@[i].msg->XGbeCfgQueryReply_cfg@,
                        self.freq_mhz,
                        self.clock_source@,
                    ),
                Err(e) => crate::control::none_of(replies@, ReplyKind::Xgbe) && e@
                    == crate::control::no_xgbe_text(),
            },
    {
        default_init_commands(xgbe_cfg(replies), self.freq_mhz, self.clock_source.as_str())
    }

    /// How a command of the sequence goes out.
    pub fn command_plan(&self, cmd: CtrlMsg) -> (p: SendPlan)
        ensures
            p == (SendPlan {
                cmd,
                target: self.target,
                bind_port: 0,
                timeout_ms: self.cmd_timeout_ms,
                debug: 0,
            }),
    {
        send(cmd, self.target.clone(), self.local_ctrl_port, self.cmd_timeout_ms, 0)
    }
}

/// How the selected device is initialised. `parsed` is what reading its address came to.
pub fn init_order(cfg: &Config, parsed: Result<Endpoint, String>) -> (r: Result<
    InitOrder,
    ApiError,
>)
    ensures
        exists|target: Result<Endpoint, ApiError>| #[trigger]
            crate::api::is_selected(*cfg, parsed, target) && match target {
                Ok(a) => r is Ok && r->Ok_0.follows(*cfg, a),
                Err(e) => r == Err::<InitOrder, ApiError>(e),
            },
{
    let target = selected_addr(cfg, parsed);
    match target {
        Ok(a) => {
            assert(crate::api::is_selected(*cfg, parsed, Ok(a)));
            let cmd_timeout_ms: u64 = if cfg.timeout_ms >= MIN_INIT_TIMEOUT_MS {
                cfg.timeout_ms
            } else {
                MIN_INIT_TIMEOUT_MS
            };
            Ok(
                InitOrder {
                    target: a,
                    local_ctrl_port: cfg.local_ctrl_port,
                    query_timeout_ms: cfg.timeout_ms,
                    cmd_timeout_ms,
                    clock_source: cfg.clock_source.clone(),
                    freq_mhz: cfg.lo_mhz,
                },
            )
        },
        Err(e) => {
            assert(crate::api::is_selected(*cfg, parsed, Err(e)));
            Err(e)
        },
    }
}

/// An initialisation under way.
#[derive(Debug)]
pub struct InitRun {
    pub init_id: String,
    /// Commands that have not been sent, in order.
    pub pending: Vec<CtrlMsg>,
    /// Commands that have been sent.
    pub index: usize,
    /// Commands that came to an end.
    pub steps: usize,
}

/// A command of the sequence, to be sent now.
#[derive(Debug)]
pub struct InitCommand {
    pub index: usize,
    pub name: String,
    pub cmd: CtrlMsg,
}

pub open spec fn no_commands_text() -> Seq<char> {
    "生成 init 命令失败"@
}

impl InitRun {
    /// No more commands have come to an end than have been sent, and all can be counted.
    pub open spec fn wf(&self) -> bool {
        &&& self.steps <= self.index
        &&& self.index + self.pending@.len() <= usize::MAX
    }

    /// `all` is the sequence that this works through: what has been sent of it lies before `index`.
    pub open spec fn works_through(&self, all: Seq<CtrlMsg>) -> bool {
        &&& self.index <= all.len()
        &&& self.pending@ == all.skip(self.index as int)
    }

    /// Begins to work through a sequence of commands, if there is one.
    pub fn begin(init_id: String, cmds: Option<Vec<CtrlMsg>>) -> (r: Option<InitRun>)
        ensures
            match cmds {
                Some(c) => {
                    &&& r is Some
                    &&& r->0.init_id == init_id
                    &&& r->0.index == 0
                    &&& r->0.steps == 0
                    &&& r->0.pending == c
                    &&& r->0.works_through(c@)
                    &&& r->0.wf()
                },
                None => r is None,
            },
    {
        match cmds {
            Some(c) => {
                assert(c@.skip(0) =~= c@);
                assert(c.len() <= usize::MAX);
                Some(InitRun { init_id, pending: c, index: 0, steps: 0 })
            },
            None => None,
        }
    }

    /// The news that there is no sequence to work through.
    pub fn no_commands_news<'a>(init_id: &'a String) -> (m: WsMsg<'a>)
        ensures
            m matches WsMsg::InitError { init_id: id, error } && id == init_id && error@
                == no_commands_text(),
    {
        WsMsg::InitError { init_id, error: "生成 init 命令失败" }
    }

    /// The next command to be sent, with its label; none once all have been sent. `freq` is how the
    /// mixer frequencies of that command are printed.
    pub fn next(&mut self, freq: &str) -> (r: Option<InitCommand>)
        requires
            old(self).wf(),
        ensures
            final(self).wf(),
            final(self).init_id == old(self).init_id,
            final(self).steps == old(self).steps,
            match r {
                Some(c) => {
                    &&& old(self).pending@.len() > 0
                    &&& c.cmd == old(self).pending@[0]
                    &&& c.index == old(self).index
                    &&& c.name@ == crate::control::label_of(c.cmd, freq@)
                    &&& final(self).index == old(self).index + 1
                    &&& final(self).pending@ == old(self).pending@.drop_first()
                },
                None => old(self).pending@.len() == 0 && *final(self) == *old(self),
            },
            forall|all: Seq<CtrlMsg>|
                old(self).works_through(all) ==> {
                    &&& #[trigger] final(self).works_through(all)
                    &&& r is Some ==> r->0.cmd == all[r->0.index as int]
                    &&& r is None ==> old(self).index == all.len()
                },
    {
        if self.pending.len() == 0 {
            return None;
        }
        let ghost before = *self;
        let cmd = self.pending.remove(0);
        let index: usize = self.index;
        self.index = index + 1;
        proof {
            assert(self.pending@ =~= before.pending@.drop_first());
            assert forall|all: Seq<CtrlMsg>| before.works_through(all) implies {
                &&& #[trigger] self.works_through(all)
                &&& cmd == all[index as int]
            } by {
                assert(all.skip(index as int).len() == all.len() - index);
                assert(all.skip(index as int).drop_first() =~= all.skip(index + 1));
                assert(all.skip(index as int)[0] == all[index as int]);
            }
        }
        let name = cmd_label(&cmd, freq);
        Some(InitCommand { index, name, cmd })
    }

    /// Takes in what sending the last command came to, and gives the news of it: a command that was
    /// carried through counts as a step, one whose sending broke off is passed over.
    pub fn on_reply<'a>(
        &'a mut self,
        index: usize,
        name: &'a String,
        reply: Option<&'a SummaryView>,
    ) -> (m: Option<WsMsg<'a>>)
        requires
            old(self).wf(),
            old(self).steps < old(self).index,
            index + 1 == old(self).index,
        ensures
            final(self).wf(),
            match reply {
                Some(r) => {
                    &&& *final(self) == (InitRun {
                        steps: (old(self).steps + 1) as usize,
                        ..*old(self)
                    })
                    &&& m == Some(
                        WsMsg::InitStep { init_id: &old(self).init_id, index, name, reply: r },
                    )
                },
                None => *final(self) == *old(self) && m is None,
            },
    {
        match reply {
            Some(r) => {
                self.steps = self.steps + 1;
                Some(WsMsg::InitStep { init_id: &self.init_id, index, name, reply: r })
            },
            None => None,
        }
    }

    /// The news that the whole sequence has been worked through.
    pub fn done_news<'a>(&'a self) -> (m: WsMsg<'a>)
        ensures
            m == (WsMsg::InitDone { init_id: &self.init_id, steps: self.steps }),
    {
        WsMsg::InitDone { init_id: &self.init_id, steps: self.steps }
    }
}

/// The mixers, the initialisation and the frequency axis go by one frequency: what the mixers were
/// set to last is what the device is initialised with and what spectra are shifted by.
pub proof fn law_one_oscillator_frequency(
    cfg: Config,
    freq_mhz: Float64,
    order: InitOrder,
    target: Endpoint,
    capture: crate::api::CaptureOrder,
    req: crate::api::CaptureRequest,
)
    requires
        order.follows(Config { lo_mhz: freq_mhz, ..cfg }, target),
        capture.fills_in(Config { lo_mhz: freq_mhz, ..cfg }, req),
    ensures
        order.freq_mhz == freq_mhz,
        capture.lo_mhz == freq_mhz,
{
}

/// An initialisation goes to the selected device as the configuration says: the settings are waited for
/// as long as configured, each command at least five seconds.
pub proof fn law_an_order_goes_by_the_configuration(
    order: InitOrder,
    cfg: Config,
    target: Endpoint,
)
    requires
        order.follows(cfg, target),
    ensures
        order.target == target,
        order.local_ctrl_port == cfg.local_ctrl_port,
        order.query_timeout_ms == cfg.timeout_ms,
        order.cmd_timeout_ms >= 5000,
        order.cmd_timeout_ms >= cfg.timeout_ms,
        order.cmd_timeout_ms == 5000 || order.cmd_timeout_ms == cfg.timeout_ms,
        order.clock_source == cfg.clock_source,
        order.freq_mhz == cfg.lo_mhz,
{
}

/// What is still to be sent is what the whole sequence holds from the place on that has been reached:
/// nothing is left out, repeated or taken out of turn.
pub proof fn law_commands_are_worked_off_in_order(run: InitRun, all: Seq<CtrlMsg>, i: int)
    requires
        run.works_through(all),
    ensures
        run.index + run.pending@.len() == all.len(),
        0 <= i < run.pending@.len() ==> run.pending@[i] == all[run.index + i],
{
}

} // verus!
