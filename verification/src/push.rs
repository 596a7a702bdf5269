//! News that is pushed to the open pages, and the polling that makes some of it.
use vstd::prelude::*;
use vstd::string::*;

use crate::address::Endpoint;
use crate::capture::{CaptureHandle, CaptureResult, PortProgress};
use crate::config::Config;
use crate::control::{cmd_query, send, SendPlan, StatusSnapshot, SummaryView};

verus! {

/// A piece of news.
#[derive(Debug)]
pub enum WsMsg<'a> {
    Status { payload: &'a StatusSnapshot },
    CaptureProgress { capture_id: &'a String, phase: &'a String, progress: &'a Vec<PortProgress> },
    CaptureResult { capture_id: &'a String, result: &'a CaptureResult },
    CaptureError { capture_id: &'a String, error: &'a String },
    InitStep { init_id: &'a String, index: usize, name: &'a String, reply: &'a SummaryView },
    InitDone { init_id: &'a String, steps: usize },
    InitError { init_id: &'a String, error: &'static str },
}

/// The news of a capture under way; none once it is done.
pub fn progress_news<'a>(capture_id: &'a String, handle: &'a CaptureHandle) -> (r: Option<
    WsMsg<'a>,
>)
    ensures
        r == if handle.done {
            None
        } else {
            Some(
                WsMsg::CaptureProgress {
                    capture_id,
                    phase: &handle.phase,
                    progress: &handle.progress,
                },
            )
        },
{
    if handle.done {
        None
    } else {
        Some(
            WsMsg::CaptureProgress { capture_id, phase: &handle.phase, progress: &handle.progress },
        )
    }
}

/// The news of a capture's result, if it has one.
pub fn result_news<'a>(capture_id: &'a String, handle: &'a CaptureHandle) -> (r: Option<WsMsg<'a>>)
    ensures
        r == match handle.result {
            Some(Ok(result)) => Some(WsMsg::CaptureResult { capture_id, result: &result }),
            Some(Err(error)) => Some(WsMsg::CaptureError { capture_id, error: &error }),
            None => None,
        },
{
    match &handle.result {
        Some(Ok(result)) => Some(WsMsg::CaptureResult { capture_id, result }),
        Some(Err(error)) => Some(WsMsg::CaptureError { capture_id, error }),
        None => None,
    }
}

/// Something that happens to the connection of a page.
#[derive(Clone, Copy, Debug, PartialEq, Eq, Structural)]
pub enum WsEvent {
    /// There is news.
    News,
    /// There will be no more news, or some was missed.
    NewsLost,
    /// A piece of news was sent, or could not be.
    Sent { ok: bool },
    /// The page closes the connection.
    PeerClose,
    /// The page sent something else.
    PeerOther,
    /// The connection failed or ended.
    PeerLost,
}

/// What to do about it.
#[derive(Clone, Copy, Debug, PartialEq, Eq, Structural)]
pub enum WsAction {
    /// Send the news to the page.
    Send,
    /// Wait for what happens next.
    Listen,
    /// End the connection.
    End,
}

/// What to do about an event on the connection of a page.
pub fn ws_step(event: WsEvent) -> (a: WsAction)
    ensures
        a is Send <==> event is News,
        a is Listen <==> event is PeerOther || event == (WsEvent::Sent { ok: true }),
{
    match event {
        WsEvent::News => WsAction::Send,
        WsEvent::NewsLost => WsAction::End,
        WsEvent::Sent { ok } => if ok {
            WsAction::Listen
        } else {
            WsAction::End
        },
        WsEvent::PeerClose => WsAction::End,
        WsEvent::PeerOther => WsAction::Listen,
        WsEvent::PeerLost => WsAction::End,
    }
}

/// The news of the last known state of the device, if there is one.
pub open spec fn state_news<'a>(status: &'a Option<StatusSnapshot>) -> Option<WsMsg<'a>> {
    match *status {
        Some(payload) => Some(WsMsg::Status { payload: &payload }),
        None => None,
    }
}

/// The last known state once a poll has come to `polled`: a poll without an answer leaves it as it
/// is.
pub open spec fn state_after(status: Option<StatusSnapshot>, polled: Option<StatusSnapshot>) -> Option<
    StatusSnapshot,
> {
    if polled is Some {
        polled
    } else {
        status
    }
}

/// The news that a page gets first: the last known state of the device, if there is one.
pub fn first_news<'a>(status: &'a Option<StatusSnapshot>) -> (r: Option<WsMsg<'a>>)
    ensures
        r == state_news(status),
{
    match status {
        Some(payload) => Some(WsMsg::Status { payload }),
        None => None,
    }
}

/// How the selected device is polled for its state: not at all, if none is selected or its address
/// is none. `parsed` is what reading the selected device's address came to.
pub fn poll_plan(cfg: &Config, parsed: Result<Endpoint, String>) -> (r: Option<SendPlan>)
    ensures
        r == if cfg.selected_device is Some && parsed is Ok {
            Some(
                SendPlan {
                    cmd: crate::control::CtrlMsg::Query { msg_id: 0 },
                    target: parsed->Ok_0,
                    bind_port: 0,
                    timeout_ms: cfg.timeout_ms,
                    debug: 0,
                },
            )
        } else {
            None
        },
{
    match (&cfg.selected_device, parsed) {
        (Some(_), Ok(target)) => Some(
            send(cmd_query(), target, cfg.local_ctrl_port, cfg.timeout_ms, 0),
        ),
        _ => None,
    }
}

/// Notes a state that was polled, and tells whether there is news of it.
pub fn note_status(status: &mut Option<StatusSnapshot>, polled: Option<StatusSnapshot>) -> (news:
    bool)
    ensures
        news == (polled is Some),
        *final(status) == state_after(*old(status), polled),
{
    match polled {
        Some(s) => {
            *status = Some(s);
            true
        },
        None => false,
    }
}

/// A page that opens sees the state that the device gave last, however many polls went unanswered
/// since.
pub proof fn law_a_new_page_sees_the_last_state(
    status: Option<StatusSnapshot>,
    answer: StatusSnapshot,
    polls: Seq<Option<StatusSnapshot>>,
)
    requires
        forall|i: int| 0 <= i < polls.len() ==> (#[trigger] polls[i]) is None,
    ensures
        state_news(
            &polls.fold_left(
                state_after(status, Some(answer)),
                |s: Option<StatusSnapshot>, p: Option<StatusSnapshot>| state_after(s, p),
            ),
        ) == Some(WsMsg::Status { payload: &answer }),
    decreases polls.len(),
{
    reveal(Seq::fold_left);
    if polls.len() > 0 {
        assert(polls[polls.len() - 1] is None);
        law_a_new_page_sees_the_last_state(status, answer, polls.drop_last());
    }
}

/// A poll that is answered replaces the last known state, one that is not leaves it alone; pages that
/// open are told of it, and of nothing where no state is known.
pub proof fn law_polls_update_the_last_state(
    status: Option<StatusSnapshot>,
    polled: Option<StatusSnapshot>,
)
    ensures
        polled is Some ==> state_after(status, polled) == polled,
        polled is None ==> state_after(status, polled) == status,
        status is None <==> state_news(&status) is None,
        status is Some ==> state_news(&status) == Some(WsMsg::Status { payload: &status->0 }),
{
}

} // verus!
