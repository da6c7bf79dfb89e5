//! Upstream connector state machine.
//!
//! One connector owns one upstream session. The transport outside this
//! crate feeds it events (connection outcomes, decoded frames, timer ticks,
//! the shutdown notification) and performs the actions it returns; every
//! decision between the two is made here and verified. A transport fault is
//! a connector-scoped fault: the machine backs off and retries, and its
//! phase and attempt count are its exposed health.

use vstd::prelude::*;

use crate::codec::{Signal, SignalV};
use crate::registry::{seq_contains_bot, NetSDKConfig, Registry, RouteV};
use crate::structs::{BotId, BotIdV, Event, EventV, Login};
use vstd::string::StringExecFns;

verus! {

broadcast use vstd::std_specs::vec::group_vec_axioms;

/// Phase of the connector's session; with the attempt count, the
/// connector's exposed health.
#[derive(Clone, Copy, Debug, PartialEq, Eq, Structural)]
pub enum ConnPhase {
    /// Opening the transport connection and upgrading it.
    Connecting,
    /// Connection is up; frames flow; keepalive runs.
    Active,
    /// A transport fault ended the connection; waiting to reconnect.
    Backoff,
    /// Shut down or closed on a protocol violation; never reconnects.
    Terminated,
}

/// What the transport observed for this connector.
pub enum ConnEvent {
    /// The upgrade succeeded: the event stream is open.
    Connected,
    /// The connection attempt failed: a connector-scoped fault.
    ConnectFailed,
    /// A frame arrived and decoded to a signal.
    Frame(Signal),
    /// A frame arrived but did not decode; it is dropped, the session stays.
    MalformedFrame,
    /// A frame carried an op outside the protocol's closed set: a protocol
    /// violation that closes this connection alone.
    ProtocolViolation,
    /// The keepalive interval elapsed with no traffic.
    TimerTick,
    /// The peer closed the connection or a send failed.
    PeerClosed,
    /// The backoff delay after a fault elapsed; time to reconnect.
    BackoffElapsed,
    /// The process-wide shutdown notification fired.
    Shutdown,
}

/// What the transport must do next for this connector.
#[derive(Debug, PartialEq)]
pub enum ConnAction {
    /// Send an IDENTIFY frame with this credential and last-seen sequence.
    SendIdentify(String, i64),
    /// Send a keepalive PING frame.
    SendPing,
    /// Send a graceful close and stop the session.
    SendClose,
    /// Hand this event to the dispatcher on an independent unit of work.
    Dispatch(Event),
}

/// Mathematical view of a connector action.
pub ghost enum ConnActionV {
    SendIdentify(Seq<char>, i64),
    SendPing,
    SendClose,
    Dispatch(EventV),
}

impl View for ConnAction {
    type V = ConnActionV;

    open spec fn view(&self) -> ConnActionV {
        match self {
            ConnAction::SendIdentify(t, s) => ConnActionV::SendIdentify(t@, *s),
            ConnAction::SendPing => ConnActionV::SendPing,
            ConnAction::SendClose => ConnActionV::SendClose,
            ConnAction::Dispatch(e) => ConnActionV::Dispatch(e@),
        }
    }
}

impl DeepView for ConnAction {
    type V = ConnActionV;

    open spec fn deep_view(&self) -> ConnActionV {
        self.view()
    }
}

/// The bots a READY declares: every login that names both its platform and
/// its account id, in order.
pub open spec fn ready_bots(ls: Seq<crate::structs::LoginV>) -> Seq<BotIdV>
    decreases ls.len(),
{
    if ls.len() == 0 {
        Seq::empty()
    } else {
        let rest = ready_bots(ls.drop_first());
        match (ls[0].self_id, ls[0].platform) {
            (Some(id), Some(platform)) => seq![BotIdV { id, platform }] + rest,
            _ => rest,
        }
    }
}

/// Collect the bot identities a READY declares.
pub fn logins_to_bots(logins: &Vec<Login>) -> (r: Vec<BotId>)
    ensures
        r.deep_view() == ready_bots(logins.deep_view()),
{
    let ghost lv = logins.deep_view();
    proof {
        assert(lv.skip(0) =~= lv);
    }
    let mut r: Vec<BotId> = Vec::new();
    let n = logins.len();
    for i in 0..n
        invariant
            n == logins.len(),
            lv == logins.deep_view(),
            lv.len() == n,
            ready_bots(lv) =~= r.deep_view() + ready_bots(lv.skip(i as int)),
    {
        proof {
            assert(lv.skip(i as int)[0] == lv[i as int]);
            assert(lv[i as int] == logins@[i as int]@);
            assert(lv.skip(i as int).drop_first() =~= lv.skip(i as int + 1));
        }
        let ghost prev = r.deep_view();
        let login = &logins[i];
        match (&login.self_id, &login.platform) {
            (Some(id), Some(platform)) => {
                r.push(BotId { id: id.clone(), platform: platform.clone() });
                proof {
                    assert(r.deep_view() =~= prev.push(
                        BotIdV {
                            id: lv[i as int].self_id.unwrap(),
                            platform: lv[i as int].platform.unwrap(),
                        },
                    ));
                    assert(prev.push(
                        BotIdV {
                            id: lv[i as int].self_id.unwrap(),
                            platform: lv[i as int].platform.unwrap(),
                        },
                    ) + ready_bots(lv.skip(i as int + 1)) =~= prev + ready_bots(
                        lv.skip(i as int),
                    ));
                }
            },
            _ => {},
        }
    }
    proof {
        assert(lv.skip(n as int) =~= Seq::<crate::structs::LoginV>::empty());
        assert(ready_bots(lv) =~= r.deep_view());
    }
    r
}

/// Seconds to wait before the next connection attempt: doubling from one
/// second, capped at one minute.
pub open spec fn backoff_delay_spec(attempts: u32) -> u64 {
    if attempts <= 1 {
        1
    } else if attempts == 2 {
        2
    } else if attempts == 3 {
        4
    } else if attempts == 4 {
        8
    } else if attempts == 5 {
        16
    } else if attempts == 6 {
        32
    } else {
        60
    }
}

/// What the registry keeps for each bot when one owner's contribution goes:
/// entries of other owners stay, the owner's are gone.
pub open spec fn owner_released(
    oldr: Registry,
    newr: Registry,
    owner: u64,
) -> bool {
    forall|b: BotIdV|
        #[trigger] newr.find(b) == (match oldr.find(b) {
            Some((ow, rv)) => if ow == owner {
                None::<(u64, RouteV)>
            } else {
                Some((ow, rv))
            },
            None => None::<(u64, RouteV)>,
        })
}

/// One upstream connector's state: its registry owner id, its credential,
/// its route, its phase, its event-sequence counter, and how many
/// consecutive connection attempts have failed.
pub struct Connector {
    pub id: u64,
    pub token: String,
    pub route: NetSDKConfig,
    pub phase: ConnPhase,
    pub seq: i64,
    pub attempts: u32,
}

impl Connector {
    /// A fresh connector for one configured endpoint, about to connect,
    /// with a cold-start sequence of zero.
    pub fn new(id: u64, token: String, route: NetSDKConfig) -> (r: Connector)
        ensures
            r.id == id,
            r.token@ == token@,
            r.route@ == route@,
            r.phase == ConnPhase::Connecting,
            r.seq == 0,
            r.attempts == 0,
    {
        Connector { id, token, route, phase: ConnPhase::Connecting, seq: 0, attempts: 0 }
    }

    /// Seconds to wait before the next connection attempt, from the
    /// connector's health.
    pub fn backoff_delay(&self) -> (r: u64)
        ensures
            r == backoff_delay_spec(self.attempts),
    {
        if self.attempts <= 1 {
            1
        } else if self.attempts == 2 {
            2
        } else if self.attempts == 3 {
            4
        } else if self.attempts == 4 {
            8
        } else if self.attempts == 5 {
            16
        } else if self.attempts == 6 {
            32
        } else {
            60
        }
    }

    /// Advance the connector on one observed event and decide what the
    /// transport does next.
    ///
    /// The sequence counter never decreases and follows the highest event id
    /// seen. A transport fault is connector-scoped: it releases this
    /// connector's registry contribution and backs off to reconnect, with
    /// the attempt count exposed. Shutdown or a protocol-violating frame
    /// terminates the session for good, sending only the graceful close and
    /// releasing the registry contribution at once. A READY replaces this
    /// connector's registry contribution with the logins it declares; a
    /// malformed frame changes nothing; any event outside the phase that
    /// expects it changes nothing.
    pub fn step(&mut self, ev: ConnEvent, reg: &mut Registry) -> (actions: Vec<ConnAction>)
        requires
            old(reg).wf(),
        ensures
            final(reg).wf(),
            final(self).id == old(self).id,
            final(self).token@ == old(self).token@,
            final(self).route@ == old(self).route@,
            final(self).seq >= old(self).seq,
            match ev {
                ConnEvent::Connected => {
                    &&& final(self).phase == (if old(self).phase == ConnPhase::Connecting {
                        ConnPhase::Active
                    } else {
                        old(self).phase
                    })
                    &&& actions.deep_view() =~= (if old(self).phase == ConnPhase::Connecting {
                        seq![ConnActionV::SendIdentify(old(self).token@, old(self).seq)]
                    } else {
                        Seq::<ConnActionV>::empty()
                    })
                    &&& final(self).attempts == (if old(self).phase == ConnPhase::Connecting {
                        0u32
                    } else {
                        old(self).attempts
                    })
                    &&& final(reg).entries_view() == old(reg).entries_view()
                    &&& final(self).seq == old(self).seq
                },
                ConnEvent::ConnectFailed | ConnEvent::PeerClosed => {
                    &&& final(self).phase == (if old(self).phase == ConnPhase::Terminated {
                        ConnPhase::Terminated
                    } else {
                        ConnPhase::Backoff
                    })
                    &&& final(self).attempts == (if old(self).attempts < 0xffff_ffffu32 {
                        (old(self).attempts + 1) as u32
                    } else {
                        old(self).attempts
                    })
                    &&& actions.deep_view() =~= Seq::<ConnActionV>::empty()
                    &&& final(self).seq == old(self).seq
                    &&& owner_released(*old(reg), *final(reg), old(self).id)
                },
                ConnEvent::BackoffElapsed => {
                    &&& final(self).phase == (if old(self).phase == ConnPhase::Backoff {
                        ConnPhase::Connecting
                    } else {
                        old(self).phase
                    })
                    &&& actions.deep_view() =~= Seq::<ConnActionV>::empty()
                    &&& final(reg).entries_view() == old(reg).entries_view()
                    &&& final(self).seq == old(self).seq
                    &&& final(self).attempts == old(self).attempts
                },
                ConnEvent::Shutdown | ConnEvent::ProtocolViolation => {
                    &&& final(self).phase == ConnPhase::Terminated
                    &&& actions.deep_view() =~= (if old(self).phase == ConnPhase::Active {
                        seq![ConnActionV::SendClose]
                    } else {
                        Seq::<ConnActionV>::empty()
                    })
                    &&& final(self).seq == old(self).seq
                    &&& final(self).attempts == old(self).attempts
                    &&& owner_released(*old(reg), *final(reg), old(self).id)
                },
                ConnEvent::TimerTick => {
                    &&& actions.deep_view() =~= (if old(self).phase == ConnPhase::Active {
                        seq![ConnActionV::SendPing]
                    } else {
                        Seq::<ConnActionV>::empty()
                    })
                    &&& final(reg).entries_view() == old(reg).entries_view()
                    &&& final(self).phase == old(self).phase
                    &&& final(self).seq == old(self).seq
                    &&& final(self).attempts == old(self).attempts
                },
                ConnEvent::MalformedFrame => {
                    &&& actions.deep_view() =~= Seq::<ConnActionV>::empty()
                    &&& final(reg).entries_view() == old(reg).entries_view()
                    &&& final(self).phase == old(self).phase
                    &&& final(self).seq == old(self).seq
                    &&& final(self).attempts == old(self).attempts
                },
                ConnEvent::Frame(sig) => {
                    &&& final(self).phase == old(self).phase
                    &&& final(self).attempts == old(self).attempts
                    &&& (old(self).phase != ConnPhase::Active ==> {
                        &&& actions.deep_view() =~= Seq::<ConnActionV>::empty()
                        &&& final(reg).entries_view() == old(reg).entries_view()
                        &&& final(self).seq == old(self).seq
                    })
                    &&& (old(self).phase == ConnPhase::Active ==> match sig@ {
                        SignalV::Event(e) => {
                            &&& final(self).seq == (if e.id > old(self).seq {
                                e.id
                            } else {
                                old(self).seq
                            })
                            &&& actions.deep_view() =~= seq![ConnActionV::Dispatch(e)]
                            &&& final(reg).entries_view() == old(reg).entries_view()
                        },
                        SignalV::Ready(ls) => {
                            &&& actions.deep_view() =~= Seq::<ConnActionV>::empty()
                            &&& final(self).seq == old(self).seq
                            &&& forall|b: BotIdV|
                                #[trigger] final(reg).find(b) == (if seq_contains_bot(
                                    ready_bots(ls),
                                    b,
                                ) {
                                    Some((old(self).id, old(self).route@))
                                } else {
                                    match old(reg).find(b) {
                                        Some((ow, rv)) => if ow == old(self).id {
                                            None::<(u64, RouteV)>
                                        } else {
                                            Some((ow, rv))
                                        },
                                        None => None::<(u64, RouteV)>,
                                    }
                                })
                        },
                        _ => {
                            &&& actions.deep_view() =~= Seq::<ConnActionV>::empty()
                            &&& final(self).seq == old(self).seq
                            &&& final(reg).entries_view() == old(reg).entries_view()
                        },
                    })
                },
            },
    {
        match ev {
            ConnEvent::Connected => {
                let mut actions: Vec<ConnAction> = Vec::new();
                if matches!(self.phase, ConnPhase::Connecting) {
                    self.phase = ConnPhase::Active;
                    self.attempts = 0;
                    actions.push(ConnAction::SendIdentify(self.token.clone(), self.seq));
                    proof {
                        assert(actions.deep_view() =~= seq![
                            ConnActionV::SendIdentify(old(self).token@, old(self).seq),
                        ]);
                    }
                } else {
                    proof {
                        assert(actions.deep_view() =~= Seq::<ConnActionV>::empty());
                    }
                }
                actions
            },
            ConnEvent::ConnectFailed | ConnEvent::PeerClosed => {
                if !matches!(self.phase, ConnPhase::Terminated) {
                    self.phase = ConnPhase::Backoff;
                }
                if self.attempts < 0xffff_ffffu32 {
                    self.attempts = self.attempts + 1;
                }
                reg.remove_owner(self.id);
                let actions: Vec<ConnAction> = Vec::new();
                proof {
                    assert(actions.deep_view() =~= Seq::<ConnActionV>::empty());
                }
                actions
            },
            ConnEvent::BackoffElapsed => {
                if matches!(self.phase, ConnPhase::Backoff) {
                    self.phase = ConnPhase::Connecting;
                }
                let actions: Vec<ConnAction> = Vec::new();
                proof {
                    assert(actions.deep_view() =~= Seq::<ConnActionV>::empty());
                }
                actions
            },
            ConnEvent::Shutdown | ConnEvent::ProtocolViolation => {
                let was_active = matches!(self.phase, ConnPhase::Active);
                self.phase = ConnPhase::Terminated;
                reg.remove_owner(self.id);
                let mut actions: Vec<ConnAction> = Vec::new();
                if was_active {
                    actions.push(ConnAction::SendClose);
                    proof {
                        assert(actions.deep_view() =~= seq![ConnActionV::SendClose]);
                    }
                } else {
                    proof {
                        assert(actions.deep_view() =~= Seq::<ConnActionV>::empty());
                    }
                }
                actions
            },
            ConnEvent::TimerTick => {
                let mut actions: Vec<ConnAction> = Vec::new();
                if matches!(self.phase, ConnPhase::Active) {
                    actions.push(ConnAction::SendPing);
                    proof {
                        assert(actions.deep_view() =~= seq![ConnActionV::SendPing]);
                    }
                } else {
                    proof {
                        assert(actions.deep_view() =~= Seq::<ConnActionV>::empty());
                    }
                }
                actions
            },
            ConnEvent::MalformedFrame => {
                let actions: Vec<ConnAction> = Vec::new();
                proof {
                    assert(actions.deep_view() =~= Seq::<ConnActionV>::empty());
                }
                actions
            },
            ConnEvent::Frame(sig) => {
                let mut actions: Vec<ConnAction> = Vec::new();
                if matches!(self.phase, ConnPhase::Active) {
                    match sig {
                        Signal::Event(e) => {
                            if e.id > self.seq {
                                self.seq = e.id;
                            }
                            let ghost ev0 = e@;
                            actions.push(ConnAction::Dispatch(e));
                            proof {
                                assert(actions.deep_view() =~= seq![ConnActionV::Dispatch(ev0)]);
                            }
                        },
                        Signal::Ready(lg) => {
                            let bots = logins_to_bots(&lg.logins);
                            let route = self.route.clone();
                            reg.replace_owner(self.id, &bots, &route);
                            proof {
                                assert(actions.deep_view() =~= Seq::<ConnActionV>::empty());
                            }
                        },
                        _ => {
                            proof {
                                assert(actions.deep_view() =~= Seq::<ConnActionV>::empty());
                            }
                        },
                    }
                } else {
                    proof {
                        assert(actions.deep_view() =~= Seq::<ConnActionV>::empty());
                    }
                }
                actions
            },
        }
    }
}

} // verus!
