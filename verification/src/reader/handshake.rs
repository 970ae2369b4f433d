//! The start-up exchange with a Zebra reader, as a state machine: each status
//! message the reader answers moves the connection along, asks for the next
//! request to be sent, or gives up.
use vstd::prelude::*;
use crate::llrp::message_types;
use super::ReaderStatus;
use crate::llrp::bit_masks::{msg_prefix, u32_be_bytes, u16_be_bytes};
use crate::reader::zebra::requests::{
    self, keepalive_body, purge_tags_body, no_filter_body, reader_config_body, add_rospec_body,
};

verus! {

/// A request the connection asks to have sent to the reader.
#[derive(PartialEq, Eq, Structural, Clone, Copy, Debug)]
pub enum Outgoing {
    SetKeepalive,
    PurgeTags,
    SetNoFilter,
    SetReaderConfig,
    EnableEventsAndReports,
    GetReaderConfig,
    DeleteAccessSpec,
    DeleteRospec,
    AddRospec,
    EnableRospec,
    StartRospec,
}

/// How many failed answers in a row the exchange tolerates before giving up.
pub const MAX_ATTEMPTS: u32 = 5;

/// The status messages the exchange reacts to.
pub open spec fn followed_kind(kind: u16) -> bool {
    kind == message_types::SET_READER_CONFIG_RESPONSE
        || kind == message_types::CUSTOM_MESSAGE
        || kind == message_types::DELETE_ACCESS_SPEC_RESPONSE
        || kind == message_types::DISABLE_ROSPEC_RESPONSE
        || kind == message_types::DELETE_ROSPEC_RESPONSE
        || kind == message_types::ADD_ROSPEC_RESPONSE
        || kind == message_types::ENABLE_ROSPEC_RESPONSE
        || kind == message_types::START_ROSPEC_RESPONSE
}

/// The next status and the requests to send when the reader answers `kind` successfully.
pub open spec fn on_success(status: ReaderStatus, kind: u16) -> (ReaderStatus, Seq<Outgoing>) {
    if kind == message_types::SET_READER_CONFIG_RESPONSE {
        match status {
            ReaderStatus::ConnectingKeepalive => (ReaderStatus::ConnectingPurgeTags, seq![Outgoing::PurgeTags]),
            ReaderStatus::ConnectingSetNoFilter => (ReaderStatus::ConnectingSetReaderConfig, seq![Outgoing::SetReaderConfig]),
            ReaderStatus::ConnectingSetReaderConfig => (ReaderStatus::ConnectingDeleteAccessSpec,
                seq![Outgoing::EnableEventsAndReports, Outgoing::GetReaderConfig, Outgoing::DeleteAccessSpec]),
            _ => (ReaderStatus::Disconnected, seq![]),
        }
    } else if kind == message_types::CUSTOM_MESSAGE {
        match status {
            ReaderStatus::ConnectingPurgeTags => (ReaderStatus::ConnectingSetNoFilter, seq![Outgoing::SetNoFilter]),
            ReaderStatus::Connected => (ReaderStatus::Connected, seq![]),
            _ => (ReaderStatus::Disconnected, seq![]),
        }
    } else if kind == message_types::DELETE_ACCESS_SPEC_RESPONSE {
        match status {
            ReaderStatus::ConnectingDeleteAccessSpec => (ReaderStatus::ConnectingDeleteRospec, seq![Outgoing::DeleteRospec]),
            _ => (ReaderStatus::Disconnected, seq![]),
        }
    } else if kind == message_types::DISABLE_ROSPEC_RESPONSE {
        (ReaderStatus::Disconnected, seq![])
    } else if kind == message_types::DELETE_ROSPEC_RESPONSE {
        match status {
            ReaderStatus::ConnectingDeleteRospec => (ReaderStatus::ConnectingAddRospec, seq![Outgoing::AddRospec]),
            _ => (ReaderStatus::Disconnected, seq![]),
        }
    } else if kind == message_types::ADD_ROSPEC_RESPONSE {
        match status {
            ReaderStatus::ConnectingAddRospec => (ReaderStatus::ConnectingEnableRospec, seq![Outgoing::EnableRospec]),
            _ => (ReaderStatus::Disconnected, seq![]),
        }
    } else if kind == message_types::ENABLE_ROSPEC_RESPONSE {
        match status {
            ReaderStatus::ConnectingEnableRospec => (ReaderStatus::ConnectingStartRospec, seq![Outgoing::StartRospec]),
            _ => (ReaderStatus::Disconnected, seq![]),
        }
    } else if kind == message_types::START_ROSPEC_RESPONSE {
        match status {
            ReaderStatus::ConnectingStartRospec => (ReaderStatus::Connected, seq![]),
            _ => (ReaderStatus::Disconnected, seq![]),
        }
    } else {
        (status, seq![])
    }
}

/// The next status and the requests to send again when the reader answers
/// `kind` with a failure, before the attempts run out.
pub open spec fn on_retry(status: ReaderStatus, kind: u16) -> (ReaderStatus, Seq<Outgoing>) {
    if kind == message_types::SET_READER_CONFIG_RESPONSE {
        match status {
            ReaderStatus::ConnectingKeepalive => (status, seq![Outgoing::SetKeepalive]),
            ReaderStatus::ConnectingSetNoFilter => (status, seq![Outgoing::SetNoFilter]),
            ReaderStatus::ConnectingSetReaderConfig => (status, seq![Outgoing::SetReaderConfig]),
            _ => (ReaderStatus::Disconnected, seq![]),
        }
    } else if kind == message_types::CUSTOM_MESSAGE {
        match status {
            ReaderStatus::ConnectingPurgeTags => (status, seq![Outgoing::PurgeTags]),
            ReaderStatus::Connected => (status, seq![]),
            _ => (ReaderStatus::Disconnected, seq![]),
        }
    } else if kind == message_types::DELETE_ACCESS_SPEC_RESPONSE {
        match status {
            ReaderStatus::ConnectingDeleteRospec => (status, seq![Outgoing::DeleteAccessSpec]),
            _ => (ReaderStatus::Disconnected, seq![]),
        }
    } else if kind == message_types::DISABLE_ROSPEC_RESPONSE {
        (ReaderStatus::Disconnected, seq![])
    } else if kind == message_types::DELETE_ROSPEC_RESPONSE {
        match status {
            ReaderStatus::ConnectingAddRospec => (status, seq![Outgoing::DeleteRospec]),
            ReaderStatus::Disconnected => (status, seq![]),
            _ => (ReaderStatus::Disconnected, seq![]),
        }
    } else if kind == message_types::ADD_ROSPEC_RESPONSE {
        match status {
            ReaderStatus::ConnectingAddRospec => (status, seq![Outgoing::AddRospec]),
            _ => (ReaderStatus::Disconnected, seq![]),
        }
    } else if kind == message_types::ENABLE_ROSPEC_RESPONSE {
        match status {
            ReaderStatus::ConnectingEnableRospec => (status, seq![Outgoing::EnableRospec]),
            _ => (ReaderStatus::Disconnected, seq![]),
        }
    } else {
        match status {
            ReaderStatus::ConnectingStartRospec => (status, seq![Outgoing::StartRospec]),
            _ => (ReaderStatus::Disconnected, seq![]),
        }
    }
}

/// One step of the exchange: the status, the attempt counter and the requests
/// to send after the reader answers `kind` with `success`. Answers the
/// exchange does not track change nothing.
pub open spec fn step_spec(status: ReaderStatus, attempt: u32, kind: u16, success: bool) -> (ReaderStatus, u32, Seq<Outgoing>) {
    if !followed_kind(kind) {
        (status, attempt, seq![])
    } else if success {
        let (s, out) = on_success(status, kind);
        (s, 0, out)
    } else if attempt + 1 > MAX_ATTEMPTS {
        (ReaderStatus::Disconnected, (attempt + 1) as u32, seq![])
    } else {
        let (s, out) = on_retry(status, kind);
        (s, (attempt + 1) as u32, out)
    }
}

/// Advances the exchange by one status message of type `kind` that the reader
/// answered with `success`, counting failed answers in `attempt`.
pub fn process_status_message(status: ReaderStatus, attempt: u32, kind: u16, success: bool) -> (r: (ReaderStatus, u32, Vec<Outgoing>))
    requires
        attempt < u32::MAX,
    ensures
        (r.0, r.1, r.2@) == step_spec(status, attempt, kind, success),
{
    let followed = kind == message_types::SET_READER_CONFIG_RESPONSE
        || kind == message_types::CUSTOM_MESSAGE
        || kind == message_types::DELETE_ACCESS_SPEC_RESPONSE
        || kind == message_types::DISABLE_ROSPEC_RESPONSE
        || kind == message_types::DELETE_ROSPEC_RESPONSE
        || kind == message_types::ADD_ROSPEC_RESPONSE
        || kind == message_types::ENABLE_ROSPEC_RESPONSE
        || kind == message_types::START_ROSPEC_RESPONSE;
    if !followed {
        let r = (status, attempt, Vec::new());
        assert(r.2@ =~= seq![]);
        return r;
    }
    let attempt = attempt + 1;
    if success {
        let (s, out) = if kind == message_types::SET_READER_CONFIG_RESPONSE {
            match status {
                ReaderStatus::ConnectingKeepalive => (ReaderStatus::ConnectingPurgeTags, vec![Outgoing::PurgeTags]),
                ReaderStatus::ConnectingSetNoFilter => (ReaderStatus::ConnectingSetReaderConfig, vec![Outgoing::SetReaderConfig]),
                ReaderStatus::ConnectingSetReaderConfig => (ReaderStatus::ConnectingDeleteAccessSpec,
                    vec![Outgoing::EnableEventsAndReports, Outgoing::GetReaderConfig, Outgoing::DeleteAccessSpec]),
                _ => (ReaderStatus::Disconnected, vec![]),
            }
        } else if kind == message_types::CUSTOM_MESSAGE {
            match status {
                ReaderStatus::ConnectingPurgeTags => (ReaderStatus::ConnectingSetNoFilter, vec![Outgoing::SetNoFilter]),
                ReaderStatus::Connected => (ReaderStatus::Connected, vec![]),
                _ => (ReaderStatus::Disconnected, vec![]),
            }
        } else if kind == message_types::DELETE_ACCESS_SPEC_RESPONSE {
            match status {
                ReaderStatus::ConnectingDeleteAccessSpec => (ReaderStatus::ConnectingDeleteRospec, vec![Outgoing::DeleteRospec]),
                _ => (ReaderStatus::Disconnected, vec![]),
            }
        } else if kind == message_types::DISABLE_ROSPEC_RESPONSE {
            (ReaderStatus::Disconnected, vec![])
        } else if kind == message_types::DELETE_ROSPEC_RESPONSE {
            match status {
                ReaderStatus::ConnectingDeleteRospec => (ReaderStatus::ConnectingAddRospec, vec![Outgoing::AddRospec]),
                _ => (ReaderStatus::Disconnected, vec![]),
            }
        } else if kind == message_types::ADD_ROSPEC_RESPONSE {
            match status {
                ReaderStatus::ConnectingAddRospec => (ReaderStatus::ConnectingEnableRospec, vec![Outgoing::EnableRospec]),
                _ => (ReaderStatus::Disconnected, vec![]),
            }
        } else if kind == message_types::ENABLE_ROSPEC_RESPONSE {
            match status {
                ReaderStatus::ConnectingEnableRospec => (ReaderStatus::ConnectingStartRospec, vec![Outgoing::StartRospec]),
                _ => (ReaderStatus::Disconnected, vec![]),
            }
        } else {
            match status {
                ReaderStatus::ConnectingStartRospec => (ReaderStatus::Connected, vec![]),
                _ => (ReaderStatus::Disconnected, vec![]),
            }
        };
        assert(out@ =~= on_success(status, kind).1);
        return (s, 0, out);
    }
    if attempt > MAX_ATTEMPTS {
        let r = (ReaderStatus::Disconnected, attempt, Vec::new());
        assert(r.2@ =~= seq![]);
        return r;
    }
    let (s, out) = if kind == message_types::SET_READER_CONFIG_RESPONSE {
        match status {
            ReaderStatus::ConnectingKeepalive => (status, vec![Outgoing::SetKeepalive]),
            ReaderStatus::ConnectingSetNoFilter => (status, vec![Outgoing::SetNoFilter]),
            ReaderStatus::ConnectingSetReaderConfig => (status, vec![Outgoing::SetReaderConfig]),
            _ => (ReaderStatus::Disconnected, vec![]),
        }
    } else if kind == message_types::CUSTOM_MESSAGE {
        match status {
            ReaderStatus::ConnectingPurgeTags => (status, vec![Outgoing::PurgeTags]),
            ReaderStatus::Connected => (status, vec![]),
            _ => (ReaderStatus::Disconnected, vec![]),
        }
    } else if kind == message_types::DELETE_ACCESS_SPEC_RESPONSE {
        match status {
            ReaderStatus::ConnectingDeleteRospec => (status, vec![Outgoing::DeleteAccessSpec]),
            _ => (ReaderStatus::Disconnected, vec![]),
        }
    } else if kind == message_types::DISABLE_ROSPEC_RESPONSE {
        (ReaderStatus::Disconnected, vec![])
    } else if kind == message_types::DELETE_ROSPEC_RESPONSE {
        match status {
            ReaderStatus::ConnectingAddRospec => (status, vec![Outgoing::DeleteRospec]),
            ReaderStatus::Disconnected => (status, vec![]),
            _ => (ReaderStatus::Disconnected, vec![]),
        }
    } else if kind == message_types::ADD_ROSPEC_RESPONSE {
        match status {
            ReaderStatus::ConnectingAddRospec => (status, vec![Outgoing::AddRospec]),
            _ => (ReaderStatus::Disconnected, vec![]),
        }
    } else if kind == message_types::ENABLE_ROSPEC_RESPONSE {
        match status {
            ReaderStatus::ConnectingEnableRospec => (status, vec![Outgoing::EnableRospec]),
            _ => (ReaderStatus::Disconnected, vec![]),
        }
    } else {
        match status {
            ReaderStatus::ConnectingStartRospec => (status, vec![Outgoing::StartRospec]),
            _ => (ReaderStatus::Disconnected, vec![]),
        }
    };
    assert(out@ =~= on_retry(status, kind).1);
    (s, attempt, out)
}


/// The exchange run over a sequence of status messages, with every request
/// sent along the way.
pub open spec fn run_spec(status: ReaderStatus, attempt: u32, msgs: Seq<(u16, bool)>) -> (ReaderStatus, u32, Seq<Outgoing>)
    decreases msgs.len(),
{
    if msgs.len() == 0 {
        (status, attempt, seq![])
    } else {
        let (s, a, out) = step_spec(status, attempt, msgs[0].0, msgs[0].1);
        let (s2, a2, out2) = run_spec(s, a, msgs.drop_first());
        (s2, a2, out + out2)
    }
}

/// The place of a status along the start-up exchange; a disconnected or
/// unknown connection has none.
pub open spec fn stage(s: ReaderStatus) -> int {
    match s {
        ReaderStatus::ConnectingKeepalive => 1,
        ReaderStatus::ConnectingPurgeTags => 2,
        ReaderStatus::ConnectingSetNoFilter => 3,
        ReaderStatus::ConnectingSetReaderConfig => 4,
        ReaderStatus::ConnectingDeleteAccessSpec => 5,
        ReaderStatus::ConnectingDeleteRospec => 6,
        ReaderStatus::ConnectingAddRospec => 7,
        ReaderStatus::ConnectingEnableRospec => 8,
        ReaderStatus::ConnectingStartRospec => 9,
        ReaderStatus::Connected => 10,
        _ => 0,
    }
}

/// The answers a reader gives when every step of the exchange succeeds.
pub open spec fn successful_answers() -> Seq<(u16, bool)> {
    seq![
        (message_types::SET_READER_CONFIG_RESPONSE, true),
        (message_types::CUSTOM_MESSAGE, true),
        (message_types::SET_READER_CONFIG_RESPONSE, true),
        (message_types::SET_READER_CONFIG_RESPONSE, true),
        (message_types::DELETE_ACCESS_SPEC_RESPONSE, true),
        (message_types::DELETE_ROSPEC_RESPONSE, true),
        (message_types::ADD_ROSPEC_RESPONSE, true),
        (message_types::ENABLE_ROSPEC_RESPONSE, true),
        (message_types::START_ROSPEC_RESPONSE, true),
    ]
}

/// When the reader answers every step successfully, the exchange that began
/// by setting the keepalive ends connected, having asked for each request of
/// the start-up sequence once, in order.
pub proof fn law_successful_exchange_connects(attempt: u32)
    ensures
        run_spec(ReaderStatus::ConnectingKeepalive, attempt, successful_answers()) == (
            ReaderStatus::Connected,
            0u32,
            seq![
                Outgoing::PurgeTags,
                Outgoing::SetNoFilter,
                Outgoing::SetReaderConfig,
                Outgoing::EnableEventsAndReports,
                Outgoing::GetReaderConfig,
                Outgoing::DeleteAccessSpec,
                Outgoing::DeleteRospec,
                Outgoing::AddRospec,
                Outgoing::EnableRospec,
                Outgoing::StartRospec,
            ],
        ),
{
    let m = successful_answers();
    reveal_with_fuel(run_spec, 10);
    assert(m.drop_first() =~= m.subrange(1, 9));
    assert(m.drop_first().drop_first() =~= m.subrange(2, 9));
    assert(m.subrange(2, 9).drop_first() =~= m.subrange(3, 9));
    assert(m.subrange(3, 9).drop_first() =~= m.subrange(4, 9));
    assert(m.subrange(4, 9).drop_first() =~= m.subrange(5, 9));
    assert(m.subrange(5, 9).drop_first() =~= m.subrange(6, 9));
    assert(m.subrange(6, 9).drop_first() =~= m.subrange(7, 9));
    assert(m.subrange(7, 9).drop_first() =~= m.subrange(8, 9));
    assert(m.subrange(8, 9).drop_first() =~= Seq::<(u16, bool)>::empty());
    let r = run_spec(ReaderStatus::ConnectingKeepalive, attempt, m);
    assert(r.2 =~= seq![
        Outgoing::PurgeTags,
        Outgoing::SetNoFilter,
        Outgoing::SetReaderConfig,
        Outgoing::EnableEventsAndReports,
        Outgoing::GetReaderConfig,
        Outgoing::DeleteAccessSpec,
        Outgoing::DeleteRospec,
        Outgoing::AddRospec,
        Outgoing::EnableRospec,
        Outgoing::StartRospec,
    ]);
}

/// A failed answer to a followed request, once the allowed attempts are used
/// up, disconnects.
pub proof fn law_failures_disconnect(status: ReaderStatus, attempt: u32, kind: u16)
    requires
        followed_kind(kind),
        attempt >= MAX_ATTEMPTS,
    ensures
        step_spec(status, attempt, kind, false).0 == ReaderStatus::Disconnected,
        step_spec(status, attempt, kind, false).2 == Seq::<Outgoing>::empty(),
{
}

/// A successful answer to a followed request clears the count of failed attempts.
pub proof fn law_success_clears_attempts(status: ReaderStatus, attempt: u32, kind: u16)
    requires
        followed_kind(kind),
    ensures
        step_spec(status, attempt, kind, true).1 == 0,
{
}

/// Every step either keeps the status, moves exactly one stage forward, or
/// disconnects: the exchange never skips or goes back a stage.
pub proof fn law_exchange_moves_one_stage(status: ReaderStatus, attempt: u32, kind: u16, success: bool)
    ensures
        ({
            let next = step_spec(status, attempt, kind, success).0;
            next == status || next == ReaderStatus::Disconnected || (stage(next) == stage(status) + 1 && stage(status) >= 1)
        }),
{
}

/// A message the reader sends while connected that keeps it connected: a
/// successful answer to the periodic purge of its tags, or a message the
/// exchange does not follow (tag reports, keepalives, events).
pub open spec fn keeps_connection(m: (u16, bool)) -> bool {
    (m.0 == message_types::CUSTOM_MESSAGE && m.1) || !followed_kind(m.0)
}

/// A connected reader stays connected through any run of successful purge
/// answers and messages the exchange does not follow, and nothing is sent
/// back for them.
pub proof fn law_connected_stays_through_purges(attempt: u32, msgs: Seq<(u16, bool)>)
    requires
        forall|i: int| 0 <= i < msgs.len() ==> keeps_connection(#[trigger] msgs[i]),
    ensures
        run_spec(ReaderStatus::Connected, attempt, msgs).0 == ReaderStatus::Connected,
        run_spec(ReaderStatus::Connected, attempt, msgs).2 == Seq::<Outgoing>::empty(),
    decreases msgs.len(),
{
    if msgs.len() > 0 {
        let (s, a, out) = step_spec(ReaderStatus::Connected, attempt, msgs[0].0, msgs[0].1);
        assert(keeps_connection(msgs[0]));
        assert(s == ReaderStatus::Connected);
        assert(out == Seq::<Outgoing>::empty());
        let rest = msgs.drop_first();
        assert forall|i: int| 0 <= i < rest.len() implies keeps_connection(#[trigger] rest[i]) by {
            assert(rest[i] == msgs[i + 1]);
        }
        law_connected_stays_through_purges(a, rest);
        let r2 = run_spec(ReaderStatus::Connected, a, rest);
        assert(out + r2.2 =~= Seq::<Outgoing>::empty());
    }
}

/// Once disconnected, no answer from the reader reconnects.
pub proof fn law_disconnected_stays(attempt: u32, msgs: Seq<(u16, bool)>)
    ensures
        run_spec(ReaderStatus::Disconnected, attempt, msgs).0 == ReaderStatus::Disconnected,
    decreases msgs.len(),
{
    if msgs.len() > 0 {
        let (s, a, out) = step_spec(ReaderStatus::Disconnected, attempt, msgs[0].0, msgs[0].1);
        assert(s == ReaderStatus::Disconnected);
        law_disconnected_stays(a, msgs.drop_first());
    }
}


/// The id of the reader operation spec the portal adds, enables and starts.
pub const ROSPEC_ID: u32 = 100;

/// The bytes of a request the exchange asks for, sent with message id `id`.
pub open spec fn outgoing_spec(out: Outgoing, id: u32) -> Seq<u8> {
    match out {
        Outgoing::SetKeepalive => msg_prefix(message_types::SET_READER_CONFIG, 20, id) + keepalive_body(),
        Outgoing::PurgeTags => msg_prefix(message_types::CUSTOM_MESSAGE, 16, id) + purge_tags_body(),
        Outgoing::SetNoFilter => msg_prefix(message_types::SET_READER_CONFIG, 27, id) + no_filter_body(),
        Outgoing::SetReaderConfig => msg_prefix(message_types::SET_READER_CONFIG, 41, id) + reader_config_body(),
        Outgoing::EnableEventsAndReports => msg_prefix(message_types::ENABLE_EVENTS_AND_REPORTS, 10, id),
        Outgoing::GetReaderConfig => msg_prefix(message_types::GET_READER_CONFIG, 17, id) + u16_be_bytes(0)
            + seq![2u8] + u16_be_bytes(0) + u16_be_bytes(0),
        Outgoing::DeleteAccessSpec => msg_prefix(message_types::DELETE_ACCESS_SPEC, 14, id) + u32_be_bytes(0),
        Outgoing::DeleteRospec => msg_prefix(message_types::DELETE_ROSPEC, 14, id) + u32_be_bytes(0),
        Outgoing::AddRospec => msg_prefix(message_types::ADD_ROSPEC, 96, id) + seq![0x00u8, 0xB1, 0x00, 0x56]
            + u32_be_bytes(ROSPEC_ID) + add_rospec_body(),
        Outgoing::EnableRospec => msg_prefix(message_types::ENABLE_ROSPEC, 14, id) + u32_be_bytes(ROSPEC_ID),
        Outgoing::StartRospec => msg_prefix(message_types::START_ROSPEC, 14, id) + u32_be_bytes(ROSPEC_ID),
    }
}

fn to_vec(s: &[u8]) -> (r: Vec<u8>)
    ensures
        r@ == s@,
{
    let mut out: Vec<u8> = Vec::new();
    let mut i: usize = 0;
    while i < s.len()
        invariant
            i <= s@.len(),
            out@ == s@.subrange(0, i as int),
        decreases s.len() - i,
    {
        out.push(s[i]);
        i = i + 1;
        assert(out@ =~= s@.subrange(0, i as int));
    }
    out
}

/// The bytes of the request `out`, sent with message id `id`: deleting the
/// portal's access and operation specs uses id 0 (all of them), the
/// operation spec it adds is number 100, and the reader configuration asked
/// for is the antenna properties.
pub fn outgoing_bytes(out: Outgoing, id: u32) -> (r: Vec<u8>)
    ensures
        r@ == outgoing_spec(out, id),
{
    match out {
        Outgoing::SetKeepalive => to_vec(&requests::set_keepalive(&id)),
        Outgoing::PurgeTags => to_vec(&requests::purge_tags(&id)),
        Outgoing::SetNoFilter => to_vec(&requests::set_no_filter(&id)),
        Outgoing::SetReaderConfig => to_vec(&requests::set_reader_config(&id)),
        Outgoing::EnableEventsAndReports => to_vec(&requests::enable_events_and_reports(&id)),
        Outgoing::GetReaderConfig => to_vec(&requests::get_reader_config(&id, &0, &2, &0, &0)),
        Outgoing::DeleteAccessSpec => to_vec(&requests::delete_access_spec(&id, &0)),
        Outgoing::DeleteRospec => to_vec(&requests::delete_rospec(&id, &0)),
        Outgoing::AddRospec => to_vec(&requests::add_rospec(&id, &ROSPEC_ID)),
        Outgoing::EnableRospec => to_vec(&requests::enable_rospec(&id, &ROSPEC_ID)),
        Outgoing::StartRospec => to_vec(&requests::start_rospec(&id, &ROSPEC_ID)),
    }
}

} // verus!
