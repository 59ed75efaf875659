//! Event codes and callback results.
//!
//! OpenVPN identifies every plugin event by a small integer taken from
//! `openvpn-plugin.h`. [`EventType`] is the closed Rust enumeration of those
//! codes; its identity is the numeric code, which [`EventType::code`] and
//! [`EventType::from_int`] convert exactly. [`events_to_bitmask`] folds a set
//! of events into the `type_mask` integer OpenVPN consumes at open time.

use vstd::prelude::*;

verus! {

/// All the events that an OpenVPN plugin can register for and get notified
/// about, one variant per `OPENVPN_PLUGIN_*` constant in `openvpn-plugin.h`.
///
/// `EnablePf` is legacy: OpenVPN no longer fires it, but its code stays
/// decodable so that plugins built against older hosts keep working.
#[derive(Debug, Copy, Clone, PartialEq, Eq, Hash, Structural)]
#[non_exhaustive]
pub enum EventType {
    Up,
    Down,
    RouteUp,
    IpChange,
    TlsVerify,
    AuthUserPassVerify,
    ClientConnect,
    ClientDisconnect,
    LearnAddress,
    ClientConnectV2,
    TlsFinal,
    EnablePf,
    RoutePredown,
    ClientConnectDefer,
    ClientConnectDeferV2,
    ClientCrresponse,
}

/// The numeric protocol code of an event, as `openvpn-plugin.h` fixes it.
pub open spec fn spec_code(event: EventType) -> i32 {
    match event {
        EventType::Up => 0,
        EventType::Down => 1,
        EventType::RouteUp => 2,
        EventType::IpChange => 3,
        EventType::TlsVerify => 4,
        EventType::AuthUserPassVerify => 5,
        EventType::ClientConnect => 6,
        EventType::ClientDisconnect => 7,
        EventType::LearnAddress => 8,
        EventType::ClientConnectV2 => 9,
        EventType::TlsFinal => 10,
        EventType::EnablePf => 11,
        EventType::RoutePredown => 12,
        EventType::ClientConnectDefer => 13,
        EventType::ClientConnectDeferV2 => 14,
        EventType::ClientCrresponse => 15,
    }
}

/// The event a numeric code stands for, or `None` outside the defined range.
pub open spec fn event_of_code(code: int) -> Option<EventType> {
    if code == 0 {
        Some(EventType::Up)
    } else if code == 1 {
        Some(EventType::Down)
    } else if code == 2 {
        Some(EventType::RouteUp)
    } else if code == 3 {
        Some(EventType::IpChange)
    } else if code == 4 {
        Some(EventType::TlsVerify)
    } else if code == 5 {
        Some(EventType::AuthUserPassVerify)
    } else if code == 6 {
        Some(EventType::ClientConnect)
    } else if code == 7 {
        Some(EventType::ClientDisconnect)
    } else if code == 8 {
        Some(EventType::LearnAddress)
    } else if code == 9 {
        Some(EventType::ClientConnectV2)
    } else if code == 10 {
        Some(EventType::TlsFinal)
    } else if code == 11 {
        Some(EventType::EnablePf)
    } else if code == 12 {
        Some(EventType::RoutePredown)
    } else if code == 13 {
        Some(EventType::ClientConnectDefer)
    } else if code == 14 {
        Some(EventType::ClientConnectDeferV2)
    } else if code == 15 {
        Some(EventType::ClientCrresponse)
    } else {
        None
    }
}

impl EventType {
    /// The numeric protocol code of this event.
    pub fn code(&self) -> (code: i32)
        ensures
            code == spec_code(*self),
    {
        match *self {
            EventType::Up => 0,
            EventType::Down => 1,
            EventType::RouteUp => 2,
            EventType::IpChange => 3,
            EventType::TlsVerify => 4,
            EventType::AuthUserPassVerify => 5,
            EventType::ClientConnect => 6,
            EventType::ClientDisconnect => 7,
            EventType::LearnAddress => 8,
            EventType::ClientConnectV2 => 9,
            EventType::TlsFinal => 10,
            EventType::EnablePf => 11,
            EventType::RoutePredown => 12,
            EventType::ClientConnectDefer => 13,
            EventType::ClientConnectDeferV2 => 14,
            EventType::ClientCrresponse => 15,
        }
    }

    /// Decodes a numeric event code, handing the code back on failure.
    pub fn from_int(value: i32) -> (result: Result<EventType, i32>)
        ensures
            match result {
                Ok(event) => event_of_code(value as int) == Some(event),
                Err(code) => event_of_code(value as int) is None && code == value,
            },
    {
        match value {
            0 => Ok(EventType::Up),
            1 => Ok(EventType::Down),
            2 => Ok(EventType::RouteUp),
            3 => Ok(EventType::IpChange),
            4 => Ok(EventType::TlsVerify),
            5 => Ok(EventType::AuthUserPassVerify),
            6 => Ok(EventType::ClientConnect),
            7 => Ok(EventType::ClientDisconnect),
            8 => Ok(EventType::LearnAddress),
            9 => Ok(EventType::ClientConnectV2),
            10 => Ok(EventType::TlsFinal),
            11 => Ok(EventType::EnablePf),
            12 => Ok(EventType::RoutePredown),
            13 => Ok(EventType::ClientConnectDefer),
            14 => Ok(EventType::ClientConnectDeferV2),
            15 => Ok(EventType::ClientCrresponse),
            _ => Err(value),
        }
    }
}

/// Decoding a code is the exact inverse of an event's numeric identity:
/// every defined event comes back from its own code, and every code outside
/// the defined range decodes to nothing.
pub proof fn lemma_event_code_roundtrip()
    ensures
        forall|event: EventType| event_of_code(spec_code(event) as int) == Some(event),
        forall|code: int| !(0 <= code <= 15) ==> event_of_code(code) is None,
{
}

/// The bitmask encoding a set of events: bit `i` is set exactly when an
/// event with code `i` is in the sequence.
pub open spec fn spec_bitmask(events: Seq<EventType>) -> i32
    decreases events.len(),
{
    if events.len() == 0 {
        0
    } else {
        spec_bitmask(events.drop_last()) | (1i32 << (spec_code(events.last()) as u32))
    }
}

/// Translates a collection of [`EventType`] instances into a bitmask in the
/// format OpenVPN expects in `type_mask`.
pub fn events_to_bitmask(events: &[EventType]) -> (bitmask: i32)
    ensures
        bitmask == spec_bitmask(events@),
{
    let mut bitmask: i32 = 0;
    let mut i: usize = 0;
    while i < events.len()
        invariant
            i <= events@.len(),
            bitmask == spec_bitmask(events@.take(i as int)),
        decreases events@.len() - i,
    {
        let code = events[i].code();
        proof {
            assert(events@.take(i + 1).drop_last() =~= events@.take(i as int));
            assert(events@.take(i + 1).last() == events@[i as int]);
            assert(0 <= spec_code(events@[i as int]) < 32);
        }
        bitmask = bitmask | (1i32 << (code as u32));
        i = i + 1;
    }
    proof {
        assert(events@.take(events@.len() as int) =~= events@);
    }
    bitmask
}

/// Whether bit `index` of a bitmask is set.
pub open spec fn bit_set(mask: i32, index: u32) -> bool {
    (mask >> index) & 1i32 == 1i32
}

/// Every event's code stays in the defined range.
pub proof fn lemma_code_in_range(event: EventType)
    ensures
        0 <= spec_code(event) <= 15,
{
}

/// What the bitmask means, bit by bit: bit `index` of the encoded mask is
/// set exactly when some event in the sequence has `index` as its numeric
/// code.
pub proof fn lemma_bitmask_bits(events: Seq<EventType>, index: u32)
    requires
        index < 32,
    ensures
        bit_set(spec_bitmask(events), index) <==> exists|i: int|
            0 <= i < events.len() && spec_code(events[i]) == index as i32,
    decreases events.len(),
{
    if events.len() == 0 {
        assert(!bit_set(0i32, index)) by (bit_vector)
            requires
                index < 32,
        ;
    } else {
        lemma_bitmask_bits(events.drop_last(), index);
        let rest = events.drop_last();
        let mask = spec_bitmask(rest);
        let code = spec_code(events.last()) as u32;
        lemma_code_in_range(events.last());
        assert(bit_set(mask | (1i32 << code), index) <==> (bit_set(mask, index) || index == code))
            by (bit_vector)
            requires
                index < 32,
                code <= 15,
        ;
        if bit_set(spec_bitmask(events), index) {
            if index == code {
                assert(spec_code(events[events.len() - 1]) == index as i32);
            } else {
                let i = choose|i: int| 0 <= i < rest.len() && spec_code(rest[i]) == index as i32;
                assert(spec_code(events[i]) == index as i32);
            }
        }
        if exists|i: int| 0 <= i < events.len() && spec_code(events[i]) == index as i32 {
            let i = choose|i: int| 0 <= i < events.len() && spec_code(events[i]) == index as i32;
            if i < events.len() - 1 {
                assert(spec_code(rest[i]) == index as i32);
            }
        }
    }
}

/// Enum representing the results an OpenVPN plugin can return from an event
/// callback.
#[derive(Debug, Copy, Clone, PartialEq, Eq, Hash, Structural)]
pub enum EventResult {
    /// The plugin marks the event as a success: an authentication is
    /// approved or similar, depending on the event. Maps to the `SUCCESS`
    /// status integer.
    Success,
    /// Only meaningful for the asynchronous `AuthUserPassVerify` event: the
    /// decision will be delivered later, through the path named by the
    /// `auth_control_file` environment variable. Maps to the `DEFERRED`
    /// status integer.
    Deferred,
    /// The plugin declines the event without having hit an error: an
    /// authentication is rejected or similar. Maps to the `ERROR` status
    /// integer, and nothing is reported.
    Failure,
}

} // verus!
