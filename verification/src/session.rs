//! What a session tells the user, what it answers the user interface, and which
//! session is stored.

use crate::config::{announce_connecting, connecting_text, provider_of, select_provider, ConnConfig, Provider};
use crate::events::{error, error_line, status, status_line, LogLine};
use crate::listing::RemoteEntry;
use crate::text::{decimal, decimal_text, join2, join3, outcome_view};
use vstd::prelude::*;

verus! {

/// Begins to connect: announces it and picks the provider. That a protocol is
/// not supported does not go to the log.
pub fn begin_session(cfg: &ConnConfig) -> (r: (LogLine, Result<Provider, String>))
    ensures
        r.0@ == status_line(connecting_text(cfg.host@, cfg.port, cfg.protocol@)),
        match provider_of(cfg.protocol@) {
            Some(p) => r.1 == Ok::<Provider, String>(p),
            None => r.1 matches Err(e) && e@ == "Protocolo no soportado: "@ + cfg.protocol@,
        },
{
    (status(announce_connecting(cfg)), select_provider(cfg.protocol.as_str()))
}

/// What follows the attempt to connect.
pub fn session_opened(reply: Result<(), String>) -> (r: (LogLine, Result<(), String>))
    ensures
        outcome_view(r.1) == outcome_view(reply),
        r.0@ == match reply {
            Ok(_) => status_line("Sesion iniciada (login correcto)."@),
            Err(e) => error_line(e@),
        },
{
    match reply {
        Ok(_) => (status("Sesion iniciada (login correcto).".to_owned()), Ok(())),
        Err(e) => (error(e.clone()), Err(e)),
    }
}

/// The folder that a session starts in: what the server says, else the top.
pub open spec fn start_folder(reply: Result<String, String>) -> Seq<char> {
    match reply {
        Ok(p) => p@,
        Err(_) => "/"@,
    }
}

/// The folder that a session starts in.
pub fn session_folder(reply: Result<String, String>) -> (r: (LogLine, String))
    ensures
        r.1@ == start_folder(reply),
        r.0@ == status_line("Carpeta inicial: "@ + start_folder(reply)),
{
    let cwd = match reply {
        Ok(p) => p,
        Err(_) => "/".to_owned(),
    };
    (status(join2("Carpeta inicial: ", cwd.as_str())), cwd)
}

/// What is announced before a folder is listed.
pub fn listing_begun(path: &str) -> (r: LogLine)
    ensures
        r@ == status_line("Listando "@ + path@ + " ..."@),
{
    status(join3("Listando ", path, " ..."))
}

/// What the log says of a listing: how many entries there are, or why there
/// are none.
pub fn listing_ended(reply: &Result<Vec<RemoteEntry>, String>) -> (r: LogLine)
    ensures
        r@ == match *reply {
            Ok(entries) => status_line(
                "Listado correcto: "@ + decimal(entries@.len()) + " elementos."@,
            ),
            Err(e) => error_line(e@),
        },
{
    match reply {
        Ok(entries) => {
            let n: u64 = entries.len() as u64;
            status(join3("Listado correcto: ", decimal_text(n).as_str(), " elementos."))
        },
        Err(e) => error(e.clone()),
    }
}

/// What the log says when a folder was made, or something renamed or deleted:
/// only why it failed, where it did.
pub fn operation_ended(reply: &Result<(), String>) -> (r: Option<LogLine>)
    ensures
        match *reply {
            Ok(_) => r is None,
            Err(e) => r matches Some(l) && l@ == error_line(e@),
        },
{
    match reply {
        Ok(_) => None,
        Err(e) => Some(error(e.clone())),
    }
}

/// What the log says when a session was closed.
pub fn session_closed() -> (r: LogLine)
    ensures
        r@ == status_line("Desconectado del servidor."@),
{
    status("Desconectado del servidor.".to_owned())
}

/// What can become of the session.
#[derive(Debug)]
pub enum SessionEvent<T> {
    /// Another session was opened.
    Connected(T),
    /// Another was tried in vain.
    Refused,
    /// The user disconnected.
    Disconnected,
}

/// The session that is stored behind what happened: it stays until another
/// stands or the user disconnects.
pub open spec fn stored_with<T>(stored: Option<T>, event: SessionEvent<T>) -> Option<T> {
    match event {
        SessionEvent::Connected(s) => Some(s),
        SessionEvent::Refused => stored,
        SessionEvent::Disconnected => None,
    }
}

/// The session that is disconnected because of what happened.
pub open spec fn dropped_with<T>(stored: Option<T>, event: SessionEvent<T>) -> Option<T> {
    match event {
        SessionEvent::Refused => None,
        _ => stored,
    }
}

/// The session to store behind what happened, and the one to disconnect.
pub fn session_step<T>(stored: Option<T>, event: SessionEvent<T>) -> (r: (Option<T>, Option<T>))
    ensures
        r.0 == stored_with(stored, event),
        r.1 == dropped_with(stored, event),
{
    match event {
        SessionEvent::Connected(s) => (Some(s), stored),
        SessionEvent::Refused => (stored, None),
        SessionEvent::Disconnected => (None, stored),
    }
}

/// The session that is stored behind all that happened.
pub open spec fn stored_after<T>(stored: Option<T>, events: Seq<SessionEvent<T>>) -> Option<T>
    decreases events.len(),
{
    if events.len() == 0 {
        stored
    } else {
        stored_with(stored_after(stored, events.drop_last()), events.last())
    }
}

/// The session that is stored, or the answer where there is none.
pub open spec fn session_or_error<T>(stored: Option<T>) -> Result<T, Seq<char>> {
    match stored {
        Some(s) => Ok(s),
        None => Err("No conectado"@),
    }
}

/// The session that is stored, or the answer where there is none.
pub fn require_session<T>(stored: Option<T>) -> (r: Result<T, String>)
    ensures
        match r {
            Ok(s) => session_or_error(stored) == Ok::<T, Seq<char>>(s),
            Err(e) => session_or_error(stored) == Err::<T, Seq<char>>(e@),
        },
{
    match stored {
        Some(s) => Ok(s),
        None => Err("No conectado".to_owned()),
    }
}

/// What to do next where the user wants to see a folder.
#[derive(Debug)]
pub enum ListingStep<T> {
    /// Ask the session for what the folder holds.
    List(T),
    /// Answer this.
    Answer(Result<Vec<RemoteEntry>, String>),
}

/// What to do where the user wants to see a folder: the session is asked where
/// there is one.
pub fn listing_step<T>(stored: Option<T>) -> (r: ListingStep<T>)
    ensures
        match session_or_error(stored) {
            Ok(s) => r == ListingStep::List(s),
            Err(e) => r matches ListingStep::Answer(Err(m)) && m@ == e,
        },
{
    match require_session(stored) {
        Ok(s) => ListingStep::List(s),
        Err(e) => ListingStep::Answer(Err(e)),
    }
}

/// Whether a session was opened by one of the events from the `from`-th on.
pub open spec fn connected_since<T>(events: Seq<SessionEvent<T>>, from: int) -> bool {
    exists|i: int| from <= i < events.len() && #[trigger] events[i] is Connected
}

proof fn connected_since_front<T>(events: Seq<SessionEvent<T>>, from: int)
    requires
        0 <= from,
        events.len() > 0,
        !connected_since(events, from),
    ensures
        !connected_since(events.drop_last(), from),
{
    let front = events.drop_last();
    assert forall|i: int| from <= i < front.len() implies !(#[trigger] front[i] is Connected) by {
        assert(!(events[i] is Connected));
    }
}

/// Where no session was ever opened, whatever else happened, every request is
/// answered that there is none.
pub proof fn law_never_connected<T>(events: Seq<SessionEvent<T>>)
    requires
        !connected_since(events, 0),
    ensures
        stored_after(None, events) is None,
        session_or_error(stored_after(None, events)) == Err::<T, Seq<char>>("No conectado"@),
    decreases events.len(),
{
    if events.len() > 0 {
        connected_since_front(events, 0);
        law_never_connected(events.drop_last());
        assert(!(events[events.len() - 1] is Connected));
    }
}

/// Behind a disconnection, until another session is opened, every request is
/// answered that there is none, whatever was stored before.
pub proof fn law_disconnected<T>(stored: Option<T>, events: Seq<SessionEvent<T>>, at: int)
    requires
        0 <= at < events.len(),
        events[at] is Disconnected,
        !connected_since(events, at),
    ensures
        stored_after(stored, events) is None,
        session_or_error(stored_after(stored, events)) == Err::<T, Seq<char>>("No conectado"@),
    decreases events.len(),
{
    if at < events.len() - 1 {
        connected_since_front(events, at);
        law_disconnected(stored, events.drop_last(), at);
        assert(!(events[events.len() - 1] is Connected));
    }
}

/// The session that was opened last is the one that requests go to, until the
/// user disconnects; an attempt that was refused changes nothing.
pub proof fn law_connected<T>(stored: Option<T>, events: Seq<SessionEvent<T>>, at: int, s: T)
    requires
        0 <= at < events.len(),
        events[at] == SessionEvent::Connected(s),
        forall|i: int| at < i < events.len() ==> #[trigger] events[i] is Refused,
    ensures
        session_or_error(stored_after(stored, events)) == Ok::<T, Seq<char>>(s),
    decreases events.len(),
{
    if at < events.len() - 1 {
        let front = events.drop_last();
        assert forall|i: int| at < i < front.len() implies #[trigger] front[i] is Refused by {
            assert(events[i] is Refused);
        }
        law_connected(stored, front, at, s);
        assert(events[events.len() - 1] is Refused);
    }
}

/// What a session slot holds, as a list.
pub open spec fn as_list<T>(s: Option<T>) -> Seq<T> {
    match s {
        Some(t) => seq![t],
        None => Seq::empty(),
    }
}

/// The sessions that were opened, in order.
pub open spec fn opened<T>(events: Seq<SessionEvent<T>>) -> Seq<T>
    decreases events.len(),
{
    if events.len() == 0 {
        Seq::empty()
    } else {
        opened(events.drop_last()) + match events.last() {
            SessionEvent::Connected(s) => seq![s],
            _ => Seq::empty(),
        }
    }
}

/// The sessions that were disconnected, in order.
pub open spec fn dropped_after<T>(stored: Option<T>, events: Seq<SessionEvent<T>>) -> Seq<T>
    decreases events.len(),
{
    if events.len() == 0 {
        Seq::empty()
    } else {
        dropped_after(stored, events.drop_last()) + as_list(
            dropped_with(stored_after(stored, events.drop_last()), events.last()),
        )
    }
}

/// Every session that was opened was disconnected, once and in order, but for
/// the one that is stored.
pub proof fn law_sessions_are_disconnected<T>(stored: Option<T>, events: Seq<SessionEvent<T>>)
    ensures
        dropped_after(stored, events) + as_list(stored_after(stored, events)) == as_list(stored)
            + opened(events),
    decreases events.len(),
{
    if events.len() == 0 {
        assert(Seq::<T>::empty() + as_list(stored) =~= as_list(stored) + Seq::<T>::empty());
    } else {
        let front = events.drop_last();
        law_sessions_are_disconnected(stored, front);
        let dropped = dropped_after(stored, front);
        let kept = as_list(stored_after(stored, front));
        match events.last() {
            SessionEvent::Connected(s) => {
                assert(dropped_after(stored, events) + as_list(stored_after(stored, events))
                    =~= (dropped + kept) + seq![s]);
                assert(as_list(stored) + opened(events) =~= (as_list(stored) + opened(front))
                    + seq![s]);
            },
            _ => {
                assert(dropped_after(stored, events) + as_list(stored_after(stored, events))
                    =~= dropped + kept);
                assert(as_list(stored) + opened(events) =~= as_list(stored) + opened(front));
            },
        }
    }
}

/// A session that was opened is the one that is stored, and the one before it is
/// disconnected; an attempt in vain changes nothing; where the user disconnects,
/// the session goes and none is stored.
pub proof fn law_session_events<T>(stored: Option<T>, s: T)
    ensures
        stored_with(stored, SessionEvent::Connected(s)) == Some(s),
        dropped_with(stored, SessionEvent::Connected(s)) == stored,
        stored_with(stored, SessionEvent::Refused) == stored,
        dropped_with(stored, SessionEvent::Refused) is None,
        stored_with(stored, SessionEvent::Disconnected) is None,
        dropped_with(stored, SessionEvent::Disconnected) == stored,
        session_or_error(Some(s)) == Ok::<T, Seq<char>>(s),
        session_or_error(None::<T>) == Err::<T, Seq<char>>("No conectado"@),
{
}

/// A session starts in the folder that the server names, or at the top where it
/// names none.
pub proof fn law_start_folder(named: String, e: String)
    ensures
        start_folder(Ok(named)) == named@,
        start_folder(Err(e)) == "/"@,
{
}

} // verus!
