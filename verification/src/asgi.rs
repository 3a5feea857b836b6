//! ASGI event-type tags and their name mapping.

use vstd::prelude::*;

use crate::signal_type::eq_str;

verus! {

/// The ASGI event types this library distinguishes.
#[derive(Eq, Debug, Clone, PartialEq, Structural)]
pub enum ASGIType {
    /// Anonymous lifespan event managed by the application.
    Lifespan,
    LifecycleStartup,
    LifecycleShutdown,
    LifecycleStartupSuccess,
    LifecycleStartupFailure,
    LifecycleShutdownSuccess,
    LifecycleShutdownFailure,
    HTTPResponseStart,
    HTTPResponseBody,
    HTTPResponseTrailers,
    HTTPDisconnect,
    WS,
}

/// What `str::to_lowercase` returns; the result depends on the characters
/// alone.
pub uninterp spec fn lower_of(s: Seq<char>) -> Seq<char>;

/// Relies on `str::to_lowercase`: the lowercase form of the string.
#[verifier::external_body]
fn lowercase(s: &str) -> (r: String)
    ensures
        r@ == lower_of(s@),
{
    s.to_lowercase()
}

/// The event type a lowercased event string denotes, if any.
pub open spec fn event_of(lowered: Seq<char>) -> Result<ASGIType, ()> {
    if lowered == "lifespan"@ {
        Ok(ASGIType::Lifespan)
    } else if lowered == "lifespan.startup.complete"@ {
        Ok(ASGIType::LifecycleStartupSuccess)
    } else if lowered == "lifespan.startup.failed"@ {
        Ok(ASGIType::LifecycleStartupFailure)
    } else if lowered == "lifespan.shutdown.complete"@ {
        Ok(ASGIType::LifecycleShutdownSuccess)
    } else if lowered == "lifespan.shutdown.failed"@ {
        Ok(ASGIType::LifecycleShutdownFailure)
    } else if lowered == "http.response.start"@ {
        Ok(ASGIType::HTTPResponseStart)
    } else if lowered == "http.response.body"@ {
        Ok(ASGIType::HTTPResponseBody)
    } else if lowered == "http.response.trailers"@ {
        Ok(ASGIType::HTTPResponseTrailers)
    } else if lowered == "http.disconnect"@ {
        Ok(ASGIType::HTTPDisconnect)
    } else {
        Err(())
    }
}

/// The canonical name of each event type.
pub open spec fn event_name(t: ASGIType) -> Seq<char> {
    match t {
        ASGIType::Lifespan => "lifespan"@,
        ASGIType::LifecycleStartup => "lifespan.startup"@,
        ASGIType::LifecycleShutdown => "lifespan.shutdown"@,
        ASGIType::LifecycleStartupSuccess => "lifespan.startup.success"@,
        ASGIType::LifecycleStartupFailure => "lifespan.startup.failure"@,
        ASGIType::LifecycleShutdownSuccess => "lifespan.shutdown.success"@,
        ASGIType::LifecycleShutdownFailure => "lifespan.shutdown.failure"@,
        ASGIType::HTTPResponseStart => "http.response.start"@,
        ASGIType::HTTPResponseBody => "http.response.body"@,
        ASGIType::HTTPResponseTrailers => "http.response.trailers"@,
        ASGIType::HTTPDisconnect => "http.disconnect"@,
        ASGIType::WS => "websocket"@,
    }
}

impl ASGIType {
    /// The event type named by `value`, compared after lowercasing, or a
    /// unit failure for any other string.
    pub fn from(value: String) -> (r: Result<ASGIType, ()>)
        ensures
            r == event_of(lower_of(value@)),
    {
        let s = lowercase(value.as_str());
        if eq_str(s.as_str(), "lifespan") {
            Ok(ASGIType::Lifespan)
        } else if eq_str(s.as_str(), "lifespan.startup.complete") {
            Ok(ASGIType::LifecycleStartupSuccess)
        } else if eq_str(s.as_str(), "lifespan.startup.failed") {
            Ok(ASGIType::LifecycleStartupFailure)
        } else if eq_str(s.as_str(), "lifespan.shutdown.complete") {
            Ok(ASGIType::LifecycleShutdownSuccess)
        } else if eq_str(s.as_str(), "lifespan.shutdown.failed") {
            Ok(ASGIType::LifecycleShutdownFailure)
        } else if eq_str(s.as_str(), "http.response.start") {
            Ok(ASGIType::HTTPResponseStart)
        } else if eq_str(s.as_str(), "http.response.body") {
            Ok(ASGIType::HTTPResponseBody)
        } else if eq_str(s.as_str(), "http.response.trailers") {
            Ok(ASGIType::HTTPResponseTrailers)
        } else if eq_str(s.as_str(), "http.disconnect") {
            Ok(ASGIType::HTTPDisconnect)
        } else {
            Err(())
        }
    }

    /// The canonical name of this event type.
    pub fn as_str(&self) -> (r: &'static str)
        ensures
            r@ == event_name(*self),
    {
        match self {
            ASGIType::Lifespan => "lifespan",
            ASGIType::LifecycleStartup => "lifespan.startup",
            ASGIType::LifecycleShutdown => "lifespan.shutdown",
            ASGIType::LifecycleStartupSuccess => "lifespan.startup.success",
            ASGIType::LifecycleStartupFailure => "lifespan.startup.failure",
            ASGIType::LifecycleShutdownSuccess => "lifespan.shutdown.success",
            ASGIType::LifecycleShutdownFailure => "lifespan.shutdown.failure",
            ASGIType::HTTPResponseStart => "http.response.start",
            ASGIType::HTTPResponseBody => "http.response.body",
            ASGIType::HTTPResponseTrailers => "http.response.trailers",
            ASGIType::HTTPDisconnect => "http.disconnect",
            ASGIType::WS => "websocket",
        }
    }
}

/// Why a request was judged invalid, carried as plain text.
#[derive(Debug, Clone)]
pub struct InvalidationRationale {
    pub message: String,
}

} // verus!
