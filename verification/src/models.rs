//! Data model: the event envelope published on the broadcast bus and the
//! plain request/response shapes of the external interfaces.

use vstd::prelude::*;
use vstd::string::StringExecFns;

verus! {

/// Kind of an event envelope.
#[derive(Clone, Copy, PartialEq, Eq, Structural, Debug)]
pub enum EventKind {
    Chat,
    Join,
    Leave,
    Rename,
    Roster,
}

/// Mathematical image of an [`Event`].
#[verifier::ext_equal]
pub ghost struct EventV {
    pub origin: Seq<char>,
    pub content: Seq<char>,
    pub kind: EventKind,
    pub display_name: Option<Seq<char>>,
}

/// Event envelope: the unit published on the bus.
///
/// For `Roster` events `origin` is the sentinel `"system"`, `content` carries
/// the encoded list of current display names and `display_name` is absent.
pub struct Event {
    pub origin: String,
    pub content: String,
    pub kind: EventKind,
    pub display_name: Option<String>,
}

impl View for Event {
    type V = EventV;

    open spec fn view(&self) -> EventV {
        EventV {
            origin: self.origin@,
            content: self.content@,
            kind: self.kind,
            display_name: match self.display_name {
                Some(n) => Some(n@),
                None => None,
            },
        }
    }
}

impl Clone for Event {
    fn clone(&self) -> (r: Self)
        ensures
            r@ == self@,
    {
        let r = Event {
            origin: self.origin.clone(),
            content: self.content.clone(),
            kind: self.kind,
            display_name: match &self.display_name {
                Some(n) => Some(n.clone()),
                None => None,
            },
        };
        assert(r@ =~= self@);
        r
    }
}

/// The string under which each event kind travels on the wire.
pub open spec fn kind_label(k: EventKind) -> Seq<char> {
    match k {
        EventKind::Chat => "chat"@,
        EventKind::Join => "join"@,
        EventKind::Leave => "leave"@,
        EventKind::Rename => "rename"@,
        EventKind::Roster => "roster"@,
    }
}

/// Outbound frame shape: one of these is written per event, JSON-encoded by
/// the transport layer.
pub struct WsMessage {
    pub user_id: String,
    pub content: String,
    pub message_type: String,
    pub username: Option<String>,
}

impl Event {
    /// Flattens the envelope into the wire shape, with the kind spelled out.
    pub fn to_ws_message(&self) -> (m: WsMessage)
        ensures
            m.user_id@ == self@.origin,
            m.content@ == self@.content,
            m.message_type@ == kind_label(self.kind),
            m.username.deep_view() == self@.display_name,
    {
        let label: &str = match self.kind {
            EventKind::Chat => "chat",
            EventKind::Join => "join",
            EventKind::Leave => "leave",
            EventKind::Rename => "rename",
            EventKind::Roster => "roster",
        };
        WsMessage {
            user_id: self.origin.clone(),
            content: self.content.clone(),
            message_type: label.to_owned(),
            username: match &self.display_name {
                Some(n) => Some(n.clone()),
                None => None,
            },
        }
    }
}

/// A rename request as received from the out-of-band interface.
pub struct RenameRequest {
    pub user_id: String,
    pub new_name: String,
}

/// Outcome of a rename request, reported inline to the caller.
pub struct RenameResponse {
    pub success: bool,
    pub message: String,
}

/// A plain message-echo request.
pub struct RequestData {
    pub message: String,
}

/// Reply to a message-echo request.
pub struct ResponseData {
    pub message: String,
    pub status: String,
}

/// Builds the echo reply: acknowledges the received text verbatim.
pub fn echo_response(req: &RequestData) -> (r: ResponseData)
    ensures
        r.message@ == "received: "@ + req.message@,
        r.status@ == "success"@,
{
    ResponseData {
        message: "received: ".to_owned().concat(req.message.as_str()),
        status: "success".to_owned(),
    }
}

} // verus!
