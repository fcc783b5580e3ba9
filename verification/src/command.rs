//! Requests, responses and notifications, and their shapes on the wire.
//!
//! A request is one JSON object with the members `id`, `method` and `params`.
//! A response carries the `id` of its request, a `result` list and
//! optionally an `error`. A notification has no `id`: it carries a `method`
//! and a `params` object keyed by property names.

use crate::json::{
    json_text, lemma_view_unfold, member_views_of, parsed_json, views_of, Json, JsonValue,
};
use crate::method::Method;
use crate::property::{same_text, Property};
use vstd::prelude::*;

verus! {

/// A command to be sent to a device, containing a unique ID which is echoed back by the response.
///
/// [`Command`]s are created using the [`Command::new`] function.
#[derive(PartialEq, Eq, Debug)]
pub struct Command {
    /// The unique ID of the command.
    pub id: i32,
    /// The method to be called on the device.
    pub method: Method,
    /// The parameters to be passed for the method.
    pub params: Vec<Json>,
}

/// A request as it stands on the wire: the identifier, the operation's name
/// and the ordered parameter list.
#[derive(PartialEq, Eq, Debug)]
pub struct RawCommand {
    /// The unique ID of the command.
    pub id: i32,
    /// The wire name of the operation.
    pub method: String,
    /// The parameters, in order.
    pub params: Vec<Json>,
}

/// A response from a device, containing the echoed ID of the Command, a result and optional Error.
#[derive(PartialEq, Eq, Debug)]
pub struct CommandResponse {
    /// The unique, echoed ID of the command.
    pub id: i32,
    /// The result of the command.
    pub result: Vec<CommandResult>,
    /// The error of the command, if any.
    pub error: Option<CommandResponseError>,
}

/// The result of a [`Command`].
#[derive(Clone, Copy, PartialEq, Eq, Debug)]
pub enum CommandResult {
    /// The command was successful ("ok").
    Okay,
    /// State is off
    Off,
    /// State is on
    On,
}

/// The error of a [`Command`], containing a error code and a description.
#[derive(PartialEq, Eq, Debug)]
pub struct CommandResponseError {
    /// The error code.
    pub code: i32,
    /// The error description.
    pub message: String,
}

/// Notification from a device, containing a method and changed properties.
#[derive(PartialEq, Eq, Debug)]
pub struct NotificationResult {
    /// The method of the notification.
    pub method: String,
    /// The changed properties with their new values, one entry for each
    /// member of the notification's `params` object.
    pub params: Vec<(Property, Json)>,
}

/// One frame after it was told apart.
#[derive(PartialEq, Eq, Debug)]
pub enum Frame {
    /// The frame is a response.
    Response(CommandResponse),
    /// The frame is no response, and is a notification.
    Notification(NotificationResult),
    /// The frame is neither.
    Malformed,
}

/// What a [`RawCommand`] holds.
pub struct RawCommandView {
    pub id: i32,
    pub method: Seq<char>,
    pub params: Seq<JsonValue>,
}

/// What a [`CommandResponseError`] holds.
pub struct ErrorView {
    pub code: i32,
    pub message: Seq<char>,
}

/// What a [`CommandResponse`] holds.
pub struct ResponseView {
    pub id: i32,
    pub result: Seq<CommandResult>,
    pub error: Option<ErrorView>,
}

/// What a [`NotificationResult`] holds.
pub struct NotificationView {
    pub method: Seq<char>,
    pub params: Seq<(Property, JsonValue)>,
}

/// What a [`Frame`] holds.
pub enum FrameView {
    Response(ResponseView),
    Notification(NotificationView),
    Malformed,
}

impl View for RawCommand {
    type V = RawCommandView;

    open spec fn view(&self) -> RawCommandView {
        RawCommandView { id: self.id, method: self.method@, params: views_of(self.params@) }
    }
}

impl View for CommandResponseError {
    type V = ErrorView;

    open spec fn view(&self) -> ErrorView {
        ErrorView { code: self.code, message: self.message@ }
    }
}

impl View for CommandResponse {
    type V = ResponseView;

    open spec fn view(&self) -> ResponseView {
        ResponseView {
            id: self.id,
            result: self.result@,
            error: match self.error {
                Some(error) => Some(error@),
                None => None,
            },
        }
    }
}

impl View for NotificationResult {
    type V = NotificationView;

    open spec fn view(&self) -> NotificationView {
        NotificationView {
            method: self.method@,
            params: Seq::new(
                self.params@.len(),
                |i: int| (self.params@[i].0, self.params@[i].1@),
            ),
        }
    }
}

impl View for Frame {
    type V = FrameView;

    open spec fn view(&self) -> FrameView {
        match self {
            Frame::Response(response) => FrameView::Response(response@),
            Frame::Notification(notification) => FrameView::Notification(notification@),
            Frame::Malformed => FrameView::Malformed,
        }
    }
}

/// The request object that carries `id`, the operation `method` and `params`.
pub open spec fn request_json(id: i32, method: Seq<char>, params: Seq<JsonValue>) -> JsonValue {
    JsonValue::Object(
        seq![
            ("id"@, JsonValue::Int(id as i64)),
            ("method"@, JsonValue::Str(method)),
            ("params"@, JsonValue::Array(params)),
        ],
    )
}

/// The request that a document is read as: an object whose `id` is an
/// integer in the range of `i32`, whose `method` is a string and whose
/// `params` is an array. Other members are passed over.
pub open spec fn request_of(json: JsonValue) -> Option<RawCommandView> {
    match (json.member("id"@), json.member("method"@), json.member("params"@)) {
        (Some(id), Some(method), Some(params)) => match (
            id.as_i32(),
            method.as_text(),
            params.as_items(),
        ) {
            (Some(id), Some(method), Some(params)) => Some(RawCommandView { id, method, params }),
            _ => None,
        },
        _ => None,
    }
}

/// The result marker that a document is read as: one of the strings `ok`,
/// `off` and `on`.
pub open spec fn marker_of(json: JsonValue) -> Option<CommandResult> {
    match json {
        JsonValue::Str(text) => if text == "ok"@ {
            Some(CommandResult::Okay)
        } else if text == "off"@ {
            Some(CommandResult::Off)
        } else if text == "on"@ {
            Some(CommandResult::On)
        } else {
            None
        },
        _ => None,
    }
}

/// The result list that a sequence of documents is read as, where each of
/// them is a result marker.
pub open spec fn markers_of(items: Seq<JsonValue>) -> Option<Seq<CommandResult>> {
    if forall|i: int| 0 <= i < items.len() ==> marker_of(#[trigger] items[i]) is Some {
        Some(Seq::new(items.len(), |i: int| marker_of(items[i])->Some_0))
    } else {
        None
    }
}

/// The error that a document is read as: an object whose `code` is an
/// integer in the range of `i32` and whose `message` is a string.
pub open spec fn error_of(json: JsonValue) -> Option<ErrorView> {
    match (json.member("code"@), json.member("message"@)) {
        (Some(code), Some(message)) => match (code.as_i32(), message.as_text()) {
            (Some(code), Some(message)) => Some(ErrorView { code, message }),
            _ => None,
        },
        _ => None,
    }
}

/// The optional error of a response: none where the member is missing or
/// `null`, the error where it reads as one. The outer `None` says that the
/// member is there and reads as neither.
pub open spec fn optional_error_of(member: Option<JsonValue>) -> Option<Option<ErrorView>> {
    match member {
        None => Some(None),
        Some(JsonValue::Null) => Some(None),
        Some(json) => match error_of(json) {
            Some(error) => Some(Some(error)),
            None => None,
        },
    }
}

/// The response that a document is read as: an object whose `id` is an
/// integer in the range of `i32`, whose `result` is an array of result
/// markers, and whose `error`, where it has one, is `null` or an error
/// object. Other members are passed over.
pub open spec fn response_of(json: JsonValue) -> Option<ResponseView> {
    match (json.member("id"@), json.member("result"@)) {
        (Some(id), Some(result)) => match (id.as_i32(), result.as_items()) {
            (Some(id), Some(items)) => match (
                markers_of(items),
                optional_error_of(json.member("error"@)),
            ) {
                (Some(result), Some(error)) => Some(ResponseView { id, result, error }),
                _ => None,
            },
            _ => None,
        },
        _ => None,
    }
}

/// The changes that the members of a `params` object are read as, where
/// each member is named by a property.
pub open spec fn changes_of(members: Seq<(Seq<char>, JsonValue)>) -> Option<
    Seq<(Property, JsonValue)>,
> {
    if forall|i: int| 0 <= i < members.len() ==> Property::named((#[trigger] members[i]).0) is Some {
        Some(
            Seq::new(
                members.len(),
                |i: int| (Property::named(members[i].0)->Some_0, members[i].1),
            ),
        )
    } else {
        None
    }
}

/// The notification that a document is read as: an object whose `method` is
/// a string and whose `params` is an object keyed by property names.
pub open spec fn notification_of(json: JsonValue) -> Option<NotificationView> {
    match (json.member("method"@), json.member("params"@)) {
        (Some(method), Some(params)) => match (method.as_text(), params.as_members()) {
            (Some(method), Some(members)) => match changes_of(members) {
                Some(params) => Some(NotificationView { method, params }),
                None => None,
            },
            _ => None,
        },
        _ => None,
    }
}

/// What a parsed frame is: a response where it reads as one; failing that,
/// a notification where it reads as one; failing that, or where the frame
/// did not parse at all, malformed. It is never two of them.
pub open spec fn frame_of(parsed: Option<JsonValue>) -> FrameView {
    match parsed {
        None => FrameView::Malformed,
        Some(json) => match response_of(json) {
            Some(response) => FrameView::Response(response),
            None => match notification_of(json) {
                Some(notification) => FrameView::Notification(notification),
                None => FrameView::Malformed,
            },
        },
    }
}

impl Command {
    /// Creates a new command with a unique ID and a [`Method`].
    pub fn new(id: i32, method: Method) -> (command: Command)
        ensures
            command.id == id,
            command.method == method,
            views_of(command.params@) == method.wire_params(),
    {
        Command { id, params: method.get_params(), method }
    }

    /// The JSON object that the command is sent as.
    pub open spec fn wire_json(self) -> JsonValue {
        request_json(self.id, self.method.wire_name(), views_of(self.params@))
    }

    /// The JSON object that the command is sent as.
    pub fn to_json(&self) -> (json: Json)
        ensures
            json@ == self.wire_json(),
    {
        let mut params: Vec<Json> = Vec::new();
        let mut i: usize = 0;
        while i < self.params.len()
            invariant
                i <= self.params.len(),
                params@.len() == i,
                forall|k: int| 0 <= k < i ==> params@[k]@ == self.params@[k]@,
            decreases self.params.len() - i,
        {
            params.push(self.params[i].duplicate());
            i += 1;
        }
        let params = Json::Array(params);
        let mut members: Vec<(String, Json)> = Vec::new();
        members.push(("id".to_owned(), Json::Int(self.id as i64)));
        members.push(("method".to_owned(), Json::text(self.method.name())));
        members.push(("params".to_owned(), params));
        let json = Json::Object(members);
        proof {
            lemma_view_unfold(params);
            lemma_view_unfold(json);
            assert(params@->Array_0 =~= views_of(self.params@));
            assert(json@->Object_0 =~= self.wire_json()->Object_0);
        }
        json
    }

    /// The text of the command on the wire, without the frame delimiter.
    pub fn to_bytes(&self) -> (bytes: Vec<u8>)
        ensures
            bytes@ == json_text(self.wire_json()),
            !crate::framing::has_frame(bytes@),
    {
        self.to_json().to_bytes()
    }

    /// Makes the command that a request stands for: one with the request's
    /// identifier and parameters, and with a method that goes over the wire
    /// as the request says. There is none where no method goes over the
    /// wire under that name with those parameters.
    pub fn from_raw(raw: RawCommand) -> (command: Option<Command>)
        ensures
            match command {
                Some(command) => {
                    &&& command.id == raw.id
                    &&& command.params == raw.params
                    &&& command.method.is_sent_as(raw.method@, views_of(raw.params@))
                    &&& command.wire_json() == request_json(
                        raw.id,
                        raw.method@,
                        views_of(raw.params@),
                    )
                },
                None => forall|method: Method|
                    !method.is_sent_as(raw.method@, views_of(raw.params@)),
            },
    {
        match Method::from_wire(raw.method.as_str(), &raw.params) {
            Some(method) => Some(Command { id: raw.id, method, params: raw.params }),
            None => None,
        }
    }
}

impl RawCommand {
    /// Reads a document as a request.
    pub fn from_json(json: &Json) -> (request: Option<RawCommand>)
        ensures
            match request {
                Some(request) => request_of(json@) == Some(request@),
                None => request_of(json@) is None,
            },
    {
        let id = match json.get("id") {
            Some(member) => match member.as_i32() {
                Some(id) => id,
                None => {
                    return None;
                },
            },
            None => {
                return None;
            },
        };
        let method = match json.get("method") {
            Some(member) => match member.as_text() {
                Some(method) => method.clone(),
                None => {
                    return None;
                },
            },
            None => {
                return None;
            },
        };
        let items = match json.get("params") {
            Some(member) => match member.as_items() {
                Some(items) => items,
                None => {
                    return None;
                },
            },
            None => {
                return None;
            },
        };
        let mut params: Vec<Json> = Vec::new();
        let mut i: usize = 0;
        while i < items.len()
            invariant
                i <= items.len(),
                params@.len() == i,
                forall|k: int| 0 <= k < i ==> params@[k]@ == items@[k]@,
            decreases items.len() - i,
        {
            params.push(items[i].duplicate());
            i += 1;
        }
        assert(views_of(params@) =~= views_of(items@));
        Some(RawCommand { id, method, params })
    }
}

impl CommandResult {
    /// Reads a document as a result marker.
    pub fn from_json(json: &Json) -> (marker: Option<CommandResult>)
        ensures
            marker == marker_of(json@),
    {
        match json.as_text() {
            Some(text) => {
                if same_text(text.as_str(), "ok") {
                    Some(CommandResult::Okay)
                } else if same_text(text.as_str(), "off") {
                    Some(CommandResult::Off)
                } else if same_text(text.as_str(), "on") {
                    Some(CommandResult::On)
                } else {
                    None
                }
            },
            None => None,
        }
    }
}

impl CommandResponseError {
    /// Reads a document as the error of a response.
    pub fn from_json(json: &Json) -> (error: Option<CommandResponseError>)
        ensures
            match error {
                Some(error) => error_of(json@) == Some(error@),
                None => error_of(json@) is None,
            },
    {
        let code = match json.get("code") {
            Some(member) => match member.as_i32() {
                Some(code) => code,
                None => {
                    return None;
                },
            },
            None => {
                return None;
            },
        };
        let message = match json.get("message") {
            Some(member) => match member.as_text() {
                Some(message) => message.clone(),
                None => {
                    return None;
                },
            },
            None => {
                return None;
            },
        };
        Some(CommandResponseError { code, message })
    }
}

impl CommandResponse {
    /// Reads a document as a response.
    pub fn from_json(json: &Json) -> (response: Option<CommandResponse>)
        ensures
            match response {
                Some(response) => response_of(json@) == Some(response@),
                None => response_of(json@) is None,
            },
    {
        let id = match json.get("id") {
            Some(member) => match member.as_i32() {
                Some(id) => id,
                None => {
                    return None;
                },
            },
            None => {
                return None;
            },
        };
        let items = match json.get("result") {
            Some(member) => match member.as_items() {
                Some(items) => items,
                None => {
                    return None;
                },
            },
            None => {
                return None;
            },
        };
        let result = match read_markers(items) {
            Some(result) => result,
            None => {
                return None;
            },
        };
        let error = match json.get("error") {
            None => None,
            Some(member) => match member {
                Json::Null => None,
                _ => match CommandResponseError::from_json(member) {
                    Some(error) => Some(error),
                    None => {
                        return None;
                    },
                },
            },
        };
        Some(CommandResponse { id, result, error })
    }
}

impl NotificationResult {
    /// Reads a document as a notification.
    pub fn from_json(json: &Json) -> (notification: Option<NotificationResult>)
        ensures
            match notification {
                Some(notification) => notification_of(json@) == Some(notification@),
                None => notification_of(json@) is None,
            },
    {
        let method = match json.get("method") {
            Some(member) => match member.as_text() {
                Some(method) => method.clone(),
                None => {
                    return None;
                },
            },
            None => {
                return None;
            },
        };
        let params = match json.get("params") {
            Some(member) => match member {
                Json::Object(members) => {
                    proof {
                        lemma_view_unfold(*member);
                    }
                    match read_changes(members) {
                        Some(params) => params,
                        None => {
                            return None;
                        },
                    }
                },
                _ => {
                    return None;
                },
            },
            None => {
                return None;
            },
        };
        Some(NotificationResult { method, params })
    }
}

/// Reads each element of a `result` array as a result marker.
fn read_markers(items: &Vec<Json>) -> (result: Option<Vec<CommandResult>>)
    ensures
        match result {
            Some(result) => markers_of(views_of(items@)) == Some(result@),
            None => markers_of(views_of(items@)) is None,
        },
{
    let ghost values = views_of(items@);
    let mut result: Vec<CommandResult> = Vec::new();
    let mut i: usize = 0;
    while i < items.len()
        invariant
            i <= items.len(),
            values == views_of(items@),
            result@.len() == i,
            forall|k: int| 0 <= k < i ==> marker_of(#[trigger] values[k]) == Some(result@[k]),
        decreases items.len() - i,
    {
        match CommandResult::from_json(&items[i]) {
            Some(marker) => {
                result.push(marker);
            },
            None => {
                assert(marker_of(values[i as int]) is None);
                return None;
            },
        }
        i += 1;
    }
    assert(markers_of(values)->Some_0 =~= result@);
    Some(result)
}

/// Reads each member of a `params` object as the change of one property.
fn read_changes(members: &Vec<(String, Json)>) -> (params: Option<Vec<(Property, Json)>>)
    ensures
        match params {
            Some(params) => changes_of(member_views_of(members@)) == Some(
                Seq::new(params@.len(), |i: int| (params@[i].0, params@[i].1@)),
            ),
            None => changes_of(member_views_of(members@)) is None,
        },
{
    let ghost values = member_views_of(members@);
    let mut params: Vec<(Property, Json)> = Vec::new();
    let mut i: usize = 0;
    while i < members.len()
        invariant
            i <= members.len(),
            values == member_views_of(members@),
            params@.len() == i,
            forall|k: int|
                0 <= k < i ==> Property::named((#[trigger] values[k]).0) == Some(params@[k].0)
                    && params@[k].1@ == values[k].1,
        decreases members.len() - i,
    {
        match Property::from_name(members[i].0.as_str()) {
            Some(property) => {
                params.push((property, members[i].1.duplicate()));
            },
            None => {
                assert(Property::named(values[i as int].0) is None);
                return None;
            },
        }
        i += 1;
    }
    assert(changes_of(values)->Some_0 =~= Seq::new(
        params@.len(),
        |i: int| (params@[i].0, params@[i].1@),
    ));
    Some(params)
}

impl Frame {
    /// Tells a parsed frame apart; `None` stands for a frame that did not
    /// parse.
    pub fn of_json(parsed: Option<&Json>) -> (frame: Frame)
        ensures
            frame@ == frame_of(
                match parsed {
                    Some(json) => Some(json@),
                    None => None,
                },
            ),
    {
        match parsed {
            None => Frame::Malformed,
            Some(json) => match CommandResponse::from_json(json) {
                Some(response) => Frame::Response(response),
                None => match NotificationResult::from_json(json) {
                    Some(notification) => Frame::Notification(notification),
                    None => Frame::Malformed,
                },
            },
        }
    }

    /// Parses one frame, delimiter removed, and tells it apart.
    pub fn of_bytes(bytes: &[u8]) -> (frame: Frame)
        ensures
            frame@ == frame_of(parsed_json(bytes@)),
    {
        match Json::from_bytes(bytes) {
            Some(json) => Frame::of_json(Some(&json)),
            None => Frame::of_json(None),
        }
    }
}

/// Reading the JSON object that a command is sent as gives back what went
/// in: the identifier, the name of the operation and the parameters.
pub proof fn lemma_request_round_trip(command: Command)
    ensures
        request_of(command.wire_json()) == Some(
            RawCommandView {
                id: command.id,
                method: command.method.wire_name(),
                params: views_of(command.params@),
            },
        ),
{
    lemma_request_read_back(command.id, command.method.wire_name(), views_of(command.params@));
}

/// What a command made by [`Command::new`] is sent as can be made into a
/// command again: a method goes over the wire under that name with those
/// parameters, the command's own.
pub proof fn lemma_command_reads_back(command: Command)
    requires
        views_of(command.params@) == command.method.wire_params(),
    ensures
        request_of(command.wire_json()) matches Some(raw) && command.method.is_sent_as(
            raw.method,
            raw.params,
        ),
{
    lemma_request_round_trip(command);
}

/// A request object reads as the request it was made of.
pub proof fn lemma_request_read_back(id: i32, method: Seq<char>, params: Seq<JsonValue>)
    ensures
        request_of(request_json(id, method, params)) == Some(RawCommandView { id, method, params }),
{
    reveal_strlit("id");
    reveal_strlit("method");
    reveal_strlit("params");
    reveal_with_fuel(crate::json::last_member, 4);
    let members = request_json(id, method, params)->Object_0;
    assert("id"@.len() != "method"@.len());
    assert("id"@.len() != "params"@.len());
    assert("method"@[0] != "params"@[0]);
    assert(members.len() == 3);
    assert(members.last() == ("params"@, JsonValue::Array(params)));
    assert(members.drop_last().last() == ("method"@, JsonValue::Str(method)));
    assert(members.drop_last().drop_last().last() == ("id"@, JsonValue::Int(id as i64)));
}

/// A request object is no response and no notification: a device that got
/// its own request back would leave it out.
pub proof fn lemma_request_is_no_message(id: i32, method: Seq<char>, params: Seq<JsonValue>)
    ensures
        frame_of(Some(request_json(id, method, params))) == FrameView::Malformed,
{
    reveal_strlit("id");
    reveal_strlit("method");
    reveal_strlit("params");
    reveal_strlit("result");
    reveal_with_fuel(crate::json::last_member, 4);
    let members = request_json(id, method, params)->Object_0;
    assert("result"@.len() != "id"@.len());
    assert("result"@[0] != "method"@[0]);
    assert("result"@[0] != "params"@[0]);
    assert("method"@[0] != "params"@[0]);
    assert(members.len() == 3);
    assert(members.last() == ("params"@, JsonValue::Array(params)));
    assert(members.drop_last().last() == ("method"@, JsonValue::Str(method)));
    assert(members.drop_last().drop_last().last() == ("id"@, JsonValue::Int(id as i64)));
}

/// A frame is one thing only: what reads as a response is never counted as
/// a notification too.
pub proof fn lemma_frame_is_one_thing(parsed: Option<JsonValue>)
    ensures
        frame_of(parsed) is Response <==> parsed is Some && response_of(parsed->Some_0) is Some,
        frame_of(parsed) is Notification <==> parsed is Some && response_of(parsed->Some_0) is None
            && notification_of(parsed->Some_0) is Some,
        frame_of(parsed) is Malformed <==> parsed is None || (response_of(parsed->Some_0) is None
            && notification_of(parsed->Some_0) is None),
        frame_of(parsed) matches FrameView::Response(response) ==> parsed->Some_0.member("id"@)
            == Some(JsonValue::Int(response.id as i64)),
{
}

} // verus!
