//! The notification in the form that the `a2` client sends, and the
//! client's answer in the form that the gateway reads.
//!
//! The options, the payload's token and the response are plain data, and
//! are read and written here. What `a2`'s builder makes of the texts of a
//! notification is not visible from here: that part of a payload is
//! carried to the client as it comes out of the builder.

use crate::apns::{text_of, Alert, ApnsReply, PushKind, Urgency};
use a2::error::Error;
use a2::request::notification::{DefaultNotificationBuilder, NotificationBuilder, NotificationOptions};
use a2::request::payload::Payload;
use a2::response::Response;
use vstd::prelude::*;

verus! {

/// `a2`'s payload, ready to be sent: a struct of public fields, which are
/// the options, the token of the device, the notification and further
/// data.
#[verifier::external_type_specification]
pub struct ExPayload<'a>(a2::request::payload::Payload<'a>);

/// `a2`'s notification content, the `aps` part of a payload. Nothing
/// inside it is visible here.
#[verifier::external_type_specification]
#[verifier::external_body]
pub struct ExAPS<'a>(a2::request::payload::APS<'a>);

/// A JSON value of `serde_json`, as a payload's further data holds them.
/// Nothing inside it is visible here.
#[verifier::external_type_specification]
#[verifier::external_body]
pub struct ExValue(serde_json::Value);

/// `a2`'s builder of payloads. Nothing inside it is visible here.
#[verifier::external_type_specification]
#[verifier::external_body]
pub struct ExDefaultNotificationBuilder<'a>(a2::request::notification::DefaultNotificationBuilder<'a>);

/// `a2`'s options of a notification, the headers of the request: a struct
/// of public fields, which are read as they are declared.
#[verifier::external_type_specification]
pub struct ExNotificationOptions<'a>(a2::request::notification::NotificationOptions<'a>);

/// `a2`'s priority of a notification: `High` or `Normal`.
#[verifier::external_type_specification]
pub struct ExPriority(a2::request::notification::Priority);

/// `a2`'s kinds of push, one for each value of the `apns-push-type` header.
#[verifier::external_type_specification]
pub struct ExPushType(a2::request::notification::PushType);

/// `a2`'s collapse identifier: a struct with the identifier as its one
/// public field.
#[verifier::external_type_specification]
pub struct ExCollapseId<'a>(a2::request::notification::CollapseId<'a>);

/// `a2`'s response: a struct of public fields, of which `code` is the HTTP
/// status.
#[verifier::external_type_specification]
pub struct ExResponse(a2::response::Response);

/// The body of an error response of `a2`. Nothing inside it is visible
/// here.
#[verifier::external_type_specification]
#[verifier::external_body]
pub struct ExErrorBody(a2::response::ErrorBody);

/// `a2`'s error. Nothing inside it is visible here.
#[verifier::external_type_specification]
#[verifier::external_body]
pub struct ExError(a2::error::Error);

/// `DefaultNotificationBuilder::new` of `a2`: a builder with nothing set.
/// Nothing is claimed of it.
pub assume_specification<'a>[ a2::request::notification::DefaultNotificationBuilder::<'a>::new ]() -> DefaultNotificationBuilder<
    'a,
>
;

/// `DefaultNotificationBuilder::set_title` of `a2`: the builder with the
/// title set. Nothing is claimed of it.
pub assume_specification<'a>[ a2::request::notification::DefaultNotificationBuilder::<'a>::set_title ](
    builder: DefaultNotificationBuilder<'a>,
    title: &'a str,
) -> DefaultNotificationBuilder<'a>
;

/// `DefaultNotificationBuilder::set_title_loc_key` of `a2`: the builder
/// with the localization key of the title set. Nothing is claimed of it.
pub assume_specification<'a>[ a2::request::notification::DefaultNotificationBuilder::<'a>::set_title_loc_key ](
    builder: DefaultNotificationBuilder<'a>,
    key: &'a str,
) -> DefaultNotificationBuilder<'a>
;

/// `DefaultNotificationBuilder::set_body` of `a2`: the builder with the
/// text set. Nothing is claimed of it.
pub assume_specification<'a>[ a2::request::notification::DefaultNotificationBuilder::<'a>::set_body ](
    builder: DefaultNotificationBuilder<'a>,
    body: &'a str,
) -> DefaultNotificationBuilder<'a>
;

/// `DefaultNotificationBuilder::set_loc_key` of `a2`: the builder with the
/// localization key of the text set. Nothing is claimed of it.
pub assume_specification<'a>[ a2::request::notification::DefaultNotificationBuilder::<'a>::set_loc_key ](
    builder: DefaultNotificationBuilder<'a>,
    key: &'a str,
) -> DefaultNotificationBuilder<'a>
;

/// `DefaultNotificationBuilder::set_sound` of `a2`: the builder with the
/// name of the sound set. Nothing is claimed of it.
pub assume_specification<'a>[ a2::request::notification::DefaultNotificationBuilder::<'a>::set_sound ](
    builder: DefaultNotificationBuilder<'a>,
    sound: &'a str,
) -> DefaultNotificationBuilder<'a>
;

/// `DefaultNotificationBuilder::set_mutable_content` of `a2`: the builder
/// with the mutable-content flag set. Nothing is claimed of it.
pub assume_specification<'a>[ a2::request::notification::DefaultNotificationBuilder::<'a>::set_mutable_content ](
    builder: DefaultNotificationBuilder<'a>,
) -> DefaultNotificationBuilder<'a>
;

/// `NotificationBuilder::build` of `a2`, for its default builder. It puts
/// the device token and the options into the payload as they are given;
/// nothing is claimed of the notification that it makes of the builder.
#[verifier::external_body]
fn build<'a>(
    builder: DefaultNotificationBuilder<'a>,
    device_token: &'a str,
    options: NotificationOptions<'a>,
) -> (payload: Payload<'a>)
    ensures
        payload.device_token == device_token,
        payload.options == options,
{
    builder.build(device_token, options)
}

/// Takes the response out of an `a2::Error` that holds one: the variant
/// `ResponseError`, which `a2` gives when the service answered with a
/// status other than 200. Nothing is claimed of the result.
#[verifier::external_body]
fn rejection(error: Error) -> Option<Response> {
    match error {
        Error::ResponseError(response) => Some(response),
        _ => None,
    }
}

/// The view of an optional string.
pub open spec fn shown(s: Option<String>) -> Option<Seq<char>> {
    match s {
        Some(t) => Some(t@),
        None => None,
    }
}

/// Whether `options` are the headers that `alert` is sent with: its
/// priority, kind of push and topic, and nothing else.
pub open spec fn heads(options: NotificationOptions, alert: Alert) -> bool {
    &&& options.apns_priority matches Some(priority) && (priority is High <==> alert.priority
        == Urgency::High) && (priority is Normal <==> alert.priority == Urgency::Normal)
    &&& options.apns_push_type matches Some(push_type) && (push_type is Alert <==> alert.push_type
        == PushKind::Alert) && (push_type is Background <==> alert.push_type
        == PushKind::Background)
    &&& text_of(options.apns_topic) == shown(alert.topic)
    &&& options.apns_id is None
    &&& options.apns_expiration is None
    &&& options.apns_collapse_id is None
}

/// The options that `alert` is sent with.
pub fn options<'a>(alert: &'a Alert) -> (options: NotificationOptions<'a>)
    ensures
        heads(options, *alert),
{
    let priority = match alert.priority {
        Urgency::High => a2::request::notification::Priority::High,
        Urgency::Normal => a2::request::notification::Priority::Normal,
    };
    let push_type = match alert.push_type {
        PushKind::Alert => a2::request::notification::PushType::Alert,
        PushKind::Background => a2::request::notification::PushType::Background,
    };
    let topic = match &alert.topic {
        Some(topic) => Some(topic.as_str()),
        None => None,
    };
    NotificationOptions {
        apns_id: None,
        apns_push_type: Some(push_type),
        apns_expiration: None,
        apns_priority: Some(priority),
        apns_topic: topic,
        apns_collapse_id: None,
    }
}

/// The payload that the client sends for `alert`: each of its texts is
/// handed to the builder, the flag is set if the alert has it, and the
/// payload is built for the alert's device with its options. What the
/// builder makes of the texts and the flag is not visible from here.
pub fn payload<'a>(alert: &'a Alert) -> (payload: Payload<'a>)
    ensures
        payload.device_token@ == alert.device_token@,
        heads(payload.options, *alert),
{
    let mut builder = DefaultNotificationBuilder::new().set_title(
        alert.title.as_str(),
    ).set_title_loc_key(alert.title_loc_key.as_str()).set_body(alert.body.as_str()).set_loc_key(
        alert.loc_key.as_str(),
    ).set_sound(alert.sound.as_str());
    if alert.mutable_content {
        builder = builder.set_mutable_content();
    }
    build(builder, alert.device_token.as_str(), options(alert))
}

/// Reads what the client gave back for one attempt. A response is taken
/// with its status. An error that holds a response is a rejection with
/// that response's status; any other error is no answer.
pub fn apns_reply(sent: Result<Response, Error>) -> (reply: ApnsReply)
    ensures
        sent matches Ok(response) ==> reply == (ApnsReply::Accepted { code: response.code }),
        sent is Err ==> reply is Rejected || reply is NoAnswer,
{
    match sent {
        Ok(response) => ApnsReply::Accepted { code: response.code },
        Err(error) => match rejection(error) {
            Some(response) => ApnsReply::Rejected { code: response.code },
            None => ApnsReply::NoAnswer,
        },
    }
}

} // verus!
