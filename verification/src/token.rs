//! The access-token resolver: what to ask the token endpoint, and how to
//! read its answer.

use crate::gql::GQL_GET_ACCESS_TOKEN_QUERY;
use crate::utils::{ErrorKind, ErrorView, TwitchClientError};
use vstd::prelude::*;
use vstd::string::StringExecFns;

verus! {

/// The address of the token endpoint.
pub const TWITCH_GQL_API: &'static str = "https://gql.twitch.tv/gql";

/// The application identifier sent with every request.
pub const CLIENT_ID: &'static str = "kd1unb4b3q4t58fwlpcbzcbnm76a8fp";

/// The name of the operation that a token request carries out.
pub const OPERATION_NAME: &'static str = "PlaybackAccessToken_Template";

/// The player that a token request claims to be.
pub const PLAYER_TYPE: &'static str = "embed";

/// Where the token's value stands in the answer, as a JSON pointer.
pub const VALUE_POINTER: &'static str = "/data/videoPlaybackAccessToken/value";

/// Where the token's signature stands in the answer, as a JSON pointer.
pub const SIGNATURE_POINTER: &'static str = "/data/videoPlaybackAccessToken/signature";

/// What the message of the error for an answer without a token begins with;
/// the video's identifier follows.
pub const MISSING_TOKEN: &'static str = "Failed to get access token for the video : ";

/// A pair of value and signature that allows the playback of one video.
#[derive(Debug, Clone, PartialEq, Eq)]
pub struct AccessToken {
    pub value: String,
    pub signature: String,
}

/// A token as contracts speak of it.
pub struct AccessTokenView {
    pub value: Seq<char>,
    pub signature: Seq<char>,
}

impl View for AccessToken {
    type V = AccessTokenView;

    open spec fn view(&self) -> AccessTokenView {
        AccessTokenView { value: self.value@, signature: self.signature@ }
    }
}

/// What to send to the token endpoint: a POST to `url` with the header
/// `Client-ID`, and a body that holds the operation's name, the query and
/// the variables.
#[derive(Debug, Clone, PartialEq, Eq)]
pub struct AccessTokenRequest {
    pub url: String,
    pub client_id: String,
    pub operation_name: String,
    pub query: String,
    /// The variable `isLive`.
    pub is_live: bool,
    /// The variable `login`.
    pub login: String,
    /// The variable `isVod`.
    pub is_vod: bool,
    /// The variable `vodID`.
    pub vod_id: String,
    /// The variable `playerType`.
    pub player_type: String,
}

/// A token request as contracts speak of it.
pub struct AccessTokenRequestView {
    pub url: Seq<char>,
    pub client_id: Seq<char>,
    pub operation_name: Seq<char>,
    pub query: Seq<char>,
    pub is_live: bool,
    pub login: Seq<char>,
    pub is_vod: bool,
    pub vod_id: Seq<char>,
    pub player_type: Seq<char>,
}

impl View for AccessTokenRequest {
    type V = AccessTokenRequestView;

    open spec fn view(&self) -> AccessTokenRequestView {
        AccessTokenRequestView {
            url: self.url@,
            client_id: self.client_id@,
            operation_name: self.operation_name@,
            query: self.query@,
            is_live: self.is_live,
            login: self.login@,
            is_vod: self.is_vod,
            vod_id: self.vod_id@,
            player_type: self.player_type@,
        }
    }
}

/// What to send to the token endpoint for the video `video_id`: the fixed
/// query, asking for the token of a video and not of a live stream.
pub open spec fn token_request_of(video_id: Seq<char>) -> AccessTokenRequestView {
    AccessTokenRequestView {
        url: TWITCH_GQL_API@,
        client_id: CLIENT_ID@,
        operation_name: OPERATION_NAME@,
        query: GQL_GET_ACCESS_TOKEN_QUERY@,
        is_live: false,
        login: Seq::<char>::empty(),
        is_vod: true,
        vod_id: video_id,
        player_type: PLAYER_TYPE@,
    }
}

/// The string that stands in the JSON document `body` at the place that the
/// JSON pointer `pointer` names, as `serde_json` reads them; none where
/// `body` is no JSON document, the pointer leads nowhere in it, or what
/// stands there is no string.
pub uninterp spec fn json_string_at(body: Seq<char>, pointer: Seq<char>) -> Option<Seq<char>>;

/// Reads `body` with `serde_json::from_str` as a `serde_json::Value`, looks
/// `pointer` up in it with `Value::pointer`, and takes what stands there as a
/// string with `Value::as_str`. The contract gives the outcome a name and
/// claims nothing else of it.
#[verifier::external_body]
fn json_string(body: &str, pointer: &str) -> (r: Option<String>)
    ensures
        match r {
            Some(s) => json_string_at(body@, pointer@) == Some(s@),
            None => json_string_at(body@, pointer@) == None::<Seq<char>>,
        },
{
    match serde_json::from_str::<serde_json::Value>(body) {
        Ok(document) => match document.pointer(pointer) {
            Some(found) => match found.as_str() {
                Some(s) => Some(s.to_owned()),
                None => None,
            },
            None => None,
        },
        Err(_) => None,
    }
}

/// The token that an answer with the value `value` and the signature
/// `signature` gives for the video `video_id`: both must be there.
pub open spec fn token_outcome(
    value: Option<Seq<char>>,
    signature: Option<Seq<char>>,
    video_id: Seq<char>,
) -> Result<AccessTokenView, ErrorView> {
    match (value, signature) {
        (Some(v), Some(s)) => Ok(AccessTokenView { value: v, signature: s }),
        _ => Err(ErrorView { kind: ErrorKind::Auth, details: MISSING_TOKEN@ + video_id }),
    }
}

/// The views of an optional string.
pub open spec fn text_view(s: Option<String>) -> Option<Seq<char>> {
    match s {
        Some(s) => Some(s@),
        None => None,
    }
}

/// The token for the video `video_id`, from the value and the signature that
/// were found in the endpoint's answer.
pub fn token_from_fields(value: Option<String>, signature: Option<String>, video_id: &str) -> (r:
    Result<AccessToken, TwitchClientError>)
    ensures
        match r {
            Ok(t) => token_outcome(text_view(value), text_view(signature), video_id@) == Ok::<
                AccessTokenView,
                ErrorView,
            >(t@),
            Err(e) => token_outcome(text_view(value), text_view(signature), video_id@) == Err::<
                AccessTokenView,
                ErrorView,
            >(e@),
        },
{
    match (value, signature) {
        (Some(v), Some(s)) => Ok(AccessToken { value: v, signature: s }),
        _ => {
            let message = String::from_str(MISSING_TOKEN).concat(video_id);
            Err(TwitchClientError::with_kind(ErrorKind::Auth, message))
        },
    }
}

impl AccessToken {
    /// A token with the same value and signature.
    pub fn copy(&self) -> (t: AccessToken)
        ensures
            t@ == self@,
    {
        AccessToken { value: self.value.clone(), signature: self.signature.clone() }
    }
}

/// The resolver of access tokens.
pub struct AccessTokenResolver;

impl AccessTokenResolver {
    /// What to send to the token endpoint for the video `video_id`: the
    /// fixed query, asking for the token of a video and not of a live
    /// stream.
    pub fn request(video_id: &str) -> (r: AccessTokenRequest)
        ensures
            r@ == token_request_of(video_id@),
    {
        AccessTokenRequest {
            url: TWITCH_GQL_API.to_owned(),
            client_id: CLIENT_ID.to_owned(),
            operation_name: OPERATION_NAME.to_owned(),
            query: GQL_GET_ACCESS_TOKEN_QUERY.to_owned(),
            is_live: false,
            login: String::new(),
            is_vod: true,
            vod_id: video_id.to_owned(),
            player_type: PLAYER_TYPE.to_owned(),
        }
    }

    /// Reads the token for the video `video_id` out of the body `body` of
    /// the endpoint's answer. The token is there when the answer is a JSON
    /// document that holds a string at each of the two places where value
    /// and signature belong.
    pub fn resolve(body: &str, video_id: &str) -> (r: Result<AccessToken, TwitchClientError>)
        ensures
            match r {
                Ok(t) => token_outcome(
                    json_string_at(body@, VALUE_POINTER@),
                    json_string_at(body@, SIGNATURE_POINTER@),
                    video_id@,
                ) == Ok::<AccessTokenView, ErrorView>(t@),
                Err(e) => token_outcome(
                    json_string_at(body@, VALUE_POINTER@),
                    json_string_at(body@, SIGNATURE_POINTER@),
                    video_id@,
                ) == Err::<AccessTokenView, ErrorView>(e@),
            },
    {
        let value = json_string(body, VALUE_POINTER);
        let signature = json_string(body, SIGNATURE_POINTER);
        token_from_fields(value, signature, video_id)
    }
}

} // verus!
