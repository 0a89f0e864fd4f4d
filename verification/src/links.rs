//! The way from a video's identifier to its quality variants, as a machine
//! that is told what the platform answered and says what to ask next.
//!
//! Two requests are made, one after the other: for the access token, and for
//! the master manifest signed with it. The first failure ends the way.

use crate::text::split_lines;
use crate::token::{
    json_string_at, token_outcome, token_request_of, AccessToken, AccessTokenRequest,
    AccessTokenRequestView, AccessTokenResolver, AccessTokenView, CLIENT_ID, SIGNATURE_POINTER,
    VALUE_POINTER,
};
use crate::utils::{ErrorKind, ErrorView, TwitchClientError};
use crate::variants::{
    is_restricted, playlist_uri_of, variants_outcome, VariantPlaylistResolver, VariantSet,
    VariantView, ACCESS_RESTRICTED,
};
use vstd::prelude::*;
use vstd::string::StringExecFns;

verus! {

/// What the message of the error for a token request that could not be
/// carried out begins with; the cause follows.
pub const TOKEN_REQUEST_FAILED: &'static str = "Unable to get Access Token, got error : ";

/// What the message of the error for a manifest request that could not be
/// carried out begins with; the cause follows.
pub const PLAYLIST_REQUEST_FAILED: &'static str = "Failed to get video playlists, got error : ";

/// Where the way to the variants stands.
#[derive(Debug, Clone, Copy, PartialEq, Eq, Structural)]
pub enum LinkPhase {
    /// The access token is being asked for.
    AwaitingToken,
    /// The master manifest is being asked for.
    AwaitingManifest,
    /// The variants are known.
    Resolved,
    /// The way has failed.
    Failed,
}

/// What the caller reports to the machine.
#[derive(Debug, Clone, PartialEq, Eq)]
pub enum LinkEvent {
    /// The platform answered with the text `body`.
    Answered { body: String },
    /// The request could not be carried out.
    Failed { cause: String },
}

/// An event as contracts speak of it.
pub enum LinkEventView {
    Answered { body: Seq<char> },
    Failed { cause: Seq<char> },
}

impl View for LinkEvent {
    type V = LinkEventView;

    open spec fn view(&self) -> LinkEventView {
        match self {
            LinkEvent::Answered { body } => LinkEventView::Answered { body: body@ },
            LinkEvent::Failed { cause } => LinkEventView::Failed { cause: cause@ },
        }
    }
}

/// What the machine tells the caller to do.
#[derive(Debug, Clone, PartialEq, Eq)]
pub enum LinkAction {
    /// Send `request` to the token endpoint.
    RequestToken { request: AccessTokenRequest },
    /// Get the master manifest at `uri`, with the header `Client-ID` set to
    /// `client_id`.
    RequestManifest { uri: String, client_id: String },
    /// The variants are known: nothing is left to ask.
    Done,
    /// The way has failed with `error`.
    Abort { error: TwitchClientError },
}

/// An action as contracts speak of it.
pub enum LinkActionView {
    RequestToken { request: AccessTokenRequestView },
    RequestManifest { uri: Seq<char>, client_id: Seq<char> },
    Done,
    Abort { error: ErrorView },
}

impl View for LinkAction {
    type V = LinkActionView;

    open spec fn view(&self) -> LinkActionView {
        match self {
            LinkAction::RequestToken { request } => LinkActionView::RequestToken {
                request: request@,
            },
            LinkAction::RequestManifest { uri, client_id } => LinkActionView::RequestManifest {
                uri: uri@,
                client_id: client_id@,
            },
            LinkAction::Done => LinkActionView::Done,
            LinkAction::Abort { error } => LinkActionView::Abort { error: error@ },
        }
    }
}

/// The way to the variants as contracts speak of it.
pub struct LinkView {
    pub video_id: Seq<char>,
    pub phase: LinkPhase,
    /// The access token, once it is known.
    pub token: AccessTokenView,
    /// The variants, once they are known.
    pub variants: Seq<VariantView>,
    /// The error of a failed way.
    pub failure: ErrorView,
}

/// The way `s` failed with `error`.
pub open spec fn link_failed(s: LinkView, error: ErrorView) -> LinkView {
    LinkView { phase: LinkPhase::Failed, failure: error, ..s }
}

/// The way `s` after the event `e`.
pub open spec fn link_step(s: LinkView, e: LinkEventView) -> LinkView {
    match s.phase {
        LinkPhase::AwaitingToken => match e {
            LinkEventView::Answered { body } => match token_outcome(
                json_string_at(body, VALUE_POINTER@),
                json_string_at(body, SIGNATURE_POINTER@),
                s.video_id,
            ) {
                Ok(token) => LinkView { phase: LinkPhase::AwaitingManifest, token: token, ..s },
                Err(error) => link_failed(s, error),
            },
            LinkEventView::Failed { cause } => link_failed(
                s,
                ErrorView { kind: ErrorKind::Network, details: TOKEN_REQUEST_FAILED@ + cause },
            ),
        },
        LinkPhase::AwaitingManifest => match e {
            LinkEventView::Answered { body } => match variants_outcome(split_lines(body)) {
                Ok(variants) => LinkView { phase: LinkPhase::Resolved, variants: variants, ..s },
                Err(error) => link_failed(s, error),
            },
            LinkEventView::Failed { cause } => link_failed(
                s,
                ErrorView { kind: ErrorKind::Network, details: PLAYLIST_REQUEST_FAILED@ + cause },
            ),
        },
        LinkPhase::Resolved => s,
        LinkPhase::Failed => s,
    }
}

/// What the way `s` waits for the caller to do.
pub open spec fn pending_link_action(s: LinkView) -> LinkActionView {
    match s.phase {
        LinkPhase::AwaitingToken => LinkActionView::RequestToken {
            request: token_request_of(s.video_id),
        },
        LinkPhase::AwaitingManifest => LinkActionView::RequestManifest {
            uri: playlist_uri_of(s.video_id, s.token.value, s.token.signature),
            client_id: CLIENT_ID@,
        },
        LinkPhase::Resolved => LinkActionView::Done,
        LinkPhase::Failed => LinkActionView::Abort { error: s.failure },
    }
}

/// The way `s` after the events `events`, one after the other.
pub open spec fn link_run(s: LinkView, events: Seq<LinkEventView>) -> LinkView
    decreases events.len(),
{
    if events.len() == 0 {
        s
    } else {
        link_run(link_step(s, events[0]), events.skip(1))
    }
}

/// The way from one video's identifier to its variants.
#[derive(Debug, Clone)]
pub struct LinkResolution {
    video_id: String,
    phase: LinkPhase,
    token: AccessToken,
    variants: VariantSet,
    failure: TwitchClientError,
}

impl View for LinkResolution {
    type V = LinkView;

    closed spec fn view(&self) -> LinkView {
        LinkView {
            video_id: self.video_id@,
            phase: self.phase,
            token: self.token@,
            variants: self.variants@,
            failure: self.failure@,
        }
    }
}

impl LinkResolution {
    /// Whether the way is in order: no label occurs twice among the
    /// variants.
    pub closed spec fn wf(&self) -> bool {
        self.variants.wf()
    }

    /// The way to the variants of the video `video_id`, at its start.
    pub fn new(video_id: String) -> (r: LinkResolution)
        ensures
            r.wf(),
            r@.video_id == video_id@,
            r@.phase == LinkPhase::AwaitingToken,
            r@.token.value == Seq::<char>::empty(),
            r@.token.signature == Seq::<char>::empty(),
            r@.variants == Seq::<VariantView>::empty(),
            pending_link_action(r@) == (LinkActionView::RequestToken {
                request: token_request_of(video_id@),
            }),
    {
        LinkResolution {
            video_id,
            phase: LinkPhase::AwaitingToken,
            token: AccessToken { value: String::new(), signature: String::new() },
            variants: VariantSet::new(),
            failure: TwitchClientError::new(""),
        }
    }

    /// Where the way stands.
    pub fn phase(&self) -> (phase: LinkPhase)
        ensures
            phase == self@.phase,
    {
        self.phase
    }

    /// The access token; empty until it is known.
    pub fn token(&self) -> (token: &AccessToken)
        ensures
            token@ == self@.token,
    {
        &self.token
    }

    /// The variants; none until they are known.
    pub fn variants(&self) -> (variants: &VariantSet)
        requires
            self.wf(),
        ensures
            variants@ == self@.variants,
            variants.wf(),
    {
        &self.variants
    }

    /// What the way waits for the caller to do.
    pub fn pending(&self) -> (action: LinkAction)
        ensures
            action@ == pending_link_action(self@),
    {
        match self.phase {
            LinkPhase::AwaitingToken => LinkAction::RequestToken {
                request: AccessTokenResolver::request(self.video_id.as_str()),
            },
            LinkPhase::AwaitingManifest => LinkAction::RequestManifest {
                uri: VariantPlaylistResolver::playlist_uri(self.video_id.as_str(), &self.token),
                client_id: CLIENT_ID.to_owned(),
            },
            LinkPhase::Resolved => LinkAction::Done,
            LinkPhase::Failed => LinkAction::Abort { error: self.failure.copy() },
        }
    }

    /// Takes in what has happened, and says what to do next.
    pub fn advance(&mut self, event: LinkEvent) -> (action: LinkAction)
        requires
            old(self).wf(),
        ensures
            final(self).wf(),
            final(self)@ == link_step(old(self)@, event@),
            action@ == pending_link_action(final(self)@),
    {
        match self.phase {
            LinkPhase::AwaitingToken => match event {
                LinkEvent::Answered { body } => match AccessTokenResolver::resolve(
                    body.as_str(),
                    self.video_id.as_str(),
                ) {
                    Ok(token) => {
                        self.token = token;
                        self.phase = LinkPhase::AwaitingManifest;
                    },
                    Err(error) => {
                        self.failure = error;
                        self.phase = LinkPhase::Failed;
                    },
                },
                LinkEvent::Failed { cause } => {
                    let message = String::from_str(TOKEN_REQUEST_FAILED).concat(cause.as_str());
                    self.failure = TwitchClientError::with_kind(ErrorKind::Network, message);
                    self.phase = LinkPhase::Failed;
                },
            },
            LinkPhase::AwaitingManifest => match event {
                LinkEvent::Answered { body } => match VariantPlaylistResolver::resolve_variants(
                    body.as_str(),
                ) {
                    Ok(variants) => {
                        self.variants = variants;
                        self.phase = LinkPhase::Resolved;
                    },
                    Err(error) => {
                        self.failure = error;
                        self.phase = LinkPhase::Failed;
                    },
                },
                LinkEvent::Failed { cause } => {
                    let message = String::from_str(PLAYLIST_REQUEST_FAILED).concat(cause.as_str());
                    self.failure = TwitchClientError::with_kind(ErrorKind::Network, message);
                    self.phase = LinkPhase::Failed;
                },
            },
            LinkPhase::Resolved => {},
            LinkPhase::Failed => {},
        }
        self.pending()
    }
}

/// A way that has failed stays failed, whatever comes in: it asks for
/// nothing more.
pub proof fn lemma_link_failure_is_final(s: LinkView, events: Seq<LinkEventView>)
    requires
        s.phase == LinkPhase::Failed,
    ensures
        link_run(s, events) == s,
        pending_link_action(link_run(s, events)) == (LinkActionView::Abort { error: s.failure }),
    decreases events.len(),
{
    if events.len() > 0 {
        lemma_link_failure_is_final(s, events.skip(1));
    }
}

/// A master manifest whose first line holds the marker of a restricted video
/// ends the way with the error of that kind, and no request follows it,
/// whatever comes in afterwards.
pub proof fn lemma_restricted_manifest_ends(s: LinkView, body: Seq<char>, later: Seq<LinkEventView>)
    requires
        s.phase == LinkPhase::AwaitingManifest,
        is_restricted(split_lines(body)),
    ensures
        variants_outcome(split_lines(body)) == Err::<Seq<VariantView>, ErrorView>(
            ErrorView { kind: ErrorKind::AccessRestricted, details: ACCESS_RESTRICTED@ },
        ),
        link_step(s, LinkEventView::Answered { body }).phase == LinkPhase::Failed,
        link_step(s, LinkEventView::Answered { body }).failure == (ErrorView {
            kind: ErrorKind::AccessRestricted,
            details: ACCESS_RESTRICTED@,
        }),
        pending_link_action(link_run(link_step(s, LinkEventView::Answered { body }), later)) == (
        LinkActionView::Abort {
            error: ErrorView { kind: ErrorKind::AccessRestricted, details: ACCESS_RESTRICTED@ },
        }),
{
    lemma_link_failure_is_final(link_step(s, LinkEventView::Answered { body }), later);
}

} // verus!
