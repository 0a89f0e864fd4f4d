//! The query that asks the platform for a playback access token.

use vstd::prelude::*;

verus! {

/// The query sent to the token endpoint. It names both the token of a live
/// stream and that of a video; the variables of a request decide which of
/// the two the platform fills in.
pub const GQL_GET_ACCESS_TOKEN_QUERY: &'static str = r#"query PlaybackAccessToken_Template(
    $login: String!,
    $isLive: Boolean!,
    $vodID: ID!,
    $isVod: Boolean!,
    $playerType: String!
  ) {
    streamPlaybackAccessToken(
      channelName: $login,
      params: {
        platform: "web",
        playerBackend: "mediaplayer",
        playerType: $playerType
      }
    ) @include(if: $isLive) {
      value
      signature
      __typename
    }
    videoPlaybackAccessToken(
      id: $vodID,
      params: {
        platform: "web",
        playerBackend: "mediaplayer",
        playerType: $playerType
      }
    ) @include(if: $isVod) {
      value
      signature
      __typename
    }
  }
  "#;

} // verus!
