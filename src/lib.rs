//! Batch deletion of tweets: the identifiers of an archive fragment, the
//! request headers of a session, the body of each delete request and the
//! paced, failure-isolating sequencer that drives the requests.
pub mod request;
pub mod sequencer;
pub mod text;
pub mod extract;
pub mod headers;
