//! Retrieval of a user's "liked" media posts: a minimal HTTP/1.1 transport,
//! platform adapters that turn paginated "likes" APIs into downloadable
//! items, and the planning logic of a resumable, deduplicating download
//! pipeline.

pub mod adapters;
pub mod pipeline;
pub mod simp_h1;
pub mod subseq;
pub mod text;
