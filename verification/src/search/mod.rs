//! Search: text search bookkeeping, the hybrid search that merges LSP symbols
//! with text matches, and the unified result type.

pub mod searcher;
pub mod hybrid;
pub mod unified;

pub use searcher::{SearchOptions, TextMatch};
pub use hybrid::{HybridResult, HybridSearchOptions, SearchResult};
pub use unified::{SymbolResult, TextResult, UnifiedResult};
