use vstd::prelude::*;

verus! {

/// Request to create a collection of chunks (a bookmark folder).
pub struct CreateChunkCollectionData {
    /// Name of the collection; it need not be unique.
    pub name: String,
    /// What the collection is for.
    pub description: String,
}

/// A page of a dataset's collections.
pub struct CollectionData<C> {
    pub collections: Vec<C>,
    pub total_pages: i64,
}

/// A chunk bookmarked in a collection.
pub struct BookmarkChunks<M> {
    pub metadata: M,
}

/// A page of the chunks bookmarked in a collection.
pub struct BookmarkData<M, C> {
    pub bookmarks: Vec<BookmarkChunks<M>>,
    pub collection: C,
    pub total_pages: i64,
}

} // verus!
