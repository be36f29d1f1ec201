//! One servable file and what is reported of it.

use vstd::prelude::*;

verus! {

/// One file of the watched directory, as the last scan saw it.
///
/// The id is stable only until the next scan.
#[derive(Debug)]
pub struct Meme {
    pub id: u32,
    pub path: String,
    pub mime_type: String,
    pub filename: String,
    pub size_bytes: u64,
}

/// The mathematical value of a [`Meme`].
pub struct MemeView {
    pub id: u32,
    pub path: Seq<char>,
    pub mime_type: Seq<char>,
    pub filename: Seq<char>,
    pub size_bytes: u64,
}

impl View for Meme {
    type V = MemeView;

    open spec fn view(&self) -> MemeView {
        MemeView {
            id: self.id,
            path: self.path@,
            mime_type: self.mime_type@,
            filename: self.filename@,
            size_bytes: self.size_bytes,
        }
    }
}

impl Clone for Meme {
    fn clone(&self) -> (r: Self)
        ensures
            r@ == self@,
    {
        Meme {
            id: self.id,
            path: self.path.clone(),
            mime_type: self.mime_type.clone(),
            filename: self.filename.clone(),
            size_bytes: self.size_bytes,
        }
    }
}

/// What a caller is told of an asset besides its content.
#[derive(Debug)]
pub struct MemeResponse {
    pub id: u32,
    pub mime_type: String,
}

impl Clone for MemeResponse {
    fn clone(&self) -> (r: Self)
        ensures
            r.id == self.id,
            r.mime_type@ == self.mime_type@,
    {
        MemeResponse { id: self.id, mime_type: self.mime_type.clone() }
    }
}

impl MemeResponse {
    /// The id and the content type of `meme`.
    pub fn of(meme: &Meme) -> (r: MemeResponse)
        ensures
            r.id == meme.id,
            r.mime_type@ == meme.mime_type@,
    {
        MemeResponse { id: meme.id, mime_type: meme.mime_type.clone() }
    }
}

} // verus!
