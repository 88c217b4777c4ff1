//! In-memory representation of a diagram source file. Reading the file from
//! disk is the caller's concern; the library only holds and hands back the
//! content.

use vstd::prelude::*;

verus! {

/// A diagram file's path, as text. Resolving a relative path against its
/// surroundings is the caller's concern.
#[derive(Debug, Clone)]
pub struct FilePath(pub String);

impl FilePath {
    /// The path as text.
    pub fn as_str(&self) -> (r: &str)
        ensures
            r@ == self.0@,
    {
        self.0.as_str()
    }
}

/// The content of a diagram source file.
#[derive(Debug)]
pub struct FsmFile {
    content: String,
}

impl FsmFile {
    /// The stored content, for specification purposes.
    pub closed spec fn spec_content(&self) -> Seq<char> {
        self.content@
    }

    /// Wraps a file's content once the caller has read it.
    pub fn new(content: String) -> (r: Self)
        ensures
            r.spec_content() == content@,
    {
        FsmFile { content }
    }

    /// The file's content.
    pub fn content(&self) -> (r: &str)
        ensures
            r@ == self.spec_content(),
    {
        self.content.as_str()
    }
}

} // verus!
