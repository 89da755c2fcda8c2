use vstd::prelude::*;

verus! {

/// Errors of the document writer.
#[derive(Debug)]
pub enum Error {
    /// The zlib layer could not be written.
    Io(std::io::Error),
    /// The image could not be encoded.
    Image(image::ImageError),
    /// A page was added after all declared pages were written.
    PageOverflow,
    /// The document was finished before all declared pages were written.
    MissingPages,
}

} // verus!
