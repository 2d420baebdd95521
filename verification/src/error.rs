use vstd::prelude::*;

verus! {

/// Why a page of the site could not be read.
#[derive(Debug, Clone, Copy, PartialEq, Eq, Structural)]
pub enum ScrapeError {
    /// A search pattern was refused by the regular-expression engine.
    Pattern,
    /// A capture group that the page was read through did not take part in a match.
    MissingGroup,
    /// An episode number on the page is not a 32-bit decimal integer.
    EpisodeNumber,
    /// Counting episodes went past the range of a 32-bit integer.
    EpisodeOverflow,
    /// An embedded link is not base64 text that decodes to UTF-8.
    Base64,
}

} // verus!
