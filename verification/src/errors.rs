use vstd::prelude::*;
use vstd::string::*;

verus! {

/// The error kinds of the pipeline. Every failure is fatal to the whole
/// operation: the first error encountered, in processing order, aborts the
/// run. Each variant carries a human-readable message.
#[derive(Debug)]
pub enum WebsiteDownloaderError {
    /// A network request failed, or a response had a non-success status.
    ReqwestError(String),
    /// Creating a directory or writing a file failed.
    IoError(String),
    /// The page URL or an asset reference could not be parsed or resolved.
    UrlParseError(String),
    /// An internal element selector did not parse. Unreachable in a correct
    /// build, since the selectors are fixed strings.
    SelectorParseError(String),
}

impl WebsiteDownloaderError {
    /// One line of text naming the kind and carrying its message.
    pub fn message(&self) -> (r: String)
        ensures
            r@ == match *self {
                WebsiteDownloaderError::ReqwestError(m) => "Request error: "@ + m@,
                WebsiteDownloaderError::IoError(m) => "IO error: "@ + m@,
                WebsiteDownloaderError::UrlParseError(m) => "URL parse error: "@ + m@,
                WebsiteDownloaderError::SelectorParseError(m) => "Selector parse error: "@ + m@,
            },
    {
        match self {
            WebsiteDownloaderError::ReqwestError(m) => String::from_str("Request error: ").concat(
                m.as_str(),
            ),
            WebsiteDownloaderError::IoError(m) => String::from_str("IO error: ").concat(m.as_str()),
            WebsiteDownloaderError::UrlParseError(m) => String::from_str(
                "URL parse error: ",
            ).concat(m.as_str()),
            WebsiteDownloaderError::SelectorParseError(m) => String::from_str(
                "Selector parse error: ",
            ).concat(m.as_str()),
        }
    }
}

} // verus!
