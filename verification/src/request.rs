//! A submitted transfer request and the helpers that turn it into a remote
//! source path and a local destination directory.

use vstd::prelude::*;
use crate::strutil::tail_after_last;
use crate::strutil::tail_after_last_str;

verus! {

/// A transfer request: a link naming the remote source and a destination
/// below the local media root. Immutable once enqueued; consumed exactly once
/// by whichever worker pops it.
pub struct SftpRequest {
    pub destination: String,
    pub link: String,
}

/// The characters of the percent-decoded form of `s`.
pub uninterp spec fn percent_decoded(s: Seq<char>) -> Seq<char>;

/// Whether `s` percent-decodes to text: decoding fails exactly when the
/// decoded bytes are not valid text, and that depends on `s` alone.
pub uninterp spec fn percent_decodable(s: Seq<char>) -> bool;

/// Relies on urlencoding::decode: percent-decoding depends on the input
/// characters alone; it succeeds exactly on decodable inputs and fails, with
/// `None`, only when the decoded bytes are not valid text.
#[verifier::external_body]
fn percent_decode(s: &str) -> (r: Option<String>)
    ensures
        r is Some <==> percent_decodable(s@),
        r matches Some(d) ==> d@ == percent_decoded(s@),
{
    match urlencoding::decode(s) {
        Ok(d) => Some(d.into_owned()),
        Err(_) => None,
    }
}

/// The local root that every submitted destination is resolved under.
pub open spec fn local_root() -> Seq<char> {
    "/var/lib/plexmediaserver/"@
}

impl SftpRequest {
    /// The remote path named by this request: the percent-decoded link, cut
    /// after the final occurrence of the configured `split` marker. `None`
    /// exactly when the link does not decode to text.
    pub fn path(&self, split: &str) -> (r: Option<String>)
        ensures
            r is Some <==> percent_decodable(self.link@),
            r matches Some(p) ==> p@ == tail_after_last(
                percent_decoded(self.link@),
                split@,
            ),
    {
        match percent_decode(self.link.as_str()) {
            Some(decoded) => Some(tail_after_last_str(decoded.as_str(), split)),
            None => None,
        }
    }

    /// The local destination directory: the media root followed by the
    /// submitted destination.
    pub fn dst(&self) -> (r: String)
        ensures
            r@ == local_root() + self.destination@,
    {
        let mut r = "/var/lib/plexmediaserver/".to_owned();
        r.append(self.destination.as_str());
        r
    }
}

} // verus!
