//! The fixed numbers and texts of the service.

use vstd::prelude::*;

verus! {

/// Number of items shown on one page. A query asks for one item more, so that
/// the presence of a further page shows in the number of hits.
pub const PER_PAGE: usize = 10;

/// Where the downloads are served; the segments of an entry's path follow.
pub const DOWNLOAD_PREFIX: &'static str = "https://www.shinnku.com/api/download/";

} // verus!
