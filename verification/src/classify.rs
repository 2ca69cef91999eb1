//! Content classification: file suffix to MIME type, by a fixed
//! case-sensitive table with no content sniffing.

use vstd::prelude::*;
use crate::text::{spec_ends_with, str_ends_with};

verus! {

/// The MIME type for a path, chosen by its suffix.
pub open spec fn spec_content_type(p: Seq<char>) -> Seq<char> {
    if spec_ends_with(p, ".html"@) {
        "text/html; charset=utf-8"@
    } else if spec_ends_with(p, ".css"@) {
        "text/css; charset=utf-8"@
    } else if spec_ends_with(p, ".js"@) {
        "text/javascript; charset=utf-8"@
    } else if spec_ends_with(p, ".jpg"@) || spec_ends_with(p, ".jpeg"@) {
        "image/jpeg"@
    } else if spec_ends_with(p, ".png"@) {
        "image/png"@
    } else if spec_ends_with(p, ".zip"@) {
        "application/zip"@
    } else if spec_ends_with(p, ".txt"@) || spec_ends_with(p, ".sh"@) {
        "text/plain; charset=utf-8"@
    } else {
        "application/octet-stream"@
    }
}

/// A path with the `.png` suffix is always classified `image/png`: no
/// earlier row of the table can match it.
pub proof fn lemma_png_content_type(p: Seq<char>)
    requires
        spec_ends_with(p, ".png"@),
    ensures
        spec_content_type(p) == "image/png"@,
{
    reveal_strlit(".png");
    reveal_strlit(".html");
    reveal_strlit(".css");
    reveal_strlit(".js");
    reveal_strlit(".jpg");
    reveal_strlit(".jpeg");
    assert(p[p.len() - 1] == ".png"@[3]);
    assert(p[p.len() - 2] == ".png"@[2]);
    assert(p[p.len() - 3] == ".png"@[1]);
    assert(!spec_ends_with(p, ".html"@)) by {
        if spec_ends_with(p, ".html"@) {
            assert(p[p.len() - 1] == ".html"@[4]);
        }
    }
    assert(!spec_ends_with(p, ".css"@)) by {
        if spec_ends_with(p, ".css"@) {
            assert(p[p.len() - 1] == ".css"@[3]);
        }
    }
    assert(!spec_ends_with(p, ".js"@)) by {
        if spec_ends_with(p, ".js"@) {
            assert(p[p.len() - 1] == ".js"@[2]);
        }
    }
    assert(!spec_ends_with(p, ".jpg"@)) by {
        if spec_ends_with(p, ".jpg"@) {
            assert(p[p.len() - 2] == ".jpg"@[2]);
        }
    }
    assert(!spec_ends_with(p, ".jpeg"@)) by {
        if spec_ends_with(p, ".jpeg"@) {
            assert(p[p.len() - 2] == ".jpeg"@[3]);
        }
    }
}

/// Maps a file path to its MIME type by suffix.
pub fn get_content_type(path: &str) -> (r: &'static str)
    ensures
        r@ == spec_content_type(path@),
        r.is_ascii(),
{
    if str_ends_with(path, ".html") {
        proof {
            reveal_strlit("text/html; charset=utf-8");
        }
        "text/html; charset=utf-8"
    } else if str_ends_with(path, ".css") {
        proof {
            reveal_strlit("text/css; charset=utf-8");
        }
        "text/css; charset=utf-8"
    } else if str_ends_with(path, ".js") {
        proof {
            reveal_strlit("text/javascript; charset=utf-8");
        }
        "text/javascript; charset=utf-8"
    } else if str_ends_with(path, ".jpg") || str_ends_with(path, ".jpeg") {
        proof {
            reveal_strlit("image/jpeg");
        }
        "image/jpeg"
    } else if str_ends_with(path, ".png") {
        proof {
            reveal_strlit("image/png");
        }
        "image/png"
    } else if str_ends_with(path, ".zip") {
        proof {
            reveal_strlit("application/zip");
        }
        "application/zip"
    } else if str_ends_with(path, ".txt") || str_ends_with(path, ".sh") {
        proof {
            reveal_strlit("text/plain; charset=utf-8");
        }
        "text/plain; charset=utf-8"
    } else {
        proof {
            reveal_strlit("application/octet-stream");
        }
        "application/octet-stream"
    }
}

} // verus!
