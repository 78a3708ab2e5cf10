//! Files in the media library.
use vstd::prelude::*;

use crate::text::{chars_of, starts, starts_with};
use crate::timefmt::format_local;
use crate::upload::{media_thumb_url, media_thumb_url_spec};

verus! {

#[derive(Debug, Clone)]
pub struct Media {
    pub id: i64,
    pub name: String,
    pub url: String,
    pub mime: String,
    pub size: i64,
    pub created_at: String,
}

impl Media {
    pub fn is_image(&self) -> (r: bool)
        ensures
            r == starts(self.mime@, "image/"@),
    {
        starts_with(&chars_of(self.mime.as_str()), "image/")
    }

    /// The thumbnail beside the file, or the file itself where there is none.
    pub fn thumb_url(&self) -> (r: String)
        ensures
            r@ == if media_thumb_url_spec(self.url@).len() == 0 {
                self.url@
            } else {
                media_thumb_url_spec(self.url@)
            },
    {
        let t = media_thumb_url(self.url.as_str());
        if chars_of(t.as_str()).len() == 0 {
            self.url.clone()
        } else {
            t
        }
    }

    /// The upload time, shown as `format_local` shows it.
    pub fn created_display(&self) -> (r: String)
        ensures
            crate::timefmt::local_display(self.created_at@, r@),
    {
        format_local(self.created_at.as_str())
    }
}

} // verus!
