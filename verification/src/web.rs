//! The scan result as the web front end receives it: pages are referred to by
//! image-protocol URLs instead of file paths.
use vstd::prelude::*;
use vstd::utf8::encode_utf8;
use crate::edits;
use crate::protocol::{image_url, image_url_prefix, percent_encoded};

verus! {

/// Metadata of one scanned page, sent to the web front end (no image bytes).
#[derive(Clone, Debug)]
pub struct PageMeta {
    pub volume_num: u32,
    pub page_index: u32,
    /// `thasia://image?path={url-encoded absolute path}`
    pub url: String,
    pub file_name: String,
}

/// One scan group's page metadata, sent to the web front end.
#[derive(Clone, Debug)]
pub struct VolumeMeta {
    /// Sequential scan index, the key used for page lookup during conversion.
    pub volume_num: u32,
    /// The volume number parsed from the source folder names.
    pub source_volume_num: u32,
    pub pages: Vec<PageMeta>,
}

/// The web form of a scanned page: the same numbers and file name, and the
/// image URL of its path.
pub open spec fn is_web_page(web: PageMeta, page: edits::PageMeta) -> bool {
    &&& web.volume_num == page.volume_num
    &&& web.page_index == page.page_index
    &&& web.url@ == image_url_prefix() + percent_encoded(encode_utf8(page.path@))
    &&& web.file_name@ == page.file_name@
}

/// The web form of a scanned page (see [`is_web_page`]).
pub fn web_page(page: &edits::PageMeta) -> (web: PageMeta)
    ensures
        is_web_page(web, *page),
{
    PageMeta {
        volume_num: page.volume_num,
        page_index: page.page_index,
        url: image_url(page.path.as_str()),
        file_name: page.file_name.clone(),
    }
}

/// The web form of a scan group: its numbers, and each page in web form.
pub fn web_volume(volume: &edits::VolumeMeta) -> (web: VolumeMeta)
    ensures
        web.volume_num == volume.volume_num,
        web.source_volume_num == volume.source_volume_num,
        web.pages@.len() == volume.pages@.len(),
        forall|p: int| 0 <= p < web.pages@.len() ==> is_web_page(#[trigger] web.pages@[p], volume.pages@[p]),
{
    let mut pages: Vec<PageMeta> = Vec::new();
    let mut p: usize = 0;
    while p < volume.pages.len()
        invariant
            p <= volume.pages@.len(),
            pages@.len() == p,
            forall|q: int| 0 <= q < p ==> is_web_page(#[trigger] pages@[q], volume.pages@[q]),
        decreases volume.pages@.len() - p,
    {
        pages.push(web_page(&volume.pages[p]));
        p = p + 1;
    }
    VolumeMeta { volume_num: volume.volume_num, source_volume_num: volume.source_volume_num, pages }
}

} // verus!
